use std::any::TypeId;
use xactor::ServiceRegistry;

struct First;
struct Second;

#[test]
fn registered_service_is_found_again() {
    let mut registry: ServiceRegistry<&'static str> = ServiceRegistry::new();
    assert!(registry.get(&TypeId::of::<First>()).is_none());
    registry.insert(TypeId::of::<First>(), "first");
    assert_eq!(registry.get(&TypeId::of::<First>()), Some(&"first"));
    assert_eq!(registry.get(&TypeId::of::<First>()), Some(&"first"));
    assert!(registry.get(&TypeId::of::<Second>()).is_none());
}

#[test]
fn each_type_has_its_own_entry() {
    let mut registry: ServiceRegistry<u32> = ServiceRegistry::new();
    registry.insert(TypeId::of::<First>(), 1);
    registry.insert(TypeId::of::<Second>(), 2);
    assert_eq!(registry.get(&TypeId::of::<First>()), Some(&1));
    assert_eq!(registry.get(&TypeId::of::<Second>()), Some(&2));
    registry.insert(TypeId::of::<First>(), 3);
    assert_eq!(registry.get(&TypeId::of::<First>()), Some(&3));
    assert_eq!(registry.get(&TypeId::of::<Second>()), Some(&2));
}
