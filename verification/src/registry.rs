use std::any::TypeId;
use vstd::prelude::*;

verus! {

/// The identifier of a type, which keys the service registry.
#[verifier::external_type_specification]
#[verifier::external_body]
pub struct ExTypeId(std::any::TypeId);

/// `<TypeId as PartialEq>::eq`: two type identifiers compare equal exactly
/// when they are the same identifier.
#[verifier::external_body]
fn same_type(a: &TypeId, b: &TypeId) -> (r: bool)
    ensures
        r == (*a == *b),
{
    *a == *b
}

/// The map that a sequence of (key, value) entries stands for; a later
/// entry wins over an earlier one with the same key.
pub open spec fn entries_map<V>(entries: Seq<(TypeId, V)>) -> Map<TypeId, V>
    decreases entries.len(),
{
    if entries.len() == 0 {
        Map::empty()
    } else {
        entries_map(entries.drop_last()).insert(entries.last().0, entries.last().1)
    }
}

/// No key occurs twice among the entries.
pub open spec fn keys_distinct<V>(entries: Seq<(TypeId, V)>) -> bool {
    forall|i: int, j: int|
        0 <= i < entries.len() && 0 <= j < entries.len() && i != j ==> #[trigger] entries[i].0
            != #[trigger] entries[j].0
}

proof fn lemma_entries_map_keys<V>(entries: Seq<(TypeId, V)>, k: TypeId)
    ensures
        entries_map(entries).contains_key(k) <==> exists|i: int|
            0 <= i < entries.len() && #[trigger] entries[i].0 == k,
    decreases entries.len(),
{
    if entries.len() > 0 {
        let init = entries.drop_last();
        lemma_entries_map_keys(init, k);
        if entries_map(entries).contains_key(k) {
            if k == entries.last().0 {
                assert(entries[entries.len() - 1].0 == k);
            } else {
                let i = choose|i: int| 0 <= i < init.len() && #[trigger] init[i].0 == k;
                assert(entries[i].0 == k);
            }
        }
        if exists|i: int| 0 <= i < entries.len() && #[trigger] entries[i].0 == k {
            let i = choose|i: int| 0 <= i < entries.len() && #[trigger] entries[i].0 == k;
            if i < entries.len() - 1 {
                assert(init[i].0 == k);
            }
        }
    }
}

proof fn lemma_entries_map_value<V>(entries: Seq<(TypeId, V)>, i: int)
    requires
        0 <= i < entries.len(),
        keys_distinct(entries),
    ensures
        entries_map(entries).contains_key(entries[i].0),
        entries_map(entries)[entries[i].0] == entries[i].1,
    decreases entries.len(),
{
    let init = entries.drop_last();
    if i < entries.len() - 1 {
        assert(init[i] == entries[i]);
        assert(keys_distinct(init)) by {
            assert forall|a: int, b: int|
                0 <= a < init.len() && 0 <= b < init.len() && a != b implies #[trigger] init[a].0
                != #[trigger] init[b].0 by {
                assert(init[a] == entries[a] && init[b] == entries[b]);
            }
        }
        lemma_entries_map_value(init, i);
        assert(entries[i].0 != entries[entries.len() - 1].0);
    }
}

proof fn lemma_entries_map_update<V>(entries: Seq<(TypeId, V)>, i: int, v: V)
    requires
        0 <= i < entries.len(),
        keys_distinct(entries),
    ensures
        entries_map(entries.update(i, (entries[i].0, v))) == entries_map(entries).insert(
            entries[i].0,
            v,
        ),
        keys_distinct(entries.update(i, (entries[i].0, v))),
{
    let k = entries[i].0;
    let updated = entries.update(i, (k, v));
    assert(keys_distinct(updated)) by {
        assert forall|a: int, b: int|
            0 <= a < updated.len() && 0 <= b < updated.len() && a != b implies #[trigger] updated[a].0
            != #[trigger] updated[b].0 by {
            assert(updated[a].0 == entries[a].0 && updated[b].0 == entries[b].0);
        }
    }
    assert forall|key: TypeId| #[trigger]
        entries_map(updated).contains_key(key) <==> entries_map(entries).insert(k, v).contains_key(
            key,
        ) by {
        lemma_entries_map_keys(updated, key);
        lemma_entries_map_keys(entries, key);
        if exists|j: int| 0 <= j < entries.len() && #[trigger] entries[j].0 == key {
            let j = choose|j: int| 0 <= j < entries.len() && #[trigger] entries[j].0 == key;
            assert(updated[j].0 == key);
        }
        if exists|j: int| 0 <= j < updated.len() && #[trigger] updated[j].0 == key {
            let j = choose|j: int| 0 <= j < updated.len() && #[trigger] updated[j].0 == key;
            assert(entries[j].0 == key);
        }
    }
    assert forall|key: TypeId| #[trigger] entries_map(updated).contains_key(key) implies entries_map(
        updated,
    )[key] == entries_map(entries).insert(k, v)[key] by {
        lemma_entries_map_keys(updated, key);
        let j = choose|j: int| 0 <= j < updated.len() && #[trigger] updated[j].0 == key;
        lemma_entries_map_value(updated, j);
        if j != i {
            assert(updated[j] == entries[j]);
            lemma_entries_map_value(entries, j);
        }
    }
    assert(entries_map(updated) =~= entries_map(entries).insert(k, v));
}

/// The registry of services: one value per type, for the life of the
/// process (or of the thread, for local services).
pub struct ServiceRegistry<V> {
    entries: Vec<(TypeId, V)>,
}

impl<V> View for ServiceRegistry<V> {
    type V = Map<TypeId, V>;

    /// The registered value of each registered type.
    closed spec fn view(&self) -> Map<TypeId, V> {
        entries_map(self.entries@)
    }
}

impl<V> ServiceRegistry<V> {
    /// The registry is well formed: each type is registered once.
    pub closed spec fn wf(&self) -> bool {
        keys_distinct(self.entries@)
    }

    /// An empty registry.
    pub fn new() -> (r: Self)
        ensures
            r@ == Map::<TypeId, V>::empty(),
            r.wf(),
    {
        ServiceRegistry { entries: Vec::new() }
    }

    /// The value registered for `key`, if any.
    pub fn get(&self, key: &TypeId) -> (r: Option<&V>)
        requires
            self.wf(),
        ensures
            r matches Some(v) ==> self@.contains_key(*key) && *v == self@[*key],
            r is None ==> !self@.contains_key(*key),
    {
        let mut i: usize = 0;
        while i < self.entries.len()
            invariant
                0 <= i <= self.entries.len(),
                keys_distinct(self.entries@),
                forall|j: int| 0 <= j < i ==> (#[trigger] self.entries@[j]).0 != *key,
            decreases self.entries.len() - i,
        {
            if same_type(&self.entries[i].0, key) {
                proof {
                    lemma_entries_map_value(self.entries@, i as int);
                }
                return Some(&self.entries[i].1);
            }
            i = i + 1;
        }
        proof {
            lemma_entries_map_keys(self.entries@, *key);
            if exists|j: int| 0 <= j < self.entries@.len() && #[trigger] self.entries@[j].0 == *key {
                let j = choose|j: int|
                    0 <= j < self.entries@.len() && #[trigger] self.entries@[j].0 == *key;
                assert(self.entries@[j].0 != *key);
            }
        }
        None
    }

    /// Registers `value` for `key`, replacing what was registered for it.
    pub fn insert(&mut self, key: TypeId, value: V)
        requires
            old(self).wf(),
        ensures
            final(self).wf(),
            final(self)@ == old(self)@.insert(key, value),
    {
        let mut i: usize = 0;
        while i < self.entries.len()
            invariant
                0 <= i <= self.entries.len(),
                self.entries@ == old(self).entries@,
                keys_distinct(self.entries@),
                forall|j: int| 0 <= j < i ==> (#[trigger] self.entries@[j]).0 != key,
            decreases self.entries.len() - i,
        {
            if same_type(&self.entries[i].0, &key) {
                let ghost before = self.entries@;
                proof {
                    lemma_entries_map_update(before, i as int, value);
                }
                self.entries.set(i, (key, value));
                assert(self.entries@ == before.update(i as int, (before[i as int].0, value)));
                return;
            }
            i = i + 1;
        }
        let ghost before = self.entries@;
        self.entries.push((key, value));
        proof {
            assert(self.entries@.drop_last() =~= before);
            assert(keys_distinct(self.entries@)) by {
                assert forall|a: int, b: int|
                    0 <= a < self.entries@.len() && 0 <= b < self.entries@.len() && a != b implies #[trigger] self.entries@[a].0
                    != #[trigger] self.entries@[b].0 by {
                    if a < before.len() && b < before.len() {
                        assert(self.entries@[a] == before[a] && self.entries@[b] == before[b]);
                    } else if a < before.len() {
                        assert(self.entries@[a] == before[a]);
                    } else {
                        assert(self.entries@[b] == before[b]);
                    }
                }
            }
        }
    }
}

/// A service is registered once per type and found again by that type:
/// after registering `value` for `key`, looking `key` up gives `value`, and
/// the entries of every other type are as they were.
pub proof fn lemma_registered_service_found_again<V>(
    services: Map<TypeId, V>,
    key: TypeId,
    value: V,
    other: TypeId,
)
    requires
        other != key,
    ensures
        services.insert(key, value).contains_key(key),
        services.insert(key, value)[key] == value,
        services.insert(key, value).contains_key(other) == services.contains_key(other),
        services.contains_key(other) ==> services.insert(key, value)[other] == services[other],
{
}

} // verus!
