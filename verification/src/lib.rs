//! Xactor: an actor framework whose bookkeeping is verified.
//!
//! An actor owns a mailbox of events; an asynchronous runtime takes each
//! event out and asks this crate what to do with it. The decisions and the
//! state they work on are defined and proved here:
//!
//! * `lifecycle`: what an actor's event loop, and a supervisor's, does with
//!   each mailbox event;
//! * `forward`: how a stream is forwarded into a mailbox, signal by signal;
//! * `streams`: the table of an actor's streams and their abort handles;
//! * `broker`: the subscribers of a message broker and what publishing does
//!   to them;
//! * `sender`: the typed handle that delivers messages to one actor;
//! * `registry`: the services registered per type;
//! * `ids` and `system`: actor identifiers and the count of running actors.

mod broker;
mod error;
mod forward;
mod ids;
mod lifecycle;
mod message;
mod registry;
mod sender;
mod streams;
mod system;

pub use broker::{Broker, Subscribe, Unsubscribe};
pub use forward::{ForwardCommand, ForwardPhase, ForwardReport, StreamForwarder, StreamSignal};
pub use ids::{ActorId, ActorIdAllocator};
pub use lifecycle::{
    keeps_ticking, mailbox_step, supervisor_step, ActorEvent, MailboxStep, SupervisorStep,
};
pub use message::Message;
pub use registry::ServiceRegistry;
pub use sender::{Sender, SenderFn};
pub use streams::StreamSlots;
pub use system::ActorCount;
