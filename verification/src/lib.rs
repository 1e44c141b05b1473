//! A multi-producer multi-consumer priority queue whose decisions are
//! verified: the queue itself, the per-thread stashes, the bookkeeping of
//! messages in flight and the final `Drained` notice.
pub mod guard;
pub mod laws;
pub mod message;
pub mod mpmcpq;
pub mod progress;
pub mod stash;

pub use guard::ReceiveGuard;
pub use message::Message;
pub use mpmcpq::{Notify, PriorityQueue};
pub use progress::{Progress, ProgressState};
pub use stash::Stash;
