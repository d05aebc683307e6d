//! A deferred global: a container that starts out empty, is given its value
//! exactly once, and from then on hands that value out under a lock.

pub mod global;
pub mod history;
pub mod lock;
pub mod raw;
pub mod workers;

pub use global::Global;
pub use lock::{Grant, Guard, Lock, LockState, LockStep, PoisonError, TryLockError};
pub use raw::RawGlobal;
