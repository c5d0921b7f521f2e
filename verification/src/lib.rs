//! Session lock observation: a two-state lock signal, deduplicated into
//! transitions, and the decisions of the watcher that reports them.
//!
//! A platform source delivers raw signals ([`signal`]). Each is decoded into
//! an event; samples pass through a filter that keeps only real changes
//! ([`filter`]); the watcher decides, event by event, whether to emit, to
//! idle or to halt ([`watcher`]); and what is emitted carries a fixed topic
//! and a payload that names the state entered ([`sink`]). Nothing here
//! touches a platform: the loop that waits, emits and sleeps belongs to the
//! caller.

pub mod filter;
pub mod signal;
pub mod sink;
pub mod state;
pub mod watcher;

pub use crate::filter::StateChangeFilter;
pub use crate::signal::{decode, Event, RawSignal};
pub use crate::sink::{payload, payload_of, topic};
pub use crate::state::{LockState, Transition};
pub use crate::watcher::{Action, Watcher, WatcherState};
