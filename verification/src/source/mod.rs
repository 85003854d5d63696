//! Input sources: where incoming messages come from.
pub mod imap;
pub mod pop3;
pub mod telegram;
pub mod webhook;

use vstd::prelude::*;

use crate::message::Message;

verus! {

/// A pluggable input source that yields incoming messages to troop.
///
/// Implementations must be `Send + Sync` so they can run in background tasks.
pub trait MessageSource: Send + Sync {
    /// Human-readable name of this source, e.g. `"imap:main"`.
    fn name(&self) -> &str;

    /// Poll for new messages.  Returns any messages that have not been seen
    /// before, or the reason the poll failed.  Implementations are
    /// responsible for tracking which messages have already been returned
    /// (e.g. by marking them as SEEN in IMAP).
    fn poll(&self) -> Result<Vec<Message>, String>;

    /// Whether this source is currently reachable / healthy.
    fn is_connected(&self) -> bool;
}

} // verus!
