//! Typed notifications handed to the event-sink collaborator.
//!
//! Notifications are fire-and-forget; the model records them in emission
//! order so that contracts can state exactly which notifications a call
//! produces.

use vstd::prelude::*;

use crate::chat::ChatId;
use crate::msgid::MsgId;

verus! {

/// A notification emitted towards the UI.
#[derive(Debug, Copy, Clone, PartialEq, Eq, Structural)]
pub enum Event {
    /// Messages changed, optionally scoped to one chat and message
    /// (an unset pair means "something changed").
    MsgsChanged { chat_id: ChatId, msg_id: MsgId },
    /// A message transitioned to failed.
    MsgFailed { chat_id: ChatId, msg_id: MsgId },
}

} // verus!
