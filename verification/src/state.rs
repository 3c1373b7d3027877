//! The message lifecycle state machine.
//!
//! States carry numeric levels used for ordering comparisons such as
//! "is this message sent".  The numeric order is not a strict causal
//! monotone: a delivered message can regress to failed.

use vstd::prelude::*;

verus! {

/// Lifecycle state of a message.
#[derive(Debug, Copy, Clone, PartialEq, Eq, Structural, Hash)]
pub enum MessageState {
    /// No state set (e.g. loaded row carried an unknown code).
    Undefined,
    /// Incoming *fresh* message, neither noticed nor seen; typically shown
    /// in notifications.
    InFresh,
    /// Incoming *noticed* message, e.g. chat opened but message not yet
    /// read; not counted as unread, no read receipt sent.
    InNoticed,
    /// Incoming message really *seen* by the user; marked as read on the
    /// remote server, a read receipt may be sent.
    InSeen,
    /// Outgoing message whose attachment still needs time to be prepared;
    /// entered before `OutPending`.
    OutPreparing,
    /// Message saved as draft.
    OutDraft,
    /// The user pressed "send" but the message is not yet out.
    OutPending,
    /// *Unrecoverable* error (recoverable errors leave the message
    /// pending).
    OutFailed,
    /// Successfully handed to the server; a delivered message may still
    /// regress to `OutFailed` on a later server hint.
    OutDelivered,
    /// Read receipt quorum reached: read by the recipient side.
    OutMdnRcvd,
}

impl MessageState {
    /// Numeric level of the state: the code under which it is persisted
    /// and the key of the lifecycle ordering.
    pub open spec fn spec_to_i64(self) -> i64 {
        match self {
            MessageState::Undefined => 0,
            MessageState::InFresh => 10,
            MessageState::InNoticed => 13,
            MessageState::InSeen => 16,
            MessageState::OutPreparing => 18,
            MessageState::OutDraft => 19,
            MessageState::OutPending => 20,
            MessageState::OutFailed => 24,
            MessageState::OutDelivered => 26,
            MessageState::OutMdnRcvd => 28,
        }
    }

    #[verifier::when_used_as_spec(spec_to_i64)]
    pub fn to_i64(self) -> (r: i64)
        ensures
            r == self.spec_to_i64(),
    {
        match self {
            MessageState::Undefined => 0,
            MessageState::InFresh => 10,
            MessageState::InNoticed => 13,
            MessageState::InSeen => 16,
            MessageState::OutPreparing => 18,
            MessageState::OutDraft => 19,
            MessageState::OutPending => 20,
            MessageState::OutFailed => 24,
            MessageState::OutDelivered => 26,
            MessageState::OutMdnRcvd => 28,
        }
    }

    /// Decodes a persisted level; unrecognized codes yield `Undefined`.
    pub open spec fn spec_from_i64(v: i64) -> MessageState {
        if v == 10 {
            MessageState::InFresh
        } else if v == 13 {
            MessageState::InNoticed
        } else if v == 16 {
            MessageState::InSeen
        } else if v == 18 {
            MessageState::OutPreparing
        } else if v == 19 {
            MessageState::OutDraft
        } else if v == 20 {
            MessageState::OutPending
        } else if v == 24 {
            MessageState::OutFailed
        } else if v == 26 {
            MessageState::OutDelivered
        } else if v == 28 {
            MessageState::OutMdnRcvd
        } else {
            MessageState::Undefined
        }
    }

    #[verifier::when_used_as_spec(spec_from_i64)]
    pub fn from_i64(v: i64) -> (r: MessageState)
        ensures
            r == MessageState::spec_from_i64(v),
    {
        if v == 10 {
            MessageState::InFresh
        } else if v == 13 {
            MessageState::InNoticed
        } else if v == 16 {
            MessageState::InSeen
        } else if v == 18 {
            MessageState::OutPreparing
        } else if v == 19 {
            MessageState::OutDraft
        } else if v == 20 {
            MessageState::OutPending
        } else if v == 24 {
            MessageState::OutFailed
        } else if v == 26 {
            MessageState::OutDelivered
        } else if v == 28 {
            MessageState::OutMdnRcvd
        } else {
            MessageState::Undefined
        }
    }

    /// Whether a transition to `OutFailed` is legal from this state.
    pub open spec fn spec_can_fail(self) -> bool {
        match self {
            MessageState::OutPreparing | MessageState::OutPending
                | MessageState::OutDelivered => true,
            _ => false,
        }
    }

    /// Whether a transition to `OutFailed` is legal from this state.
    ///
    /// Drafts and the terminal `OutMdnRcvd` cannot fail.
    #[verifier::when_used_as_spec(spec_can_fail)]
    pub fn can_fail(self) -> (r: bool)
        ensures
            r == self.spec_can_fail(),
    {
        match self {
            MessageState::OutPreparing | MessageState::OutPending
                | MessageState::OutDelivered => true,
            _ => false,
        }
    }

    /// Display label of the state.
    pub open spec fn spec_display(self) -> Seq<char> {
        match self {
            MessageState::Undefined => "Undefined"@,
            MessageState::InFresh => "Fresh"@,
            MessageState::InNoticed => "Noticed"@,
            MessageState::InSeen => "Seen"@,
            MessageState::OutPreparing => "Preparing"@,
            MessageState::OutDraft => "Draft"@,
            MessageState::OutPending => "Pending"@,
            MessageState::OutFailed => "Failed"@,
            MessageState::OutDelivered => "Delivered"@,
            MessageState::OutMdnRcvd => "Read"@,
        }
    }

    /// Renders the state for display.
    pub fn display_string(self) -> (r: String)
        ensures
            r@ == self.spec_display(),
    {
        match self {
            MessageState::Undefined => String::from_str("Undefined"),
            MessageState::InFresh => String::from_str("Fresh"),
            MessageState::InNoticed => String::from_str("Noticed"),
            MessageState::InSeen => String::from_str("Seen"),
            MessageState::OutPreparing => String::from_str("Preparing"),
            MessageState::OutDraft => String::from_str("Draft"),
            MessageState::OutPending => String::from_str("Pending"),
            MessageState::OutFailed => String::from_str("Failed"),
            MessageState::OutDelivered => String::from_str("Delivered"),
            MessageState::OutMdnRcvd => String::from_str("Read"),
        }
    }
}

impl Default for MessageState {
    fn default() -> (r: MessageState)
        ensures
            r == MessageState::Undefined,
    {
        MessageState::Undefined
    }
}

/// The states that may legally transition to `OutFailed` are exactly
/// preparing, pending and delivered.
pub proof fn lemma_can_fail_exact(s: MessageState)
    ensures
        s.spec_can_fail() <==> (s == MessageState::OutPreparing || s == MessageState::OutPending
            || s == MessageState::OutDelivered),
{
}

/// The level coding of lifecycle states is bidirectional on known
/// variants.
pub proof fn lemma_state_code_round_trip(s: MessageState)
    ensures
        MessageState::spec_from_i64(s.spec_to_i64()) == s,
{
}

} // verus!
