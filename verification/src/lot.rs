//! The two-part label shown for a message in a chat list: an attribution
//! line, a content preview and the summary metadata around them.

use vstd::prelude::*;

use crate::state::MessageState;

verus! {

/// What the attribution line of a summary means.
#[derive(Debug, Copy, Clone, PartialEq, Eq, Structural, Hash)]
pub enum Meaning {
    Nothing,
    Text1Draft,
    Text1Username,
    Text1Self,
}

/// Summary state shown in a chat list, mirroring the message lifecycle.
#[derive(Debug, Copy, Clone, PartialEq, Eq, Structural, Hash)]
pub enum LotState {
    Undefined,
    MsgInFresh,
    MsgInNoticed,
    MsgInSeen,
    MsgOutPreparing,
    MsgOutDraft,
    MsgOutPending,
    MsgOutFailed,
    MsgOutDelivered,
    MsgOutMdnRcvd,
}

/// Summary state corresponding to a message lifecycle state.
pub open spec fn spec_lot_state_of(s: MessageState) -> LotState {
    match s {
        MessageState::Undefined => LotState::Undefined,
        MessageState::InFresh => LotState::MsgInFresh,
        MessageState::InNoticed => LotState::MsgInNoticed,
        MessageState::InSeen => LotState::MsgInSeen,
        MessageState::OutPreparing => LotState::MsgOutPreparing,
        MessageState::OutDraft => LotState::MsgOutDraft,
        MessageState::OutPending => LotState::MsgOutPending,
        MessageState::OutFailed => LotState::MsgOutFailed,
        MessageState::OutDelivered => LotState::MsgOutDelivered,
        MessageState::OutMdnRcvd => LotState::MsgOutMdnRcvd,
    }
}

impl From<MessageState> for LotState {
    fn from(s: MessageState) -> LotState {
        match s {
            MessageState::Undefined => LotState::Undefined,
            MessageState::InFresh => LotState::MsgInFresh,
            MessageState::InNoticed => LotState::MsgInNoticed,
            MessageState::InSeen => LotState::MsgInSeen,
            MessageState::OutPreparing => LotState::MsgOutPreparing,
            MessageState::OutDraft => LotState::MsgOutDraft,
            MessageState::OutPending => LotState::MsgOutPending,
            MessageState::OutFailed => LotState::MsgOutFailed,
            MessageState::OutDelivered => LotState::MsgOutDelivered,
            MessageState::OutMdnRcvd => LotState::MsgOutMdnRcvd,
        }
    }
}

impl vstd::std_specs::convert::FromSpecImpl<MessageState> for LotState {
    open spec fn obeys_from_spec() -> bool {
        true
    }

    open spec fn from_spec(s: MessageState) -> LotState {
        spec_lot_state_of(s)
    }
}

/// Summary of a message: attribution line, preview line, timestamp and
/// summary state.
#[derive(Debug)]
pub struct Lot {
    /// Attribution line: "Draft", "Me" or a sender name; absent for info
    /// messages and self-chats.
    pub text1: Option<String>,
    /// What the attribution line means.
    pub text1_meaning: Meaning,
    /// Content preview line.
    pub text2: Option<String>,
    /// Timestamp shown for the message.
    pub timestamp: i64,
    /// Summary state.
    pub state: LotState,
}

impl Lot {
    /// An empty summary.
    pub fn new() -> (r: Lot)
        ensures
            r.text1 is None,
            r.text1_meaning == Meaning::Nothing,
            r.text2 is None,
            r.timestamp == 0,
            r.state == LotState::Undefined,
    {
        Lot { text1: None, text1_meaning: Meaning::Nothing, text2: None, timestamp: 0, state: LotState::Undefined }
    }
}

impl Default for Lot {
    fn default() -> (r: Lot)
        ensures
            r.text1 is None,
            r.text1_meaning == Meaning::Nothing,
            r.text2 is None,
            r.timestamp == 0,
            r.state == LotState::Undefined,
    {
        Lot::new()
    }
}

} // verus!
