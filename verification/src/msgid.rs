//! Message identity: the [`MsgId`] domain, its reserved sentinel sub-range
//! and its display rules.

use vstd::prelude::*;

use crate::constants::{DC_MSG_ID_DAYMARKER, DC_MSG_ID_LAST_SPECIAL, DC_MSG_ID_MARKER1};
use crate::tools::{spec_u64_digits, u64_to_string};

verus! {

/// Message ID, including reserved IDs.
///
/// Some message IDs are reserved to identify special message types.
/// This type can represent both the special as well as normal messages.
#[derive(Debug, Copy, Clone, PartialEq, Eq, Structural, Hash, PartialOrd, Ord)]
pub struct MsgId(pub u32);

/// The identity holding a given raw value.
pub open spec fn msg_id_of(id: u32) -> MsgId {
    MsgId(id)
}

impl MsgId {
    /// Raw integer behind the identity.
    pub open spec fn spec_to_u32(self) -> u32 {
        self.0
    }

    /// Create a new [MsgId].
    pub fn new(id: u32) -> (r: MsgId)
        ensures
            r == msg_id_of(id),
    {
        MsgId(id)
    }

    /// Create a new unset [MsgId].
    pub fn new_unset() -> (r: MsgId)
        ensures
            r == msg_id_of(0),
    {
        MsgId(0)
    }

    /// Whether the message ID signifies a special message.
    pub open spec fn spec_is_special(self) -> bool {
        self.0 <= DC_MSG_ID_LAST_SPECIAL
    }

    /// Whether the message ID signifies a special message.
    ///
    /// This kind of message ID can not be used for real messages.
    #[verifier::when_used_as_spec(spec_is_special)]
    pub fn is_special(self) -> (r: bool)
        ensures
            r == self.spec_is_special(),
    {
        self.0 <= DC_MSG_ID_LAST_SPECIAL
    }

    /// Whether the message ID is unset.
    pub open spec fn spec_is_unset(self) -> bool {
        self.0 == 0
    }

    /// Whether the message ID is unset.
    ///
    /// When a message is created it initially has an ID of `0`, which is
    /// filled in by a real message ID once the message is saved in the
    /// store.  This returns true while the message has not been saved and
    /// thus not yet been given an actual message ID.
    ///
    /// When this is `true`, [MsgId::is_special] will also always be `true`.
    #[verifier::when_used_as_spec(spec_is_unset)]
    pub fn is_unset(self) -> (r: bool)
        ensures
            r == self.spec_is_unset(),
    {
        self.0 == 0
    }

    /// Whether the message ID is the special marker1 marker.
    pub open spec fn spec_is_marker1(self) -> bool {
        self.0 == DC_MSG_ID_MARKER1
    }

    /// Whether the message ID is the special marker1 marker.
    #[verifier::when_used_as_spec(spec_is_marker1)]
    pub fn is_marker1(self) -> (r: bool)
        ensures
            r == self.spec_is_marker1(),
    {
        self.0 == DC_MSG_ID_MARKER1
    }

    /// Whether the message ID is the special day marker.
    pub open spec fn spec_is_daymarker(self) -> bool {
        self.0 == DC_MSG_ID_DAYMARKER
    }

    /// Whether the message ID is the special day marker.
    #[verifier::when_used_as_spec(spec_is_daymarker)]
    pub fn is_daymarker(self) -> (r: bool)
        ensures
            r == self.spec_is_daymarker(),
    {
        self.0 == DC_MSG_ID_DAYMARKER
    }

    /// Bad evil escape hatch.
    ///
    /// Avoid using this, eventually types should be cleaned up enough
    /// that it is no longer necessary.
    #[verifier::when_used_as_spec(spec_to_u32)]
    pub fn to_u32(self) -> (r: u32)
        ensures
            r == self.spec_to_u32(),
    {
        self.0
    }

    /// Display form: sentinel values render symbolically, real ids as a
    /// prefixed number.
    pub open spec fn spec_display(self) -> Seq<char> {
        if self.0 == DC_MSG_ID_MARKER1 {
            "Msg#Marker1"@
        } else if self.0 == DC_MSG_ID_DAYMARKER {
            "Msg#DayMarker"@
        } else if self.0 <= DC_MSG_ID_LAST_SPECIAL {
            "Msg#UnknownSpecial"@
        } else {
            "Msg#"@ + spec_u64_digits(self.0 as nat)
        }
    }

    /// Renders the identity for display.
    pub fn display_string(self) -> (r: String)
        ensures
            r@ == self.spec_display(),
    {
        if self.0 == DC_MSG_ID_MARKER1 {
            String::from_str("Msg#Marker1")
        } else if self.0 == DC_MSG_ID_DAYMARKER {
            String::from_str("Msg#DayMarker")
        } else if self.0 <= DC_MSG_ID_LAST_SPECIAL {
            String::from_str("Msg#UnknownSpecial")
        } else {
            let mut s = String::from_str("Msg#");
            let num = u64_to_string(self.0 as u64);
            s.append(num.as_str());
            s
        }
    }
}

impl Default for MsgId {
    /// A fresh in-memory identity starts out unset.
    fn default() -> (r: MsgId)
        ensures
            r == msg_id_of(0),
    {
        MsgId(0)
    }
}

/// For every raw value, the identity is special exactly when the value is
/// at most the last reserved id; in particular the unset value is special.
pub proof fn lemma_special_ids(v: u32)
    ensures
        msg_id_of(v).spec_is_special() <==> v <= DC_MSG_ID_LAST_SPECIAL,
        msg_id_of(v).spec_is_unset() ==> msg_id_of(v).spec_is_special(),
{
}

} // verus!
