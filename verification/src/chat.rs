//! Read-only view of the chat directory collaborator: chat identity,
//! chat kind, blocked state and member count.

use vstd::prelude::*;

use crate::constants::{
    Blocked, Chattype, Viewtype, DC_CHAT_ID_DEADDROP, DC_CHAT_ID_LAST_SPECIAL, DC_CHAT_ID_TRASH,
    DC_CONTACT_ID_SELF,
};
use crate::context::Context;

verus! {

/// Chat ID, including reserved IDs.
#[derive(Debug, Copy, Clone, Default, PartialEq, Eq, Structural, Hash, PartialOrd, Ord)]
pub struct ChatId(pub u32);

impl ChatId {
    /// Raw integer behind the identity.
    pub open spec fn spec_to_u32(self) -> u32 {
        self.0
    }

    /// Create a new [ChatId].
    pub fn new(id: u32) -> (r: ChatId)
        ensures
            r == ChatId(id),
    {
        ChatId(id)
    }

    /// Bad evil escape hatch; see [crate::msgid::MsgId::to_u32].
    #[verifier::when_used_as_spec(spec_to_u32)]
    pub fn to_u32(self) -> (r: u32)
        ensures
            r == self.spec_to_u32(),
    {
        self.0
    }

    /// Whether the chat ID is unset.
    pub open spec fn spec_is_unset(self) -> bool {
        self.0 == 0
    }

    /// Whether the chat ID is unset.
    #[verifier::when_used_as_spec(spec_is_unset)]
    pub fn is_unset(self) -> (r: bool)
        ensures
            r == self.spec_is_unset(),
    {
        self.0 == 0
    }

    /// Whether the chat ID is reserved.
    pub open spec fn spec_is_special(self) -> bool {
        self.0 <= DC_CHAT_ID_LAST_SPECIAL
    }

    /// Whether the chat ID is reserved; such ids never denote a regular
    /// chat row.
    #[verifier::when_used_as_spec(spec_is_special)]
    pub fn is_special(self) -> (r: bool)
        ensures
            r == self.spec_is_special(),
    {
        self.0 <= DC_CHAT_ID_LAST_SPECIAL
    }

    /// Whether this is the tombstone chat for deleted messages.
    pub open spec fn spec_is_trash(self) -> bool {
        self.0 == DC_CHAT_ID_TRASH
    }

    /// Whether this is the tombstone chat for deleted messages.
    #[verifier::when_used_as_spec(spec_is_trash)]
    pub fn is_trash(self) -> (r: bool)
        ensures
            r == self.spec_is_trash(),
    {
        self.0 == DC_CHAT_ID_TRASH
    }

    /// Whether this is the virtual chat of unsolicited messages.
    pub open spec fn spec_is_deaddrop(self) -> bool {
        self.0 == DC_CHAT_ID_DEADDROP
    }

    /// Whether this is the virtual chat of unsolicited messages.
    #[verifier::when_used_as_spec(spec_is_deaddrop)]
    pub fn is_deaddrop(self) -> (r: bool)
        ensures
            r == self.spec_is_deaddrop(),
    {
        self.0 == DC_CHAT_ID_DEADDROP
    }
}

/// A row of the chat directory, as far as the message core reads it.
#[derive(Debug, Copy, Clone, PartialEq, Eq, Structural)]
pub struct Chat {
    /// Identity of the chat.
    pub id: ChatId,
    /// Kind of the chat.
    pub typ: Chattype,
    /// Blocked state of the chat.
    pub blocked: Blocked,
    /// Number of members, the local user included.
    pub member_count: u32,
    /// Partner contact for one-to-one chats; zero otherwise.
    pub contact_id: u32,
}

impl Chat {
    /// Whether the chat is the saved-messages chat of the local user.
    pub open spec fn spec_is_self_talk(&self) -> bool {
        self.contact_id == DC_CONTACT_ID_SELF
    }

    /// Whether the chat is the saved-messages chat of the local user.
    #[verifier::when_used_as_spec(spec_is_self_talk)]
    pub fn is_self_talk(&self) -> (r: bool)
        ensures
            r == self.spec_is_self_talk(),
    {
        self.contact_id == DC_CONTACT_ID_SELF
    }
}

/// Whether messages of the content kind carry a file attachment.
pub open spec fn spec_msgtype_has_file(t: Viewtype) -> bool {
    match t {
        Viewtype::Image | Viewtype::Gif | Viewtype::Sticker | Viewtype::Audio | Viewtype::Voice
            | Viewtype::Video | Viewtype::File => true,
        _ => false,
    }
}

/// Whether messages of the content kind carry a file attachment.
#[verifier::when_used_as_spec(spec_msgtype_has_file)]
pub fn msgtype_has_file(t: Viewtype) -> (r: bool)
    ensures
        r == spec_msgtype_has_file(t),
{
    match t {
        Viewtype::Image | Viewtype::Gif | Viewtype::Sticker | Viewtype::Audio | Viewtype::Voice
            | Viewtype::Video | Viewtype::File => true,
        _ => false,
    }
}

/// The chat row carrying the id (meaningful under
/// [`crate::context::contains_chat`] and distinct chat ids).
pub open spec fn spec_chat_of(chats: Seq<Chat>, id: ChatId) -> Chat {
    chats[choose|c: int| 0 <= c < chats.len() && (#[trigger] chats[c]).id == id]
}

/// Member count of a chat, the local user included; zero when the chat
/// directory has no such row.
pub open spec fn spec_chat_contact_cnt(chats: Seq<Chat>, chat_id: ChatId) -> u32 {
    if exists|i: int| 0 <= i < chats.len() && (#[trigger] chats[i]).id == chat_id {
        chats[choose|i: int| 0 <= i < chats.len() && (#[trigger] chats[i]).id == chat_id].member_count
    } else {
        0
    }
}

/// Number of members of the chat, the local user included.
pub fn get_chat_contact_cnt(context: &Context, chat_id: ChatId) -> (r: u32)
    requires
        context.wf(),
    ensures
        r == spec_chat_contact_cnt(context.chats@, chat_id),
{
    match context.find_chat_index(chat_id) {
        Some(i) => {
            let r = context.chats[i].member_count;
            proof {
                let j = choose|j: int|
                    0 <= j < context.chats@.len() && (#[trigger] context.chats@[j]).id == chat_id;
                assert(j == i as int);
            }
            r
        },
        None => 0,
    }
}

/// Resolves the one-to-one chat of a contact: its id and blocked state.
pub fn lookup_by_contact_id(context: &Context, contact_id: u32) -> (r: Option<(ChatId, Blocked)>)
    requires
        context.wf(),
    ensures
        r matches Some(p) ==> exists|i: int|
            0 <= i < context.chats@.len() && {
                let c = #[trigger] context.chats@[i];
                &&& c.typ == Chattype::Single && c.contact_id == contact_id
                &&& p == (c.id, c.blocked)
            },
        r matches Some(p) ==> p.0 == spec_self_chat_id(context.chats@, contact_id),
        r is None ==> forall|i: int|
            0 <= i < context.chats@.len() ==> !((#[trigger] context.chats@[i]).typ
                == Chattype::Single && context.chats@[i].contact_id == contact_id),
        r is None ==> spec_self_chat_id(context.chats@, contact_id) == ChatId(0),
{
    let n = context.chats.len();
    let mut i: usize = 0;
    while i < n
        invariant
            i <= n == context.chats@.len(),
            forall|j: int|
                0 <= j < i ==> !((#[trigger] context.chats@[j]).typ == Chattype::Single
                    && context.chats@[j].contact_id == contact_id),
        decreases n - i,
    {
        let c = &context.chats[i];
        if c.typ == Chattype::Single && c.contact_id == contact_id {
            proof {
                lemma_self_chat_skip(context.chats@, contact_id, i as int);
                assert(context.chats@.subrange(i as int, n as int)[0] == context.chats@[
                    i as int
                ]);
            }
            return Some((c.id, c.blocked));
        }
        i += 1;
    }
    proof {
        lemma_self_chat_skip(context.chats@, contact_id, n as int);
        assert(context.chats@.subrange(n as int, n as int).len() == 0);
    }
    None
}

/// The one-to-one chat that the contact resolves to: the id of the first
/// directory row of kind single carrying the contact, or the unset id
/// when none exists.
pub open spec fn spec_self_chat_id(chats: Seq<Chat>, contact_id: u32) -> ChatId
    decreases chats.len(),
{
    if chats.len() == 0 {
        ChatId(0)
    } else if chats[0].typ == Chattype::Single && chats[0].contact_id == contact_id {
        chats[0].id
    } else {
        spec_self_chat_id(chats.drop_first(), contact_id)
    }
}

/// Rows before the first match do not change what the contact resolves
/// to.
proof fn lemma_self_chat_skip(chats: Seq<Chat>, contact_id: u32, i: int)
    requires
        0 <= i <= chats.len(),
        forall|j: int|
            0 <= j < i ==> !((#[trigger] chats[j]).typ == Chattype::Single
                && chats[j].contact_id == contact_id),
    ensures
        spec_self_chat_id(chats, contact_id) == spec_self_chat_id(
            chats.subrange(i, chats.len() as int),
            contact_id,
        ),
    decreases i,
{
    if i == 0 {
        assert(chats.subrange(0, chats.len() as int) =~= chats);
    } else {
        let rest = chats.drop_first();
        assert(forall|j: int|
            0 <= j < i - 1 ==> !((#[trigger] rest[j]).typ == Chattype::Single
                && rest[j].contact_id == contact_id));
        lemma_self_chat_skip(rest, contact_id, i - 1);
        assert(rest.subrange(i - 1, rest.len() as int) =~= chats.subrange(
            i,
            chats.len() as int,
        ));
    }
}

} // verus!
