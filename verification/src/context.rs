//! The in-memory model of the persistence, scheduler and event-sink
//! collaborators.
//!
//! [`Context`] holds the messages table, the read-receipt evidence table,
//! the read-only chat and contact directories, the companion locations
//! table, the notifications emitted so far and the scheduled tasks.  Each
//! method models one atomic statement of the single-writer persistence
//! collaborator; multi-statement operations built on top of them are not
//! atomic, exactly as in the persisted layout.

use vstd::prelude::*;

use crate::chat::{Chat, ChatId};
use crate::constants::Viewtype;
use crate::contact::Contact;
use crate::events::Event;
use crate::job::Job;
use crate::message::MessengerMessage;
use crate::msgid::MsgId;
use crate::param::Params;
use crate::state::MessageState;

verus! {

/// A row of the messages table.
#[derive(Debug)]
pub struct MsgRow {
    /// Identity of the row; never a reserved id.
    pub id: MsgId,
    /// Cross-system correlation string; unique-ish, may collide across
    /// resend.
    pub rfc724_mid: String,
    /// Correlation string of the message this one replies to.
    pub in_reply_to: Option<String>,
    /// Remote folder holding the message; empty or absent when unlinked.
    pub server_folder: Option<String>,
    /// Server-assigned sequence number; zero when unlinked.
    pub server_uid: u32,
    /// Chat the message belongs to.
    pub chat_id: ChatId,
    /// Sending contact.
    pub from_id: u32,
    /// Receiving contact.
    pub to_id: u32,
    /// Sort-order timestamp.
    pub timestamp_sort: i64,
    /// Sender-side sent timestamp.
    pub timestamp_sent: i64,
    /// Local receive timestamp.
    pub timestamp_rcvd: i64,
    /// Content kind.
    pub viewtype: Viewtype,
    /// Lifecycle state.
    pub state: MessageState,
    /// Messenger-originated, plain mail, or a reply to a messenger
    /// message.
    pub is_dc_message: MessengerMessage,
    /// Body text; empty when none.
    pub text: String,
    /// Raw body text before processing.
    pub txt_raw: String,
    /// Parameter bag of the message.
    pub param: Params,
    /// Starred flag.
    pub starred: bool,
    /// Hidden flag.
    pub hidden: bool,
    /// Bound geolocation row; zero when none.
    pub location_id: u32,
    /// Full mime headers, when configured to be kept; empty otherwise.
    pub mime_headers: String,
}

/// A row of the read-receipt evidence table, unique per
/// `(msg_id, contact_id)`.
#[derive(Debug, Copy, Clone, PartialEq, Eq, Structural)]
pub struct MdnRow {
    /// Message the receipt belongs to.
    pub msg_id: MsgId,
    /// Contact that reported reading the message.
    pub contact_id: u32,
    /// Sender-side sent timestamp carried by the receipt.
    pub timestamp_sent: i64,
}

/// A row of the companion locations table (owned externally, referenced
/// by cascaded cleanup during deletion).
#[derive(Debug, Copy, Clone, PartialEq, Eq, Structural)]
pub struct LocationRow {
    /// Identity of the location row.
    pub id: u32,
    /// Whether the location is independent of location streaming.
    pub independent: bool,
}

/// In-memory model of the collaborators around the message core.
#[derive(Debug)]
pub struct Context {
    /// The messages table.
    pub msgs: Vec<MsgRow>,
    /// The chat directory (read-only for this core).
    pub chats: Vec<Chat>,
    /// The contact directory (read-only for this core).
    pub contacts: Vec<Contact>,
    /// The read-receipt evidence table.
    pub mdns: Vec<MdnRow>,
    /// The companion locations table.
    pub locations: Vec<LocationRow>,
    /// Notifications emitted so far, in order.
    pub events: Vec<Event>,
    /// Tasks handed to the scheduler and not yet cancelled.
    pub jobs: Vec<Job>,
}

/// Message rows carry pairwise distinct, non-reserved ids.
pub open spec fn msgs_wf(msgs: Seq<MsgRow>) -> bool {
    &&& forall|i: int, j: int|
        0 <= i < j < msgs.len() ==> (#[trigger] msgs[i]).id != (#[trigger] msgs[j]).id
    &&& forall|i: int| 0 <= i < msgs.len() ==> !(#[trigger] msgs[i]).id.spec_is_special()
    &&& forall|i: int| 0 <= i < msgs.len() ==> (#[trigger] msgs[i]).param.wf()
}

/// Evidence rows carry pairwise distinct `(msg_id, contact_id)` pairs.
pub open spec fn mdns_wf(mdns: Seq<MdnRow>) -> bool {
    forall|i: int, j: int|
        0 <= i < j < mdns.len() ==> ((#[trigger] mdns[i]).msg_id != (#[trigger] mdns[j]).msg_id
            || mdns[i].contact_id != mdns[j].contact_id)
}

/// An evidence row exists for the message and contact.
pub open spec fn has_evidence(mdns: Seq<MdnRow>, msg_id: MsgId, contact_id: u32) -> bool {
    exists|i: int|
        0 <= i < mdns.len() && (#[trigger] mdns[i]).msg_id == msg_id && mdns[i].contact_id
            == contact_id
}

/// Number of evidence rows recorded for the message; under [`mdns_wf`]
/// this is the number of distinct reporting contacts.
pub open spec fn evidence_count(mdns: Seq<MdnRow>, msg_id: MsgId) -> nat
    decreases mdns.len(),
{
    if mdns.len() == 0 {
        0
    } else {
        evidence_count(mdns.drop_last(), msg_id) + if mdns.last().msg_id == msg_id {
            1nat
        } else {
            0nat
        }
    }
}

/// The messages table holds a row with the id.
pub open spec fn contains_msg(msgs: Seq<MsgRow>, id: MsgId) -> bool {
    exists|i: int| 0 <= i < msgs.len() && (#[trigger] msgs[i]).id == id
}

/// The chat directory holds a row with the id.
pub open spec fn contains_chat(chats: Seq<Chat>, id: ChatId) -> bool {
    exists|i: int| 0 <= i < chats.len() && (#[trigger] chats[i]).id == id
}

impl Context {
    /// Well-formedness of the store: distinct non-reserved message ids,
    /// well-formed parameter bags, distinct chat and contact ids, and at
    /// most one evidence row per message and contact.
    pub open spec fn wf(self) -> bool {
        &&& msgs_wf(self.msgs@)
        &&& mdns_wf(self.mdns@)
        &&& forall|i: int, j: int|
            0 <= i < j < self.chats@.len() ==> (#[trigger] self.chats@[i]).id
                != (#[trigger] self.chats@[j]).id
        &&& forall|i: int, j: int|
            0 <= i < j < self.contacts@.len() ==> (#[trigger] self.contacts@[i]).id
                != (#[trigger] self.contacts@[j]).id
    }

    /// An empty store: no rows, no notifications, no tasks.
    pub fn new() -> (r: Context)
        ensures
            r.wf(),
            r.msgs@.len() == 0,
            r.chats@.len() == 0,
            r.contacts@.len() == 0,
            r.mdns@.len() == 0,
            r.locations@.len() == 0,
            r.events@.len() == 0,
            r.jobs@.len() == 0,
    {
        Context {
            msgs: Vec::new(),
            chats: Vec::new(),
            contacts: Vec::new(),
            mdns: Vec::new(),
            locations: Vec::new(),
            events: Vec::new(),
            jobs: Vec::new(),
        }
    }

    /// Position of the message row with the id, if any.
    pub fn find_msg_index(&self, id: MsgId) -> (r: Option<usize>)
        ensures
            r matches Some(i) ==> i < self.msgs@.len() && self.msgs@[i as int].id == id,
            r is None ==> !contains_msg(self.msgs@, id),
            r is Some <==> contains_msg(self.msgs@, id),
    {
        let n = self.msgs.len();
        let mut i: usize = 0;
        while i < n
            invariant
                i <= n == self.msgs@.len(),
                forall|j: int| 0 <= j < i ==> (#[trigger] self.msgs@[j]).id != id,
            decreases n - i,
        {
            if self.msgs[i].id == id {
                return Some(i);
            }
            i += 1;
        }
        None
    }

    /// Position of the chat row with the id, if any.
    pub fn find_chat_index(&self, id: ChatId) -> (r: Option<usize>)
        ensures
            r matches Some(i) ==> i < self.chats@.len() && self.chats@[i as int].id == id,
            r is None ==> !contains_chat(self.chats@, id),
            r is Some <==> contains_chat(self.chats@, id),
    {
        let n = self.chats.len();
        let mut i: usize = 0;
        while i < n
            invariant
                i <= n == self.chats@.len(),
                forall|j: int| 0 <= j < i ==> (#[trigger] self.chats@[j]).id != id,
            decreases n - i,
        {
            if self.chats[i].id == id {
                return Some(i);
            }
            i += 1;
        }
        None
    }

    /// Position of the contact row with the id, if any.
    pub fn find_contact_index(&self, id: u32) -> (r: Option<usize>)
        ensures
            r matches Some(i) ==> i < self.contacts@.len() && self.contacts@[i as int].id == id,
            r is None ==> forall|j: int|
                0 <= j < self.contacts@.len() ==> (#[trigger] self.contacts@[j]).id != id,
    {
        let n = self.contacts.len();
        let mut i: usize = 0;
        while i < n
            invariant
                i <= n == self.contacts@.len(),
                forall|j: int| 0 <= j < i ==> (#[trigger] self.contacts@[j]).id != id,
            decreases n - i,
        {
            if self.contacts[i].id == id {
                return Some(i);
            }
            i += 1;
        }
        None
    }

    /// Hands a fire-and-forget notification to the event sink.
    pub fn emit_event(&mut self, event: Event)
        ensures
            *final(self) == (Context { events: final(self).events, ..*old(self) }),
            final(self).events@ == old(self).events@.push(event),
    {
        self.events.push(event);
    }

    /// Appends a message row, assigning the next free real id; the first
    /// save of an in-memory message turns its unset id into a real one.
    /// Fails only when the id space is exhausted.
    pub fn add_msg(&mut self, row: MsgRow) -> (r: Option<MsgId>)
        requires
            old(self).wf(),
            row.param.wf(),
        ensures
            final(self).wf(),
            r matches Some(id) ==> {
                &&& !id.spec_is_special()
                &&& !contains_msg(old(self).msgs@, id)
                &&& *final(self) == (Context { msgs: final(self).msgs, ..*old(self) })
                &&& final(self).msgs@ == old(self).msgs@.push(MsgRow { id, ..row })
            },
            r is None ==> *final(self) == *old(self) && exists|i: int|
                0 <= i < old(self).msgs@.len() && (#[trigger] old(self).msgs@[i]).id.spec_to_u32()
                    == u32::MAX,
    {
        let n = self.msgs.len();
        let mut max: u32 = crate::constants::DC_MSG_ID_LAST_SPECIAL;
        let mut i: usize = 0;
        while i < n
            invariant
                i <= n == self.msgs@.len(),
                max >= crate::constants::DC_MSG_ID_LAST_SPECIAL,
                forall|j: int| 0 <= j < i ==> (#[trigger] self.msgs@[j]).id.spec_to_u32() <= max,
                max > crate::constants::DC_MSG_ID_LAST_SPECIAL ==> exists|j: int|
                    0 <= j < i && (#[trigger] self.msgs@[j]).id.spec_to_u32() == max,
            decreases n - i,
        {
            if self.msgs[i].id.to_u32() > max {
                max = self.msgs[i].id.to_u32();
            }
            i += 1;
        }
        if max == u32::MAX {
            return None;
        }
        let id = MsgId::new(max + 1);
        let new_row = MsgRow { id, ..row };
        proof {
            assert(forall|j: int|
                0 <= j < self.msgs@.len() ==> (#[trigger] self.msgs@[j]).id.spec_to_u32()
                    <= max);
        }
        self.msgs.push(new_row);
        Some(id)
    }

    /// Appends a chat directory row; refuses exactly a duplicate id.
    pub fn add_chat(&mut self, chat: Chat) -> (r: bool)
        requires
            old(self).wf(),
        ensures
            final(self).wf(),
            r ==> !contains_chat(old(self).chats@, chat.id) && *final(self) == (Context {
                chats: final(self).chats,
                ..*old(self)
            }) && final(self).chats@ == old(self).chats@.push(chat),
            !r ==> *final(self) == *old(self) && contains_chat(old(self).chats@, chat.id),
    {
        match self.find_chat_index(chat.id) {
            Some(_) => false,
            None => {
                self.chats.push(chat);
                true
            },
        }
    }

    /// Appends a contact directory row; refuses exactly a duplicate id.
    pub fn add_contact(&mut self, contact: Contact) -> (r: bool)
        requires
            old(self).wf(),
        ensures
            final(self).wf(),
            r ==> !(exists|i: int|
                0 <= i < old(self).contacts@.len() && (#[trigger] old(self).contacts@[i]).id
                    == contact.id) && *final(self) == (Context {
                contacts: final(self).contacts,
                ..*old(self)
            }) && final(self).contacts@ == old(self).contacts@.push(contact),
            !r ==> *final(self) == *old(self) && exists|i: int|
                0 <= i < old(self).contacts@.len() && (#[trigger] old(self).contacts@[i]).id
                    == contact.id,
    {
        match self.find_contact_index(contact.id) {
            Some(_) => false,
            None => {
                self.contacts.push(contact);
                true
            },
        }
    }

    /// Appends a row to the companion locations table.
    pub fn add_location(&mut self, location: LocationRow)
        requires
            old(self).wf(),
        ensures
            final(self).wf(),
            *final(self) == (Context { locations: final(self).locations, ..*old(self) }),
            final(self).locations@ == old(self).locations@.push(location),
    {
        self.locations.push(location);
    }
}

} // verus!
