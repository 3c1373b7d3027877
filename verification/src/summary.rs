//! Summary derivation: the human-readable preview of a message, built
//! from state, chat, sender and content kind.

use vstd::prelude::*;

use crate::chat::{spec_chat_of, Chat};
use crate::constants::{
    Blocked, Chattype, Viewtype, DC_CONTACT_ID_SELF, SUMMARY_CHARACTERS,
};
use crate::contact::{spec_display_name, spec_first_name, Contact};
use crate::context::{contains_chat, Context};
use crate::lot::{spec_lot_state_of, Lot, LotState, Meaning};
use crate::message::Message;
use crate::param::{spec_param_cmd, Param, Params, SystemMessage};
use crate::state::MessageState;
use crate::stock::{spec_stock_str, stock_str, StockMessage};
use crate::tools::{
    collapse_ws, dc_truncate, file_name_part, spec_collapse_ws, spec_file_name, spec_truncate,
};

verus! {

/// File name shown in a summary: the name component of the file locator
/// in the parameter bag, or a fixed error marker when it cannot be had.
pub open spec fn spec_summary_filename(param: Map<Param, Seq<char>>) -> Seq<char> {
    if param.contains_key(Param::File) {
        match spec_file_name(param[Param::File]) {
            Some(name) => name,
            None => "ErrFileName"@,
        }
    } else {
        "ErrFileName"@
    }
}

/// Content-kind-specific prefix of a summary, and whether the body text
/// is appended after it.
pub open spec fn spec_summary_prefix(viewtype: Viewtype, param: Map<Param, Seq<char>>) -> (
    Seq<char>,
    bool,
) {
    match viewtype {
        Viewtype::Image => (spec_stock_str(StockMessage::Image), true),
        Viewtype::Gif => (spec_stock_str(StockMessage::Gif), true),
        Viewtype::Sticker => (spec_stock_str(StockMessage::Sticker), true),
        Viewtype::Video => (spec_stock_str(StockMessage::Video), true),
        Viewtype::Voice => (spec_stock_str(StockMessage::VoiceMessage), true),
        Viewtype::Audio | Viewtype::File => {
            if spec_param_cmd(param) == SystemMessage::AutocryptSetupMessage {
                (spec_stock_str(StockMessage::AcSetupMsgSubject), false)
            } else {
                (
                    (if viewtype == Viewtype::Audio {
                        spec_stock_str(StockMessage::Audio)
                    } else {
                        spec_stock_str(StockMessage::File)
                    }) + " \u{2013} "@ + spec_summary_filename(param),
                    true,
                )
            }
        },
        _ => {
            if spec_param_cmd(param) != SystemMessage::LocationOnly {
                (Seq::empty(), true)
            } else {
                (spec_stock_str(StockMessage::Location), false)
            }
        },
    }
}

/// The summary text of a message: the content-kind prefix, the body text
/// appended behind an en-dash where it belongs, truncated to the
/// character budget, with whitespace runs collapsed.
pub open spec fn spec_summarytext(
    viewtype: Viewtype,
    text: Option<Seq<char>>,
    param: Map<Param, Seq<char>>,
    approx: int,
) -> Seq<char> {
    let (prefix, append_text) = spec_summary_prefix(viewtype, param);
    if !append_text {
        prefix
    } else {
        let summary = match text {
            Some(t) => {
                if t.len() == 0 {
                    prefix
                } else if prefix.len() == 0 {
                    spec_truncate(t, approx)
                } else {
                    spec_truncate(prefix + " \u{2013} "@ + t, approx)
                }
            },
            None => prefix,
        };
        spec_collapse_ws(summary)
    }
}

/// Derives the summary text of raw message content.
///
/// Deterministic given its inputs; image, video, gif, sticker and voice
/// kinds show only a localized type label, audio and file kinds add the
/// attached file name, an autocrypt setup message shows a fixed subject
/// and no body, and a location-only command shows a location label.
pub fn get_summarytext_by_raw(
    viewtype: Viewtype,
    text: Option<&String>,
    param: &Params,
    approx_characters: usize,
) -> (r: String)
    requires
        param.wf(),
    ensures
        r@ == spec_summarytext(
            viewtype,
            match text {
                Some(t) => Some(t@),
                None => None,
            },
            param@,
            approx_characters as int,
        ),
{
    let mut append_text = true;
    let prefix: String = match viewtype {
        Viewtype::Image => stock_str(StockMessage::Image),
        Viewtype::Gif => stock_str(StockMessage::Gif),
        Viewtype::Sticker => stock_str(StockMessage::Sticker),
        Viewtype::Video => stock_str(StockMessage::Video),
        Viewtype::Voice => stock_str(StockMessage::VoiceMessage),
        Viewtype::Audio | Viewtype::File => {
            if param.get_cmd() == SystemMessage::AutocryptSetupMessage {
                append_text = false;
                stock_str(StockMessage::AcSetupMsgSubject)
            } else {
                let file_name: String = match param.get(Param::File) {
                    Some(file) => match file_name_part(file.as_str()) {
                        Some(name) => name,
                        None => String::from_str("ErrFileName"),
                    },
                    None => String::from_str("ErrFileName"),
                };
                let mut label = if viewtype == Viewtype::Audio {
                    stock_str(StockMessage::Audio)
                } else {
                    stock_str(StockMessage::File)
                };
                label.append(" \u{2013} ");
                label.append(file_name.as_str());
                proof {
                    assert(label@ =~= spec_summary_prefix(viewtype, param@).0);
                }
                label
            }
        },
        _ => {
            if param.get_cmd() != SystemMessage::LocationOnly {
                String::new()
            } else {
                append_text = false;
                stock_str(StockMessage::Location)
            }
        },
    };
    if !append_text {
        return prefix;
    }
    let summary: String = match text {
        Some(t) => {
            if t.as_str().is_empty() {
                prefix
            } else if prefix.as_str().is_empty() {
                proof {
                    assert(prefix@ =~= Seq::<char>::empty());
                }
                dc_truncate(t.as_str(), approx_characters)
            } else {
                let mut tmp = prefix;
                tmp.append(" \u{2013} ");
                tmp.append(t.as_str());
                proof {
                    assert(tmp@ =~= spec_summary_prefix(viewtype, param@).0 + " \u{2013} "@
                        + t@);
                }
                dc_truncate(tmp.as_str(), approx_characters)
            }
        },
        None => prefix,
    };
    collapse_ws(summary.as_str())
}

/// Attribution line of a summary and its meaning: the draft marker, the
/// local user, the sender's name inside a group, or nothing for info
/// messages, self-chats and one-to-one chats.
pub open spec fn spec_fill_text1(
    msg: Message,
    chat: Chat,
    contact: Option<Contact>,
    old_text1: Option<Seq<char>>,
    old_meaning: Meaning,
) -> (Option<Seq<char>>, Meaning) {
    if msg.state == MessageState::OutDraft {
        (Some(spec_stock_str(StockMessage::Draft)), Meaning::Text1Draft)
    } else if msg.from_id == DC_CONTACT_ID_SELF {
        if spec_is_info(msg) || chat.spec_is_self_talk() {
            (None, Meaning::Nothing)
        } else {
            (Some(spec_stock_str(StockMessage::SelfMsg)), Meaning::Text1Self)
        }
    } else if chat.typ == Chattype::Group || chat.typ == Chattype::VerifiedGroup {
        if spec_is_info(msg) || contact is None {
            (None, Meaning::Nothing)
        } else {
            (
                if chat.id.spec_is_deaddrop() {
                    Some(spec_display_name(contact->0@))
                } else {
                    Some(spec_first_name(contact->0@))
                },
                Meaning::Text1Username,
            )
        }
    } else {
        (old_text1, old_meaning)
    }
}

/// The message is informational (mirrors [`Message::is_info`]).
pub open spec fn spec_is_info(msg: Message) -> bool {
    let cmd = spec_param_cmd(msg.param@);
    msg.from_id == crate::constants::DC_CONTACT_ID_INFO || msg.to_id
        == crate::constants::DC_CONTACT_ID_INFO || (cmd != SystemMessage::Unknown && cmd
        != SystemMessage::AutocryptSetupMessage)
}

impl Lot {
    /// Fills the summary from a message, its chat and, inside groups, its
    /// sending contact.
    pub fn fill(&mut self, msg: &Message, chat: &Chat, contact: Option<&Contact>)
        requires
            msg.wf(),
        ensures
            ({
                let (t1, meaning) = spec_fill_text1(
                    *msg,
                    *chat,
                    match contact {
                        Some(c) => Some(*c),
                        None => None,
                    },
                    match old(self).text1 {
                        Some(t) => Some(t@),
                        None => None,
                    },
                    old(self).text1_meaning,
                );
                &&& match (final(self).text1, t1) {
                    (Some(a), Some(b)) => a@ == b,
                    (None, None) => true,
                    _ => false,
                }
                &&& final(self).text1_meaning == meaning
            }),
            final(self).text2 matches Some(t2) && t2@ == spec_summarytext(
                msg.viewtype,
                match msg.text {
                    Some(t) => Some(t@),
                    None => None,
                },
                msg.param@,
                SUMMARY_CHARACTERS as int,
            ),
            final(self).timestamp == msg.spec_timestamp(),
            final(self).state == spec_lot_state_of(msg.state),
    {
        if msg.state == MessageState::OutDraft {
            self.text1 = Some(stock_str(StockMessage::Draft));
            self.text1_meaning = Meaning::Text1Draft;
        } else if msg.from_id == DC_CONTACT_ID_SELF {
            if msg.is_info() || chat.is_self_talk() {
                self.text1 = None;
                self.text1_meaning = Meaning::Nothing;
            } else {
                self.text1 = Some(stock_str(StockMessage::SelfMsg));
                self.text1_meaning = Meaning::Text1Self;
            }
        } else if chat.typ == Chattype::Group || chat.typ == Chattype::VerifiedGroup {
            if msg.is_info() || contact.is_none() {
                self.text1 = None;
                self.text1_meaning = Meaning::Nothing;
            } else {
                match contact {
                    Some(contact) => {
                        if chat.id.is_deaddrop() {
                            self.text1 = Some(contact.get_display_name());
                        } else {
                            self.text1 = Some(contact.get_first_name());
                        }
                    },
                    None => {
                        self.text1 = None;
                    },
                }
                self.text1_meaning = Meaning::Text1Username;
            }
        }
        self.text2 = Some(
            get_summarytext_by_raw(
                msg.viewtype,
                msg.text.as_ref(),
                &msg.param,
                SUMMARY_CHARACTERS,
            ),
        );
        self.timestamp = msg.get_timestamp();
        self.state = LotState::from(msg.state);
    }
}

impl Message {
    /// Derives the two-part summary of the message: the chat is loaded
    /// from the directory when not supplied, and inside groups the
    /// sending contact provides the attribution name.  An unknown chat
    /// yields an empty summary.
    pub fn get_summary(&self, context: &Context, chat: Option<&Chat>) -> (r: Lot)
        requires
            self.wf(),
            context.wf(),
        ensures
            chat is None && !contains_chat(context.chats@, self.chat_id) ==> r.text1 is None
                && r.text2 is None && r.timestamp == 0 && r.state == LotState::Undefined,
            ({
                let resolved = match chat {
                    Some(c) => Some(*c),
                    None => if contains_chat(context.chats@, self.chat_id) {
                        Some(spec_chat_of(context.chats@, self.chat_id))
                    } else {
                        None
                    },
                };
                resolved matches Some(c) ==> {
                    let looked_up = spec_summary_contact(*self, c, context.contacts@);
                    let (t1, meaning) = spec_fill_text1(*self, c, looked_up, None, Meaning::Nothing);
                    &&& match (r.text1, t1) {
                        (Some(a), Some(b)) => a@ == b,
                        (None, None) => true,
                        _ => false,
                    }
                    &&& r.text1_meaning == meaning
                    &&& r.text2 matches Some(t2) && t2@ == spec_summarytext(
                        self.viewtype,
                        match self.text {
                            Some(t) => Some(t@),
                            None => None,
                        },
                        self.param@,
                        SUMMARY_CHARACTERS as int,
                    )
                    &&& r.timestamp == self.spec_timestamp()
                    &&& r.state == spec_lot_state_of(self.state)
                }
            }),
    {
        let mut ret = Lot::new();
        let chat_loaded: Chat;
        let chat_ref: &Chat = match chat {
            Some(chat) => chat,
            None => {
                match context.find_chat_index(self.chat_id) {
                    Some(c) => {
                        proof {
                            let w = choose|w: int|
                                0 <= w < context.chats@.len() && (
                                #[trigger] context.chats@[w]).id == self.chat_id;
                            assert(w == c as int);
                        }
                        chat_loaded = context.chats[c];
                        &chat_loaded
                    },
                    None => {
                        return ret;
                    },
                }
            },
        };
        let contact: Option<&Contact> = if self.from_id != DC_CONTACT_ID_SELF && (chat_ref.typ
            == Chattype::Group || chat_ref.typ == Chattype::VerifiedGroup) {
            match context.find_contact_index(self.from_id) {
                Some(ci) => {
                    proof {
                        if exists|w: int|
                            0 <= w < context.contacts@.len() && (
                            #[trigger] context.contacts@[w]).id == self.from_id {
                            let w = choose|w: int|
                                0 <= w < context.contacts@.len() && (
                                #[trigger] context.contacts@[w]).id == self.from_id;
                            assert(w == ci as int);
                        }
                    }
                    Some(&context.contacts[ci])
                },
                None => None,
            }
        } else {
            None
        };
        ret.fill(self, chat_ref, contact);
        ret
    }

    /// Derives the preview line alone.
    pub fn get_summarytext(&self, approx_characters: usize) -> (r: String)
        requires
            self.wf(),
        ensures
            r@ == spec_summarytext(
                self.viewtype,
                match self.text {
                    Some(t) => Some(t@),
                    None => None,
                },
                self.param@,
                approx_characters as int,
            ),
    {
        get_summarytext_by_raw(self.viewtype, self.text.as_ref(), &self.param, approx_characters)
    }
}

/// The contact whose name attributes a group message: the sender, looked
/// up in the directory when the message is not the local user's and the
/// chat is a group.
pub open spec fn spec_summary_contact(
    msg: Message,
    chat: Chat,
    contacts: Seq<Contact>,
) -> Option<Contact> {
    if msg.from_id != DC_CONTACT_ID_SELF && (chat.typ == Chattype::Group || chat.typ
        == Chattype::VerifiedGroup) && (exists|i: int|
        0 <= i < contacts.len() && (#[trigger] contacts[i]).id == msg.from_id) {
        Some(
            contacts[choose|i: int|
                0 <= i < contacts.len() && (#[trigger] contacts[i]).id == msg.from_id],
        )
    } else {
        None
    }
}

} // verus!
