//! The message aggregate: the per-message record combining identity,
//! state and metadata, with its derived queries and narrow updates.

use vstd::prelude::*;

use crate::chat::{msgtype_has_file, ChatId};
use crate::constants::{Blocked, Viewtype, DC_CHAT_ID_DEADDROP, DC_CONTACT_ID_INFO};
use crate::context::{contains_chat, contains_msg, Context, MsgRow};
use crate::error::Error;
use crate::job::Action;
use crate::events::Event;
use crate::tools::str_eq;
use crate::param::{spec_param_cmd, spec_param_int, Param, Params, SystemMessage};
use crate::msgid::MsgId;
use crate::state::MessageState;

verus! {

/// A real message exists: the table holds its row and the row is not
/// tombstoned in the trash chat.  Existence is decided by the messages
/// table alone; evidence rows play no part in it.
pub open spec fn spec_msg_exists(msgs: Seq<MsgRow>, msg_id: MsgId) -> bool {
    &&& !msg_id.spec_is_special()
    &&& exists|i: int|
        0 <= i < msgs.len() && (#[trigger] msgs[i]).id == msg_id
            && !msgs[i].chat_id.spec_is_trash()
}

/// Whether a real, non-tombstoned message row exists for the id.
pub fn msg_exists(context: &Context, msg_id: MsgId) -> (r: bool)
    requires
        context.wf(),
    ensures
        r == spec_msg_exists(context.msgs@, msg_id),
{
    if msg_id.is_special() {
        return false;
    }
    match context.find_msg_index(msg_id) {
        Some(i) => {
            let r = !context.msgs[i].chat_id.is_trash();
            proof {
                if r {
                } else {
                    assert forall|j: int|
                        0 <= j < context.msgs@.len() && (#[trigger] context.msgs@[j]).id == msg_id
                            implies context.msgs@[j].chat_id.spec_is_trash() by {
                        assert(j == i as int);
                    }
                }
            }
            r
        },
        None => false,
    }
}

/// The messages table after writing one parameter bag to one id; rows of
/// other ids are untouched, and a missing row stays missing.
pub open spec fn param_written(
    old_msgs: Seq<MsgRow>,
    new_msgs: Seq<MsgRow>,
    msg_id: MsgId,
    param: Map<Param, Seq<char>>,
) -> bool {
    &&& new_msgs.len() == old_msgs.len()
    &&& forall|i: int|
        0 <= i < old_msgs.len() && (#[trigger] old_msgs[i]).id != msg_id ==> new_msgs[i]
            == old_msgs[i]
    &&& forall|i: int|
        0 <= i < old_msgs.len() && (#[trigger] old_msgs[i]).id == msg_id ==> {
            &&& new_msgs[i] == (MsgRow { param: new_msgs[i].param, ..old_msgs[i] })
            &&& new_msgs[i].param.wf()
            &&& new_msgs[i].param@ == param
        }
}

/// The messages table after writing one state to one id; rows of other
/// ids are untouched, and a missing row stays missing.
pub open spec fn state_written(
    old_msgs: Seq<MsgRow>,
    new_msgs: Seq<MsgRow>,
    msg_id: MsgId,
    state: MessageState,
) -> bool {
    &&& new_msgs.len() == old_msgs.len()
    &&& forall|i: int|
        0 <= i < old_msgs.len() && (#[trigger] old_msgs[i]).id != msg_id ==> new_msgs[i]
            == old_msgs[i]
    &&& forall|i: int|
        0 <= i < old_msgs.len() && (#[trigger] old_msgs[i]).id == msg_id ==> new_msgs[i]
            == (MsgRow { state, ..old_msgs[i] })
}

/// Unconditionally overwrites the state of the message; callers guard the
/// transition with a precondition read, so a lost race merely supersedes
/// one write.  Returns whether the write went through (in this model,
/// always).
pub fn update_msg_state(context: &mut Context, msg_id: MsgId, state: MessageState) -> (r: bool)
    requires
        old(context).wf(),
    ensures
        final(context).wf(),
        r,
        *final(context) == (Context { msgs: final(context).msgs, ..*old(context) }),
        state_written(old(context).msgs@, final(context).msgs@, msg_id, state),
{
    match context.find_msg_index(msg_id) {
        Some(i) => {
            let row = &mut context.msgs[i];
            row.state = state;
        },
        None => {},
    }
    true
}

/// Whether a message was sent by a messenger, is plain mail, or is plain
/// mail replying to a messenger message.
#[derive(Debug, Copy, Clone, PartialEq, Eq, Structural, Hash)]
pub enum MessengerMessage {
    No,
    Yes,
    /// No, but reply to messenger message.
    Reply,
}

impl MessengerMessage {
    /// Integer code under which the flag is persisted.
    pub open spec fn spec_to_i64(self) -> i64 {
        match self {
            MessengerMessage::No => 0,
            MessengerMessage::Yes => 1,
            MessengerMessage::Reply => 2,
        }
    }

    #[verifier::when_used_as_spec(spec_to_i64)]
    pub fn to_i64(self) -> (r: i64)
        ensures
            r == self.spec_to_i64(),
    {
        match self {
            MessengerMessage::No => 0,
            MessengerMessage::Yes => 1,
            MessengerMessage::Reply => 2,
        }
    }

    /// Decodes a persisted integer; unrecognized codes yield `No`.
    pub open spec fn spec_from_i64(v: i64) -> MessengerMessage {
        if v == 1 {
            MessengerMessage::Yes
        } else if v == 2 {
            MessengerMessage::Reply
        } else {
            MessengerMessage::No
        }
    }

    #[verifier::when_used_as_spec(spec_from_i64)]
    pub fn from_i64(v: i64) -> (r: MessengerMessage)
        ensures
            r == MessengerMessage::spec_from_i64(v),
    {
        if v == 1 {
            MessengerMessage::Yes
        } else if v == 2 {
            MessengerMessage::Reply
        } else {
            MessengerMessage::No
        }
    }
}

impl Default for MessengerMessage {
    fn default() -> (r: MessengerMessage)
        ensures
            r == MessengerMessage::No,
    {
        MessengerMessage::No
    }
}

/// An object representing a single message in memory.
/// The message object is not updated; to see updates it has to be
/// recreated from the store.
#[derive(Debug)]
pub struct Message {
    /// Identity; unset until the first save assigns a real id.
    pub id: MsgId,
    /// Sending contact.
    pub from_id: u32,
    /// Receiving contact.
    pub to_id: u32,
    /// Chat the message belongs to.
    pub chat_id: ChatId,
    /// Content kind.
    pub viewtype: Viewtype,
    /// Lifecycle state.
    pub state: MessageState,
    /// Hidden flag.
    pub hidden: bool,
    /// Sort-order timestamp.
    pub timestamp_sort: i64,
    /// Sender-side sent timestamp.
    pub timestamp_sent: i64,
    /// Local receive timestamp.
    pub timestamp_rcvd: i64,
    /// Body text.
    pub text: Option<String>,
    /// Cross-system correlation string.
    pub rfc724_mid: String,
    /// Correlation string of the replied-to message.
    pub in_reply_to: Option<String>,
    /// Remote folder holding the message.
    pub server_folder: Option<String>,
    /// Server-assigned sequence number.
    pub server_uid: u32,
    /// Messenger-originated or plain mail.
    pub is_dc_message: MessengerMessage,
    /// Starred flag.
    pub starred: bool,
    /// Blocked state of the chat the message belongs to.
    pub chat_blocked: Blocked,
    /// Bound geolocation row; zero when none.
    pub location_id: u32,
    /// Parameter bag.
    pub param: Params,
}

impl Message {
    /// The parameter bag is well-formed.
    pub open spec fn wf(self) -> bool {
        self.param.wf()
    }

    /// A fresh in-memory message of the given content kind; everything
    /// else starts out unset and empty.
    pub fn new(viewtype: Viewtype) -> (r: Message)
        ensures
            r.wf(),
            r.viewtype == viewtype,
            r.id == crate::msgid::msg_id_of(0),
            r.from_id == 0 && r.to_id == 0,
            r.chat_id == ChatId(0),
            r.state == MessageState::Undefined,
            !r.hidden && !r.starred,
            r.timestamp_sort == 0 && r.timestamp_sent == 0 && r.timestamp_rcvd == 0,
            r.text is None,
            r.rfc724_mid@.len() == 0,
            r.in_reply_to is None,
            r.server_folder is None,
            r.server_uid == 0,
            r.is_dc_message == MessengerMessage::No,
            r.chat_blocked == Blocked::Not,
            r.location_id == 0,
            r.param@ == Map::<Param, Seq<char>>::empty(),
    {
        Message {
            id: MsgId::new_unset(),
            from_id: 0,
            to_id: 0,
            chat_id: ChatId::new(0),
            viewtype,
            state: MessageState::Undefined,
            hidden: false,
            timestamp_sort: 0,
            timestamp_sent: 0,
            timestamp_rcvd: 0,
            text: None,
            rfc724_mid: String::new(),
            in_reply_to: None,
            server_folder: None,
            server_uid: 0,
            is_dc_message: MessengerMessage::No,
            starred: false,
            chat_blocked: Blocked::Not,
            location_id: 0,
            param: Params::new(),
        }
    }

    /// Check if a message has a location bound to it.
    /// The UI may decide to display a special icon beside such messages.
    pub fn has_location(&self) -> (r: bool)
        ensures
            r == (self.location_id != 0),
    {
        self.location_id != 0
    }

    /// Timestamp shown for the message: the sent timestamp when known,
    /// the sort timestamp otherwise.
    pub open spec fn spec_timestamp(&self) -> i64 {
        if self.timestamp_sent != 0 {
            self.timestamp_sent
        } else {
            self.timestamp_sort
        }
    }

    /// Timestamp shown for the message.
    #[verifier::when_used_as_spec(spec_timestamp)]
    pub fn get_timestamp(&self) -> (r: i64)
        ensures
            r == self.spec_timestamp(),
    {
        if 0 != self.timestamp_sent {
            self.timestamp_sent
        } else {
            self.timestamp_sort
        }
    }

    /// Identity of the message.
    pub fn get_id(&self) -> (r: MsgId)
        ensures
            r == self.id,
    {
        self.id
    }

    /// Sending contact.
    pub fn get_from_id(&self) -> (r: u32)
        ensures
            r == self.from_id,
    {
        self.from_id
    }

    /// Chat shown for the message: messages of blocked chats appear in
    /// the virtual deaddrop chat.
    pub fn get_chat_id(&self) -> (r: ChatId)
        ensures
            r == if self.chat_blocked != Blocked::Not {
                ChatId(DC_CHAT_ID_DEADDROP)
            } else {
                self.chat_id
            },
    {
        if self.chat_blocked != Blocked::Not {
            ChatId::new(DC_CHAT_ID_DEADDROP)
        } else {
            self.chat_id
        }
    }

    /// Content kind of the message.
    pub fn get_viewtype(&self) -> (r: Viewtype)
        ensures
            r == self.viewtype,
    {
        self.viewtype
    }

    /// Lifecycle state of the message.
    pub fn get_state(&self) -> (r: MessageState)
        ensures
            r == self.state,
    {
        self.state
    }

    /// Local receive timestamp.
    pub fn get_received_timestamp(&self) -> (r: i64)
        ensures
            r == self.timestamp_rcvd,
    {
        self.timestamp_rcvd
    }

    /// Sort-order timestamp.
    pub fn get_sort_timestamp(&self) -> (r: i64)
        ensures
            r == self.timestamp_sort,
    {
        self.timestamp_sort
    }

    /// Width stored in the parameter bag; zero when absent or malformed.
    pub fn get_width(&self) -> (r: i32)
        requires
            self.wf(),
        ensures
            r == spec_param_int(self.param@, Param::Width).unwrap_or(0),
    {
        match self.param.get_int(Param::Width) {
            Some(v) => v,
            None => 0,
        }
    }

    /// Height stored in the parameter bag; zero when absent or malformed.
    pub fn get_height(&self) -> (r: i32)
        requires
            self.wf(),
        ensures
            r == spec_param_int(self.param@, Param::Height).unwrap_or(0),
    {
        match self.param.get_int(Param::Height) {
            Some(v) => v,
            None => 0,
        }
    }

    /// Duration stored in the parameter bag; zero when absent or
    /// malformed.
    pub fn get_duration(&self) -> (r: i32)
        requires
            self.wf(),
        ensures
            r == spec_param_int(self.param@, Param::Duration).unwrap_or(0),
    {
        match self.param.get_int(Param::Duration) {
            Some(v) => v,
            None => 0,
        }
    }

    /// Whether the UI shows a padlock: the message carries an
    /// end-to-end-encryption guarantee.
    pub fn get_showpadlock(&self) -> (r: bool)
        requires
            self.wf(),
        ensures
            r == (spec_param_int(self.param@, Param::GuaranteeE2ee).unwrap_or(0) != 0),
    {
        self.param.get_int(Param::GuaranteeE2ee).unwrap_or(0) != 0
    }

    /// Whether the sort day and the send day differ, given the offset
    /// from universal to local time in seconds.
    pub fn has_deviating_timestamp(&self, gm2local_offset: i64) -> (r: bool)
        requires
            0 <= self.timestamp_sort + gm2local_offset <= i64::MAX,
            0 <= self.spec_timestamp() + gm2local_offset <= i64::MAX,
        ensures
            r == ((self.timestamp_sort + gm2local_offset) / 86400 != (self.spec_timestamp()
                + gm2local_offset) / 86400),
    {
        let sort_timestamp = self.get_sort_timestamp() + gm2local_offset;
        let send_timestamp = self.get_timestamp() + gm2local_offset;
        sort_timestamp / 86400 != send_timestamp / 86400
    }

    /// Whether the message was handed to the server: delivered or beyond.
    pub fn is_sent(&self) -> (r: bool)
        ensures
            r == (self.state.spec_to_i64() >= MessageState::OutDelivered.spec_to_i64()),
    {
        self.state.to_i64() >= MessageState::OutDelivered.to_i64()
    }

    /// Starred flag.
    pub fn is_starred(&self) -> (r: bool)
        ensures
            r == self.starred,
    {
        self.starred
    }

    /// Whether the message is forwarded.
    pub fn is_forwarded(&self) -> (r: bool)
        requires
            self.wf(),
        ensures
            r == (spec_param_int(self.param@, Param::Forwarded).unwrap_or(0) != 0),
    {
        0 != self.param.get_int(Param::Forwarded).unwrap_or(0)
    }

    /// Whether the message is an informational message: device-internal,
    /// or carrying a system command other than an autocrypt setup.
    pub fn is_info(&self) -> (r: bool)
        requires
            self.wf(),
        ensures
            r == ({
                let cmd = spec_param_cmd(self.param@);
                self.from_id == DC_CONTACT_ID_INFO || self.to_id == DC_CONTACT_ID_INFO || (cmd
                    != SystemMessage::Unknown && cmd != SystemMessage::AutocryptSetupMessage)
            }),
    {
        let cmd = self.param.get_cmd();
        self.from_id == DC_CONTACT_ID_INFO || self.to_id == DC_CONTACT_ID_INFO || cmd
            != SystemMessage::Unknown && cmd != SystemMessage::AutocryptSetupMessage
    }

    /// Whether the message is still being created.
    ///
    /// Messages with attachments might be created before the attachment
    /// is ready; such attachments obey additional restrictions.
    pub fn is_increation(&self) -> (r: bool)
        ensures
            r == (crate::chat::spec_msgtype_has_file(self.viewtype) && self.state
                == MessageState::OutPreparing),
    {
        msgtype_has_file(self.viewtype) && self.state == MessageState::OutPreparing
    }

    /// Whether the message is an autocrypt setup message: a file carrying
    /// the setup command.
    pub fn is_setupmessage(&self) -> (r: bool)
        requires
            self.wf(),
        ensures
            r == (self.viewtype == Viewtype::File && spec_param_cmd(self.param@)
                == SystemMessage::AutocryptSetupMessage),
    {
        if self.viewtype != Viewtype::File {
            return false;
        }
        self.param.get_cmd() == SystemMessage::AutocryptSetupMessage
    }

    /// Replaces the body text.
    pub fn set_text(&mut self, text: Option<String>)
        ensures
            *final(self) == (Message { text, ..*old(self) }),
    {
        self.text = text;
    }

    /// Attaches a file locator, and optionally its mime type, to the
    /// parameter bag.
    pub fn set_file(&mut self, file: &str, filemime: Option<&str>)
        requires
            old(self).wf(),
        ensures
            final(self).wf(),
            *final(self) == (Message { param: final(self).param, ..*old(self) }),
            final(self).param@ == match filemime {
                Some(m) => old(self).param@.insert(Param::File, file@).insert(
                    Param::MimeType,
                    m@,
                ),
                None => old(self).param@.insert(Param::File, file@),
            },
    {
        self.param.set(Param::File, file);
        if let Some(filemime) = filemime {
            self.param.set(Param::MimeType, filemime);
        }
    }

    /// Stores the pixel dimensions in the parameter bag.
    pub fn set_dimension(&mut self, width: i32, height: i32)
        requires
            old(self).wf(),
        ensures
            final(self).wf(),
            *final(self) == (Message { param: final(self).param, ..*old(self) }),
            final(self).param@ == old(self).param@.insert(
                Param::Width,
                crate::tools::spec_i64_digits(width as int),
            ).insert(Param::Height, crate::tools::spec_i64_digits(height as int)),
    {
        self.param.set_int(Param::Width, width);
        self.param.set_int(Param::Height, height);
    }

    /// Stores the duration in the parameter bag.
    pub fn set_duration(&mut self, duration: i32)
        requires
            old(self).wf(),
        ensures
            final(self).wf(),
            *final(self) == (Message { param: final(self).param, ..*old(self) }),
            final(self).param@ == old(self).param@.insert(
                Param::Duration,
                crate::tools::spec_i64_digits(duration as int),
            ),
    {
        self.param.set_int(Param::Duration, duration);
    }

    /// Body text cut to the display budget.
    pub fn get_text(&self) -> (r: Option<String>)
        ensures
            r matches Some(t) ==> self.text matches Some(orig) && t@ == crate::tools::spec_truncate(
                orig@,
                30000,
            ),
            r is None <==> self.text is None,
    {
        match &self.text {
            Some(t) => Some(crate::tools::dc_truncate(t.as_str(), 30000)),
            None => None,
        }
    }

    /// File locator stored in the parameter bag; the blob directory of
    /// the deployment resolves it to a path.
    pub fn get_file(&self) -> (r: Option<String>)
        requires
            self.wf(),
        ensures
            r matches Some(f) ==> self.param@.contains_key(Param::File) && f@
                == self.param@[Param::File],
            r is None ==> !self.param@.contains_key(Param::File),
    {
        self.param.get(Param::File)
    }

    /// Name component of the attached file.
    pub fn get_filename(&self) -> (r: Option<String>)
        requires
            self.wf(),
        ensures
            r matches Some(v) ==> self.param@.contains_key(Param::File)
                && crate::tools::spec_file_name(self.param@[Param::File]) == Some(v@),
            r is None ==> !self.param@.contains_key(Param::File)
                || crate::tools::spec_file_name(self.param@[Param::File]) is None,
    {
        match self.param.get(Param::File) {
            Some(file) => crate::tools::file_name_part(file.as_str()),
            None => None,
        }
    }

    /// Mime type of the attachment: the stored one, a guess from the file
    /// extension, or the generic fallback when a file has no known kind.
    pub fn get_filemime(&self) -> (r: Option<String>)
        requires
            self.wf(),
        ensures
            self.param@.contains_key(Param::MimeType) ==> (r matches Some(m) && m@
                == self.param@[Param::MimeType]),
            !self.param@.contains_key(Param::MimeType) && self.param@.contains_key(Param::File)
                ==> (r matches Some(m) && m@ == match spec_guess_msgtype(
                self.param@[Param::File],
            ) {
                Some(q) => q.1,
                None => "application/octet-stream"@,
            }),
            !self.param@.contains_key(Param::MimeType) && !self.param@.contains_key(Param::File)
                ==> r is None,
    {
        if let Some(m) = self.param.get(Param::MimeType) {
            return Some(m);
        }
        if let Some(file) = self.param.get(Param::File) {
            if let Some((_, mime)) = guess_msgtype_from_suffix(file.as_str()) {
                return Some(mime);
            }
            // we have a file but no mime type, so use a generic one
            return Some(String::from_str("application/octet-stream"));
        }
        // no mime type and no file
        None
    }

    /// Records the pixel dimensions read from the attached image file.
    ///
    /// Only image-kind messages without stored dimensions are touched:
    /// their dimensions are zeroed and, when the file metadata was
    /// readable, set to the real values; a saved message writes the bag
    /// through to its row.
    pub fn try_calc_and_set_dimensions(
        &mut self,
        context: &mut Context,
        filemeta: Option<(i32, i32)>,
    ) -> (r: Result<(), Error>)
        requires
            old(self).wf(),
            old(context).wf(),
        ensures
            r is Ok,
            final(self).wf(),
            final(context).wf(),
            ({
                let relevant = crate::chat::spec_msgtype_has_file(old(self).viewtype) && old(
                    self,
                ).param@.contains_key(Param::File) && (old(self).viewtype == Viewtype::Image || old(
                    self,
                ).viewtype == Viewtype::Gif) && !old(self).param@.contains_key(Param::Width);
                &&& !relevant ==> *final(self) == *old(self) && *final(context) == *old(context)
                &&& relevant ==> {
                    &&& *final(self) == (Message { param: final(self).param, ..*old(self) })
                    &&& final(self).param@ == match filemeta {
                        Some((w, h)) => old(self).param@.insert(
                            Param::Width,
                            crate::tools::spec_i64_digits(w as int),
                        ).insert(Param::Height, crate::tools::spec_i64_digits(h as int)),
                        None => old(self).param@.insert(
                            Param::Width,
                            crate::tools::spec_i64_digits(0),
                        ).insert(Param::Height, crate::tools::spec_i64_digits(0)),
                    }
                    &&& *final(context) == (Context {
                        msgs: final(context).msgs,
                        ..*old(context)
                    })
                    &&& old(self).id.spec_is_unset() ==> final(context).msgs@ == old(
                        context,
                    ).msgs@
                    &&& !old(self).id.spec_is_unset() ==> param_written(
                        old(context).msgs@,
                        final(context).msgs@,
                        old(self).id,
                        final(self).param@,
                    )
                }
            }),
    {
        if msgtype_has_file(self.viewtype) {
            let has_file = self.param.exists_key(Param::File);
            if has_file {
                if (self.viewtype == Viewtype::Image || self.viewtype == Viewtype::Gif)
                    && !self.param.exists_key(Param::Width) {
                    self.param.set_int(Param::Width, 0);
                    self.param.set_int(Param::Height, 0);
                    if let Some((width, height)) = filemeta {
                        self.param.set_int(Param::Width, width);
                        self.param.set_int(Param::Height, height);
                        proof {
                            assert(self.param@ =~= old(self).param@.insert(
                                Param::Width,
                                crate::tools::spec_i64_digits(width as int),
                            ).insert(Param::Height, crate::tools::spec_i64_digits(height as int)));
                        }
                    }
                    if !self.id.is_unset() {
                        self.save_param_to_disk(context);
                    }
                }
            }
        }
        Ok(())
    }

    /// Records a late-arriving media size in the bag and writes it
    /// through.
    pub fn latefiling_mediasize(
        &mut self,
        context: &mut Context,
        width: i32,
        height: i32,
        duration: i32,
    )
        requires
            old(self).wf(),
            old(context).wf(),
        ensures
            final(self).wf(),
            final(context).wf(),
            *final(self) == (Message { param: final(self).param, ..*old(self) }),
            ({
                let with_dims = if width > 0 && height > 0 {
                    old(self).param@.insert(
                        Param::Width,
                        crate::tools::spec_i64_digits(width as int),
                    ).insert(Param::Height, crate::tools::spec_i64_digits(height as int))
                } else {
                    old(self).param@
                };
                final(self).param@ == if duration > 0 {
                    with_dims.insert(
                        Param::Duration,
                        crate::tools::spec_i64_digits(duration as int),
                    )
                } else {
                    with_dims
                }
            }),
            *final(context) == (Context { msgs: final(context).msgs, ..*old(context) }),
            param_written(
                old(context).msgs@,
                final(context).msgs@,
                old(self).id,
                final(self).param@,
            ),
    {
        if width > 0 && height > 0 {
            self.param.set_int(Param::Width, width);
            self.param.set_int(Param::Height, height);
        }
        if duration > 0 {
            self.param.set_int(Param::Duration, duration);
        }
        self.save_param_to_disk(context);
    }

    /// Writes the parameter bag through to the message row.  Returns
    /// whether the write went through (in this model, always).
    pub fn save_param_to_disk(&mut self, context: &mut Context) -> (r: bool)
        requires
            old(self).wf(),
            old(context).wf(),
        ensures
            r,
            *final(self) == *old(self),
            final(self).wf(),
            final(context).wf(),
            *final(context) == (Context { msgs: final(context).msgs, ..*old(context) }),
            param_written(
                old(context).msgs@,
                final(context).msgs@,
                old(self).id,
                old(self).param@,
            ),
    {
        match context.find_msg_index(self.id) {
            Some(i) => {
                let fresh = self.param.clone();
                let row = &mut context.msgs[i];
                row.param = fresh;
            },
            None => {},
        }
        true
    }

    /// Setup code prefix of an autocrypt setup message, taken from the
    /// headers of its decoded armored block: the value of the
    /// `passphrase-begin` header, present only when the block is an
    /// armored message.
    pub fn get_setupcodebegin(
        &self,
        block_is_message: bool,
        armor_headers: &Vec<(String, String)>,
    ) -> (r: Option<String>)
        requires
            self.wf(),
        ensures
            r matches Some(v) ==> {
                &&& self.viewtype == Viewtype::File
                &&& spec_param_cmd(self.param@) == SystemMessage::AutocryptSetupMessage
                &&& block_is_message
                &&& exists|i: int|
                    {
                        &&& 0 <= i < armor_headers@.len()
                        &&& (#[trigger] armor_headers@[i]).0@ == "passphrase-begin"@
                        &&& v@ == armor_headers@[i].1@
                        &&& forall|j: int|
                            0 <= j < i ==> (#[trigger] armor_headers@[j]).0@
                                != "passphrase-begin"@
                    }
            },
            r is None ==> !(self.viewtype == Viewtype::File && spec_param_cmd(self.param@)
                == SystemMessage::AutocryptSetupMessage) || !block_is_message || forall|i: int|
                0 <= i < armor_headers@.len() ==> (#[trigger] armor_headers@[i]).0@
                    != "passphrase-begin"@,
    {
        if !self.is_setupmessage() {
            return None;
        }
        if !block_is_message {
            return None;
        }
        let n = armor_headers.len();
        let mut i: usize = 0;
        while i < n
            invariant
                i <= n == armor_headers@.len(),
                self.wf(),
                self.viewtype == Viewtype::File,
                spec_param_cmd(self.param@) == SystemMessage::AutocryptSetupMessage,
                block_is_message,
                forall|j: int|
                    0 <= j < i ==> (#[trigger] armor_headers@[j]).0@ != "passphrase-begin"@,
            decreases n - i,
        {
            if str_eq(armor_headers[i].0.as_str(), "passphrase-begin") {
                return Some(armor_headers[i].1.clone());
            }
            i += 1;
        }
        None
    }

    /// Builds the in-memory aggregate from a stored row and the blocked
    /// state of its chat, as the chat directory reported it (absent for a
    /// message whose chat has no directory row).
    ///
    /// Stored column codes were decoded at the persistence boundary by
    /// the enums' bidirectional mappings; an absent blocked state falls
    /// back to the default, and a stored empty text loads as present but
    /// empty.
    pub fn from_row(row: &MsgRow, blocked: Option<Blocked>) -> (r: Message)
        requires
            row.param.wf(),
        ensures
            r.wf(),
            from_row_matches(r, *row, blocked),
    {
        Message {
            id: row.id,
            from_id: row.from_id,
            to_id: row.to_id,
            chat_id: row.chat_id,
            viewtype: row.viewtype,
            state: row.state,
            hidden: row.hidden,
            timestamp_sort: row.timestamp_sort,
            timestamp_sent: row.timestamp_sent,
            timestamp_rcvd: row.timestamp_rcvd,
            text: Some(row.text.clone()),
            rfc724_mid: row.rfc724_mid.clone(),
            in_reply_to: clone_opt_string(&row.in_reply_to),
            server_folder: clone_opt_string(&row.server_folder),
            server_uid: row.server_uid,
            is_dc_message: row.is_dc_message,
            starred: row.starred,
            chat_blocked: match blocked {
                Some(b) => b,
                None => Blocked::Not,
            },
            location_id: row.location_id,
            param: row.param.clone(),
        }
    }
}

/// The aggregate mirrors the stored row, with the body text always
/// present, the parameter bag equal as a map, and the blocked state
/// defaulting when the chat directory had no row.
pub open spec fn from_row_matches(m: Message, row: MsgRow, blocked: Option<Blocked>) -> bool {
    &&& m.id == row.id
    &&& m.from_id == row.from_id
    &&& m.to_id == row.to_id
    &&& m.chat_id == row.chat_id
    &&& m.viewtype == row.viewtype
    &&& m.state == row.state
    &&& m.hidden == row.hidden
    &&& m.timestamp_sort == row.timestamp_sort
    &&& m.timestamp_sent == row.timestamp_sent
    &&& m.timestamp_rcvd == row.timestamp_rcvd
    &&& m.text == Some(row.text)
    &&& m.rfc724_mid == row.rfc724_mid
    &&& m.in_reply_to == row.in_reply_to
    &&& m.server_folder == row.server_folder
    &&& m.server_uid == row.server_uid
    &&& m.is_dc_message == row.is_dc_message
    &&& m.starred == row.starred
    &&& m.chat_blocked == blocked.unwrap_or(Blocked::Not)
    &&& m.location_id == row.location_id
    &&& m.param@ == row.param@
}

fn clone_opt_string(s: &Option<String>) -> (r: Option<String>)
    ensures
        r == *s,
{
    match s {
        Some(v) => Some(v.clone()),
        None => None,
    }
}

/// Loads the full aggregate of a real message id, joining the blocked
/// state of its chat from the directory.
///
/// A reserved id is a caller contract violation and is rejected before
/// touching the store; a missing row reports `NotFound`.
pub fn load_from_db(context: &Context, id: MsgId) -> (r: Result<Message, Error>)
    requires
        context.wf(),
    ensures
        id.spec_is_special() <==> r == Err::<Message, Error>(Error::InvalidIdentity),
        !id.spec_is_special() && !contains_msg(context.msgs@, id) <==> r == Err::<
            Message,
            Error,
        >(Error::NotFound),
        r matches Ok(m) ==> m.wf() && exists|i: int|
            0 <= i < context.msgs@.len() && (#[trigger] context.msgs@[i]).id == id
                && from_row_matches(
                m,
                context.msgs@[i],
                if contains_chat(context.chats@, context.msgs@[i].chat_id) {
                    Some(crate::chat::spec_chat_of(context.chats@, context.msgs@[i].chat_id).blocked)
                } else {
                    None
                },
            ),
{
    if id.is_special() {
        return Err(Error::InvalidIdentity);
    }
    let i = match context.find_msg_index(id) {
        Some(i) => i,
        None => {
            return Err(Error::NotFound);
        },
    };
    let blocked = match context.find_chat_index(context.msgs[i].chat_id) {
        Some(c) => {
            proof {
                let w = choose|w: int|
                    0 <= w < context.chats@.len() && (#[trigger] context.chats@[w]).id
                        == context.msgs@[i as int].chat_id;
                assert(w == c as int);
            }
            Some(context.chats[c].blocked)
        },
        None => None,
    };
    Ok(Message::from_row(&context.msgs[i], blocked))
}

/// The messages table after one message failed: the state moves to
/// `OutFailed` exactly from the states that may fail, and the error text
/// lands in the parameter bag.
pub open spec fn msg_failed_written(
    old_msgs: Seq<MsgRow>,
    new_msgs: Seq<MsgRow>,
    msg_id: MsgId,
    error: Option<Seq<char>>,
) -> bool {
    &&& new_msgs.len() == old_msgs.len()
    &&& forall|i: int|
        0 <= i < old_msgs.len() && (#[trigger] old_msgs[i]).id != msg_id ==> new_msgs[i]
            == old_msgs[i]
    &&& forall|i: int|
        0 <= i < old_msgs.len() && (#[trigger] old_msgs[i]).id == msg_id ==> {
            &&& new_msgs[i] == (MsgRow {
                state: if old_msgs[i].state.spec_can_fail() {
                    MessageState::OutFailed
                } else {
                    old_msgs[i].state
                },
                param: new_msgs[i].param,
                ..old_msgs[i]
            })
            &&& new_msgs[i].param.wf()
            &&& new_msgs[i].param@ == match error {
                Some(e) => old_msgs[i].param@.insert(Param::Error, e),
                None => old_msgs[i].param@,
            }
        }
}

/// Marks a message as unrecoverably failed: the state transitions to
/// `OutFailed` only from the states that may fail (a no-op transition
/// otherwise), the error text is recorded in the parameter bag, and a
/// failure notification scoped to the message's chat is emitted once the
/// write went through.  A reserved or unknown id changes nothing.
pub fn set_msg_failed(context: &mut Context, msg_id: MsgId, error: Option<&str>)
    requires
        old(context).wf(),
    ensures
        final(context).wf(),
        msg_id.spec_is_special() || !contains_msg(old(context).msgs@, msg_id) ==> *final(context)
            == *old(context),
        !msg_id.spec_is_special() && contains_msg(old(context).msgs@, msg_id) ==> {
            &&& *final(context) == (Context {
                msgs: final(context).msgs,
                events: final(context).events,
                ..*old(context)
            })
            &&& msg_failed_written(
                old(context).msgs@,
                final(context).msgs@,
                msg_id,
                match error {
                    Some(e) => Some(e@),
                    None => None,
                },
            )
            &&& exists|i: int|
                0 <= i < old(context).msgs@.len() && (#[trigger] old(context).msgs@[i]).id
                    == msg_id && final(context).events@ == old(context).events@.push(
                    Event::MsgFailed { chat_id: old(context).msgs@[i].chat_id, msg_id },
                )
        },
{
    if msg_id.is_special() {
        return ;
    }
    let i = match context.find_msg_index(msg_id) {
        Some(i) => i,
        None => {
            return ;
        },
    };
    let chat_id = context.msgs[i].chat_id;
    let can_fail = context.msgs[i].state.can_fail();
    let row = &mut context.msgs[i];
    if can_fail {
        row.state = MessageState::OutFailed;
    }
    match error {
        Some(e) => {
            row.param.set(Param::Error, e);
        },
        None => {},
    }
    context.emit_event(Event::MsgFailed { chat_id, msg_id });
}

/// The messages table after writing one starred flag to a set of ids.
pub open spec fn starred_written(
    old_msgs: Seq<MsgRow>,
    new_msgs: Seq<MsgRow>,
    ids: Seq<MsgId>,
    star: bool,
) -> bool {
    &&& new_msgs.len() == old_msgs.len()
    &&& forall|i: int|
        0 <= i < old_msgs.len() && !ids.contains((#[trigger] old_msgs[i]).id) ==> new_msgs[i]
            == old_msgs[i]
    &&& forall|i: int|
        0 <= i < old_msgs.len() && ids.contains((#[trigger] old_msgs[i]).id) ==> new_msgs[i]
            == (MsgRow { starred: star, ..old_msgs[i] })
}

/// Stars or unstars the given messages.  Returns false on an empty list,
/// true otherwise (in this model every write goes through).
pub fn star_msgs(context: &mut Context, msg_ids: Vec<MsgId>, star: bool) -> (r: bool)
    requires
        old(context).wf(),
    ensures
        final(context).wf(),
        r == (msg_ids@.len() > 0),
        *final(context) == (Context { msgs: final(context).msgs, ..*old(context) }),
        starred_written(old(context).msgs@, final(context).msgs@, msg_ids@, star),
{
    let n = msg_ids.len();
    if n == 0 {
        return false;
    }
    let mut k: usize = 0;
    while k < n
        invariant
            old(context).wf(),
            k <= n == msg_ids@.len(),
            *context == (Context { msgs: context.msgs, ..*old(context) }),
            context.wf(),
            starred_written(
                old(context).msgs@,
                context.msgs@,
                msg_ids@.subrange(0, k as int),
                star,
            ),
        decreases n - k,
    {
        let ghost pre_ids = msg_ids@.subrange(0, k as int);
        let ghost next_ids = msg_ids@.subrange(0, k + 1);
        let ghost before = context.msgs@;
        proof {
            assert(next_ids =~= pre_ids.push(msg_ids@[k as int]));
        }
        match context.find_msg_index(msg_ids[k]) {
            Some(j) => {
                proof {
                    // The id of a row survives starring, so the found row
                    // carries the same id as the original table.
                    assert(before[j as int].id == old(context).msgs@[j as int].id) by {
                        if pre_ids.contains(old(context).msgs@[j as int].id) {
                        }
                    }
                }
                let row = &mut context.msgs[j];
                row.starred = star;
                proof {
                    assert forall|i: int|
                        0 <= i < old(context).msgs@.len() && next_ids.contains(
                            (#[trigger] old(context).msgs@[i]).id,
                        ) implies context.msgs@[i] == (MsgRow {
                        starred: star,
                        ..old(context).msgs@[i]
                    }) by {
                        if i != j as int {
                            assert(old(context).msgs@[i].id != old(context).msgs@[j as int].id);
                            assert(pre_ids.contains(old(context).msgs@[i].id));
                        } else {
                            if pre_ids.contains(old(context).msgs@[i].id) {
                            }
                        }
                    }
                    assert forall|i: int|
                        0 <= i < old(context).msgs@.len() && !next_ids.contains(
                            (#[trigger] old(context).msgs@[i]).id,
                        ) implies context.msgs@[i] == old(context).msgs@[i] by {
                        assert(!pre_ids.contains(old(context).msgs@[i].id));
                        assert(next_ids[k as int] == msg_ids@[k as int]);
                        assert(old(context).msgs@[i].id != msg_ids@[k as int]);
                        assert(i != j as int);
                    }
                }
            },
            None => {
                proof {
                    assert forall|i: int|
                        0 <= i < old(context).msgs@.len() && next_ids.contains(
                            (#[trigger] old(context).msgs@[i]).id,
                        ) implies context.msgs@[i] == (MsgRow {
                        starred: star,
                        ..old(context).msgs@[i]
                    }) by {
                        if before[i].id == msg_ids@[k as int] {
                            if pre_ids.contains(old(context).msgs@[i].id) {
                            } else {
                            }
                        }
                        assert(old(context).msgs@[i].id != msg_ids@[k as int] || pre_ids.contains(
                            old(context).msgs@[i].id,
                        ));
                    }
                    assert forall|i: int|
                        0 <= i < old(context).msgs@.len() && !next_ids.contains(
                            (#[trigger] old(context).msgs@[i]).id,
                        ) implies context.msgs@[i] == old(context).msgs@[i] by {
                        assert(!pre_ids.contains(old(context).msgs@[i].id));
                    }
                }
            },
        }
        k += 1;
    }
    proof {
        assert(msg_ids@.subrange(0, n as int) =~= msg_ids@);
    }
    true
}

/// The messages table after relinking every row of a correlation string
/// to a remote folder and server id.
pub open spec fn server_uid_written(
    old_msgs: Seq<MsgRow>,
    new_msgs: Seq<MsgRow>,
    mid: Seq<char>,
    folder: Seq<char>,
    server_uid: u32,
) -> bool {
    &&& new_msgs.len() == old_msgs.len()
    &&& forall|i: int|
        0 <= i < old_msgs.len() && (#[trigger] old_msgs[i]).rfc724_mid@ != mid ==> new_msgs[i]
            == old_msgs[i]
    &&& forall|i: int|
        0 <= i < old_msgs.len() && (#[trigger] old_msgs[i]).rfc724_mid@ == mid ==> {
            &&& new_msgs[i] == (MsgRow {
                server_folder: new_msgs[i].server_folder,
                server_uid,
                ..old_msgs[i]
            })
            &&& new_msgs[i].server_folder matches Some(f) && f@ == folder
        }
}

/// Records where a message now lives on the remote server, on every row
/// carrying the correlation string.
pub fn update_server_uid(
    context: &mut Context,
    rfc724_mid: &str,
    server_folder: &str,
    server_uid: u32,
)
    requires
        old(context).wf(),
    ensures
        final(context).wf(),
        *final(context) == (Context { msgs: final(context).msgs, ..*old(context) }),
        server_uid_written(
            old(context).msgs@,
            final(context).msgs@,
            rfc724_mid@,
            server_folder@,
            server_uid,
        ),
{
    let n = context.msgs.len();
    let mut i: usize = 0;
    while i < n
        invariant
            old(context).wf(),
            i <= n == context.msgs@.len(),
            *context == (Context { msgs: context.msgs, ..*old(context) }),
            context.wf(),
            context.msgs@.len() == old(context).msgs@.len(),
            forall|j: int|
                i <= j < n ==> #[trigger] context.msgs@[j] == old(context).msgs@[j],
            forall|j: int|
                0 <= j < i && (#[trigger] old(context).msgs@[j]).rfc724_mid@ != rfc724_mid@
                    ==> context.msgs@[j] == old(context).msgs@[j],
            forall|j: int|
                0 <= j < i && (#[trigger] old(context).msgs@[j]).rfc724_mid@ == rfc724_mid@
                    ==> {
                    &&& context.msgs@[j] == (MsgRow {
                        server_folder: context.msgs@[j].server_folder,
                        server_uid,
                        ..old(context).msgs@[j]
                    })
                    &&& context.msgs@[j].server_folder matches Some(f) && f@ == server_folder@
                },
        decreases n - i,
    {
        if str_eq(context.msgs[i].rfc724_mid.as_str(), rfc724_mid) {
            let row = &mut context.msgs[i];
            row.server_folder = Some(server_folder.to_owned());
            row.server_uid = server_uid;
        }
        i += 1;
    }
}

/// Full mime headers of the message, when its row exists and headers were
/// kept.
pub fn get_mime_headers(context: &Context, msg_id: MsgId) -> (r: Option<String>)
    ensures
        r is Some <==> contains_msg(context.msgs@, msg_id),
        r matches Some(v) ==> exists|i: int|
            0 <= i < context.msgs@.len() && (#[trigger] context.msgs@[i]).id == msg_id && v@
                == context.msgs@[i].mime_headers@,
{
    match context.find_msg_index(msg_id) {
        Some(i) => Some(context.msgs[i].mime_headers.clone()),
        None => None,
    }
}

/// Number of linked rows carrying the correlation string (rows already
/// unlinked from the server are excluded).
pub open spec fn linked_mid_count(msgs: Seq<MsgRow>, mid: Seq<char>) -> nat
    decreases msgs.len(),
{
    if msgs.len() == 0 {
        0
    } else {
        linked_mid_count(msgs.drop_last(), mid) + if msgs.last().rfc724_mid@ == mid
            && msgs.last().server_uid != 0 {
            1nat
        } else {
            0nat
        }
    }
}

/// Counts the database rows pointing to the correlation string; unlinked
/// rows are excluded.
pub fn rfc724_mid_cnt(context: &Context, rfc724_mid: &str) -> (r: i32)
    requires
        context.msgs@.len() <= i32::MAX,
    ensures
        r == linked_mid_count(context.msgs@, rfc724_mid@),
{
    let n = context.msgs.len();
    let mut cnt: usize = 0;
    let mut i: usize = 0;
    while i < n
        invariant
            i <= n == context.msgs@.len(),
            cnt == linked_mid_count(context.msgs@.subrange(0, i as int), rfc724_mid@),
            cnt <= i,
        decreases n - i,
    {
        proof {
            assert(context.msgs@.subrange(0, i + 1).drop_last() =~= context.msgs@.subrange(
                0,
                i as int,
            ));
            assert(context.msgs@.subrange(0, i + 1).last() == context.msgs@[i as int]);
        }
        if context.msgs[i].server_uid != 0 && str_eq(
            context.msgs[i].rfc724_mid.as_str(),
            rfc724_mid,
        ) {
            cnt += 1;
        }
        i += 1;
    }
    proof {
        assert(context.msgs@.subrange(0, n as int) =~= context.msgs@);
    }
    cnt as i32
}

/// Resolves a correlation string to the first stored row carrying it:
/// its remote folder (empty when unset), server id and local id.  An
/// empty string resolves to nothing.
pub fn rfc724_mid_exists(context: &Context, rfc724_mid: &str) -> (r: Result<
    Option<(String, u32, MsgId)>,
    Error,
>)
    requires
        context.wf(),
    ensures
        r is Ok,
        rfc724_mid@.len() == 0 ==> r == Ok::<Option<(String, u32, MsgId)>, Error>(None),
        r matches Ok(Some(t)) ==> exists|i: int|
            {
                &&& 0 <= i < context.msgs@.len()
                &&& (#[trigger] context.msgs@[i]).rfc724_mid@ == rfc724_mid@
                &&& forall|j: int|
                    0 <= j < i ==> (#[trigger] context.msgs@[j]).rfc724_mid@ != rfc724_mid@
                &&& t.0@ == match context.msgs@[i].server_folder {
                    Some(f) => f@,
                    None => Seq::<char>::empty(),
                }
                &&& t.1 == context.msgs@[i].server_uid
                &&& t.2 == context.msgs@[i].id
            },
        rfc724_mid@.len() > 0 && r == Ok::<Option<(String, u32, MsgId)>, Error>(None)
            ==> forall|i: int|
            0 <= i < context.msgs@.len() ==> (#[trigger] context.msgs@[i]).rfc724_mid@
                != rfc724_mid@,
{
    if rfc724_mid.is_empty() {
        return Ok(None);
    }
    let n = context.msgs.len();
    let mut i: usize = 0;
    while i < n
        invariant
            i <= n == context.msgs@.len(),
            rfc724_mid@.len() > 0,
            forall|j: int|
                0 <= j < i ==> (#[trigger] context.msgs@[j]).rfc724_mid@ != rfc724_mid@,
        decreases n - i,
    {
        if str_eq(context.msgs[i].rfc724_mid.as_str(), rfc724_mid) {
            let folder = match &context.msgs[i].server_folder {
                Some(f) => f.clone(),
                None => String::new(),
            };
            let uid = context.msgs[i].server_uid;
            let id = context.msgs[i].id;
            return Ok(Some((folder, uid, id)));
        }
        i += 1;
    }
    Ok(None)
}

/// What one mark-seen pass does to a single row: inbound triage advances
/// a fresh or noticed message of an unblocked chat to seen, and a fresh
/// message of a blocked chat to noticed; reserved chats and other states
/// are untouched.  A chat without a directory row counts as unblocked.
pub open spec fn markseen_target(row: MsgRow, chats: Seq<crate::chat::Chat>) -> Option<
    MessageState,
> {
    if row.chat_id.spec_to_u32() <= crate::constants::DC_CHAT_ID_LAST_SPECIAL {
        None
    } else {
        let blocked = if contains_chat(chats, row.chat_id) {
            crate::chat::spec_chat_of(chats, row.chat_id).blocked
        } else {
            Blocked::Not
        };
        if blocked == Blocked::Not {
            if row.state == MessageState::InFresh || row.state == MessageState::InNoticed {
                Some(MessageState::InSeen)
            } else {
                None
            }
        } else {
            if row.state == MessageState::InFresh {
                Some(MessageState::InNoticed)
            } else {
                None
            }
        }
    }
}

/// The messages table after marking a list of ids as seen.
pub open spec fn markseen_rows(
    old_msgs: Seq<MsgRow>,
    new_msgs: Seq<MsgRow>,
    chats: Seq<crate::chat::Chat>,
    ids: Seq<MsgId>,
) -> bool {
    &&& new_msgs.len() == old_msgs.len()
    &&& forall|i: int|
        0 <= i < old_msgs.len() && !(ids.contains((#[trigger] old_msgs[i]).id)
            && markseen_target(old_msgs[i], chats) is Some) ==> new_msgs[i] == old_msgs[i]
    &&& forall|i: int|
        0 <= i < old_msgs.len() && ids.contains((#[trigger] old_msgs[i]).id)
            && markseen_target(old_msgs[i], chats) is Some ==> new_msgs[i] == (MsgRow {
            state: markseen_target(old_msgs[i], chats)->0,
            ..old_msgs[i]
        })
}

/// The id at the position fires the remote mark-seen task: it is the
/// first occurrence of the id in the list, and its row advances to seen.
pub open spec fn markseen_fires(
    msgs: Seq<MsgRow>,
    chats: Seq<crate::chat::Chat>,
    ids: Seq<MsgId>,
    k: int,
) -> bool {
    &&& 0 <= k < ids.len()
    &&& forall|k2: int| 0 <= k2 < k ==> ids[k2] != ids[k]
    &&& exists|i: int|
        0 <= i < msgs.len() && (#[trigger] msgs[i]).id == ids[k] && markseen_target(msgs[i], chats)
            == Some(MessageState::InSeen)
}

/// Foreign ids of the remote mark-seen tasks enqueued for the first `k`
/// ids of the list, in order.
pub open spec fn markseen_job_ids(
    msgs: Seq<MsgRow>,
    chats: Seq<crate::chat::Chat>,
    ids: Seq<MsgId>,
    k: int,
) -> Seq<u32>
    decreases k,
{
    if k <= 0 {
        Seq::empty()
    } else {
        markseen_job_ids(msgs, chats, ids, k - 1) + if markseen_fires(msgs, chats, ids, k - 1) {
            seq![ids[k - 1].spec_to_u32()]
        } else {
            Seq::empty()
        }
    }
}

/// Some id of the list changes some row.
pub open spec fn markseen_any(
    msgs: Seq<MsgRow>,
    chats: Seq<crate::chat::Chat>,
    ids: Seq<MsgId>,
) -> bool {
    exists|i: int|
        0 <= i < msgs.len() && ids.contains((#[trigger] msgs[i]).id) && markseen_target(
            msgs[i],
            chats,
        ) is Some
}

/// Marks the given messages as seen, one by one in list order.
///
/// Each advanced fresh or noticed message of an unblocked chat enqueues
/// an at-least-once "mark seen on remote" task (the consumer tolerates a
/// duplicate enqueue); a fresh message of a blocked chat is merely
/// noticed.  One change notification is emitted when anything changed.
/// Returns false only on an empty list.
pub fn markseen_msgs(context: &mut Context, msg_ids: Vec<MsgId>) -> (r: bool)
    requires
        old(context).wf(),
    ensures
        final(context).wf(),
        r == (msg_ids@.len() > 0),
        *final(context) == (Context {
            msgs: final(context).msgs,
            events: final(context).events,
            jobs: final(context).jobs,
            ..*old(context)
        }),
        markseen_rows(old(context).msgs@, final(context).msgs@, old(context).chats@, msg_ids@),
        final(context).events@ == if msg_ids@.len() > 0 && markseen_any(
            old(context).msgs@,
            old(context).chats@,
            msg_ids@,
        ) {
            old(context).events@.push(
                Event::MsgsChanged { chat_id: ChatId(0), msg_id: crate::msgid::msg_id_of(0) },
            )
        } else {
            old(context).events@
        },
        ({
            let jids = markseen_job_ids(
                old(context).msgs@,
                old(context).chats@,
                msg_ids@,
                msg_ids@.len() as int,
            );
            &&& final(context).jobs@.len() == old(context).jobs@.len() + jids.len()
            &&& forall|p: int|
                0 <= p < old(context).jobs@.len() ==> final(context).jobs@[p] == #[trigger] old(
                    context,
                ).jobs@[p]
            &&& forall|p: int|
                0 <= p < jids.len() ==> {
                    let j = #[trigger] final(context).jobs@[old(context).jobs@.len() + p];
                    &&& j.action == Action::MarkseenMsgOnImap
                    &&& j.foreign_id == jids[p]
                    &&& j.delay == 0
                    &&& j.param@ == Map::<Param, Seq<char>>::empty()
                }
        }),
{
    let n = msg_ids.len();
    if n == 0 {
        return false;
    }
    let mut send_event = false;
    let mut k: usize = 0;
    while k < n
        invariant
            old(context).wf(),
            k <= n == msg_ids@.len(),
            *context == (Context {
                msgs: context.msgs,
                jobs: context.jobs,
                ..*old(context)
            }),
            context.wf(),
            markseen_rows(
                old(context).msgs@,
                context.msgs@,
                old(context).chats@,
                msg_ids@.subrange(0, k as int),
            ),
            send_event == markseen_any(
                old(context).msgs@,
                old(context).chats@,
                msg_ids@.subrange(0, k as int),
            ),
            ({
                let jids = markseen_job_ids(
                    old(context).msgs@,
                    old(context).chats@,
                    msg_ids@,
                    k as int,
                );
                &&& context.jobs@.len() == old(context).jobs@.len() + jids.len()
                &&& forall|p: int|
                    0 <= p < old(context).jobs@.len() ==> context.jobs@[p] == #[trigger] old(
                        context,
                    ).jobs@[p]
                &&& forall|p: int|
                    0 <= p < jids.len() ==> {
                        let j = #[trigger] context.jobs@[old(context).jobs@.len() + p];
                        &&& j.action == Action::MarkseenMsgOnImap
                        &&& j.foreign_id == jids[p]
                        &&& j.delay == 0
                        &&& j.param@ == Map::<Param, Seq<char>>::empty()
                    }
            }),
        decreases n - k,
    {
        let id = msg_ids[k];
        let ghost pre_ids = msg_ids@.subrange(0, k as int);
        let ghost next_ids = msg_ids@.subrange(0, k + 1);
        let ghost oldmsgs = old(context).msgs@;
        let ghost chats = old(context).chats@;
        proof {
            assert(next_ids =~= pre_ids.push(msg_ids@[k as int]));
            assert(next_ids[k as int] == msg_ids@[k as int]);
        }
        let ghost prev_jobs = context.jobs@;
        let mut fired_seen = false;
        match context.find_msg_index(id) {
            Some(j) => {
                proof {
                    // ids survive state updates, so the found row carries
                    // the original id at the same position
                    if pre_ids.contains(oldmsgs[j as int].id) && markseen_target(
                        oldmsgs[j as int],
                        chats,
                    ) is Some {
                    }
                    assert(context.msgs@[j as int].id == oldmsgs[j as int].id);
                    assert(context.msgs@[j as int].chat_id == oldmsgs[j as int].chat_id);
                }
                let chat_id = context.msgs[j].chat_id;
                let state = context.msgs[j].state;
                if chat_id.to_u32() > crate::constants::DC_CHAT_ID_LAST_SPECIAL {
                    let blocked = match context.find_chat_index(chat_id) {
                        Some(c) => {
                            proof {
                                let w = choose|w: int|
                                    0 <= w < context.chats@.len() && (
                                    #[trigger] context.chats@[w]).id == chat_id;
                                assert(w == c as int);
                            }
                            context.chats[c].blocked
                        },
                        None => Blocked::Not,
                    };
                    if blocked == Blocked::Not {
                        if state == MessageState::InFresh || state == MessageState::InNoticed {
                            let row = &mut context.msgs[j];
                            row.state = MessageState::InSeen;
                            crate::job::add(
                                context,
                                crate::job::Job::new(
                                    Action::MarkseenMsgOnImap,
                                    id.to_u32(),
                                    Params::new(),
                                    0,
                                ),
                            );
                            send_event = true;
                            fired_seen = true;
                            proof {
                                assert(markseen_target(oldmsgs[j as int], chats) == Some(
                                    MessageState::InSeen,
                                )) by {
                                    if pre_ids.contains(oldmsgs[j as int].id) && markseen_target(
                                        oldmsgs[j as int],
                                        chats,
                                    ) is Some {
                                    }
                                }
                                assert(!pre_ids.contains(oldmsgs[j as int].id)) by {
                                    if pre_ids.contains(oldmsgs[j as int].id) {
                                    }
                                }
                                assert(markseen_fires(oldmsgs, chats, msg_ids@, k as int)) by {
                                    assert forall|k2: int| 0 <= k2 < k implies msg_ids@[k2]
                                        != msg_ids@[k as int] by {
                                        assert(pre_ids[k2] == msg_ids@[k2]);
                                    }
                                }
                            }
                        }
                    } else if state == MessageState::InFresh {
                        let row = &mut context.msgs[j];
                        row.state = MessageState::InNoticed;
                        send_event = true;
                        proof {
                            assert(markseen_target(oldmsgs[j as int], chats) == Some(
                                MessageState::InNoticed,
                            )) by {
                                if pre_ids.contains(oldmsgs[j as int].id) && markseen_target(
                                    oldmsgs[j as int],
                                    chats,
                                ) is Some {
                                }
                            }
                        }
                    }
                }
            },
            None => {},
        }
        proof {
            // rows: every row affected by the extended prefix is either
            // already in its target state or was advanced this iteration
            assert(markseen_rows(oldmsgs, context.msgs@, chats, next_ids)) by {
                assert forall|i: int|
                    0 <= i < oldmsgs.len() && !(next_ids.contains((#[trigger] oldmsgs[i]).id)
                        && markseen_target(oldmsgs[i], chats) is Some) implies context.msgs@[i]
                    == oldmsgs[i] by {
                    assert(!(pre_ids.contains(oldmsgs[i].id) && markseen_target(
                        oldmsgs[i],
                        chats,
                    ) is Some));
                }
            }
            // event flag
            assert(send_event == markseen_any(oldmsgs, chats, next_ids)) by {
                if send_event {
                    if markseen_any(oldmsgs, chats, pre_ids) {
                    }
                } else {
                    if markseen_any(oldmsgs, chats, next_ids) {
                        let i = choose|i: int|
                            0 <= i < oldmsgs.len() && next_ids.contains(
                                (#[trigger] oldmsgs[i]).id,
                            ) && markseen_target(oldmsgs[i], chats) is Some;
                        if pre_ids.contains(oldmsgs[i].id) {
                        } else {
                            assert(oldmsgs[i].id == msg_ids@[k as int]);
                        }
                    }
                }
            }
            // jobs
            assert(markseen_job_ids(oldmsgs, chats, msg_ids@, k + 1) == markseen_job_ids(
                oldmsgs,
                chats,
                msg_ids@,
                k as int,
            ) + if markseen_fires(oldmsgs, chats, msg_ids@, k as int) {
                seq![msg_ids@[k as int].spec_to_u32()]
            } else {
                Seq::<u32>::empty()
            });
            if fired_seen {
            } else {
                assert(!markseen_fires(oldmsgs, chats, msg_ids@, k as int)) by {
                    if markseen_fires(oldmsgs, chats, msg_ids@, k as int) {
                        let i = choose|i: int|
                            0 <= i < oldmsgs.len() && (#[trigger] oldmsgs[i]).id == msg_ids@[
                                k as int
                            ] && markseen_target(oldmsgs[i], chats) == Some(MessageState::InSeen);
                        assert(!pre_ids.contains(oldmsgs[i].id)) by {
                            if pre_ids.contains(oldmsgs[i].id) {
                                let k2 = choose|k2: int|
                                    0 <= k2 < pre_ids.len() && pre_ids[k2] == oldmsgs[i].id;
                                assert(msg_ids@[k2] == msg_ids@[k as int]);
                            }
                        }
                        assert(context.msgs@[i] == oldmsgs[i]);
                    }
                }
                assert(context.jobs@ == prev_jobs);
                assert(markseen_job_ids(oldmsgs, chats, msg_ids@, k + 1) =~= markseen_job_ids(
                    oldmsgs,
                    chats,
                    msg_ids@,
                    k as int,
                ));
            }
        }
        k += 1;
    }
    proof {
        assert(msg_ids@.subrange(0, n as int) =~= msg_ids@);
    }
    if send_event {
        context.emit_event(
            Event::MsgsChanged { chat_id: ChatId::new(0), msg_id: MsgId::new(0) },
        );
    }
    true
}

/// The message row counts as a real message: a real row in a real chat
/// whose directory row exists and is not blocked.
pub open spec fn real_msg_counted(row: MsgRow, chats: Seq<crate::chat::Chat>) -> bool {
    &&& row.id.spec_to_u32() > crate::constants::DC_MSG_ID_LAST_SPECIAL
    &&& row.chat_id.spec_to_u32() > crate::constants::DC_CHAT_ID_LAST_SPECIAL
    &&& contains_chat(chats, row.chat_id)
    &&& crate::chat::spec_chat_of(chats, row.chat_id).blocked == Blocked::Not
}

/// Number of messages assigned to a real, unblocked chat.
pub open spec fn real_msg_count(msgs: Seq<MsgRow>, chats: Seq<crate::chat::Chat>) -> nat
    decreases msgs.len(),
{
    if msgs.len() == 0 {
        0
    } else {
        real_msg_count(msgs.drop_last(), chats) + if real_msg_counted(msgs.last(), chats) {
            1nat
        } else {
            0nat
        }
    }
}

/// The message row sits in the virtual deaddrop: its chat exists and is
/// blocked as a deaddrop.
pub open spec fn deaddrop_counted(row: MsgRow, chats: Seq<crate::chat::Chat>) -> bool {
    &&& contains_chat(chats, row.chat_id)
    &&& crate::chat::spec_chat_of(chats, row.chat_id).blocked == Blocked::Deaddrop
}

/// Number of messages shown in the virtual deaddrop chat.
pub open spec fn deaddrop_msg_count(msgs: Seq<MsgRow>, chats: Seq<crate::chat::Chat>) -> nat
    decreases msgs.len(),
{
    if msgs.len() == 0 {
        0
    } else {
        deaddrop_msg_count(msgs.drop_last(), chats) + if deaddrop_counted(msgs.last(), chats) {
            1nat
        } else {
            0nat
        }
    }
}

/// The number of messages assigned to real chats (neither the deaddrop
/// nor the trash tombstone, nor any blocked chat).
pub fn get_real_msg_cnt(context: &Context) -> (r: i32)
    requires
        context.wf(),
        context.msgs@.len() <= i32::MAX,
    ensures
        r == real_msg_count(context.msgs@, context.chats@),
{
    let n = context.msgs.len();
    let mut cnt: usize = 0;
    let mut i: usize = 0;
    while i < n
        invariant
            context.wf(),
            i <= n == context.msgs@.len(),
            cnt <= i,
            cnt == real_msg_count(context.msgs@.subrange(0, i as int), context.chats@),
        decreases n - i,
    {
        proof {
            assert(context.msgs@.subrange(0, i + 1).drop_last() =~= context.msgs@.subrange(
                0,
                i as int,
            ));
            assert(context.msgs@.subrange(0, i + 1).last() == context.msgs@[i as int]);
        }
        let row = &context.msgs[i];
        let mut counted = false;
        if row.id.to_u32() > crate::constants::DC_MSG_ID_LAST_SPECIAL && row.chat_id.to_u32()
            > crate::constants::DC_CHAT_ID_LAST_SPECIAL {
            match context.find_chat_index(row.chat_id) {
                Some(c) => {
                    proof {
                        let w = choose|w: int|
                            0 <= w < context.chats@.len() && (#[trigger] context.chats@[w]).id
                                == context.msgs@[i as int].chat_id;
                        assert(w == c as int);
                    }
                    counted = context.chats[c].blocked == Blocked::Not;
                },
                None => {},
            }
        }
        if counted {
            cnt += 1;
        }
        i += 1;
    }
    proof {
        assert(context.msgs@.subrange(0, n as int) =~= context.msgs@);
    }
    cnt as i32
}

/// The number of messages waiting in the virtual deaddrop chat.
pub fn get_deaddrop_msg_cnt(context: &Context) -> (r: usize)
    requires
        context.wf(),
    ensures
        r == deaddrop_msg_count(context.msgs@, context.chats@),
{
    let n = context.msgs.len();
    let mut cnt: usize = 0;
    let mut i: usize = 0;
    while i < n
        invariant
            context.wf(),
            i <= n == context.msgs@.len(),
            cnt <= i,
            cnt == deaddrop_msg_count(context.msgs@.subrange(0, i as int), context.chats@),
        decreases n - i,
    {
        proof {
            assert(context.msgs@.subrange(0, i + 1).drop_last() =~= context.msgs@.subrange(
                0,
                i as int,
            ));
            assert(context.msgs@.subrange(0, i + 1).last() == context.msgs@[i as int]);
        }
        let row = &context.msgs[i];
        let mut counted = false;
        match context.find_chat_index(row.chat_id) {
            Some(c) => {
                proof {
                    let w = choose|w: int|
                        0 <= w < context.chats@.len() && (#[trigger] context.chats@[w]).id
                            == context.msgs@[i as int].chat_id;
                    assert(w == c as int);
                }
                counted = context.chats[c].blocked == Blocked::Deaddrop;
            },
            None => {},
        }
        if counted {
            cnt += 1;
        }
        i += 1;
    }
    proof {
        assert(context.msgs@.subrange(0, n as int) =~= context.msgs@);
    }
    cnt
}

/// Kind and mime type guessed from the extension of a file locator.
pub open spec fn spec_guess_msgtype(path: Seq<char>) -> Option<(Viewtype, Seq<char>)> {
    match crate::tools::spec_file_name(path) {
        None => None,
        Some(name) => match crate::tools::spec_extension(name) {
            None => None,
            Some(ext) => spec_guess_from_ext(crate::tools::spec_ascii_lower(ext)),
        },
    }
}

/// Kind and mime type of a known lower-case extension.
pub open spec fn spec_guess_from_ext(ext: Seq<char>) -> Option<(Viewtype, Seq<char>)> {
    if ext == "mp3"@ {
        Some((Viewtype::Audio, "audio/mpeg"@))
    } else if ext == "aac"@ {
        Some((Viewtype::Audio, "audio/aac"@))
    } else if ext == "mp4"@ {
        Some((Viewtype::Video, "video/mp4"@))
    } else if ext == "webm"@ {
        Some((Viewtype::Video, "video/webm"@))
    } else if ext == "jpg"@ || ext == "jpeg"@ || ext == "jpe"@ {
        Some((Viewtype::Image, "image/jpeg"@))
    } else if ext == "png"@ {
        Some((Viewtype::Image, "image/png"@))
    } else if ext == "webp"@ {
        Some((Viewtype::Image, "image/webp"@))
    } else if ext == "gif"@ {
        Some((Viewtype::Gif, "image/gif"@))
    } else if ext == "vcf"@ || ext == "vcard"@ {
        Some((Viewtype::File, "text/vcard"@))
    } else {
        None
    }
}

/// Guesses the content kind and mime type of a file from the extension of
/// its locator (matched case-insensitively over ASCII).
pub fn guess_msgtype_from_suffix(path: &str) -> (r: Option<(Viewtype, String)>)
    ensures
        r matches Some(p) ==> spec_guess_msgtype(path@) matches Some(q) && q.0 == p.0 && q.1
            == p.1@,
        r is None ==> spec_guess_msgtype(path@) is None,
{
    let name = match crate::tools::file_name_part(path) {
        Some(n) => n,
        None => {
            return None;
        },
    };
    let ext_raw = match crate::tools::extension_part(name.as_str()) {
        Some(e) => e,
        None => {
            return None;
        },
    };
    let extension = crate::tools::ascii_lowercase(ext_raw.as_str());
    let e = extension.as_str();
    if str_eq(e, "mp3") {
        Some((Viewtype::Audio, String::from_str("audio/mpeg")))
    } else if str_eq(e, "aac") {
        Some((Viewtype::Audio, String::from_str("audio/aac")))
    } else if str_eq(e, "mp4") {
        Some((Viewtype::Video, String::from_str("video/mp4")))
    } else if str_eq(e, "webm") {
        Some((Viewtype::Video, String::from_str("video/webm")))
    } else if str_eq(e, "jpg") || str_eq(e, "jpeg") || str_eq(e, "jpe") {
        Some((Viewtype::Image, String::from_str("image/jpeg")))
    } else if str_eq(e, "png") {
        Some((Viewtype::Image, String::from_str("image/png")))
    } else if str_eq(e, "webp") {
        Some((Viewtype::Image, String::from_str("image/webp")))
    } else if str_eq(e, "gif") {
        Some((Viewtype::Gif, String::from_str("image/gif")))
    } else if str_eq(e, "vcf") || str_eq(e, "vcard") {
        Some((Viewtype::File, String::from_str("text/vcard")))
    } else {
        None
    }
}

} // verus!
