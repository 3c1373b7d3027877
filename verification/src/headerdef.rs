//! Mail header names used by the engine, each rendered in its canonical
//! lower-case wire form.

use vstd::prelude::*;

verus! {

/// Known mail headers.
#[derive(Debug, Clone, PartialEq, Eq, Structural)]
#[allow(dead_code)]
pub enum HeaderDef {
    MessageId,
    Subject,
    Date,
    From_,
    To,
    Cc,
    Disposition,
    OriginalMessageId,
    ListId,
    References,
    InReplyTo,
    Precedence,
    ChatVersion,
    ChatGroupId,
    ChatGroupName,
    ChatGroupNameChanged,
    ChatVerified,
    ChatGroupImage,
    ChatVoiceMessage,
    ChatGroupMemberRemoved,
    ChatGroupMemberAdded,
    ChatContent,
    ChatDuration,
    ChatDispositionNotificationTo,
    AutocryptSetupMessage,
    SecureJoin,
    SecureJoinGroup,
    SecureJoinFingerprint,
    SecureJoinInvitenumber,
    SecureJoinAuth,
    _TestHeader,
}

impl HeaderDef {
    /// Wire form of the header name: the variant name in kebab case.
    pub open spec fn spec_headername(self) -> Seq<char> {
        match self {
            HeaderDef::MessageId => "message-id"@,
            HeaderDef::Subject => "subject"@,
            HeaderDef::Date => "date"@,
            HeaderDef::From_ => "from"@,
            HeaderDef::To => "to"@,
            HeaderDef::Cc => "cc"@,
            HeaderDef::Disposition => "disposition"@,
            HeaderDef::OriginalMessageId => "original-message-id"@,
            HeaderDef::ListId => "list-id"@,
            HeaderDef::References => "references"@,
            HeaderDef::InReplyTo => "in-reply-to"@,
            HeaderDef::Precedence => "precedence"@,
            HeaderDef::ChatVersion => "chat-version"@,
            HeaderDef::ChatGroupId => "chat-group-id"@,
            HeaderDef::ChatGroupName => "chat-group-name"@,
            HeaderDef::ChatGroupNameChanged => "chat-group-name-changed"@,
            HeaderDef::ChatVerified => "chat-verified"@,
            HeaderDef::ChatGroupImage => "chat-group-image"@,
            HeaderDef::ChatVoiceMessage => "chat-voice-message"@,
            HeaderDef::ChatGroupMemberRemoved => "chat-group-member-removed"@,
            HeaderDef::ChatGroupMemberAdded => "chat-group-member-added"@,
            HeaderDef::ChatContent => "chat-content"@,
            HeaderDef::ChatDuration => "chat-duration"@,
            HeaderDef::ChatDispositionNotificationTo => "chat-disposition-notification-to"@,
            HeaderDef::AutocryptSetupMessage => "autocrypt-setup-message"@,
            HeaderDef::SecureJoin => "secure-join"@,
            HeaderDef::SecureJoinGroup => "secure-join-group"@,
            HeaderDef::SecureJoinFingerprint => "secure-join-fingerprint"@,
            HeaderDef::SecureJoinInvitenumber => "secure-join-invitenumber"@,
            HeaderDef::SecureJoinAuth => "secure-join-auth"@,
            HeaderDef::_TestHeader => "test-header"@,
        }
    }

    /// Returns the header name to put on the wire.
    pub fn get_headername(&self) -> (r: String)
        ensures
            r@ == self.spec_headername(),
    {
        match self {
            HeaderDef::MessageId => String::from_str("message-id"),
            HeaderDef::Subject => String::from_str("subject"),
            HeaderDef::Date => String::from_str("date"),
            HeaderDef::From_ => String::from_str("from"),
            HeaderDef::To => String::from_str("to"),
            HeaderDef::Cc => String::from_str("cc"),
            HeaderDef::Disposition => String::from_str("disposition"),
            HeaderDef::OriginalMessageId => String::from_str("original-message-id"),
            HeaderDef::ListId => String::from_str("list-id"),
            HeaderDef::References => String::from_str("references"),
            HeaderDef::InReplyTo => String::from_str("in-reply-to"),
            HeaderDef::Precedence => String::from_str("precedence"),
            HeaderDef::ChatVersion => String::from_str("chat-version"),
            HeaderDef::ChatGroupId => String::from_str("chat-group-id"),
            HeaderDef::ChatGroupName => String::from_str("chat-group-name"),
            HeaderDef::ChatGroupNameChanged => String::from_str("chat-group-name-changed"),
            HeaderDef::ChatVerified => String::from_str("chat-verified"),
            HeaderDef::ChatGroupImage => String::from_str("chat-group-image"),
            HeaderDef::ChatVoiceMessage => String::from_str("chat-voice-message"),
            HeaderDef::ChatGroupMemberRemoved => String::from_str("chat-group-member-removed"),
            HeaderDef::ChatGroupMemberAdded => String::from_str("chat-group-member-added"),
            HeaderDef::ChatContent => String::from_str("chat-content"),
            HeaderDef::ChatDuration => String::from_str("chat-duration"),
            HeaderDef::ChatDispositionNotificationTo => String::from_str(
                "chat-disposition-notification-to",
            ),
            HeaderDef::AutocryptSetupMessage => String::from_str("autocrypt-setup-message"),
            HeaderDef::SecureJoin => String::from_str("secure-join"),
            HeaderDef::SecureJoinGroup => String::from_str("secure-join-group"),
            HeaderDef::SecureJoinFingerprint => String::from_str("secure-join-fingerprint"),
            HeaderDef::SecureJoinInvitenumber => String::from_str("secure-join-invitenumber"),
            HeaderDef::SecureJoinAuth => String::from_str("secure-join-auth"),
            HeaderDef::_TestHeader => String::from_str("test-header"),
        }
    }
}

} // verus!
