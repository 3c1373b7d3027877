//! Reserved identifier ranges and the integer-coded enums shared by the
//! message core: content kind, chat kind and blocked state.
//!
//! The enums are persisted as integers; following the persistence-boundary
//! rule of the engine, decoding an unrecognized integer falls back to the
//! safe default variant instead of failing the load.

use vstd::prelude::*;

verus! {

/// Marker shown between search results ("marker1").
pub const DC_MSG_ID_MARKER1: u32 = 1;

/// Marker separating messages of different days.
pub const DC_MSG_ID_DAYMARKER: u32 = 9;

/// Largest reserved message id; everything above denotes a real row.
pub const DC_MSG_ID_LAST_SPECIAL: u32 = 9;

/// Virtual chat showing messages of unknown senders.
pub const DC_CHAT_ID_DEADDROP: u32 = 1;

/// Reserved chat acting as a tombstone for locally deleted messages.
pub const DC_CHAT_ID_TRASH: u32 = 3;

/// Largest reserved chat id.
pub const DC_CHAT_ID_LAST_SPECIAL: u32 = 9;

/// Contact id of the local user.
pub const DC_CONTACT_ID_SELF: u32 = 1;

/// Contact id used for device-internal info messages.
pub const DC_CONTACT_ID_INFO: u32 = 2;

/// Largest reserved contact id.
pub const DC_CONTACT_ID_LAST_SPECIAL: u32 = 9;

/// Character budget for chat list summary lines. In practice, the user
/// additionally cuts the string themselves pixel-accurate.
pub const SUMMARY_CHARACTERS: usize = 160;

/// Content kind of a message ("viewtype").
#[derive(Debug, Copy, Clone, PartialEq, Eq, Structural, Hash)]
pub enum Viewtype {
    Unknown,
    Text,
    Image,
    Gif,
    Sticker,
    Audio,
    Voice,
    Video,
    File,
}

impl Viewtype {
    /// Integer code under which the kind is persisted.
    pub open spec fn spec_to_i64(self) -> i64 {
        match self {
            Viewtype::Unknown => 0,
            Viewtype::Text => 10,
            Viewtype::Image => 20,
            Viewtype::Gif => 21,
            Viewtype::Sticker => 23,
            Viewtype::Audio => 40,
            Viewtype::Voice => 41,
            Viewtype::Video => 50,
            Viewtype::File => 60,
        }
    }

    #[verifier::when_used_as_spec(spec_to_i64)]
    pub fn to_i64(self) -> (r: i64)
        ensures
            r == self.spec_to_i64(),
    {
        match self {
            Viewtype::Unknown => 0,
            Viewtype::Text => 10,
            Viewtype::Image => 20,
            Viewtype::Gif => 21,
            Viewtype::Sticker => 23,
            Viewtype::Audio => 40,
            Viewtype::Voice => 41,
            Viewtype::Video => 50,
            Viewtype::File => 60,
        }
    }

    /// Decodes a persisted integer; unrecognized codes yield `Unknown`.
    pub open spec fn spec_from_i64(v: i64) -> Viewtype {
        if v == 10 {
            Viewtype::Text
        } else if v == 20 {
            Viewtype::Image
        } else if v == 21 {
            Viewtype::Gif
        } else if v == 23 {
            Viewtype::Sticker
        } else if v == 40 {
            Viewtype::Audio
        } else if v == 41 {
            Viewtype::Voice
        } else if v == 50 {
            Viewtype::Video
        } else if v == 60 {
            Viewtype::File
        } else {
            Viewtype::Unknown
        }
    }

    #[verifier::when_used_as_spec(spec_from_i64)]
    pub fn from_i64(v: i64) -> (r: Viewtype)
        ensures
            r == Viewtype::spec_from_i64(v),
    {
        if v == 10 {
            Viewtype::Text
        } else if v == 20 {
            Viewtype::Image
        } else if v == 21 {
            Viewtype::Gif
        } else if v == 23 {
            Viewtype::Sticker
        } else if v == 40 {
            Viewtype::Audio
        } else if v == 41 {
            Viewtype::Voice
        } else if v == 50 {
            Viewtype::Video
        } else if v == 60 {
            Viewtype::File
        } else {
            Viewtype::Unknown
        }
    }
}

impl Viewtype {
    /// Display label of the content kind.
    pub open spec fn spec_display(self) -> Seq<char> {
        match self {
            Viewtype::Unknown => "Unknown"@,
            Viewtype::Text => "Text"@,
            Viewtype::Image => "Image"@,
            Viewtype::Gif => "Gif"@,
            Viewtype::Sticker => "Sticker"@,
            Viewtype::Audio => "Audio"@,
            Viewtype::Voice => "Voice"@,
            Viewtype::Video => "Video"@,
            Viewtype::File => "File"@,
        }
    }

    /// Renders the content kind for display.
    pub fn display_string(self) -> (r: String)
        ensures
            r@ == self.spec_display(),
    {
        match self {
            Viewtype::Unknown => String::from_str("Unknown"),
            Viewtype::Text => String::from_str("Text"),
            Viewtype::Image => String::from_str("Image"),
            Viewtype::Gif => String::from_str("Gif"),
            Viewtype::Sticker => String::from_str("Sticker"),
            Viewtype::Audio => String::from_str("Audio"),
            Viewtype::Voice => String::from_str("Voice"),
            Viewtype::Video => String::from_str("Video"),
            Viewtype::File => String::from_str("File"),
        }
    }
}

impl Default for Viewtype {
    /// The decoder's fallback variant.
    fn default() -> (r: Viewtype)
        ensures
            r == Viewtype::Unknown,
    {
        Viewtype::Unknown
    }
}

/// The integer coding of content kinds is bidirectional on known variants.
pub proof fn lemma_viewtype_code_round_trip(vt: Viewtype)
    ensures
        Viewtype::spec_from_i64(vt.spec_to_i64()) == vt,
{
}

/// Blocked state of a chat.
#[derive(Debug, Copy, Clone, PartialEq, Eq, Structural, Hash)]
pub enum Blocked {
    Not,
    Manually,
    Deaddrop,
}

impl Blocked {
    /// Integer code under which the blocked state is persisted.
    pub open spec fn spec_to_i64(self) -> i64 {
        match self {
            Blocked::Not => 0,
            Blocked::Manually => 1,
            Blocked::Deaddrop => 2,
        }
    }

    #[verifier::when_used_as_spec(spec_to_i64)]
    pub fn to_i64(self) -> (r: i64)
        ensures
            r == self.spec_to_i64(),
    {
        match self {
            Blocked::Not => 0,
            Blocked::Manually => 1,
            Blocked::Deaddrop => 2,
        }
    }

    /// Decodes a persisted integer; unrecognized codes yield `Not`.
    pub open spec fn spec_from_i64(v: i64) -> Blocked {
        if v == 1 {
            Blocked::Manually
        } else if v == 2 {
            Blocked::Deaddrop
        } else {
            Blocked::Not
        }
    }

    #[verifier::when_used_as_spec(spec_from_i64)]
    pub fn from_i64(v: i64) -> (r: Blocked)
        ensures
            r == Blocked::spec_from_i64(v),
    {
        if v == 1 {
            Blocked::Manually
        } else if v == 2 {
            Blocked::Deaddrop
        } else {
            Blocked::Not
        }
    }
}

impl Default for Blocked {
    fn default() -> (r: Blocked)
        ensures
            r == Blocked::Not,
    {
        Blocked::Not
    }
}

/// Kind of a chat.
#[derive(Debug, Copy, Clone, PartialEq, Eq, Structural, Hash)]
pub enum Chattype {
    Undefined,
    Single,
    Group,
    VerifiedGroup,
}

impl Chattype {
    /// Integer code under which the chat kind is persisted.
    pub open spec fn spec_to_i64(self) -> i64 {
        match self {
            Chattype::Undefined => 0,
            Chattype::Single => 100,
            Chattype::Group => 120,
            Chattype::VerifiedGroup => 130,
        }
    }

    #[verifier::when_used_as_spec(spec_to_i64)]
    pub fn to_i64(self) -> (r: i64)
        ensures
            r == self.spec_to_i64(),
    {
        match self {
            Chattype::Undefined => 0,
            Chattype::Single => 100,
            Chattype::Group => 120,
            Chattype::VerifiedGroup => 130,
        }
    }

    /// Decodes a persisted integer; unrecognized codes yield `Undefined`.
    pub open spec fn spec_from_i64(v: i64) -> Chattype {
        if v == 100 {
            Chattype::Single
        } else if v == 120 {
            Chattype::Group
        } else if v == 130 {
            Chattype::VerifiedGroup
        } else {
            Chattype::Undefined
        }
    }

    #[verifier::when_used_as_spec(spec_from_i64)]
    pub fn from_i64(v: i64) -> (r: Chattype)
        ensures
            r == Chattype::spec_from_i64(v),
    {
        if v == 100 {
            Chattype::Single
        } else if v == 120 {
            Chattype::Group
        } else if v == 130 {
            Chattype::VerifiedGroup
        } else {
            Chattype::Undefined
        }
    }
}

impl Default for Chattype {
    fn default() -> (r: Chattype)
        ensures
            r == Chattype::Undefined,
    {
        Chattype::Undefined
    }
}

} // verus!
