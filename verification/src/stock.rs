//! Interface boundary of the localization collaborator: the stock-string
//! identifiers the message core resolves, with their untranslated texts.

use vstd::prelude::*;

verus! {

/// Stock strings the message core asks the localization collaborator for.
#[derive(Debug, Copy, Clone, PartialEq, Eq, Structural, Hash)]
pub enum StockMessage {
    Draft,
    SelfMsg,
    Image,
    Gif,
    Sticker,
    Video,
    VoiceMessage,
    Audio,
    File,
    AcSetupMsgSubject,
    Location,
}

/// Untranslated text of a stock string.
pub open spec fn spec_stock_str(m: StockMessage) -> Seq<char> {
    match m {
        StockMessage::Draft => "Draft"@,
        StockMessage::SelfMsg => "Me"@,
        StockMessage::Image => "Image"@,
        StockMessage::Gif => "GIF"@,
        StockMessage::Sticker => "Sticker"@,
        StockMessage::Video => "Video"@,
        StockMessage::VoiceMessage => "Voice message"@,
        StockMessage::Audio => "Audio"@,
        StockMessage::File => "File"@,
        StockMessage::AcSetupMsgSubject => "Autocrypt Setup Message"@,
        StockMessage::Location => "Location"@,
    }
}

/// Resolves a stock string to its untranslated text.
pub fn stock_str(m: StockMessage) -> (r: String)
    ensures
        r@ == spec_stock_str(m),
{
    match m {
        StockMessage::Draft => String::from_str("Draft"),
        StockMessage::SelfMsg => String::from_str("Me"),
        StockMessage::Image => String::from_str("Image"),
        StockMessage::Gif => String::from_str("GIF"),
        StockMessage::Sticker => String::from_str("Sticker"),
        StockMessage::Video => String::from_str("Video"),
        StockMessage::VoiceMessage => String::from_str("Voice message"),
        StockMessage::Audio => String::from_str("Audio"),
        StockMessage::File => String::from_str("File"),
        StockMessage::AcSetupMsgSubject => String::from_str("Autocrypt Setup Message"),
        StockMessage::Location => String::from_str("Location"),
    }
}

} // verus!
