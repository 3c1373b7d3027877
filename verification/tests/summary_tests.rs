use deltachat::constants::Viewtype;
use deltachat::message::guess_msgtype_from_suffix;
use deltachat::param::{Param, Params, SystemMessage};
use deltachat::summary::get_summarytext_by_raw;

#[test]
fn test_guess_msgtype_from_suffix() {
    assert_eq!(
        guess_msgtype_from_suffix("foo/bar-sth.mp3"),
        Some((Viewtype::Audio, "audio/mpeg".to_string()))
    );
}

#[test]
fn test_guess_msgtype_more_suffixes() {
    assert_eq!(
        guess_msgtype_from_suffix("photo.JPG"),
        Some((Viewtype::Image, "image/jpeg".to_string()))
    );
    assert_eq!(
        guess_msgtype_from_suffix("anim.gif"),
        Some((Viewtype::Gif, "image/gif".to_string()))
    );
    assert_eq!(
        guess_msgtype_from_suffix("card.vcard"),
        Some((Viewtype::File, "text/vcard".to_string()))
    );
    assert_eq!(guess_msgtype_from_suffix("noext"), None);
    assert_eq!(guess_msgtype_from_suffix(".hidden"), None);
    assert_eq!(guess_msgtype_from_suffix("dir/.."), None);
    assert_eq!(guess_msgtype_from_suffix("clip.mp4"), Some((Viewtype::Video, "video/mp4".to_string())));
}

#[test]
fn test_get_summarytext_by_raw() {
    let some_text = Some("bla bla".to_string());
    let empty_text = Some("".to_string());
    let no_text: Option<String> = None;

    let mut some_file = Params::new();
    some_file.set(Param::File, "foo.bar");

    assert_eq!(
        get_summarytext_by_raw(Viewtype::Text, some_text.as_ref(), &Params::new(), 50),
        "bla bla" // for simple text, the type is not added to the summary
    );

    assert_eq!(
        get_summarytext_by_raw(Viewtype::Image, no_text.as_ref(), &some_file, 50),
        "Image" // file names are not added for images
    );

    assert_eq!(
        get_summarytext_by_raw(Viewtype::Video, no_text.as_ref(), &some_file, 50),
        "Video" // file names are not added for videos
    );

    assert_eq!(
        get_summarytext_by_raw(Viewtype::Gif, no_text.as_ref(), &some_file, 50),
        "GIF" // file names are not added for GIFs
    );

    assert_eq!(
        get_summarytext_by_raw(Viewtype::Sticker, no_text.as_ref(), &some_file, 50),
        "Sticker" // file names are not added for stickers
    );

    assert_eq!(
        get_summarytext_by_raw(Viewtype::Voice, empty_text.as_ref(), &some_file, 50),
        "Voice message" // file names are not added for voice messages, empty text is skipped
    );

    assert_eq!(
        get_summarytext_by_raw(Viewtype::Voice, no_text.as_ref(), &some_file, 50),
        "Voice message" // file names are not added for voice messages
    );

    assert_eq!(
        get_summarytext_by_raw(Viewtype::Voice, some_text.as_ref(), &some_file, 50),
        "Voice message \u{2013} bla bla" // `\u{2013}` explicitly checks for "EN DASH"
    );

    assert_eq!(
        get_summarytext_by_raw(Viewtype::Audio, no_text.as_ref(), &some_file, 50),
        "Audio \u{2013} foo.bar" // file name is added for audio
    );

    assert_eq!(
        get_summarytext_by_raw(Viewtype::Audio, empty_text.as_ref(), &some_file, 50),
        "Audio \u{2013} foo.bar" // file name is added for audio, empty text is not added
    );

    assert_eq!(
        get_summarytext_by_raw(Viewtype::Audio, some_text.as_ref(), &some_file, 50),
        "Audio \u{2013} foo.bar \u{2013} bla bla" // file name and text added for audio
    );

    assert_eq!(
        get_summarytext_by_raw(Viewtype::File, some_text.as_ref(), &some_file, 50),
        "File \u{2013} foo.bar \u{2013} bla bla" // file name is added for files
    );

    let mut asm_file = Params::new();
    asm_file.set(Param::File, "foo.bar");
    asm_file.set_cmd(SystemMessage::AutocryptSetupMessage);
    assert_eq!(
        get_summarytext_by_raw(Viewtype::File, no_text.as_ref(), &asm_file, 50),
        "Autocrypt Setup Message" // file name is not added for autocrypt setup messages
    );
}

#[test]
fn test_summary_whitespace_collapse_and_truncate() {
    let messy = Some("bla\t\n  bla".to_string());
    assert_eq!(
        get_summarytext_by_raw(Viewtype::Text, messy.as_ref(), &Params::new(), 50),
        "bla bla"
    );
    let long = Some("abcdefghij".to_string());
    assert_eq!(
        get_summarytext_by_raw(Viewtype::Text, long.as_ref(), &Params::new(), 4),
        "abcd[...]"
    );
    // a file without a name component falls back to the error marker
    let mut odd_file = Params::new();
    odd_file.set(Param::File, "dir/..");
    assert_eq!(
        get_summarytext_by_raw(Viewtype::Audio, None, &odd_file, 50),
        "Audio \u{2013} ErrFileName"
    );
}
