use deltachat::chat::{get_chat_contact_cnt, lookup_by_contact_id, Chat, ChatId};
use deltachat::constants::{Blocked, Chattype, Viewtype};
use deltachat::contact::Contact;
use deltachat::context::{Context, MdnRow, MsgRow};
use deltachat::headerdef::HeaderDef;
use deltachat::info::get_msg_info;
use deltachat::lot::{LotState, Meaning};
use deltachat::message::{
    get_deaddrop_msg_cnt, get_mime_headers, get_real_msg_cnt, rfc724_mid_cnt, rfc724_mid_exists,
    update_server_uid, Message, MessengerMessage,
};
use deltachat::msgid::MsgId;
use deltachat::param::{Param, Params, SystemMessage};
use deltachat::state::MessageState;

fn row(chat_id: u32, mid: &str) -> MsgRow {
    MsgRow {
        id: MsgId::new_unset(),
        rfc724_mid: mid.to_string(),
        in_reply_to: None,
        server_folder: Some("INBOX".to_string()),
        server_uid: 7,
        chat_id: ChatId::new(chat_id),
        from_id: 1,
        to_id: 11,
        timestamp_sort: 100,
        timestamp_sent: 123,
        timestamp_rcvd: 0,
        viewtype: Viewtype::Text,
        state: MessageState::OutDelivered,
        is_dc_message: MessengerMessage::Yes,
        text: "hello".to_string(),
        txt_raw: "  hello raw \n".to_string(),
        param: Params::new(),
        starred: false,
        hidden: false,
        location_id: 0,
        mime_headers: "Received: by mail".to_string(),
    }
}

#[test]
fn msgid_predicates_and_display() {
    assert!(MsgId::new(0).is_special());
    assert!(MsgId::new(0).is_unset());
    assert!(MsgId::new(9).is_special());
    assert!(!MsgId::new(10).is_special());
    assert!(!MsgId::new(u32::MAX).is_special());
    assert!(MsgId::new(1).is_marker1());
    assert!(MsgId::new(9).is_daymarker());
    assert_eq!(MsgId::new_unset().to_u32(), 0);
    assert_eq!(MsgId::new(1).display_string(), "Msg#Marker1");
    assert_eq!(MsgId::new(9).display_string(), "Msg#DayMarker");
    assert_eq!(MsgId::new(5).display_string(), "Msg#UnknownSpecial");
    assert_eq!(MsgId::new(4207).display_string(), "Msg#4207");
}

#[test]
fn header_names_are_kebab_case() {
    assert_eq!(HeaderDef::MessageId.get_headername(), "message-id");
    assert_eq!(HeaderDef::From_.get_headername(), "from");
    assert_eq!(HeaderDef::ChatGroupMemberRemoved.get_headername(), "chat-group-member-removed");
    assert_eq!(HeaderDef::_TestHeader.get_headername(), "test-header");
}

#[test]
fn param_bag_accessors() {
    let mut p = Params::new();
    assert!(!p.exists_key(Param::Width));
    p.set_int(Param::Width, -640);
    p.set(Param::File, "a/b.txt");
    p.set(Param::File, "c.txt");
    assert_eq!(p.get(Param::File), Some("c.txt".to_string()));
    assert_eq!(p.get_int(Param::Width), Some(-640));
    assert_eq!(p.get_int(Param::File), None);
    assert!(p.exists_key(Param::Width));
    p.remove(Param::Width);
    assert_eq!(p.get(Param::Width), None);
    p.set_cmd(SystemMessage::LocationOnly);
    assert_eq!(p.get_cmd(), SystemMessage::LocationOnly);
    let q = p.clone();
    assert_eq!(q.get(Param::File), Some("c.txt".to_string()));
}

#[test]
fn message_param_queries() {
    let mut m = Message::new(Viewtype::Image);
    assert_eq!(m.get_viewtype(), Viewtype::Image);
    assert!(m.get_id().is_unset());
    m.set_dimension(640, 480);
    m.set_duration(1000);
    m.set_file("dir/photo.jpg", None);
    assert_eq!(m.get_width(), 640);
    assert_eq!(m.get_height(), 480);
    assert_eq!(m.get_duration(), 1000);
    assert_eq!(m.get_filename(), Some("photo.jpg".to_string()));
    assert_eq!(m.get_file(), Some("dir/photo.jpg".to_string()));
    assert_eq!(m.get_filemime(), Some("image/jpeg".to_string()));
    m.set_file("archive.xyz", Some("application/zip"));
    assert_eq!(m.get_filemime(), Some("application/zip".to_string()));
    assert!(!m.get_showpadlock());
    m.param.set_int(Param::GuaranteeE2ee, 1);
    assert!(m.get_showpadlock());
    assert!(!m.is_forwarded());
    m.param.set_int(Param::Forwarded, 1);
    assert!(m.is_forwarded());
    m.set_text(Some("body".to_string()));
    assert_eq!(m.get_text(), Some("body".to_string()));
    assert!(m.is_increation() == false);
}

#[test]
fn setup_message_detection() {
    let mut m = Message::new(Viewtype::File);
    assert!(!m.is_setupmessage());
    m.param.set_cmd(SystemMessage::AutocryptSetupMessage);
    assert!(m.is_setupmessage());
    assert!(m.is_info() == false); // the setup command is not an info message
    let headers = vec![
        ("version".to_string(), "1".to_string()),
        ("passphrase-begin".to_string(), "42".to_string()),
    ];
    assert_eq!(m.get_setupcodebegin(true, &headers), Some("42".to_string()));
    assert_eq!(m.get_setupcodebegin(false, &headers), None);
    assert_eq!(m.get_setupcodebegin(true, &vec![]), None);
}

#[test]
fn correlation_string_queries() {
    let mut ctx = Context::new();
    assert!(ctx.add_chat(Chat {
        id: ChatId::new(42),
        typ: Chattype::Single,
        blocked: Blocked::Not,
        member_count: 2,
        contact_id: 11,
    }));
    let a = ctx.add_msg(row(42, "Mr.a@example.com")).unwrap();
    let mut unlinked = row(42, "Mr.a@example.com");
    unlinked.server_uid = 0;
    ctx.add_msg(unlinked).unwrap();

    assert_eq!(rfc724_mid_cnt(&ctx, "Mr.a@example.com"), 1);
    assert_eq!(rfc724_mid_exists(&ctx, ""), Ok(None));
    assert_eq!(
        rfc724_mid_exists(&ctx, "Mr.a@example.com"),
        Ok(Some(("INBOX".to_string(), 7, a)))
    );
    assert_eq!(rfc724_mid_exists(&ctx, "Mr.b@example.com"), Ok(None));

    update_server_uid(&mut ctx, "Mr.a@example.com", "Archive", 9);
    assert_eq!(ctx.msgs[0].server_folder, Some("Archive".to_string()));
    assert_eq!(ctx.msgs[0].server_uid, 9);
    assert_eq!(ctx.msgs[1].server_uid, 9);

    assert_eq!(get_mime_headers(&ctx, a), Some("Received: by mail".to_string()));
    assert_eq!(get_mime_headers(&ctx, MsgId::new(4207)), None);
}

#[test]
fn message_counts() {
    let mut ctx = Context::new();
    assert!(ctx.add_chat(Chat {
        id: ChatId::new(42),
        typ: Chattype::Single,
        blocked: Blocked::Not,
        member_count: 2,
        contact_id: 11,
    }));
    assert!(ctx.add_chat(Chat {
        id: ChatId::new(43),
        typ: Chattype::Single,
        blocked: Blocked::Deaddrop,
        member_count: 2,
        contact_id: 12,
    }));
    ctx.add_msg(row(42, "Mr.a@example.com")).unwrap();
    ctx.add_msg(row(42, "Mr.b@example.com")).unwrap();
    ctx.add_msg(row(43, "Mr.c@example.com")).unwrap();
    assert_eq!(get_real_msg_cnt(&ctx), 2);
    assert_eq!(get_deaddrop_msg_cnt(&ctx), 1);
}

#[test]
fn chat_directory_queries() {
    let mut ctx = Context::new();
    assert!(ctx.add_chat(Chat {
        id: ChatId::new(100),
        typ: Chattype::Group,
        blocked: Blocked::Not,
        member_count: 4,
        contact_id: 0,
    }));
    assert_eq!(get_chat_contact_cnt(&ctx, ChatId::new(100)), 4);
    assert_eq!(get_chat_contact_cnt(&ctx, ChatId::new(7)), 0);
    assert_eq!(lookup_by_contact_id(&ctx, 11), None);
    assert!(ctx.add_chat(Chat {
        id: ChatId::new(101),
        typ: Chattype::Single,
        blocked: Blocked::Not,
        member_count: 2,
        contact_id: 11,
    }));
    assert_eq!(lookup_by_contact_id(&ctx, 11), Some((ChatId::new(101), Blocked::Not)));
    assert!(ChatId::new(3).is_trash());
    assert!(ChatId::new(1).is_deaddrop());
    assert!(ChatId::new(9).is_special());
    assert!(!ChatId::new(10).is_special());
}

#[test]
fn contact_name_forms() {
    let c = Contact { id: 11, name: "Alice Wonder".to_string(), addr: "alice@example.com".to_string() };
    assert_eq!(c.get_display_name(), "Alice Wonder");
    assert_eq!(c.get_first_name(), "Alice");
    assert_eq!(c.get_name_n_addr(), "Alice Wonder (alice@example.com)");
    let unnamed = Contact { id: 12, name: String::new(), addr: "bob@example.com".to_string() };
    assert_eq!(unnamed.get_display_name(), "bob@example.com");
    assert_eq!(unnamed.get_first_name(), "bob@example.com");
    assert_eq!(unnamed.get_name_n_addr(), "bob@example.com");
}

#[test]
fn summary_fill_attribution() {
    let mut ctx = Context::new();
    assert!(ctx.add_chat(Chat {
        id: ChatId::new(100),
        typ: Chattype::Group,
        blocked: Blocked::Not,
        member_count: 3,
        contact_id: 0,
    }));
    assert!(ctx.add_contact(Contact {
        id: 11,
        name: "Alice Wonder".to_string(),
        addr: "alice@example.com".to_string(),
    }));
    let mut m = Message::new(Viewtype::Text);
    m.chat_id = ChatId::new(100);
    m.from_id = 11;
    m.state = MessageState::InSeen;
    m.timestamp_sent = 123;
    m.set_text(Some("hi all".to_string()));

    let lot = m.get_summary(&ctx, None);
    assert_eq!(lot.text1, Some("Alice".to_string()));
    assert_eq!(lot.text1_meaning, Meaning::Text1Username);
    assert_eq!(lot.text2, Some("hi all".to_string()));
    assert_eq!(lot.timestamp, 123);
    assert_eq!(lot.state, LotState::MsgInSeen);

    // drafts show the draft marker instead
    let mut draft = Message::new(Viewtype::Text);
    draft.chat_id = ChatId::new(100);
    draft.from_id = 1;
    draft.state = MessageState::OutDraft;
    draft.set_text(Some("unsent".to_string()));
    let lot = draft.get_summary(&ctx, None);
    assert_eq!(lot.text1, Some("Draft".to_string()));
    assert_eq!(lot.text1_meaning, Meaning::Text1Draft);
    assert_eq!(lot.state, LotState::MsgOutDraft);

    // messages of the local user show the self marker
    let mut own = Message::new(Viewtype::Text);
    own.chat_id = ChatId::new(100);
    own.from_id = 1;
    own.state = MessageState::OutDelivered;
    own.set_text(Some("mine".to_string()));
    let lot = own.get_summary(&ctx, None);
    assert_eq!(lot.text1, Some("Me".to_string()));
    assert_eq!(lot.text1_meaning, Meaning::Text1Self);
    assert!(own.is_sent());
}

#[test]
fn deviating_timestamp_compares_days() {
    let mut m = Message::new(Viewtype::Text);
    m.timestamp_sort = 86400;
    m.timestamp_sent = 86400;
    assert!(!m.has_deviating_timestamp(0));
    m.timestamp_sent = 86399;
    assert!(m.has_deviating_timestamp(0));
    // a local offset can push both into the same day again
    assert!(!m.has_deviating_timestamp(1));
}

#[test]
fn msg_info_report() {
    let mut ctx = Context::new();
    assert!(ctx.add_chat(Chat {
        id: ChatId::new(42),
        typ: Chattype::Single,
        blocked: Blocked::Not,
        member_count: 2,
        contact_id: 11,
    }));
    assert!(ctx.add_contact(Contact {
        id: 1,
        name: "Me Myself".to_string(),
        addr: "self@example.com".to_string(),
    }));
    assert!(ctx.add_contact(Contact {
        id: 11,
        name: "Alice Wonder".to_string(),
        addr: "alice@example.com".to_string(),
    }));
    let id = ctx.add_msg(row(42, "Mr.info@example.com")).unwrap();
    ctx.mdns.push(MdnRow { msg_id: id, contact_id: 11, timestamp_sent: 456 });

    let report = get_msg_info(&ctx, id, 0).unwrap();
    assert_eq!(
        report,
        "Sent: 123 by Me Myself (self@example.com)\n\
         Read: 456 by Alice Wonder (alice@example.com)\n\
         State: Delivered\n\
         \nhello raw\n\
         \nMessage-ID: Mr.info@example.com\
         \nLast seen as: INBOX/7"
    );

    assert_eq!(get_msg_info(&ctx, MsgId::new(5), 0).unwrap_err(), deltachat::error::Error::InvalidIdentity);
    assert_eq!(get_msg_info(&ctx, MsgId::new(4207), 0).unwrap_err(), deltachat::error::Error::NotFound);
}

#[test]
fn msg_info_propagates_missing_contacts() {
    let mut ctx = Context::new();
    assert!(ctx.add_chat(Chat {
        id: ChatId::new(42),
        typ: Chattype::Single,
        blocked: Blocked::Not,
        member_count: 2,
        contact_id: 11,
    }));
    // the sender is not in the directory: the report fails
    let id = ctx.add_msg(row(42, "Mr.info@example.com")).unwrap();
    assert_eq!(get_msg_info(&ctx, id, 0).unwrap_err(), deltachat::error::Error::NotFound);

    // with the sender known, the report succeeds
    assert!(ctx.add_contact(Contact {
        id: 1,
        name: "Me Myself".to_string(),
        addr: "self@example.com".to_string(),
    }));
    assert!(get_msg_info(&ctx, id, 0).is_ok());

    // a receipt naming an unknown contact fails the report again
    ctx.mdns.push(MdnRow { msg_id: id, contact_id: 999, timestamp_sent: 456 });
    assert_eq!(get_msg_info(&ctx, id, 0).unwrap_err(), deltachat::error::Error::NotFound);
}

#[test]
fn directory_inserts_refuse_exactly_duplicates() {
    let mut ctx = Context::new();
    let chat = Chat {
        id: ChatId::new(42),
        typ: Chattype::Single,
        blocked: Blocked::Not,
        member_count: 2,
        contact_id: 11,
    };
    assert!(ctx.add_chat(chat));
    assert!(!ctx.add_chat(chat));
    let contact = Contact { id: 11, name: String::new(), addr: "a@example.com".to_string() };
    assert!(ctx.add_contact(contact.clone()));
    assert!(!ctx.add_contact(contact));
    assert_eq!(ctx.chats.len(), 1);
    assert_eq!(ctx.contacts.len(), 1);
}
