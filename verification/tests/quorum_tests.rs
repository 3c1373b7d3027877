use deltachat::chat::{Chat, ChatId};
use deltachat::constants::{Blocked, Chattype, Viewtype};
use deltachat::context::{Context, MsgRow};
use deltachat::message::MessengerMessage;
use deltachat::mdn::mdn_from_ext;
use deltachat::msgid::MsgId;
use deltachat::param::Params;
use deltachat::state::MessageState;

fn plain_row(chat_id: u32, from_id: u32, rfc724_mid: &str, state: MessageState) -> MsgRow {
    MsgRow {
        id: MsgId::new_unset(),
        rfc724_mid: rfc724_mid.to_string(),
        in_reply_to: None,
        server_folder: None,
        server_uid: 0,
        chat_id: ChatId::new(chat_id),
        from_id,
        to_id: 10,
        timestamp_sort: 100,
        timestamp_sent: 100,
        timestamp_rcvd: 0,
        viewtype: Viewtype::Text,
        state,
        is_dc_message: MessengerMessage::Yes,
        text: "hi".to_string(),
        txt_raw: "hi".to_string(),
        param: Params::new(),
        starred: false,
        hidden: false,
        location_id: 0,
        mime_headers: String::new(),
    }
}

fn group_context(member_count: u32) -> (Context, ChatId, MsgId) {
    let mut ctx = Context::new();
    let chat_id = ChatId::new(100);
    assert!(ctx.add_chat(Chat {
        id: chat_id,
        typ: Chattype::Group,
        blocked: Blocked::Not,
        member_count,
        contact_id: 0,
    }));
    let msg_id = ctx
        .add_msg(plain_row(100, 1, "Mr.12345@example.com", MessageState::OutDelivered))
        .unwrap();
    (ctx, chat_id, msg_id)
}

#[test]
fn group_quorum_two_of_four() {
    // member_count 4 (including self) requires (4 + 1) / 2 = 2 receipts
    let (mut ctx, chat_id, msg_id) = group_context(4);

    let first = mdn_from_ext(&mut ctx, 11, "Mr.12345@example.com", 1000);
    assert_eq!(first, None);
    assert_eq!(ctx.mdns.len(), 1);
    assert_eq!(ctx.msgs[0].state, MessageState::OutDelivered);

    let second = mdn_from_ext(&mut ctx, 12, "Mr.12345@example.com", 1001);
    assert_eq!(second, Some((chat_id, msg_id)));
    assert_eq!(ctx.mdns.len(), 2);
    assert_eq!(ctx.msgs[0].state, MessageState::OutMdnRcvd);
}

#[test]
fn one_to_one_single_receipt_fires() {
    let mut ctx = Context::new();
    let chat_id = ChatId::new(42);
    assert!(ctx.add_chat(Chat {
        id: chat_id,
        typ: Chattype::Single,
        blocked: Blocked::Not,
        member_count: 99,
        contact_id: 11,
    }));
    let msg_id = ctx
        .add_msg(plain_row(42, 1, "Mr.single@example.com", MessageState::OutPending))
        .unwrap();

    // a single receipt is enough regardless of the member count
    let r = mdn_from_ext(&mut ctx, 11, "Mr.single@example.com", 1000);
    assert_eq!(r, Some((chat_id, msg_id)));
    assert_eq!(ctx.msgs[0].state, MessageState::OutMdnRcvd);
}

#[test]
fn duplicate_receipt_is_idempotent() {
    let (mut ctx, chat_id, msg_id) = group_context(4);

    assert_eq!(mdn_from_ext(&mut ctx, 11, "Mr.12345@example.com", 1000), None);
    assert_eq!(ctx.mdns.len(), 1);

    // the same contact again: no new evidence, no transition
    assert_eq!(mdn_from_ext(&mut ctx, 11, "Mr.12345@example.com", 1002), None);
    assert_eq!(ctx.mdns.len(), 1);
    assert_eq!(ctx.msgs[0].state, MessageState::OutDelivered);

    // a second distinct contact fires the transition exactly once
    assert_eq!(
        mdn_from_ext(&mut ctx, 12, "Mr.12345@example.com", 1003),
        Some((chat_id, msg_id))
    );
    // replaying either receipt afterwards returns nothing
    assert_eq!(mdn_from_ext(&mut ctx, 12, "Mr.12345@example.com", 1004), None);
    assert_eq!(mdn_from_ext(&mut ctx, 11, "Mr.12345@example.com", 1005), None);
    assert_eq!(ctx.mdns.len(), 2);
}

#[test]
fn empty_correlation_string_is_rejected() {
    let (mut ctx, _chat_id, _msg_id) = group_context(4);
    let r = mdn_from_ext(&mut ctx, 11, "", 1000);
    assert_eq!(r, None);
    assert_eq!(ctx.mdns.len(), 0);
    assert_eq!(ctx.msgs[0].state, MessageState::OutDelivered);
    assert_eq!(ctx.events.len(), 0);
}

#[test]
fn reserved_reporting_contact_is_rejected() {
    let (mut ctx, _chat_id, _msg_id) = group_context(4);
    assert_eq!(mdn_from_ext(&mut ctx, 9, "Mr.12345@example.com", 1000), None);
    assert_eq!(ctx.mdns.len(), 0);
}

#[test]
fn unknown_correlation_string_is_dropped() {
    let (mut ctx, _chat_id, _msg_id) = group_context(4);
    assert_eq!(mdn_from_ext(&mut ctx, 11, "Mr.unknown@example.com", 1000), None);
    assert_eq!(ctx.mdns.len(), 0);
}

#[test]
fn receipt_for_terminal_state_still_records_evidence() {
    let mut ctx = Context::new();
    assert!(ctx.add_chat(Chat {
        id: ChatId::new(100),
        typ: Chattype::Group,
        blocked: Blocked::Not,
        member_count: 4,
        contact_id: 0,
    }));
    ctx.add_msg(plain_row(100, 1, "Mr.x@example.com", MessageState::OutMdnRcvd))
        .unwrap();
    // the state is terminal, so no transition fires, but evidence is kept
    assert_eq!(mdn_from_ext(&mut ctx, 11, "Mr.x@example.com", 1000), None);
    assert_eq!(ctx.mdns.len(), 1);
    assert_eq!(ctx.msgs[0].state, MessageState::OutMdnRcvd);
}

#[test]
fn resolution_takes_lowest_message_id() {
    let mut ctx = Context::new();
    assert!(ctx.add_chat(Chat {
        id: ChatId::new(42),
        typ: Chattype::Single,
        blocked: Blocked::Not,
        member_count: 2,
        contact_id: 11,
    }));
    let first = ctx
        .add_msg(plain_row(42, 1, "Mr.dup@example.com", MessageState::OutDelivered))
        .unwrap();
    let _second = ctx
        .add_msg(plain_row(42, 1, "Mr.dup@example.com", MessageState::OutDelivered))
        .unwrap();
    let r = mdn_from_ext(&mut ctx, 11, "Mr.dup@example.com", 1000);
    assert_eq!(r, Some((ChatId::new(42), first)));
}
