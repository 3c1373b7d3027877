use deltachat::chat::{Chat, ChatId};
use deltachat::constants::{Blocked, Chattype, Viewtype};
use deltachat::context::{Context, MsgRow};
use deltachat::error::Error;
use deltachat::events::Event;
use deltachat::job::Action;
use deltachat::message::{
    load_from_db, markseen_msgs, msg_exists, set_msg_failed, star_msgs, update_msg_state,
    MessengerMessage,
};
use deltachat::msgid::MsgId;
use deltachat::param::{Param, Params};
use deltachat::state::MessageState;

fn row(chat_id: u32, state: MessageState) -> MsgRow {
    MsgRow {
        id: MsgId::new_unset(),
        rfc724_mid: "Mr.s@example.com".to_string(),
        in_reply_to: None,
        server_folder: None,
        server_uid: 0,
        chat_id: ChatId::new(chat_id),
        from_id: 11,
        to_id: 1,
        timestamp_sort: 100,
        timestamp_sent: 100,
        timestamp_rcvd: 150,
        viewtype: Viewtype::Text,
        state,
        is_dc_message: MessengerMessage::Yes,
        text: "hello".to_string(),
        txt_raw: "hello".to_string(),
        param: Params::new(),
        starred: false,
        hidden: false,
        location_id: 0,
        mime_headers: "Received: by mail".to_string(),
    }
}

fn ctx_with(chat: Chat) -> Context {
    let mut ctx = Context::new();
    assert!(ctx.add_chat(chat));
    ctx
}

fn unblocked_chat(id: u32) -> Chat {
    Chat { id: ChatId::new(id), typ: Chattype::Single, blocked: Blocked::Not, member_count: 2, contact_id: 11 }
}

#[test]
fn can_fail_is_exact() {
    assert!(MessageState::OutPreparing.can_fail());
    assert!(MessageState::OutPending.can_fail());
    assert!(MessageState::OutDelivered.can_fail());
    assert!(!MessageState::Undefined.can_fail());
    assert!(!MessageState::InFresh.can_fail());
    assert!(!MessageState::InNoticed.can_fail());
    assert!(!MessageState::InSeen.can_fail());
    assert!(!MessageState::OutDraft.can_fail());
    assert!(!MessageState::OutFailed.can_fail());
    assert!(!MessageState::OutMdnRcvd.can_fail());
}

#[test]
fn failed_transition_only_from_failable_states() {
    let mut ctx = ctx_with(unblocked_chat(42));
    let pending = ctx.add_msg(row(42, MessageState::OutPending)).unwrap();
    let draft = ctx.add_msg(row(42, MessageState::OutDraft)).unwrap();

    set_msg_failed(&mut ctx, pending, Some("smtp broke"));
    assert_eq!(ctx.msgs[0].state, MessageState::OutFailed);
    assert_eq!(ctx.msgs[0].param.get(Param::Error), Some("smtp broke".to_string()));
    assert_eq!(
        ctx.events.last(),
        Some(&Event::MsgFailed { chat_id: ChatId::new(42), msg_id: pending })
    );

    // a draft cannot fail: the state write is a no-op
    set_msg_failed(&mut ctx, draft, Some("smtp broke"));
    assert_eq!(ctx.msgs[1].state, MessageState::OutDraft);
}

#[test]
fn state_codes_round_trip() {
    let all = [
        MessageState::Undefined,
        MessageState::InFresh,
        MessageState::InNoticed,
        MessageState::InSeen,
        MessageState::OutPreparing,
        MessageState::OutDraft,
        MessageState::OutPending,
        MessageState::OutFailed,
        MessageState::OutDelivered,
        MessageState::OutMdnRcvd,
    ];
    for s in all {
        assert_eq!(MessageState::from_i64(s.to_i64()), s);
    }
    assert_eq!(MessageState::from_i64(999), MessageState::Undefined);
    assert_eq!(Viewtype::from_i64(999), Viewtype::Unknown);
    assert_eq!(Viewtype::from_i64(41), Viewtype::Voice);
}

#[test]
fn markseen_advances_triage() {
    let mut ctx = ctx_with(unblocked_chat(42));
    let fresh = ctx.add_msg(row(42, MessageState::InFresh)).unwrap();
    let noticed = ctx.add_msg(row(42, MessageState::InNoticed)).unwrap();
    let seen = ctx.add_msg(row(42, MessageState::InSeen)).unwrap();

    assert!(markseen_msgs(&mut ctx, vec![fresh, noticed, seen]));
    assert_eq!(ctx.msgs[0].state, MessageState::InSeen);
    assert_eq!(ctx.msgs[1].state, MessageState::InSeen);
    assert_eq!(ctx.msgs[2].state, MessageState::InSeen);

    // one remote mark-seen task per advanced message, none for the third
    let marked: Vec<u32> = ctx
        .jobs
        .iter()
        .filter(|j| j.action == Action::MarkseenMsgOnImap)
        .map(|j| j.foreign_id)
        .collect();
    assert_eq!(marked, vec![fresh.to_u32(), noticed.to_u32()]);
    // one aggregate notification
    assert_eq!(ctx.events.len(), 1);

    // marking the same messages again changes nothing and emits nothing
    assert!(markseen_msgs(&mut ctx, vec![fresh, noticed, seen]));
    assert_eq!(ctx.events.len(), 1);
    assert_eq!(ctx.jobs.len(), 2);
}

#[test]
fn markseen_blocked_chat_only_notices() {
    let mut ctx = ctx_with(Chat {
        id: ChatId::new(42),
        typ: Chattype::Single,
        blocked: Blocked::Manually,
        member_count: 2,
        contact_id: 11,
    });
    let fresh = ctx.add_msg(row(42, MessageState::InFresh)).unwrap();
    assert!(markseen_msgs(&mut ctx, vec![fresh]));
    assert_eq!(ctx.msgs[0].state, MessageState::InNoticed);
    // no remote task for a blocked chat
    assert_eq!(ctx.jobs.len(), 0);
    assert_eq!(ctx.events.len(), 1);
}

#[test]
fn markseen_empty_returns_false() {
    let mut ctx = ctx_with(unblocked_chat(42));
    assert!(!markseen_msgs(&mut ctx, vec![]));
}

#[test]
fn star_msgs_sets_and_clears() {
    let mut ctx = ctx_with(unblocked_chat(42));
    let a = ctx.add_msg(row(42, MessageState::InSeen)).unwrap();
    let b = ctx.add_msg(row(42, MessageState::InSeen)).unwrap();
    assert!(!star_msgs(&mut ctx, vec![], true));
    assert!(star_msgs(&mut ctx, vec![a, b], true));
    assert!(ctx.msgs[0].starred && ctx.msgs[1].starred);
    assert!(star_msgs(&mut ctx, vec![a], false));
    assert!(!ctx.msgs[0].starred);
    assert!(ctx.msgs[1].starred);
}

#[test]
fn update_msg_state_overwrites() {
    let mut ctx = ctx_with(unblocked_chat(42));
    let a = ctx.add_msg(row(42, MessageState::OutPending)).unwrap();
    assert!(update_msg_state(&mut ctx, a, MessageState::OutDelivered));
    assert_eq!(ctx.msgs[0].state, MessageState::OutDelivered);
}

#[test]
fn load_rejects_special_and_missing_ids() {
    let ctx = ctx_with(unblocked_chat(42));
    assert_eq!(load_from_db(&ctx, MsgId::new(0)).unwrap_err(), Error::InvalidIdentity);
    assert_eq!(load_from_db(&ctx, MsgId::new(9)).unwrap_err(), Error::InvalidIdentity);
    assert_eq!(load_from_db(&ctx, MsgId::new(77)).unwrap_err(), Error::NotFound);
}

#[test]
fn load_joins_chat_blocked_state() {
    let mut ctx = ctx_with(Chat {
        id: ChatId::new(42),
        typ: Chattype::Single,
        blocked: Blocked::Deaddrop,
        member_count: 2,
        contact_id: 11,
    });
    let a = ctx.add_msg(row(42, MessageState::InFresh)).unwrap();
    let m = load_from_db(&ctx, a).unwrap();
    assert_eq!(m.id, a);
    assert_eq!(m.chat_blocked, Blocked::Deaddrop);
    assert_eq!(m.text, Some("hello".to_string()));
    assert_eq!(m.get_chat_id(), ChatId::new(1)); // deaddrop chats display virtually
    assert!(m.get_timestamp() == 100);
}

#[test]
fn existence_check_ignores_trashed_rows() {
    let mut ctx = ctx_with(unblocked_chat(42));
    let a = ctx.add_msg(row(42, MessageState::InSeen)).unwrap();
    assert!(msg_exists(&ctx, a));
    assert!(!msg_exists(&ctx, MsgId::new(5)));
    assert!(!msg_exists(&ctx, MsgId::new(7777)));
    a.trash(&mut ctx).unwrap();
    assert!(!msg_exists(&ctx, a));
}
