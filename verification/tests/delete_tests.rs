use deltachat::chat::{Chat, ChatId};
use deltachat::constants::{Blocked, Chattype, Viewtype, DC_CHAT_ID_TRASH};
use deltachat::context::{Context, LocationRow, MdnRow, MsgRow};
use deltachat::delete::{delete_msgs, delete_poi_location, dc_empty_server, estimate_deletion_cnt};
use deltachat::job::Action;
use deltachat::message::{msg_exists, MessengerMessage};
use deltachat::msgid::MsgId;
use deltachat::param::Params;
use deltachat::state::MessageState;

fn row(chat_id: u32, location_id: u32) -> MsgRow {
    MsgRow {
        id: MsgId::new_unset(),
        rfc724_mid: "Mr.row@example.com".to_string(),
        in_reply_to: None,
        server_folder: Some("INBOX".to_string()),
        server_uid: 7,
        chat_id: ChatId::new(chat_id),
        from_id: 1,
        to_id: 10,
        timestamp_sort: 100,
        timestamp_sent: 100,
        timestamp_rcvd: 0,
        viewtype: Viewtype::Text,
        state: MessageState::OutDelivered,
        is_dc_message: MessengerMessage::Yes,
        text: "some text".to_string(),
        txt_raw: "some raw text".to_string(),
        param: Params::new(),
        starred: false,
        hidden: false,
        location_id,
        mime_headers: String::new(),
    }
}

fn context_with_chat() -> Context {
    let mut ctx = Context::new();
    assert!(ctx.add_chat(Chat {
        id: ChatId::new(42),
        typ: Chattype::Single,
        blocked: Blocked::Not,
        member_count: 2,
        contact_id: 11,
    }));
    ctx
}

#[test]
fn trash_twice_is_idempotent() {
    let mut ctx = context_with_chat();
    let id = ctx.add_msg(row(42, 0)).unwrap();

    assert!(id.trash(&mut ctx).is_ok());
    assert_eq!(ctx.msgs[0].chat_id, ChatId::new(DC_CHAT_ID_TRASH));
    assert_eq!(ctx.msgs[0].text, "");
    assert_eq!(ctx.msgs[0].txt_raw, "");

    // the second call also succeeds and changes nothing further
    assert!(id.trash(&mut ctx).is_ok());
    assert_eq!(ctx.msgs[0].chat_id, ChatId::new(DC_CHAT_ID_TRASH));
    assert_eq!(ctx.msgs[0].text, "");
    assert_eq!(ctx.msgs[0].txt_raw, "");
    assert_eq!(ctx.msgs.len(), 1);
}

#[test]
fn delete_from_db_removes_row_and_evidence() {
    let mut ctx = context_with_chat();
    let id = ctx.add_msg(row(42, 0)).unwrap();
    let other = ctx.add_msg(row(42, 0)).unwrap();
    ctx.mdns.push(MdnRow { msg_id: id, contact_id: 11, timestamp_sent: 5 });
    ctx.mdns.push(MdnRow { msg_id: other, contact_id: 11, timestamp_sent: 6 });

    assert!(id.delete_from_db(&mut ctx).is_ok());
    assert_eq!(ctx.msgs.len(), 1);
    assert_eq!(ctx.msgs[0].id, other);
    assert_eq!(ctx.mdns.len(), 1);
    assert_eq!(ctx.mdns[0].msg_id, other);
    assert!(!msg_exists(&ctx, id));
}

#[test]
fn partial_deletion_never_reports_existence() {
    // The pipeline trashes a message before physically deleting it.  The
    // partial-failure residue is: evidence rows deleted, message row
    // still present (but tombstoned).  Build that state directly.
    let mut ctx = context_with_chat();
    let id = ctx.add_msg(row(42, 0)).unwrap();
    ctx.mdns.push(MdnRow { msg_id: id, contact_id: 11, timestamp_sent: 5 });

    assert!(id.trash(&mut ctx).is_ok());
    // evidence deletion succeeded, message row deletion "failed":
    ctx.mdns.clear();
    assert_eq!(ctx.msgs.len(), 1);

    assert!(!msg_exists(&ctx, id));
}

#[test]
fn unlink_clears_remote_location() {
    let mut ctx = context_with_chat();
    let id = ctx.add_msg(row(42, 0)).unwrap();
    assert!(id.unlink(&mut ctx).is_ok());
    assert_eq!(ctx.msgs[0].server_folder, Some(String::new()));
    assert_eq!(ctx.msgs[0].server_uid, 0);
}

#[test]
fn bulk_delete_coalesces_housekeeping() {
    let mut ctx = context_with_chat();
    let a = ctx.add_msg(row(42, 5)).unwrap();
    let b = ctx.add_msg(row(42, 0)).unwrap();
    ctx.add_location(LocationRow { id: 5, independent: true });
    ctx.add_location(LocationRow { id: 5, independent: false });
    ctx.add_location(LocationRow { id: 6, independent: true });

    delete_msgs(&mut ctx, &[a, b]);

    // both rows tombstoned
    assert!(ctx.msgs.iter().all(|r| r.chat_id == ChatId::new(DC_CHAT_ID_TRASH)));
    // the bound independent location is gone, the others stay
    assert_eq!(ctx.locations.len(), 2);
    assert!(ctx.locations.iter().all(|l| !(l.independent && l.id == 5)));
    // one aggregate notification
    assert_eq!(ctx.events.len(), 1);
    // one remote-deletion task per id, then exactly one housekeeping task
    let deletes: Vec<u32> = ctx
        .jobs
        .iter()
        .filter(|j| j.action == Action::DeleteMsgOnImap)
        .map(|j| j.foreign_id)
        .collect();
    assert_eq!(deletes, vec![a.to_u32(), b.to_u32()]);
    assert_eq!(
        ctx.jobs.iter().filter(|j| j.action == Action::Housekeeping).count(),
        1
    );

    // a second bulk delete coalesces: still a single housekeeping task
    delete_msgs(&mut ctx, &[a]);
    assert_eq!(
        ctx.jobs.iter().filter(|j| j.action == Action::Housekeeping).count(),
        1
    );
    assert_eq!(ctx.jobs.last().unwrap().action, Action::Housekeeping);
    assert_eq!(ctx.jobs.last().unwrap().delay, 10);
}

#[test]
fn empty_bulk_delete_changes_nothing() {
    let mut ctx = context_with_chat();
    ctx.add_msg(row(42, 0)).unwrap();
    delete_msgs(&mut ctx, &[]);
    assert_eq!(ctx.events.len(), 0);
    assert_eq!(ctx.jobs.len(), 0);
    assert_eq!(ctx.msgs[0].chat_id, ChatId::new(42));
}

#[test]
fn poi_location_cleanup_is_scoped() {
    let mut ctx = Context::new();
    ctx.add_location(LocationRow { id: 9, independent: true });
    ctx.add_location(LocationRow { id: 9, independent: false });
    assert!(delete_poi_location(&mut ctx, 9));
    assert_eq!(ctx.locations.len(), 1);
    assert!(!ctx.locations[0].independent);
}

#[test]
fn deletion_estimate_counts_aged_rows() {
    let mut ctx = Context::new();
    // self chat of the local user
    assert!(ctx.add_chat(Chat {
        id: ChatId::new(50),
        typ: Chattype::Single,
        blocked: Blocked::Not,
        member_count: 1,
        contact_id: 1,
    }));
    assert!(ctx.add_chat(Chat {
        id: ChatId::new(42),
        typ: Chattype::Single,
        blocked: Blocked::Not,
        member_count: 2,
        contact_id: 11,
    }));
    let mut aged = row(42, 0);
    aged.timestamp_sort = 10;
    ctx.add_msg(aged).unwrap();
    let mut in_self_chat = row(50, 0);
    in_self_chat.timestamp_sort = 10;
    ctx.add_msg(in_self_chat).unwrap();
    let mut fresh = row(42, 0);
    fresh.timestamp_sort = 999;
    ctx.add_msg(fresh).unwrap();
    let mut unlinked = row(42, 0);
    unlinked.timestamp_sort = 10;
    unlinked.server_uid = 0;
    ctx.add_msg(unlinked).unwrap();

    // aged + unlinked count locally; only aged counts on the server side
    assert_eq!(estimate_deletion_cnt(&ctx, false, 900, 1000), Ok(2));
    assert_eq!(estimate_deletion_cnt(&ctx, true, 900, 1000), Ok(1));
}

#[test]
fn empty_server_task_is_replaced() {
    let mut ctx = Context::new();
    dc_empty_server(&mut ctx, 3);
    dc_empty_server(&mut ctx, 7);
    let empties: Vec<u32> = ctx
        .jobs
        .iter()
        .filter(|j| j.action == Action::EmptyServer)
        .map(|j| j.foreign_id)
        .collect();
    assert_eq!(empties, vec![7]);
}
