//! The read-receipt quorum engine.
//!
//! An inbound receipt carries a reporting contact, an opaque correlation
//! string and a sent timestamp.  The engine resolves the string to the
//! lowest-numbered local message sent by the local user, records the
//! receipt idempotently as evidence, and decides whether the message now
//! counts as read by all: immediately for a one-to-one chat, and by a
//! majority-of-members quorum for a group, since mail-transported groups
//! have no universal acknowledgement protocol.

use vstd::prelude::*;

use crate::chat::{spec_chat_of, ChatId};
use crate::constants::{Chattype, DC_CONTACT_ID_SELF, DC_MSG_ID_LAST_SPECIAL};
use crate::context::{
    contains_chat, evidence_count, has_evidence, Context, MdnRow, MsgRow,
};
use crate::message::update_msg_state;
use crate::msgid::MsgId;
use crate::state::MessageState;
use crate::tools::str_eq;

verus! {

/// The row is a candidate for resolving the correlation string: it
/// carries the string and was originally sent by the local user.
pub open spec fn mdn_candidate(msgs: Seq<MsgRow>, mid: Seq<char>, i: int) -> bool {
    &&& 0 <= i < msgs.len()
    &&& msgs[i].rfc724_mid@ == mid
    &&& msgs[i].from_id == DC_CONTACT_ID_SELF
}

/// The row resolves the correlation string: it is the candidate with the
/// lowest message id (the deterministic tie-break when the string maps to
/// multiple local rows).
pub open spec fn resolves_mdn(msgs: Seq<MsgRow>, mid: Seq<char>, i: int) -> bool {
    &&& mdn_candidate(msgs, mid, i)
    &&& forall|j: int|
        mdn_candidate(msgs, mid, j) ==> msgs[i].id.spec_to_u32() <= (#[trigger] msgs[j]).id.spec_to_u32()
}

/// Distinct receipts required before a group message counts as read by
/// all: the majority of the member count (the local user included),
/// using floor division.
pub open spec fn quorum_required(member_count: u32) -> int {
    (member_count + 1) / 2
}

/// Everything one receipt does to the store once its correlation string
/// resolved to the row at position `i`, and what the call returns.
pub open spec fn mdn_resolved_case(
    pre: Context,
    post: Context,
    from_id: u32,
    timestamp_sent: i64,
    r: Option<(ChatId, MsgId)>,
    i: int,
) -> bool {
    let row = pre.msgs@[i];
    if !contains_chat(pre.chats@, row.chat_id) {
        post == pre && r is None
    } else {
        let chat = spec_chat_of(pre.chats@, row.chat_id);
        let recorded = has_evidence(pre.mdns@, row.id, from_id);
        let new_mdns = if recorded {
            pre.mdns@
        } else {
            pre.mdns@.push(
                MdnRow { msg_id: row.id, contact_id: from_id, timestamp_sent },
            )
        };
        let fired = row.state.spec_can_fail() && (chat.typ == Chattype::Single || evidence_count(
            new_mdns,
            row.id,
        ) >= quorum_required(chat.member_count));
        &&& post.mdns@ == new_mdns
        &&& post.msgs@ == if fired {
            pre.msgs@.update(i, MsgRow { state: MessageState::OutMdnRcvd, ..pre.msgs@[i] })
        } else {
            pre.msgs@
        }
        &&& post == (Context { msgs: post.msgs, mdns: post.mdns, ..pre })
        &&& r == if fired {
            Some((row.chat_id, row.id))
        } else {
            None::<(ChatId, MsgId)>
        }
    }
}

/// Full behaviour of one receipt delivery.
///
/// A reserved reporting contact or an empty correlation string is
/// rejected without any change; a string that resolves to no local row is
/// silently dropped (receipts for unknown or expired strings are
/// expected); otherwise the receipt is processed against the resolved
/// row.
pub open spec fn mdn_from_ext_post(
    pre: Context,
    post: Context,
    from_id: u32,
    mid: Seq<char>,
    timestamp_sent: i64,
    r: Option<(ChatId, MsgId)>,
) -> bool {
    if from_id <= DC_MSG_ID_LAST_SPECIAL || mid.len() == 0 {
        post == pre && r is None
    } else if !(exists|i: int| mdn_candidate(pre.msgs@, mid, i)) {
        post == pre && r is None
    } else {
        exists|i: int|
            #[trigger] resolves_mdn(pre.msgs@, mid, i) && mdn_resolved_case(
                pre,
                post,
                from_id,
                timestamp_sent,
                r,
                i,
            )
    }
}

/// Delivers one read receipt: resolves the correlation string, records
/// evidence idempotently, and advances the state to `OutMdnRcvd` when the
/// quorum is reached.  Returns the chat and message exactly on the call
/// whose processing fires the transition: the sole signal for the single
/// "fully read" notification.
pub fn mdn_from_ext(
    context: &mut Context,
    from_id: u32,
    rfc724_mid: &str,
    timestamp_sent: i64,
) -> (r: Option<(ChatId, MsgId)>)
    requires
        old(context).wf(),
    ensures
        final(context).wf(),
        mdn_from_ext_post(
            *old(context),
            *final(context),
            from_id,
            rfc724_mid@,
            timestamp_sent,
            r,
        ),
        rfc724_mid@.len() == 0 ==> *final(context) == *old(context) && r is None,
{
    if from_id <= DC_MSG_ID_LAST_SPECIAL || rfc724_mid.is_empty() {
        return None;
    }
    let resolved = resolve_correlation(context, rfc724_mid);
    let i = match resolved {
        Some(i) => i,
        None => {
            return None;
        },
    };
    let msg_id = context.msgs[i].id;
    let msg_state = context.msgs[i].state;
    let msg_chat_id = context.msgs[i].chat_id;
    let chat = match context.find_chat_index(msg_chat_id) {
        Some(c) => {
            proof {
                let w = choose|w: int|
                    0 <= w < context.chats@.len() && (#[trigger] context.chats@[w]).id
                        == msg_chat_id;
                assert(w == c as int);
            }
            context.chats[c]
        },
        None => {
            return None;
        },
    };
    // Record evidence unless this exact (message, contact) pair already
    // has a row: duplicate receipts never increase the evidence count.
    let already = has_evidence_row(context, msg_id, from_id);
    if !already {
        context.mdns.push(MdnRow { msg_id, contact_id: from_id, timestamp_sent });
        proof {
            assert(context.mdns@.drop_last() =~= old(context).mdns@);
        }
    }
    let ghost mid_ctx = *context;
    if msg_state.can_fail() {
        let fired: bool;
        if chat.typ == Chattype::Single {
            // One-to-one chat: a single receipt is sufficient.
            fired = true;
        } else {
            // Group chat: count distinct reporting contacts against the
            // majority threshold; the member count already includes the
            // local user.
            let ist_cnt = count_evidence(context, msg_id);
            let soll_cnt: u64 = (chat.member_count as u64 + 1) / 2;
            fired = ist_cnt as u64 >= soll_cnt;
        }
        if fired {
            update_msg_state(context, msg_id, MessageState::OutMdnRcvd);
            proof {
                assert(context.msgs@ =~= mid_ctx.msgs@.update(
                    i as int,
                    MsgRow { state: MessageState::OutMdnRcvd, ..mid_ctx.msgs@[i as int] },
                ));
                assert(mdn_resolved_case(
                    *old(context),
                    *context,
                    from_id,
                    timestamp_sent,
                    Some((msg_chat_id, msg_id)),
                    i as int,
                ));
            }
            return Some((msg_chat_id, msg_id));
        }
    }
    proof {
        assert(mdn_resolved_case(
            *old(context),
            *context,
            from_id,
            timestamp_sent,
            None::<(ChatId, MsgId)>,
            i as int,
        ));
    }
    None
}

/// Resolves the correlation string to the candidate row with the lowest
/// id, scoped to messages originally sent by the local user.
fn resolve_correlation(context: &Context, rfc724_mid: &str) -> (r: Option<usize>)
    requires
        context.wf(),
    ensures
        r matches Some(i) ==> resolves_mdn(context.msgs@, rfc724_mid@, i as int),
        r is None ==> !(exists|i: int| mdn_candidate(context.msgs@, rfc724_mid@, i)),
        r is Some <==> exists|i: int| mdn_candidate(context.msgs@, rfc724_mid@, i),
{
    let n = context.msgs.len();
    let mut best: Option<usize> = None;
    let mut i: usize = 0;
    while i < n
        invariant
            context.wf(),
            i <= n == context.msgs@.len(),
            best matches Some(b) ==> b < i && mdn_candidate(context.msgs@, rfc724_mid@, b as int)
                && forall|j: int|
                0 <= j < i && mdn_candidate(context.msgs@, rfc724_mid@, j) ==> context.msgs@[
                    b as int
                ].id.spec_to_u32() <= (#[trigger] context.msgs@[j]).id.spec_to_u32(),
            best is None ==> forall|j: int| 0 <= j < i ==> !mdn_candidate(
                context.msgs@,
                rfc724_mid@,
                j,
            ),
        decreases n - i,
    {
        let row = &context.msgs[i];
        if row.from_id == DC_CONTACT_ID_SELF && str_eq(row.rfc724_mid.as_str(), rfc724_mid) {
            proof {
                assert(mdn_candidate(context.msgs@, rfc724_mid@, i as int));
            }
            match best {
                Some(b) => {
                    if context.msgs[i].id.to_u32() < context.msgs[b].id.to_u32() {
                        best = Some(i);
                    }
                },
                None => {
                    best = Some(i);
                },
            }
        }
        i += 1;
    }
    best
}

/// Whether an evidence row exists for the pair.
fn has_evidence_row(context: &Context, msg_id: MsgId, contact_id: u32) -> (r: bool)
    ensures
        r == has_evidence(context.mdns@, msg_id, contact_id),
{
    let n = context.mdns.len();
    let mut i: usize = 0;
    while i < n
        invariant
            i <= n == context.mdns@.len(),
            forall|j: int|
                0 <= j < i ==> !((#[trigger] context.mdns@[j]).msg_id == msg_id
                    && context.mdns@[j].contact_id == contact_id),
        decreases n - i,
    {
        if context.mdns[i].msg_id == msg_id && context.mdns[i].contact_id == contact_id {
            return true;
        }
        i += 1;
    }
    false
}

/// Counts the evidence rows of the message.
fn count_evidence(context: &Context, msg_id: MsgId) -> (r: usize)
    ensures
        r == evidence_count(context.mdns@, msg_id),
{
    let n = context.mdns.len();
    let mut cnt: usize = 0;
    let mut i: usize = 0;
    while i < n
        invariant
            i <= n == context.mdns@.len(),
            cnt == evidence_count(context.mdns@.subrange(0, i as int), msg_id),
            cnt <= i,
        decreases n - i,
    {
        proof {
            assert(context.mdns@.subrange(0, i + 1).drop_last() =~= context.mdns@.subrange(
                0,
                i as int,
            ));
            assert(context.mdns@.subrange(0, i + 1).last() == context.mdns@[i as int]);
        }
        if context.mdns[i].msg_id == msg_id {
            cnt += 1;
        }
        i += 1;
    }
    proof {
        assert(context.mdns@.subrange(0, n as int) =~= context.mdns@);
    }
    cnt
}

/// Re-delivering a receipt after the transition fired never increases the
/// evidence count and never re-triggers the fired return value: the first
/// firing left the resolved row in the terminal read state, so the second
/// delivery records nothing new and returns nothing.
pub proof fn lemma_receipt_idempotent(
    c0: Context,
    c1: Context,
    c2: Context,
    from_id: u32,
    mid: Seq<char>,
    t1: i64,
    t2: i64,
    r1: Option<(ChatId, MsgId)>,
    r2: Option<(ChatId, MsgId)>,
)
    requires
        c0.wf(),
        mdn_from_ext_post(c0, c1, from_id, mid, t1, r1),
        mdn_from_ext_post(c1, c2, from_id, mid, t2, r2),
        r1 is Some,
    ensures
        r2 is None,
        c2.mdns@ == c1.mdns@,
        forall|m: MsgId| evidence_count(c2.mdns@, m) == evidence_count(c1.mdns@, m),
{
    let i = choose|i: int|
        #[trigger] resolves_mdn(c0.msgs@, mid, i) && mdn_resolved_case(c0, c1, from_id, t1, r1, i);
    let row = c0.msgs@[i];
    assert(contains_chat(c0.chats@, row.chat_id));
    assert(c1.msgs@ == c0.msgs@.update(
        i,
        MsgRow { state: MessageState::OutMdnRcvd, ..c0.msgs@[i] },
    ));
    assert(has_evidence(c1.mdns@, row.id, from_id)) by {
        if has_evidence(c0.mdns@, row.id, from_id) {
            let w = choose|w: int|
                0 <= w < c0.mdns@.len() && (#[trigger] c0.mdns@[w]).msg_id == row.id
                    && c0.mdns@[w].contact_id == from_id;
            assert(c1.mdns@[w].msg_id == row.id && c1.mdns@[w].contact_id == from_id);
        } else {
            let w = c1.mdns@.len() - 1;
            assert(c1.mdns@[w].msg_id == row.id && c1.mdns@[w].contact_id == from_id);
        }
    }
    // The same row resolves the second delivery: ids, correlation strings
    // and senders are untouched by the state update.
    assert(mdn_candidate(c1.msgs@, mid, i));
    assert(resolves_mdn(c1.msgs@, mid, i)) by {
        assert forall|j: int| mdn_candidate(c1.msgs@, mid, j) implies c1.msgs@[
            i
        ].id.spec_to_u32() <= (#[trigger] c1.msgs@[j]).id.spec_to_u32() by {
            assert(mdn_candidate(c0.msgs@, mid, j));
        }
    }
    let i2 = choose|k: int|
        #[trigger] resolves_mdn(c1.msgs@, mid, k) && mdn_resolved_case(c1, c2, from_id, t2, r2, k);
    // Resolving rows are unique: message ids are pairwise distinct.
    assert(i2 == i) by {
        assert(mdn_candidate(c1.msgs@, mid, i2));
        assert(c1.msgs@[i2].id.spec_to_u32() <= c1.msgs@[i].id.spec_to_u32());
        assert(c1.msgs@[i].id.spec_to_u32() <= c1.msgs@[i2].id.spec_to_u32());
        assert(c1.msgs@[i2].id == c1.msgs@[i].id);
        if i2 != i {
            if i2 < i {
                assert(c0.msgs@[i2].id != c0.msgs@[i].id);
            } else {
                assert(c0.msgs@[i].id != c0.msgs@[i2].id);
            }
        }
    }
    assert(contains_chat(c1.chats@, c1.msgs@[i].chat_id));
    assert(!c1.msgs@[i].state.spec_can_fail());
}

} // verus!
