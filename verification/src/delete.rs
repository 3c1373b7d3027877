//! The deletion and retention pipeline: tombstoning, physical deletion,
//! bulk-delete coalescing and housekeeping scheduling.

use vstd::prelude::*;

use crate::chat::ChatId;
use crate::constants::DC_CHAT_ID_TRASH;
use crate::context::{contains_msg, Context, LocationRow, MdnRow, MsgRow};
use crate::error::Error;
use crate::events::Event;
use crate::job::{Action, Job};
use crate::msgid::MsgId;
use crate::param::{Param, Params};


verus! {

/// The messages table after reparenting one id to the trash chat and
/// clearing its texts; rows of other ids are untouched.
pub open spec fn trashed(old_msgs: Seq<MsgRow>, new_msgs: Seq<MsgRow>, id: MsgId) -> bool {
    &&& new_msgs.len() == old_msgs.len()
    &&& forall|i: int|
        0 <= i < old_msgs.len() && (#[trigger] old_msgs[i]).id != id ==> new_msgs[i]
            == old_msgs[i]
    &&& forall|i: int|
        0 <= i < old_msgs.len() && (#[trigger] old_msgs[i]).id == id ==> {
            &&& new_msgs[i] == (MsgRow {
                chat_id: ChatId(DC_CHAT_ID_TRASH),
                text: new_msgs[i].text,
                txt_raw: new_msgs[i].txt_raw,
                ..old_msgs[i]
            })
            &&& new_msgs[i].text@ =~= Seq::<char>::empty()
            &&& new_msgs[i].txt_raw@ =~= Seq::<char>::empty()
        }
}

impl MsgId {
    /// Put message into trash chat and delete message text.
    ///
    /// It means the message is deleted locally, but not on the server
    /// yet.  Safe to call on an already-trashed message, and a no-op for
    /// an id without a row.
    pub fn trash(self, context: &mut Context) -> (r: Result<(), Error>)
        requires
            old(context).wf(),
        ensures
            final(context).wf(),
            r is Ok,
            *final(context) == (Context { msgs: final(context).msgs, ..*old(context) }),
            trashed(old(context).msgs@, final(context).msgs@, self),
    {
        match context.find_msg_index(self) {
            Some(i) => {
                let row = &mut context.msgs[i];
                row.chat_id = ChatId::new(DC_CHAT_ID_TRASH);
                row.text = String::new();
                row.txt_raw = String::new();
                proof {
                    assert(final(context).msgs@[i as int].text@ =~= Seq::<char>::empty());
                }
            },
            None => {},
        }
        Ok(())
    }

    /// Deletes a message and corresponding read-receipt evidence from the
    /// store.
    ///
    /// The evidence rows go first: without transactions, an interruption
    /// between the two statements then leaves at worst an orphaned
    /// message-less evidence set, later reclaimed by housekeeping, never
    /// a message with dangling evidence semantics.
    pub fn delete_from_db(self, context: &mut Context) -> (r: Result<(), Error>)
        requires
            old(context).wf(),
        ensures
            final(context).wf(),
            r is Ok,
            *final(context) == (Context {
                msgs: final(context).msgs,
                mdns: final(context).mdns,
                ..*old(context)
            }),
            final(context).mdns@ == old(context).mdns@.filter(|m: MdnRow| m.msg_id != self),
            final(context).msgs@ == old(context).msgs@.filter(|row: MsgRow| row.id != self),
            !contains_msg(final(context).msgs@, self),
            !crate::context::has_evidence(final(context).mdns@, self, 0) && forall|c: u32|
                !crate::context::has_evidence(final(context).mdns@, self, c),
    {
        delete_mdns_for(context, self);
        delete_msg_row(context, self);
        proof {
            let ghost fm = final(context).msgs@;
            assert forall|k: int| 0 <= k < fm.len() implies (#[trigger] fm[k]).id != self by {
                Seq::lemma_filter_pred(old(context).msgs@, |row: MsgRow| row.id != self, k);
            }
            let ghost fd = final(context).mdns@;
            assert forall|c: u32| !crate::context::has_evidence(fd, self, c) by {
                assert forall|k: int|
                    0 <= k < fd.len() implies !((#[trigger] fd[k]).msg_id == self
                    && fd[k].contact_id == c) by {
                    Seq::lemma_filter_pred(old(context).mdns@, |m: MdnRow| m.msg_id != self, k);
                }
            }
        }
        Ok(())
    }

    /// Removes the remote folder and server id from the message row.
    ///
    /// It is used to avoid trying to remove the message from the server
    /// multiple times when there are multiple message records pointing to
    /// the same remote artifact.
    pub fn unlink(self, context: &mut Context) -> (r: Result<(), Error>)
        requires
            old(context).wf(),
        ensures
            final(context).wf(),
            r is Ok,
            *final(context) == (Context { msgs: final(context).msgs, ..*old(context) }),
            final(context).msgs@.len() == old(context).msgs@.len(),
            forall|i: int|
                0 <= i < old(context).msgs@.len() && (#[trigger] old(context).msgs@[i]).id != self
                    ==> final(context).msgs@[i] == old(context).msgs@[i],
            forall|i: int|
                0 <= i < old(context).msgs@.len() && (#[trigger] old(context).msgs@[i]).id == self
                    ==> {
                    &&& final(context).msgs@[i] == (MsgRow {
                        server_folder: final(context).msgs@[i].server_folder,
                        server_uid: 0,
                        ..old(context).msgs@[i]
                    })
                    &&& final(context).msgs@[i].server_folder matches Some(f) && f@ =~= Seq::<
                        char,
                    >::empty()
                },
    {
        match context.find_msg_index(self) {
            Some(i) => {
                let row = &mut context.msgs[i];
                row.server_folder = Some(String::new());
                row.server_uid = 0;
            },
            None => {},
        }
        Ok(())
    }
}

/// Removes every evidence row of the message.
fn delete_mdns_for(context: &mut Context, id: MsgId)
    requires
        old(context).wf(),
    ensures
        final(context).wf(),
        *final(context) == (Context { mdns: final(context).mdns, ..*old(context) }),
        final(context).mdns@ == old(context).mdns@.filter(|m: MdnRow| m.msg_id != id),
{
    let ghost orig = context.mdns@;
    let ghost mut m: int = 0;
    let mut i: usize = 0;
    while i < context.mdns.len()
        invariant
            old(context).wf(),
            0 <= m <= orig.len(),
            *context == (Context { mdns: context.mdns, ..*old(context) }),
            orig == old(context).mdns@,
            context.mdns@ == orig.subrange(0, m).filter(|x: MdnRow| x.msg_id != id)
                + orig.subrange(m, orig.len() as int),
            i as int == orig.subrange(0, m).filter(|x: MdnRow| x.msg_id != id).len(),
        decreases orig.len() - m,
    {
        let ghost pre = orig.subrange(0, m);
        let ghost kept = pre.filter(|x: MdnRow| x.msg_id != id);
        proof {
            assert(context.mdns@[i as int] == orig.subrange(m, orig.len() as int)[0]);
            assert(context.mdns@[i as int] == orig[m]);
            assert(orig.subrange(0, m + 1).drop_last() =~= pre);
            assert(orig.subrange(0, m + 1).last() == orig[m]);
            reveal_with_fuel(Seq::filter, 2);
        }
        if context.mdns[i].msg_id == id {
            context.mdns.remove(i);
            proof {
                assert(orig.subrange(0, m + 1).filter(|x: MdnRow| x.msg_id != id) == kept);
                assert(context.mdns@ =~= orig.subrange(0, m + 1).filter(
                    |x: MdnRow| x.msg_id != id,
                ) + orig.subrange(m + 1, orig.len() as int));
            }
        } else {
            proof {
                assert(orig.subrange(0, m + 1).filter(|x: MdnRow| x.msg_id != id) == kept.push(
                    orig[m],
                ));
                assert(context.mdns@ =~= orig.subrange(0, m + 1).filter(
                    |x: MdnRow| x.msg_id != id,
                ) + orig.subrange(m + 1, orig.len() as int));
            }
            i += 1;
        }
        proof {
            m = m + 1;
        }
    }
    proof {
        assert(orig.subrange(m, orig.len() as int).len() == 0);
        assert(orig.subrange(0, m) =~= orig);
        let f = orig.filter(|x: MdnRow| x.msg_id != id);
        assert forall|a: int, b: int| 0 <= a < b < f.len() implies ((#[trigger] f[a]).msg_id
            != (#[trigger] f[b]).msg_id || f[a].contact_id != f[b].contact_id) by {
            let (x, y) = lemma_filter_ordered_pair(orig, |x: MdnRow| x.msg_id != id, a, b);
        }
    }
}

/// Two positions of a filtered sequence come from two distinct positions
/// of the original, in order.
proof fn lemma_filter_ordered_pair<T>(s: Seq<T>, pred: spec_fn(T) -> bool, i: int, j: int) -> (r: (
    int,
    int,
))
    requires
        0 <= i < j < s.filter(pred).len(),
    ensures
        ({
            let (a, b) = r;
            0 <= a < b < s.len() && s[a] == s.filter(pred)[i] && s[b] == s.filter(pred)[j]
        }),
    decreases s.len(),
{
    reveal_with_fuel(Seq::filter, 2);
    let f = s.filter(pred);
    let rest = s.drop_last();
    let g = rest.filter(pred);
    if pred(s.last()) && j == f.len() - 1 {
        let a = index_in_original(rest, pred, i);
        (a, s.len() - 1)
    } else {
        lemma_filter_ordered_pair(rest, pred, i, j)
    }
}

/// Position in the original sequence that a filtered element comes from.
proof fn index_in_original<T>(s: Seq<T>, pred: spec_fn(T) -> bool, i: int) -> (a: int)
    requires
        0 <= i < s.filter(pred).len(),
    ensures
        0 <= a < s.len() && s[a] == s.filter(pred)[i],
    decreases s.len(),
{
    reveal_with_fuel(Seq::filter, 2);
    let rest = s.drop_last();
    let g = rest.filter(pred);
    if pred(s.last()) && i == s.filter(pred).len() - 1 {
        s.len() - 1
    } else {
        let a = index_in_original(rest, pred, i);
        assert(s[a] == rest[a]);
        a
    }
}

/// Removes the message row of the id.
fn delete_msg_row(context: &mut Context, id: MsgId)
    requires
        old(context).wf(),
    ensures
        final(context).wf(),
        *final(context) == (Context { msgs: final(context).msgs, ..*old(context) }),
        final(context).msgs@ == old(context).msgs@.filter(|row: MsgRow| row.id != id),
{
    let ghost orig = context.msgs@;
    let ghost mut m: int = 0;
    let mut i: usize = 0;
    while i < context.msgs.len()
        invariant
            old(context).wf(),
            0 <= m <= orig.len(),
            *context == (Context { msgs: context.msgs, ..*old(context) }),
            orig == old(context).msgs@,
            context.msgs@ == orig.subrange(0, m).filter(|x: MsgRow| x.id != id) + orig.subrange(
                m,
                orig.len() as int,
            ),
            i as int == orig.subrange(0, m).filter(|x: MsgRow| x.id != id).len(),
        decreases orig.len() - m,
    {
        let ghost pre = orig.subrange(0, m);
        let ghost kept = pre.filter(|x: MsgRow| x.id != id);
        proof {
            assert(context.msgs@[i as int] == orig.subrange(m, orig.len() as int)[0]);
            assert(context.msgs@[i as int] == orig[m]);
            assert(orig.subrange(0, m + 1).drop_last() =~= pre);
            assert(orig.subrange(0, m + 1).last() == orig[m]);
            reveal_with_fuel(Seq::filter, 2);
        }
        if context.msgs[i].id == id {
            context.msgs.remove(i);
            proof {
                assert(orig.subrange(0, m + 1).filter(|x: MsgRow| x.id != id) == kept);
                assert(context.msgs@ =~= orig.subrange(0, m + 1).filter(|x: MsgRow| x.id != id)
                    + orig.subrange(m + 1, orig.len() as int));
            }
        } else {
            proof {
                assert(orig.subrange(0, m + 1).filter(|x: MsgRow| x.id != id) == kept.push(
                    orig[m],
                ));
                assert(context.msgs@ =~= orig.subrange(0, m + 1).filter(|x: MsgRow| x.id != id)
                    + orig.subrange(m + 1, orig.len() as int));
            }
            i += 1;
        }
        proof {
            m = m + 1;
        }
    }
    proof {
        assert(orig.subrange(m, orig.len() as int).len() == 0);
        assert(orig.subrange(0, m) =~= orig);
        let f = orig.filter(|x: MsgRow| x.id != id);
        assert forall|i: int, j: int| 0 <= i < j < f.len() implies (#[trigger] f[i]).id
            != (#[trigger] f[j]).id by {
            let (a, b) = lemma_filter_ordered_pair(orig, |x: MsgRow| x.id != id, i, j);
        }
        assert forall|k: int| 0 <= k < f.len() implies !(#[trigger] f[k]).id.spec_is_special()
            && f[k].param.wf() by {
            let a = index_in_original(orig, |x: MsgRow| x.id != id, k);
        }
    }
}

/// After physical deletion, an existence check for the id is false even
/// when only the evidence deletion ran and the message row survived:
/// existence is decided by the messages table alone, so changing the
/// evidence table cannot make it true, and the pipeline trashes a message
/// before physically deleting it, so a surviving row is a tombstone that
/// never counts as existing.
pub proof fn lemma_partial_delete_never_exists(msgs: Seq<MsgRow>, id: MsgId)
    requires
        contains_msg(msgs, id) ==> trashed_row(msgs, id),
    ensures
        !crate::message::spec_msg_exists(msgs, id),
{
}

/// Every row of the id is reparented to the trash chat.
pub open spec fn trashed_row(msgs: Seq<MsgRow>, id: MsgId) -> bool {
    forall|i: int|
        0 <= i < msgs.len() && (#[trigger] msgs[i]).id == id ==> msgs[i].chat_id.spec_is_trash()
}

/// Tombstoning twice is idempotent: the second call also succeeds, and
/// the row stays reparented to the trash chat with cleared texts.
pub proof fn lemma_trash_idempotent(
    msgs0: Seq<MsgRow>,
    msgs1: Seq<MsgRow>,
    msgs2: Seq<MsgRow>,
    id: MsgId,
)
    requires
        trashed(msgs0, msgs1, id),
        trashed(msgs1, msgs2, id),
    ensures
        msgs2.len() == msgs0.len(),
        forall|i: int|
            0 <= i < msgs0.len() && (#[trigger] msgs0[i]).id != id ==> msgs2[i] == msgs0[i],
        forall|i: int|
            0 <= i < msgs0.len() && (#[trigger] msgs0[i]).id == id ==> {
                &&& msgs2[i].chat_id.spec_is_trash()
                &&& msgs2[i].text@ =~= Seq::<char>::empty()
                &&& msgs2[i].txt_raw@ =~= Seq::<char>::empty()
                &&& msgs2[i] == (MsgRow {
                    chat_id: msgs2[i].chat_id,
                    text: msgs2[i].text,
                    txt_raw: msgs2[i].txt_raw,
                    ..msgs0[i]
                })
            },
{
    assert forall|i: int|
        0 <= i < msgs0.len() && (#[trigger] msgs0[i]).id == id implies msgs2[i]
        == (MsgRow {
        chat_id: msgs2[i].chat_id,
        text: msgs2[i].text,
        txt_raw: msgs2[i].txt_raw,
        ..msgs0[i]
    }) && msgs2[i].chat_id.spec_is_trash() && msgs2[i].text@ =~= Seq::<char>::empty()
        && msgs2[i].txt_raw@ =~= Seq::<char>::empty() by {
        assert(msgs1[i].id == id);
    }
}

/// The messages table after tombstoning every id of a list.
pub open spec fn trashed_all(old_msgs: Seq<MsgRow>, new_msgs: Seq<MsgRow>, ids: Seq<MsgId>) -> bool {
    &&& new_msgs.len() == old_msgs.len()
    &&& forall|i: int|
        0 <= i < old_msgs.len() && !ids.contains((#[trigger] old_msgs[i]).id) ==> new_msgs[i]
            == old_msgs[i]
    &&& forall|i: int|
        0 <= i < old_msgs.len() && ids.contains((#[trigger] old_msgs[i]).id) ==> {
            &&& new_msgs[i] == (MsgRow {
                chat_id: ChatId(DC_CHAT_ID_TRASH),
                text: new_msgs[i].text,
                txt_raw: new_msgs[i].txt_raw,
                ..old_msgs[i]
            })
            &&& new_msgs[i].text@ =~= Seq::<char>::empty()
            &&& new_msgs[i].txt_raw@ =~= Seq::<char>::empty()
        }
}

/// The location row is reclaimed by a bulk delete of the ids: it is
/// independent and bound to one of the deleted messages.
pub open spec fn location_reclaimed(l: LocationRow, msgs: Seq<MsgRow>, ids: Seq<MsgId>) -> bool {
    l.independent && exists|i: int|
        0 <= i < msgs.len() && ids.contains((#[trigger] msgs[i]).id) && msgs[i].location_id > 0
            && msgs[i].location_id == l.id
}

/// A sequence whose members all satisfy the predicate filters to itself.
proof fn lemma_filter_all<T>(s: Seq<T>, pred: spec_fn(T) -> bool)
    requires
        forall|i: int| 0 <= i < s.len() ==> pred(#[trigger] s[i]),
    ensures
        s.filter(pred) == s,
    decreases s.len(),
{
    reveal_with_fuel(Seq::filter, 2);
    if s.len() > 0 {
        assert(forall|i: int| 0 <= i < s.len() - 1 ==> pred(#[trigger] s.drop_last()[i]));
        lemma_filter_all(s.drop_last(), pred);
        assert(s.filter(pred) =~= s);
    } else {
        assert(s.filter(pred) =~= s);
    }
}

/// Tombstones each given message, reclaims independent locations bound to
/// them, and enqueues one remote-deletion task per id.  After a non-empty
/// batch it emits one aggregate change notification, cancels any pending
/// housekeeping task and enqueues a single deferred one, coalescing
/// repeated bulk deletes into one sweep.
#[verifier::rlimit(80)]
pub fn delete_msgs(context: &mut Context, msg_ids: &[MsgId])
    requires
        old(context).wf(),
    ensures
        final(context).wf(),
        *final(context) == (Context {
            msgs: final(context).msgs,
            locations: final(context).locations,
            events: final(context).events,
            jobs: final(context).jobs,
            ..*old(context)
        }),
        trashed_all(old(context).msgs@, final(context).msgs@, msg_ids@),
        final(context).locations@ == old(context).locations@.filter(
            |l: LocationRow| !location_reclaimed(l, old(context).msgs@, msg_ids@),
        ),
        msg_ids@.len() == 0 ==> *final(context) == *old(context),
        msg_ids@.len() > 0 ==> final(context).events@ == old(context).events@.push(
            Event::MsgsChanged { chat_id: ChatId(0), msg_id: crate::msgid::msg_id_of(0) },
        ),
        msg_ids@.len() > 0 ==> ({
            let kept = old(context).jobs@.filter(|j: Job| j.action != Action::Housekeeping);
            &&& final(context).jobs@.len() == kept.len() + msg_ids@.len() + 1
            &&& forall|p: int| 0 <= p < kept.len() ==> final(context).jobs@[p] == #[trigger] kept[p]
            &&& forall|p: int|
                0 <= p < msg_ids@.len() ==> {
                    let j = #[trigger] final(context).jobs@[kept.len() + p];
                    &&& j.action == Action::DeleteMsgOnImap
                    &&& j.foreign_id == msg_ids@[p].spec_to_u32()
                    &&& j.delay == 0
                    &&& j.param@ == Map::<Param, Seq<char>>::empty()
                }
            &&& final(context).jobs@.last().action == Action::Housekeeping
            &&& final(context).jobs@.last().foreign_id == 0
            &&& final(context).jobs@.last().delay == 10
            &&& final(context).jobs@.last().param@ == Map::<Param, Seq<char>>::empty()
        }),
{
    let n = msg_ids.len();
    if n == 0 {
        proof {
            assert(old(context).locations@.filter(
                |l: LocationRow| !location_reclaimed(l, old(context).msgs@, msg_ids@),
            ) =~= old(context).locations@) by {
                lemma_filter_all(
                    old(context).locations@,
                    |l: LocationRow| !location_reclaimed(l, old(context).msgs@, msg_ids@),
                );
            }
        }
        return ;
    }
    let ghost oldmsgs = old(context).msgs@;
    let ghost oldlocs = old(context).locations@;
    proof {
        let empty_ids = msg_ids@.subrange(0, 0);
        assert forall|i: int| 0 <= i < oldlocs.len() implies !location_reclaimed(
            #[trigger] oldlocs[i],
            oldmsgs,
            empty_ids,
        ) by {
            if location_reclaimed(oldlocs[i], oldmsgs, empty_ids) {
                let w = choose|w: int|
                    0 <= w < oldmsgs.len() && empty_ids.contains((#[trigger] oldmsgs[w]).id)
                        && oldmsgs[w].location_id > 0 && oldmsgs[w].location_id == oldlocs[i].id;
            }
        }
        lemma_filter_all(
            oldlocs,
            |l: LocationRow| !location_reclaimed(l, oldmsgs, msg_ids@.subrange(0, 0)),
        );
    }
    let mut k: usize = 0;
    while k < n
        invariant
            old(context).wf(),
            k <= n == msg_ids@.len(),
            *context == (Context {
                msgs: context.msgs,
                locations: context.locations,
                jobs: context.jobs,
                ..*old(context)
            }),
            context.wf(),
            trashed_all(oldmsgs, context.msgs@, msg_ids@.subrange(0, k as int)),
            context.locations@ == oldlocs.filter(
                |l: LocationRow| !location_reclaimed(l, oldmsgs, msg_ids@.subrange(0, k as int)),
            ),
            context.jobs@.len() == old(context).jobs@.len() + k,
            forall|p: int|
                0 <= p < old(context).jobs@.len() ==> context.jobs@[p] == #[trigger] old(
                    context,
                ).jobs@[p],
            forall|p: int|
                0 <= p < k ==> {
                    let j = #[trigger] context.jobs@[old(context).jobs@.len() + p];
                    &&& j.action == Action::DeleteMsgOnImap
                    &&& j.foreign_id == msg_ids@[p].spec_to_u32()
                    &&& j.delay == 0
                    &&& j.param@ == Map::<Param, Seq<char>>::empty()
                },
        decreases n - k,
    {
        let msg_id = msg_ids[k];
        let ghost pre_ids = msg_ids@.subrange(0, k as int);
        let ghost next_ids = msg_ids@.subrange(0, k + 1);
        proof {
            assert(next_ids =~= pre_ids.push(msg_ids@[k as int]));
            assert(next_ids[k as int] == msg_ids@[k as int]);
        }
        // Best-effort cleanup of a bound independent location before the
        // row is tombstoned.
        match context.find_msg_index(msg_id) {
            Some(j) => {
                proof {
                    if pre_ids.contains(oldmsgs[j as int].id) {
                    }
                    assert(context.msgs@[j as int].id == oldmsgs[j as int].id);
                    assert(context.msgs@[j as int].location_id == oldmsgs[j as int].location_id);
                }
                let location_id = context.msgs[j].location_id;
                if location_id > 0 {
                    delete_poi_location(context, location_id);
                    proof {
                        assert(context.locations@ =~= oldlocs.filter(
                            |l: LocationRow| !location_reclaimed(l, oldmsgs, next_ids),
                        )) by {
                            lemma_double_filter(oldlocs, oldmsgs, pre_ids, next_ids, msg_ids@[k as int], location_id);
                        }
                    }
                } else {
                    proof {
                        assert(context.locations@ =~= oldlocs.filter(
                            |l: LocationRow| !location_reclaimed(l, oldmsgs, next_ids),
                        )) by {
                            lemma_filter_same(oldlocs, oldmsgs, pre_ids, next_ids, msg_ids@[k as int]);
                        }
                    }
                }
            },
            None => {
                proof {
                    assert forall|i: int|
                        0 <= i < oldmsgs.len() implies oldmsgs[i].id != msg_ids@[k as int] by {
                        assert(context.msgs@[i].id == oldmsgs[i].id) by {
                            if pre_ids.contains(oldmsgs[i].id) {
                            }
                        }
                    }
                    assert(context.locations@ =~= oldlocs.filter(
                        |l: LocationRow| !location_reclaimed(l, oldmsgs, next_ids),
                    )) by {
                        lemma_filter_same(oldlocs, oldmsgs, pre_ids, next_ids, msg_ids@[k as int]);
                    }
                }
            },
        }
        let ghost before_trash = context.msgs@;
        let trash_result = msg_id.trash(context);
        proof {
            assert(trash_result is Ok);
            assert(trashed_all(oldmsgs, context.msgs@, next_ids)) by {
                assert forall|i: int|
                    0 <= i < oldmsgs.len() && !next_ids.contains((#[trigger] oldmsgs[i]).id)
                    implies context.msgs@[i] == oldmsgs[i] by {
                    assert(!pre_ids.contains(oldmsgs[i].id));
                    assert(before_trash[i] == oldmsgs[i]);
                    assert(before_trash[i].id != msg_id);
                }
                assert forall|i: int|
                    0 <= i < oldmsgs.len() && next_ids.contains((#[trigger] oldmsgs[i]).id)
                    implies context.msgs@[i] == (MsgRow {
                    chat_id: ChatId(DC_CHAT_ID_TRASH),
                    text: context.msgs@[i].text,
                    txt_raw: context.msgs@[i].txt_raw,
                    ..oldmsgs[i]
                }) && context.msgs@[i].text@ =~= Seq::<char>::empty() && context.msgs@[i].txt_raw@
                    =~= Seq::<char>::empty() by {
                    if oldmsgs[i].id == msg_id {
                        if pre_ids.contains(oldmsgs[i].id) {
                            assert(before_trash[i].id == msg_id);
                        } else {
                            assert(before_trash[i] == oldmsgs[i]);
                        }
                    } else {
                        assert(pre_ids.contains(oldmsgs[i].id));
                        assert(before_trash[i].id == oldmsgs[i].id);
                        assert(before_trash[i].id != msg_id);
                    }
                }
            }
        }
        crate::job::add(
            context,
            Job::new(Action::DeleteMsgOnImap, msg_id.to_u32(), Params::new(), 0),
        );
        k += 1;
    }
    proof {
        assert(msg_ids@.subrange(0, n as int) =~= msg_ids@);
    }
    context.emit_event(
        Event::MsgsChanged {
            chat_id: ChatId::new(0),
            msg_id: crate::msgid::MsgId::new(0),
        },
    );
    let ghost jobs_with_deletes = context.jobs@;
    crate::job::kill_action(context, Action::Housekeeping);
    proof {
        let keep = |j: Job| j.action != Action::Housekeeping;
        let added = jobs_with_deletes.subrange(
            old(context).jobs@.len() as int,
            jobs_with_deletes.len() as int,
        );
        assert(jobs_with_deletes =~= old(context).jobs@ + added);
        Seq::filter_distributes_over_add(old(context).jobs@, added, keep);
        assert forall|p: int| 0 <= p < added.len() implies keep(#[trigger] added[p]) by {
            assert(added[p] == jobs_with_deletes[old(context).jobs@.len() + p]);
        }
        lemma_filter_all(added, keep);
        assert(context.jobs@ == old(context).jobs@.filter(keep) + added);
    }
    crate::job::add(context, Job::new(Action::Housekeeping, 0, Params::new(), 10));
    proof {
        let keep = |j: Job| j.action != Action::Housekeeping;
        let kept = old(context).jobs@.filter(keep);
        let added = jobs_with_deletes.subrange(
            old(context).jobs@.len() as int,
            jobs_with_deletes.len() as int,
        );
        assert(context.jobs@.len() == kept.len() + msg_ids@.len() + 1);
        assert forall|p: int| 0 <= p < kept.len() implies context.jobs@[p] == kept[p] by {
            assert(context.jobs@[p] == (kept + added)[p]);
        }
        assert forall|p: int|
            0 <= p < msg_ids@.len() implies {
            let j = #[trigger] context.jobs@[kept.len() + p];
            &&& j.action == Action::DeleteMsgOnImap
            &&& j.foreign_id == msg_ids@[p].spec_to_u32()
            &&& j.delay == 0
            &&& j.param@ == Map::<Param, Seq<char>>::empty()
        } by {
            assert(context.jobs@[kept.len() + p] == (kept + added)[kept.len() + p]);
            assert((kept + added)[kept.len() + p] == added[p]);
            assert(added[p] == jobs_with_deletes[old(context).jobs@.len() + p]);
        }
    }
}

/// Extending the deleted-id set by an id whose row binds the location id
/// turns the single-step location filter into the extended one.
proof fn lemma_double_filter(
    locs: Seq<LocationRow>,
    msgs: Seq<MsgRow>,
    pre_ids: Seq<MsgId>,
    next_ids: Seq<MsgId>,
    id: MsgId,
    location_id: u32,
)
    requires
        next_ids =~= pre_ids.push(id),
        location_id > 0,
        exists|i: int|
            0 <= i < msgs.len() && (#[trigger] msgs[i]).id == id && msgs[i].location_id
                == location_id,
        forall|i: int, j: int|
            0 <= i < j < msgs.len() ==> (#[trigger] msgs[i]).id != (#[trigger] msgs[j]).id,
    ensures
        locs.filter(|l: LocationRow| !location_reclaimed(l, msgs, pre_ids)).filter(
            |l: LocationRow| !(l.independent && l.id == location_id),
        ) == locs.filter(|l: LocationRow| !location_reclaimed(l, msgs, next_ids)),
{
    let inner = |l: LocationRow| !location_reclaimed(l, msgs, pre_ids);
    let outer = |l: LocationRow| !(l.independent && l.id == location_id);
    let both = |l: LocationRow| !location_reclaimed(l, msgs, next_ids);
    assert forall|l: LocationRow| #[trigger] both(l) == (inner(l) && outer(l)) by {
        if location_reclaimed(l, msgs, next_ids) {
            let i = choose|i: int|
                0 <= i < msgs.len() && next_ids.contains((#[trigger] msgs[i]).id)
                    && msgs[i].location_id > 0 && msgs[i].location_id == l.id;
            if pre_ids.contains(msgs[i].id) {
                assert(location_reclaimed(l, msgs, pre_ids));
            } else {
                assert(msgs[i].id == id);
                assert(msgs[i].location_id == location_id) by {
                    let w = choose|w: int|
                        0 <= w < msgs.len() && (#[trigger] msgs[w]).id == id && msgs[w].location_id
                            == location_id;
                    if w != i {
                        assert(msgs[w].id != msgs[i].id);
                    }
                }
                assert(!(outer(l)));
            }
        }
        if location_reclaimed(l, msgs, pre_ids) {
            let i = choose|i: int|
                0 <= i < msgs.len() && pre_ids.contains((#[trigger] msgs[i]).id)
                    && msgs[i].location_id > 0 && msgs[i].location_id == l.id;
            let k2 = choose|k2: int| 0 <= k2 < pre_ids.len() && pre_ids[k2] == msgs[i].id;
            assert(next_ids[k2] == msgs[i].id);
            assert(next_ids.contains(msgs[i].id));
            assert(location_reclaimed(l, msgs, next_ids));
        }
        if l.independent && l.id == location_id {
            let w = choose|w: int|
                0 <= w < msgs.len() && (#[trigger] msgs[w]).id == id && msgs[w].location_id
                    == location_id;
            assert(next_ids.contains(msgs[w].id)) by {
                assert(next_ids[next_ids.len() - 1] == id);
            }
            assert(location_reclaimed(l, msgs, next_ids));
        }
    }
    lemma_filter_compose(locs, inner, outer, both);
}

/// Extending the deleted-id set by an id that reclaims nothing leaves the
/// location filter unchanged.
proof fn lemma_filter_same(
    locs: Seq<LocationRow>,
    msgs: Seq<MsgRow>,
    pre_ids: Seq<MsgId>,
    next_ids: Seq<MsgId>,
    id: MsgId,
)
    requires
        next_ids =~= pre_ids.push(id),
        forall|i: int|
            0 <= i < msgs.len() && (#[trigger] msgs[i]).id == id ==> msgs[i].location_id == 0,
    ensures
        locs.filter(|l: LocationRow| !location_reclaimed(l, msgs, pre_ids)) == locs.filter(
            |l: LocationRow| !location_reclaimed(l, msgs, next_ids),
        ),
    decreases locs.len(),
{
    reveal_with_fuel(Seq::filter, 2);
    assert forall|l: LocationRow| #[trigger] location_reclaimed(l, msgs, pre_ids)
        == location_reclaimed(l, msgs, next_ids) by {
        if location_reclaimed(l, msgs, next_ids) {
            let i = choose|i: int|
                0 <= i < msgs.len() && next_ids.contains((#[trigger] msgs[i]).id)
                    && msgs[i].location_id > 0 && msgs[i].location_id == l.id;
            if pre_ids.contains(msgs[i].id) {
                assert(location_reclaimed(l, msgs, pre_ids));
            } else {
                assert(msgs[i].id == id);
            }
        }
        if location_reclaimed(l, msgs, pre_ids) {
            let i = choose|i: int|
                0 <= i < msgs.len() && pre_ids.contains((#[trigger] msgs[i]).id)
                    && msgs[i].location_id > 0 && msgs[i].location_id == l.id;
            let k2 = choose|k2: int| 0 <= k2 < pre_ids.len() && pre_ids[k2] == msgs[i].id;
            assert(next_ids[k2] == msgs[i].id);
            assert(next_ids.contains(msgs[i].id));
        }
    }
    if locs.len() > 0 {
        lemma_filter_same(locs.drop_last(), msgs, pre_ids, next_ids, id);
    }
}

/// Filtering by two predicates in sequence equals filtering by their
/// conjunction.
proof fn lemma_filter_compose<T>(
    s: Seq<T>,
    inner: spec_fn(T) -> bool,
    outer: spec_fn(T) -> bool,
    both: spec_fn(T) -> bool,
)
    requires
        forall|x: T| #[trigger] both(x) == (inner(x) && outer(x)),
    ensures
        s.filter(inner).filter(outer) == s.filter(both),
    decreases s.len(),
{
    reveal_with_fuel(Seq::filter, 2);
    if s.len() == 0 {
        assert(s.filter(inner).filter(outer) =~= s.filter(both));
    } else {
        lemma_filter_compose(s.drop_last(), inner, outer, both);
        let rest = s.drop_last();
        if inner(s.last()) {
            assert(s.filter(inner) == rest.filter(inner).push(s.last()));
            assert(s.filter(inner).drop_last() =~= rest.filter(inner));
            assert(s.filter(inner).filter(outer) == if outer(s.last()) {
                rest.filter(inner).filter(outer).push(s.last())
            } else {
                rest.filter(inner).filter(outer)
            });
        }
        assert(s.filter(inner).filter(outer) =~= s.filter(both));
    }
}

/// Removes an independent location row bound to a deleted message.
/// Returns whether the statement went through (in this model, always).
pub fn delete_poi_location(context: &mut Context, location_id: u32) -> (r: bool)
    requires
        old(context).wf(),
    ensures
        final(context).wf(),
        r,
        *final(context) == (Context { locations: final(context).locations, ..*old(context) }),
        final(context).locations@ == old(context).locations@.filter(
            |l: LocationRow| !(l.independent && l.id == location_id),
        ),
{
    let ghost orig = context.locations@;
    let ghost mut m: int = 0;
    let mut i: usize = 0;
    while i < context.locations.len()
        invariant
            old(context).wf(),
            0 <= m <= orig.len(),
            *context == (Context { locations: context.locations, ..*old(context) }),
            orig == old(context).locations@,
            context.locations@ == orig.subrange(0, m).filter(
                |l: LocationRow| !(l.independent && l.id == location_id),
            ) + orig.subrange(m, orig.len() as int),
            i as int == orig.subrange(0, m).filter(
                |l: LocationRow| !(l.independent && l.id == location_id),
            ).len(),
        decreases orig.len() - m,
    {
        let ghost pre = orig.subrange(0, m);
        let ghost kept = pre.filter(|l: LocationRow| !(l.independent && l.id == location_id));
        proof {
            assert(context.locations@[i as int] == orig.subrange(m, orig.len() as int)[0]);
            assert(context.locations@[i as int] == orig[m]);
            assert(orig.subrange(0, m + 1).drop_last() =~= pre);
            assert(orig.subrange(0, m + 1).last() == orig[m]);
            reveal_with_fuel(Seq::filter, 2);
        }
        if context.locations[i].independent && context.locations[i].id == location_id {
            context.locations.remove(i);
            proof {
                assert(orig.subrange(0, m + 1).filter(
                    |l: LocationRow| !(l.independent && l.id == location_id),
                ) == kept);
                assert(context.locations@ =~= orig.subrange(0, m + 1).filter(
                    |l: LocationRow| !(l.independent && l.id == location_id),
                ) + orig.subrange(m + 1, orig.len() as int));
            }
        } else {
            proof {
                assert(orig.subrange(0, m + 1).filter(
                    |l: LocationRow| !(l.independent && l.id == location_id),
                ) == kept.push(orig[m]));
                assert(context.locations@ =~= orig.subrange(0, m + 1).filter(
                    |l: LocationRow| !(l.independent && l.id == location_id),
                ) + orig.subrange(m + 1, orig.len() as int));
            }
            i += 1;
        }
        proof {
            m = m + 1;
        }
    }
    proof {
        assert(orig.subrange(m, orig.len() as int).len() == 0);
        assert(orig.subrange(0, m) =~= orig);
    }
    true
}

/// A message row counts towards the deletion estimate: a real, aged row
/// outside the chat of the local user; from the server's point of view it
/// must still be linked there, from the local point of view it must be
/// neither tombstoned nor hidden.
pub open spec fn deletion_counted(
    row: MsgRow,
    self_chat: ChatId,
    threshold: int,
    from_server: bool,
) -> bool {
    &&& row.id.spec_to_u32() > crate::constants::DC_MSG_ID_LAST_SPECIAL
    &&& row.timestamp_sort < threshold
    &&& row.chat_id != self_chat
    &&& if from_server {
        row.server_uid != 0
    } else {
        !row.chat_id.spec_is_trash() && !row.hidden
    }
}

/// Number of message rows counting towards the deletion estimate.
pub open spec fn deletion_estimate(
    msgs: Seq<MsgRow>,
    self_chat: ChatId,
    threshold: int,
    from_server: bool,
) -> nat
    decreases msgs.len(),
{
    if msgs.len() == 0 {
        0
    } else {
        deletion_estimate(msgs.drop_last(), self_chat, threshold, from_server)
            + if deletion_counted(msgs.last(), self_chat, threshold, from_server) {
            1nat
        } else {
            0nat
        }
    }
}

/// Estimates how many messages a retention sweep with the given age
/// threshold would delete: from the remote server when `from_server`
/// holds, locally otherwise.  Messages of the chat of the local user are
/// kept either way.
#[verifier::rlimit(60)]
pub fn estimate_deletion_cnt(
    context: &Context,
    from_server: bool,
    seconds: i64,
    now: i64,
) -> (r: Result<usize, Error>)
    requires
        context.wf(),
        i64::MIN <= now - seconds <= i64::MAX,
    ensures
        r matches Ok(n) && n == deletion_estimate(
            context.msgs@,
            crate::chat::spec_self_chat_id(context.chats@, crate::constants::DC_CONTACT_ID_SELF),
            now - seconds,
            from_server,
        ),
{
    let looked_up = crate::chat::lookup_by_contact_id(
        context,
        crate::constants::DC_CONTACT_ID_SELF,
    );
    let self_chat_id = match looked_up {
        Some(p) => p.0,
        None => ChatId::new(0),
    };
    proof {
        assert(self_chat_id == crate::chat::spec_self_chat_id(
            context.chats@,
            crate::constants::DC_CONTACT_ID_SELF,
        ));
    }
    let threshold_timestamp = now - seconds;
    let n = context.msgs.len();
    let mut cnt: usize = 0;
    let mut i: usize = 0;
    while i < n
        invariant
            i <= n == context.msgs@.len(),
            cnt <= i,
            cnt == deletion_estimate(
                context.msgs@.subrange(0, i as int),
                self_chat_id,
                threshold_timestamp as int,
                from_server,
            ),
        decreases n - i,
    {
        proof {
            assert(context.msgs@.subrange(0, i + 1).drop_last() =~= context.msgs@.subrange(
                0,
                i as int,
            ));
            assert(context.msgs@.subrange(0, i + 1).last() == context.msgs@[i as int]);
        }
        let row = &context.msgs[i];
        let counted = row.id.to_u32() > crate::constants::DC_MSG_ID_LAST_SPECIAL
            && row.timestamp_sort < threshold_timestamp && row.chat_id != self_chat_id && (
        if from_server {
            row.server_uid != 0
        } else {
            !row.chat_id.is_trash() && !row.hidden
        });
        if counted {
            cnt += 1;
        }
        i += 1;
    }
    proof {
        assert(context.msgs@.subrange(0, n as int) =~= context.msgs@);
    }
    Ok(cnt)
}

/// Replaces any pending empty-server task by a fresh one carrying the
/// given flags.
pub fn dc_empty_server(context: &mut Context, flags: u32)
    requires
        old(context).wf(),
    ensures
        final(context).wf(),
        *final(context) == (Context { jobs: final(context).jobs, ..*old(context) }),
        ({
            let kept = old(context).jobs@.filter(|j: Job| j.action != Action::EmptyServer);
            &&& final(context).jobs@.len() == kept.len() + 1
            &&& forall|p: int| 0 <= p < kept.len() ==> final(context).jobs@[p] == #[trigger] kept[p]
            &&& final(context).jobs@.last().action == Action::EmptyServer
            &&& final(context).jobs@.last().foreign_id == flags
            &&& final(context).jobs@.last().delay == 0
            &&& final(context).jobs@.last().param@ == Map::<Param, Seq<char>>::empty()
        }),
{
    crate::job::kill_action(context, Action::EmptyServer);
    crate::job::add(context, Job::new(Action::EmptyServer, flags, Params::new(), 0));
}

} // verus!
