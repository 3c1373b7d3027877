//! Interface boundary of the scheduler collaborator: enqueueing tasks and
//! cancelling pending ones.
//!
//! The core never inspects task outcomes; contracts therefore speak only
//! about which tasks are pending after a call.

use vstd::prelude::*;

use crate::context::Context;
use crate::param::Params;

verus! {

/// Kind of a scheduled task.
#[derive(Debug, Copy, Clone, PartialEq, Eq, Structural, Hash)]
pub enum Action {
    /// Remove a message from the remote server.
    DeleteMsgOnImap,
    /// Mark a message as seen on the remote server (at-least-once;
    /// duplicate enqueue is tolerated by the consumer).
    MarkseenMsgOnImap,
    /// Deferred maintenance sweep reclaiming tombstones and orphans.
    Housekeeping,
    /// Empty a remote folder.
    EmptyServer,
}

/// A task handed to the scheduler.
#[derive(Debug)]
pub struct Job {
    /// What the task does.
    pub action: Action,
    /// Id of the row the task works on; zero when not applicable.
    pub foreign_id: u32,
    /// Parameter bag of the task.
    pub param: Params,
    /// Seconds to wait before the task becomes due.
    pub delay: i64,
}

impl Job {
    /// A new task of the given kind.
    pub fn new(action: Action, foreign_id: u32, param: Params, delay: i64) -> (r: Job)
        ensures
            r.action == action,
            r.foreign_id == foreign_id,
            r.param == param,
            r.delay == delay,
    {
        Job { action, foreign_id, param, delay }
    }
}

/// Enqueues a task with the scheduler.
pub fn add(context: &mut Context, job: Job)
    ensures
        *final(context) == (Context { jobs: final(context).jobs, ..*old(context) }),
        final(context).jobs@ == old(context).jobs@.push(job),
{
    context.jobs.push(job);
}

/// No task of the kind is pending.
pub open spec fn no_pending_action(jobs: Seq<Job>, action: Action) -> bool {
    forall|i: int| 0 <= i < jobs.len() ==> (#[trigger] jobs[i]).action != action
}

/// Cancels every pending task of the kind; tasks of other kinds keep
/// their order.
pub fn kill_action(context: &mut Context, action: Action)
    ensures
        *final(context) == (Context { jobs: final(context).jobs, ..*old(context) }),
        final(context).jobs@ == old(context).jobs@.filter(|j: Job| j.action != action),
        no_pending_action(final(context).jobs@, action),
{
    let ghost orig = context.jobs@;
    let ghost mut m: int = 0;
    let mut i: usize = 0;
    while i < context.jobs.len()
        invariant
            0 <= m <= orig.len(),
            *context == (Context { jobs: context.jobs, ..*old(context) }),
            context.jobs@ == orig.subrange(0, m).filter(|j: Job| j.action != action) + orig.subrange(
                m,
                orig.len() as int,
            ),
            i as int == orig.subrange(0, m).filter(|j: Job| j.action != action).len(),
        decreases orig.len() - m,
    {
        let ghost pre = orig.subrange(0, m);
        let ghost kept = pre.filter(|j: Job| j.action != action);
        proof {
            assert(context.jobs@[i as int] == orig.subrange(m, orig.len() as int)[0]);
            assert(context.jobs@[i as int] == orig[m]);
            assert(orig.subrange(0, m + 1).drop_last() =~= pre);
            assert(orig.subrange(0, m + 1).last() == orig[m]);
            reveal_with_fuel(Seq::filter, 2);
        }
        if context.jobs[i].action == action {
            self_remove(context, i);
            proof {
                assert(orig.subrange(0, m + 1).filter(|j: Job| j.action != action) == kept);
                assert(context.jobs@ =~= orig.subrange(0, m + 1).filter(
                    |j: Job| j.action != action,
                ) + orig.subrange(m + 1, orig.len() as int));
            }
        } else {
            proof {
                assert(orig.subrange(0, m + 1).filter(|j: Job| j.action != action) == kept.push(
                    orig[m],
                ));
                assert(context.jobs@ =~= orig.subrange(0, m + 1).filter(
                    |j: Job| j.action != action,
                ) + orig.subrange(m + 1, orig.len() as int));
            }
            i += 1;
        }
        proof {
            m = m + 1;
        }
    }
    proof {
        assert(orig.subrange(m, orig.len() as int).len() == 0);
        assert(m == orig.len());
        assert(orig.subrange(0, m) =~= orig);
        assert forall|k: int| 0 <= k < final(context).jobs@.len() implies (
        #[trigger] final(context).jobs@[k]).action != action by {
            Seq::lemma_filter_pred(orig, |j: Job| j.action != action, k);
        }
    }
}

fn self_remove(context: &mut Context, i: usize)
    requires
        i < old(context).jobs@.len(),
    ensures
        *final(context) == (Context { jobs: final(context).jobs, ..*old(context) }),
        final(context).jobs@ == old(context).jobs@.remove(i as int),
{
    context.jobs.remove(i);
}

} // verus!
