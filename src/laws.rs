//! Laws of the scheduler, stated over the task sequences that the executor's
//! contracts speak of.

use vstd::prelude::*;
use crate::executor::{context_of, is_alive, is_first_pending, launch_step, resume_pass, slice_of, wake_ticks};
use crate::pools::{
    count_state, count_suspended, count_where, due_at, in_state, lemma_count_disjoint, lemma_count_le,
    lemma_count_update,
    lemma_count_zero, ready_at,
};
use crate::task::{spec_attached, spec_launched, spec_resumed, Step, TaskBody, TaskHeader, TaskState};

verus! {

/// On an executor where nothing has run yet, every attached task waits for
/// its launch: after one more attach, all tasks are pending launch, the
/// pending count is the number of tasks, and no task runs or is suspended.
pub proof fn law_attach_keeps_all_pending(s: Seq<TaskHeader>, h: TaskHeader, t: u64)
    requires
        forall|i: int| 0 <= i < s.len() ==> #[trigger] s[i].state == TaskState::PendingLaunch,
    ensures
        ({
            let s2 = s.push(spec_attached(h, t));
            &&& forall|i: int| 0 <= i < s2.len() ==> #[trigger] s2[i].state == TaskState::PendingLaunch
            &&& count_state(s2, TaskState::PendingLaunch) == s2.len()
            &&& count_state(s2, TaskState::Running) == 0
            &&& count_suspended(s2) == 0
        }),
{
    let s2 = s.push(spec_attached(h, t));
    lemma_all_pending_counts(s2);
}

/// Counts of a sequence of tasks that all wait for their launch.
pub proof fn lemma_all_pending_counts(s: Seq<TaskHeader>)
    requires
        forall|i: int| 0 <= i < s.len() ==> #[trigger] s[i].state == TaskState::PendingLaunch,
    ensures
        count_state(s, TaskState::PendingLaunch) == s.len(),
        count_state(s, TaskState::Running) == 0,
        count_suspended(s) == 0,
    decreases s.len(),
{
    lemma_count_zero(s, in_state(TaskState::Running));
    lemma_count_zero(s, in_state(TaskState::SuspendedAwaiting));
    lemma_count_zero(s, in_state(TaskState::SuspendedCompleted));
    if s.len() > 0 {
        let d = s.drop_last();
        assert forall|i: int| 0 <= i < d.len() implies #[trigger] d[i].state == TaskState::PendingLaunch by {
            assert(d[i] == s[i]);
        }
        lemma_all_pending_counts(d);
    }
}

/// A run that launches the first pending task `i`, whose user code then
/// suspends for `d`, moves exactly that task from pending launch through
/// running (initiated at the run's first tick) to suspended awaiting (at
/// its second tick, with deadline `now + d`). While it runs the task sees
/// itself as the current and only running task, with one pending task fewer
/// than before; afterwards no task runs, the pending count has dropped by one
/// and the suspended count has grown by one.
pub proof fn law_launch_then_suspend<B: TaskBody>(
    s: Seq<TaskHeader>,
    bs: Seq<B>,
    s2: Seq<TaskHeader>,
    bs2: Seq<B>,
    t: u64,
    now: u64,
    i: int,
    d: u64,
)
    requires
        t + 2 <= u64::MAX,
        s.len() == bs.len(),
        s.len() <= usize::MAX,
        forall|j: int| 0 <= j < s.len() ==> #[trigger] s[j].state != TaskState::Running,
        is_first_pending(s, i),
        launch_step(s, bs, s2, bs2, t, now),
        bs[i].next_step(context_of(s.update(i, spec_launched(s[i], (t + 1) as u64)), i, now)) == Step::SuspendFor(d),
    ensures
        ({
            let ctx = context_of(s.update(i, spec_launched(s[i], (t + 1) as u64)), i, now);
            &&& ctx.current_task == Some(i as usize)
            &&& ctx.tasks_running == 1
            &&& ctx.tasks_pending_launch + 1 == count_state(s, TaskState::PendingLaunch)
            &&& ctx.tasks_suspended == count_suspended(s)
            &&& bs2 == bs.update(i, bs[i].next_state(ctx))
        }),
        s2.len() == s.len(),
        forall|j: int| 0 <= j < s.len() && j != i ==> #[trigger] s2[j] == s[j],
        s2[i].state == TaskState::SuspendedAwaiting,
        s2[i].ticks_when_initiated == t + 1,
        s2[i].ticks_when_suspended_awaiting == t + 2,
        s2[i].deadline == now.saturating_add(d),
        count_state(s2, TaskState::PendingLaunch) + 1 == count_state(s, TaskState::PendingLaunch),
        count_state(s2, TaskState::Running) == 0,
        count_suspended(s2) == count_suspended(s) + 1,
{
    let k = choose|k: int| #[trigger] is_first_pending(s, k)
        && (s2, bs2) == crate::executor::slice_of(s.update(k, spec_launched(s[k], (t + 1) as u64)), bs, k, (t + 1) as u64, now);
    if k < i {
        assert(s[k].state != TaskState::PendingLaunch);
    } else if i < k {
        assert(s[i].state != TaskState::PendingLaunch);
    }
    assert(k == i);
    let l = s.update(i, spec_launched(s[i], (t + 1) as u64));
    assert(s2 =~= s.update(i, s2[i]));
    lemma_count_zero(s, in_state(TaskState::Running));
    lemma_count_update(s, i, l[i], in_state(TaskState::PendingLaunch));
    lemma_count_update(s, i, l[i], in_state(TaskState::Running));
    lemma_count_update(s, i, l[i], in_state(TaskState::SuspendedAwaiting));
    lemma_count_update(s, i, l[i], in_state(TaskState::SuspendedCompleted));
    lemma_count_le(l, in_state(TaskState::PendingLaunch));
    lemma_count_disjoint(l, in_state(TaskState::SuspendedAwaiting), in_state(TaskState::SuspendedCompleted));
    lemma_count_update(s, i, s2[i], in_state(TaskState::PendingLaunch));
    lemma_count_update(s, i, s2[i], in_state(TaskState::Running));
    lemma_count_update(s, i, s2[i], in_state(TaskState::SuspendedAwaiting));
    lemma_count_update(s, i, s2[i], in_state(TaskState::SuspendedCompleted));
}

/// With no woken task and every waiting task's deadline after `now`, a run
/// at `now` with nothing to launch has nothing to do: no task is ready and
/// the pass uses no tick.
pub proof fn law_nothing_ready_before_deadlines(s: Seq<TaskHeader>, now: u64)
    requires
        forall|j: int| 0 <= j < s.len() ==> #[trigger] s[j].state != TaskState::SuspendedCompleted,
        forall|j: int| 0 <= j < s.len() && #[trigger] s[j].state == TaskState::SuspendedAwaiting ==> now < s[j].deadline,
    ensures
        count_where(s, ready_at(now)) == 0,
        wake_ticks(s, now) == 0,
{
    lemma_count_zero(s, ready_at(now));
    lemma_count_zero(s, due_at(now));
}

/// The pools partition the live tasks: pending launch, running and
/// suspended together count exactly the tasks that are alive.
pub proof fn law_pools_partition_alive(s: Seq<TaskHeader>)
    ensures
        count_where(s, |h: TaskHeader| is_alive(h)) == count_state(s, TaskState::PendingLaunch)
            + count_state(s, TaskState::Running) + count_suspended(s),
    decreases s.len(),
{
    if s.len() > 0 {
        law_pools_partition_alive(s.drop_last());
    }
}

/// A task that is neither pending launch nor running.
pub open spec fn settled(h: TaskHeader) -> bool {
    h.state != TaskState::PendingLaunch && h.state != TaskState::Running
}

/// A task re-entered while no task waits for its launch and none runs sees
/// itself as the current and only running task, with nothing pending.
pub proof fn law_resumed_task_sees_itself_running(h: Seq<TaskHeader>, j: int, t: u64, now: u64)
    requires
        0 <= j < h.len() <= usize::MAX,
        h[j].state == TaskState::SuspendedCompleted,
        forall|k: int| 0 <= k < h.len() ==> settled(#[trigger] h[k]),
    ensures
        ({
            let ctx = context_of(h.update(j, spec_resumed(h[j], t)), j, now);
            &&& ctx.task == j
            &&& ctx.current_task == Some(j as usize)
            &&& ctx.tasks_running == 1
            &&& ctx.tasks_pending_launch == 0
            &&& ctx.now == now
        }),
{
    let r = spec_resumed(h[j], t);
    lemma_count_zero(h, in_state(TaskState::Running));
    lemma_count_zero(h, in_state(TaskState::PendingLaunch));
    lemma_count_update(h, j, r, in_state(TaskState::Running));
    lemma_count_update(h, j, r, in_state(TaskState::PendingLaunch));
}

/// Re-entering woken tasks keeps every task settled: none is left running
/// or pending launch, so each re-entered task sees what the law above says.
pub proof fn lemma_resume_pass_settled<B: TaskBody>(s: Seq<TaskHeader>, bs: Seq<B>, t: u64, now: u64, i: nat)
    requires
        i <= s.len(),
        s.len() == bs.len(),
        forall|k: int| 0 <= k < s.len() ==> settled(#[trigger] s[k]),
    ensures
        resume_pass(s, bs, t, now, i).0.len() == s.len(),
        resume_pass(s, bs, t, now, i).1.len() == s.len(),
        forall|k: int| 0 <= k < s.len() ==> settled(#[trigger] resume_pass(s, bs, t, now, i).0[k]),
    decreases i,
{
    if i > 0 {
        lemma_resume_pass_settled(s, bs, t, now, (i - 1) as nat);
        let (h, b, t1) = resume_pass(s, bs, t, now, (i - 1) as nat);
        let j = i - 1;
        if h[j].state == TaskState::SuspendedCompleted {
            let r = h.update(j, spec_resumed(h[j], (t1 + 1) as u64));
            let (h2, b2) = slice_of(r, b, j, (t1 + 1) as u64, now);
            assert forall|k: int| 0 <= k < s.len() implies settled(#[trigger] h2[k]) by {
                if k != j {
                    assert(h2[k] == h[k]);
                }
            }
        }
    }
}

} // verus!
