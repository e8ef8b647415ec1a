//! The executor: owns its attached tasks and their timers, and drives the run
//! loop that launches, wakes and resumes them on a logical tick clock.

use vstd::prelude::*;
use crate::pools::{
    count_state, count_suspended, count_where, due_at, in_state, is_due, is_ready, lemma_count_all,
    lemma_count_disjoint, lemma_count_le, lemma_count_pointwise, lemma_count_prefix_le, lemma_count_take,
    lemma_count_zero, ready_at,
};
use crate::status::{StatusCode, EBUSY, EINVAL, EOVERFLOW};
use crate::switcher::ContextSwitcher;
use crate::task::{
    header_ok, spec_attached, spec_launched, spec_resumed, spec_slice_ended, spec_wait_completed, Step,
    Task, TaskBody, TaskContext, TaskHeader, TaskState,
};

verus! {

/// Attributes given at executor creation.
#[derive(Clone, Copy, Debug, PartialEq, Eq, Structural)]
pub struct ExecutorAttr {
    /// Number of entries of the completion source's ring.
    pub ring_entries: u32,
}

/// A single-threaded executor. Task `i` is the `i`-th task attached; tasks
/// stay in place, in their final states, after they return. The executor
/// keeps the borrows of its tasks' switchers until it is dropped.
pub struct Executor<'a, B> {
    switchers: Vec<&'a ContextSwitcher>,
    ring_entries: u32,
    tick: u64,
    destroyed: bool,
    current: Option<usize>,
    headers: Vec<TaskHeader>,
    bodies: Vec<B>,
}

/// A task that an executor has not released.
pub open spec fn is_alive(h: TaskHeader) -> bool {
    h.state == TaskState::PendingLaunch || h.state == TaskState::Running
        || h.state == TaskState::SuspendedAwaiting || h.state == TaskState::SuspendedCompleted
}

/// What task `i` sees of the executor while it runs, with `s` the headers
/// at that moment.
pub open spec fn context_of(s: Seq<TaskHeader>, i: int, now: u64) -> TaskContext {
    TaskContext {
        task: i as usize,
        current_task: Some(i as usize),
        tasks_pending_launch: count_state(s, TaskState::PendingLaunch) as usize,
        tasks_running: count_state(s, TaskState::Running) as usize,
        tasks_suspended: count_suspended(s) as usize,
        now,
    }
}

/// Task `i`, marked running in `s` at tick `t`, runs one slice at time `now`
/// that ends at tick `t + 1`: the headers and user code after it.
pub open spec fn slice_of<B: TaskBody>(s: Seq<TaskHeader>, bs: Seq<B>, i: int, t: u64, now: u64) -> (Seq<TaskHeader>, Seq<B>) {
    let ctx = context_of(s, i, now);
    (
        s.update(i, spec_slice_ended(s[i], bs[i].next_step(ctx), (t + 1) as u64, now)),
        bs.update(i, bs[i].next_state(ctx)),
    )
}

/// `(s2, bs2)` is `(s, bs)` after a run whose first tick was after `t`
/// launched the first task waiting for its launch for one slice.
pub open spec fn launch_step<B: TaskBody>(
    s: Seq<TaskHeader>,
    bs: Seq<B>,
    s2: Seq<TaskHeader>,
    bs2: Seq<B>,
    t: u64,
    now: u64,
) -> bool {
    exists|i: int| #[trigger] is_first_pending(s, i)
        && (s2, bs2) == slice_of(s.update(i, spec_launched(s[i], (t + 1) as u64)), bs, i, (t + 1) as u64, now)
}

/// The first `i` tasks of `s` after waking, in order from tick `t` on, those
/// whose timer has fired at `now`; and the last tick used.
pub open spec fn harvest_pass(s: Seq<TaskHeader>, t: u64, now: u64, i: nat) -> (Seq<TaskHeader>, u64)
    decreases i,
{
    if i == 0 {
        (s, t)
    } else {
        let (h, t1) = harvest_pass(s, t, now, (i - 1) as nat);
        let j = i - 1;
        if is_due(h[j], now) {
            (h.update(j, spec_wait_completed(h[j], (t1 + 1) as u64)), (t1 + 1) as u64)
        } else {
            (h, t1)
        }
    }
}

/// The first `i` tasks of `s` after re-entering, in order from tick `t` on,
/// each woken task for one slice; the user code after it; the last tick used.
pub open spec fn resume_pass<B: TaskBody>(s: Seq<TaskHeader>, bs: Seq<B>, t: u64, now: u64, i: nat) -> (Seq<TaskHeader>, Seq<B>, u64)
    decreases i,
{
    if i == 0 {
        (s, bs, t)
    } else {
        let (h, b, t1) = resume_pass(s, bs, t, now, (i - 1) as nat);
        let j = i - 1;
        if h[j].state == TaskState::SuspendedCompleted {
            let (h2, b2) = slice_of(h.update(j, spec_resumed(h[j], (t1 + 1) as u64)), b, j, (t1 + 1) as u64, now);
            (h2, b2, (t1 + 2) as u64)
        } else {
            (h, b, t1)
        }
    }
}

/// Ticks that a run with nothing to launch uses: one per timer that fires,
/// two per slice.
pub open spec fn wake_ticks(s: Seq<TaskHeader>, now: u64) -> nat {
    count_where(s, due_at(now)) + 2 * count_where(s, ready_at(now))
}

/// Some task is alive.
pub open spec fn has_alive(s: Seq<TaskHeader>) -> bool {
    exists|i: int| 0 <= i < s.len() && is_alive(#[trigger] s[i])
}

/// Task `i` is the first of `s` that waits for its launch.
pub open spec fn is_first_pending(s: Seq<TaskHeader>, i: int) -> bool {
    &&& 0 <= i < s.len()
    &&& s[i].state == TaskState::PendingLaunch
    &&& forall|j: int| 0 <= j < i ==> s[j].state != TaskState::PendingLaunch
}

pub open spec fn has_pending(s: Seq<TaskHeader>) -> bool {
    exists|i: int| 0 <= i < s.len() && s[i].state == TaskState::PendingLaunch
}

/// `h2` is `h` after a run at time `now`, whose first tick was after `t`,
/// woke it (if it was waiting) and re-entered it for one slice.
pub open spec fn resumed_by_run(h: TaskHeader, h2: TaskHeader, t: u64, now: u64) -> bool {
    &&& h2.state == TaskState::SuspendedAwaiting || h2.state == TaskState::Detached
    &&& h2.switcher == h.switcher && h2.stack_size == h.stack_size
    &&& h2.ticks_when_attached == h.ticks_when_attached
    &&& h2.ticks_when_initiated == h.ticks_when_initiated
    &&& t < h2.ticks_when_resumed
    &&& h2.ticks_when_suspended_completed < h2.ticks_when_resumed
    &&& h.state == TaskState::SuspendedCompleted ==> h2.ticks_when_suspended_completed == h.ticks_when_suspended_completed
    &&& h.state == TaskState::SuspendedAwaiting ==> t < h2.ticks_when_suspended_completed
    &&& h2.total_ticks_executed == h.total_ticks_executed + 1
    &&& h2.state == TaskState::SuspendedAwaiting ==> h2.ticks_when_suspended_awaiting == h2.ticks_when_resumed + 1
        && h2.deadline >= now && h2.result == h.result
    &&& h2.state == TaskState::Detached ==> h2.ticks_when_detached == h2.ticks_when_resumed + 1
        && h2.result is Some
}

impl<'a, B: TaskBody> Executor<'a, B> {
    /// The headers of the attached tasks, in attach order.
    pub closed spec fn tasks(&self) -> Seq<TaskHeader> {
        self.headers@
    }

    /// The user code of the attached tasks, in attach order.
    pub closed spec fn bodies(&self) -> Seq<B> {
        self.bodies@
    }

    /// The last tick handed out.
    pub closed spec fn spec_tick(&self) -> u64 {
        self.tick
    }

    pub closed spec fn spec_destroyed(&self) -> bool {
        self.destroyed
    }

    pub closed spec fn spec_ring_entries(&self) -> u32 {
        self.ring_entries
    }

    /// Well-formed between calls: one body per header, no task running, and
    /// every header's ticks ordered and handed out already.
    pub closed spec fn wf(&self) -> bool {
        &&& self.headers@.len() == self.bodies@.len()
        &&& self.switchers@.len() == self.headers@.len()
        &&& self.current is None
        &&& forall|i: int| 0 <= i < self.headers@.len() ==> headers_ok_at(#[trigger] self.headers@[i], self.tick)
        &&& forall|i: int| 0 <= i < self.headers@.len() ==> #[trigger] self.headers@[i].state != TaskState::Running
    }

    /// The task being run, during one of its slices.
    pub closed spec fn spec_current_task(&self) -> Option<usize> {
        self.current
    }

    /// Creates an executor with no tasks. Fails with `EINVAL` when the ring
    /// has no entries.
    pub fn new(attr: ExecutorAttr) -> (r: Result<Executor<'a, B>, StatusCode>)
        ensures
            r is Ok <==> attr.ring_entries > 0,
            r is Err ==> r == Err::<Executor<'a, B>, StatusCode>(StatusCode { value: EINVAL }),
            r is Ok ==> ({
                let ex = r->Ok_0;
                &&& ex.wf()
                &&& ex.tasks().len() == 0
                &&& ex.spec_tick() == 0
                &&& !ex.spec_destroyed()
                &&& ex.spec_ring_entries() == attr.ring_entries
            }),
    {
        if attr.ring_entries == 0 {
            return Err(StatusCode { value: EINVAL });
        }
        Ok(Executor { ring_entries: attr.ring_entries, switchers: Vec::new(), tick: 0, destroyed: false, current: None, headers: Vec::new(), bodies: Vec::new() })
    }

    pub fn ring_entries(&self) -> (r: u32)
        ensures
            r == self.spec_ring_entries(),
    {
        self.ring_entries
    }

    /// The task being run: none between calls.
    pub fn current_task(&self) -> (r: Option<usize>)
        ensures
            r == self.spec_current_task(),
            self.wf() ==> r is None,
    {
        self.current
    }

    pub fn tick(&self) -> (r: u64)
        ensures
            r == self.spec_tick(),
    {
        self.tick
    }

    pub fn is_destroyed(&self) -> (r: bool)
        ensures
            r == self.spec_destroyed(),
    {
        self.destroyed
    }

    pub fn task_count(&self) -> (r: usize)
        ensures
            r == self.tasks().len(),
    {
        self.headers.len()
    }

    /// The header of task `id`.
    pub fn task(&self, id: usize) -> (r: TaskHeader)
        requires
            id < self.tasks().len(),
        ensures
            r == self.tasks()[id as int],
    {
        self.headers[id]
    }

    /// The user code of task `id`.
    pub fn body(&self, id: usize) -> (r: &B)
        requires
            self.wf(),
            id < self.tasks().len(),
        ensures
            *r == self.bodies()[id as int],
    {
        &self.bodies[id]
    }

    /// Counts the tasks in state `st`, by a scan.
    fn count_matching(&self, st: TaskState) -> (r: usize)
        ensures
            r == count_state(self.headers@, st),
    {
        let ghost s = self.headers@;
        let mut n: usize = 0;
        let mut i: usize = 0;
        while i < self.headers.len()
            invariant
                s == self.headers@,
                i <= s.len(),
                n == count_where(s.take(i as int), in_state(st)),
            decreases s.len() - i,
        {
            proof {
                lemma_count_take(s, in_state(st), i as int);
                lemma_count_le(s.take(i as int + 1), in_state(st));
            }
            if self.headers[i].state == st {
                n = n + 1;
            }
            i = i + 1;
        }
        proof {
            lemma_count_all(s, in_state(st));
        }
        n
    }

    /// Number of tasks waiting for their launch.
    pub fn tasks_pending_launch(&self) -> (r: usize)
        ensures
            r == count_state(self.tasks(), TaskState::PendingLaunch),
    {
        self.count_matching(TaskState::PendingLaunch)
    }

    /// Number of tasks running: 1 inside a slice, 0 between calls.
    pub fn tasks_running(&self) -> (r: usize)
        ensures
            r == count_state(self.tasks(), TaskState::Running),
    {
        self.count_matching(TaskState::Running)
    }

    /// Number of suspended tasks, waiting or woken.
    pub fn tasks_suspended(&self) -> (r: usize)
        ensures
            r == count_suspended(self.tasks()),
    {
        let a = self.count_matching(TaskState::SuspendedAwaiting);
        let c = self.count_matching(TaskState::SuspendedCompleted);
        let len = self.headers.len();
        proof {
            lemma_count_disjoint(self.headers@, in_state(TaskState::SuspendedAwaiting), in_state(TaskState::SuspendedCompleted));
            assert(a + c <= len);
        }
        a + c
    }

    /// Between calls every task of the executor has its ticks ordered as its
    /// state requires and handed out already, has its result slot filled
    /// exactly when it has returned, and does not run.
    pub proof fn lemma_wf_tasks(&self)
        requires
            self.wf(),
        ensures
            self.bodies().len() == self.tasks().len(),
            forall|i: int| 0 <= i < self.tasks().len() ==> headers_ok_at(#[trigger] self.tasks()[i], self.spec_tick())
                && self.tasks()[i].state != TaskState::Running,
            count_state(self.tasks(), TaskState::Running) == 0,
    {
        lemma_count_zero(self.headers@, in_state(TaskState::Running));
    }

    /// A task that has returned passed its tick counters in order: attached,
    /// initiated, suspended awaiting, suspended completed, resumed, detached,
    /// all at or before the executor's clock; if it ever suspended, each of
    /// these came strictly after the one before.
    pub proof fn law_returned_tick_order(&self, i: int)
        requires
            self.wf(),
            0 <= i < self.tasks().len(),
            self.tasks()[i].state == TaskState::Detached,
        ensures
            ({
                let h = self.tasks()[i];
                &&& h.ticks_when_attached < h.ticks_when_initiated
                &&& h.ticks_when_initiated <= h.ticks_when_suspended_awaiting
                &&& h.ticks_when_suspended_awaiting <= h.ticks_when_suspended_completed
                &&& h.ticks_when_suspended_completed <= h.ticks_when_resumed
                &&& h.ticks_when_resumed < h.ticks_when_detached
                &&& h.ticks_when_detached <= self.spec_tick()
                &&& h.ticks_when_initiated < h.ticks_when_resumed ==> h.ticks_when_initiated < h.ticks_when_suspended_awaiting
                    < h.ticks_when_suspended_completed < h.ticks_when_resumed
                &&& h.total_ticks_executed + h.ticks_when_initiated <= h.ticks_when_detached
                &&& h.result is Some
            }),
    {
        assert(headers_ok_at(self.headers@[i], self.tick));
    }

    /// The earliest deadline of a waiting task.
    pub fn next_deadline(&self) -> (r: Option<u64>)
        ensures
            r is None <==> forall|j: int| 0 <= j < self.tasks().len()
                ==> #[trigger] self.tasks()[j].state != TaskState::SuspendedAwaiting,
            r is Some ==> (exists|j: int| 0 <= j < self.tasks().len()
                && #[trigger] self.tasks()[j].state == TaskState::SuspendedAwaiting
                && self.tasks()[j].deadline == r->Some_0),
            r is Some ==> (forall|j: int| 0 <= j < self.tasks().len()
                && #[trigger] self.tasks()[j].state == TaskState::SuspendedAwaiting
                ==> r->Some_0 <= self.tasks()[j].deadline),
    {
        let mut best: Option<u64> = None;
        let mut i: usize = 0;
        while i < self.headers.len()
            invariant
                i <= self.headers@.len(),
                best is None <==> forall|j: int| 0 <= j < i ==> #[trigger] self.headers@[j].state != TaskState::SuspendedAwaiting,
                best is Some ==> (exists|j: int| 0 <= j < i
                    && #[trigger] self.headers@[j].state == TaskState::SuspendedAwaiting
                    && self.headers@[j].deadline == best->Some_0),
                best is Some ==> (forall|j: int| 0 <= j < i
                    && #[trigger] self.headers@[j].state == TaskState::SuspendedAwaiting
                    ==> best->Some_0 <= self.headers@[j].deadline),
            decreases self.headers@.len() - i,
        {
            let h = self.headers[i];
            if h.state == TaskState::SuspendedAwaiting {
                match best {
                    Some(b) => {
                        if h.deadline < b {
                            best = Some(h.deadline);
                        }
                    },
                    None => {
                        best = Some(h.deadline);
                    },
                }
            }
            i = i + 1;
        }
        best
    }

    /// Attaches a created task at the next tick; it waits for its launch
    /// behind every task attached before it. The task is moved in, so it
    /// cannot be attached twice. Returns its index. Fails with
    /// `EINVAL` once the executor is destroyed, and with `EOVERFLOW` when
    /// the tick clock is exhausted.
    pub fn attach(&mut self, task: Task<'a, B>) -> (r: Result<usize, StatusCode>)
        requires
            old(self).wf(),
        ensures
            final(self).wf(),
            old(self).spec_destroyed() ==> r == Err::<usize, StatusCode>(StatusCode { value: EINVAL }),
            !old(self).spec_destroyed() && old(self).spec_tick() == u64::MAX
                ==> r == Err::<usize, StatusCode>(StatusCode { value: EOVERFLOW }),
            r is Ok <==> !old(self).spec_destroyed() && old(self).spec_tick() < u64::MAX,
            r is Err ==> *final(self) == *old(self),
            r is Ok ==> ({
                let t = (old(self).spec_tick() + 1) as u64;
                &&& r->Ok_0 == old(self).tasks().len()
                &&& final(self).tasks() == old(self).tasks().push(spec_attached(task.spec_header(), t))
                &&& final(self).bodies() == old(self).bodies().push(task.spec_body())
                &&& final(self).spec_tick() == t
                &&& !final(self).spec_destroyed()
                &&& final(self).spec_ring_entries() == old(self).spec_ring_entries()
            }),
    {
        if self.destroyed {
            return Err(StatusCode { value: EINVAL });
        }
        if self.tick == u64::MAX {
            return Err(StatusCode { value: EOVERFLOW });
        }
        let (header, body, switcher) = task.into_parts();
        let t = self.tick + 1;
        let id = self.headers.len();
        self.tick = t;
        self.headers.push(header.attached(t));
        self.bodies.push(body);
        self.switchers.push(switcher);
        proof {
            let s = self.headers@;
            assert forall|i: int| 0 <= i < s.len() implies headers_ok_at(#[trigger] s[i], t) by {
                if i < s.len() - 1 {
                    assert(headers_ok_at(old(self).headers@[i], old(self).tick));
                }
            }
        }
        Ok(id)
    }

    /// Destroys the executor, at most once. Fails with `EINVAL` when already
    /// destroyed, and with `EBUSY` while a task is alive in it.
    pub fn destroy(&mut self) -> (r: Result<(), StatusCode>)
        requires
            old(self).wf(),
        ensures
            final(self).wf(),
            old(self).spec_destroyed() ==> r == Err::<(), StatusCode>(StatusCode { value: EINVAL }),
            !old(self).spec_destroyed() && has_alive(old(self).tasks())
                ==> r == Err::<(), StatusCode>(StatusCode { value: EBUSY }),
            r is Ok <==> !old(self).spec_destroyed() && !has_alive(old(self).tasks()),
            r is Err ==> *final(self) == *old(self),
            r is Ok ==> final(self).spec_destroyed() && final(self).tasks() == old(self).tasks()
                && final(self).bodies() == old(self).bodies() && final(self).spec_tick() == old(self).spec_tick()
                && final(self).spec_ring_entries() == old(self).spec_ring_entries(),
    {
        if self.destroyed {
            return Err(StatusCode { value: EINVAL });
        }
        let pending = self.tasks_pending_launch();
        let awaiting = self.count_matching(TaskState::SuspendedAwaiting);
        let woken = self.count_matching(TaskState::SuspendedCompleted);
        proof {
            let s = self.headers@;
            lemma_count_zero(s, in_state(TaskState::PendingLaunch));
            lemma_count_zero(s, in_state(TaskState::SuspendedAwaiting));
            lemma_count_zero(s, in_state(TaskState::SuspendedCompleted));
            if has_alive(s) {
                let i = choose|i: int| 0 <= i < s.len() && is_alive(s[i]);
                assert(s[i].state != TaskState::Running);
            }
        }
        if pending > 0 || awaiting > 0 || woken > 0 {
            return Err(StatusCode { value: EBUSY });
        }
        self.destroyed = true;
        Ok(())
    }

    /// Releases task `id`, which must have returned. Fails with `EINVAL`
    /// when there is no such task or it is already released, and with
    /// `EBUSY` while the task is alive.
    pub fn destroy_task(&mut self, id: usize) -> (r: Result<(), StatusCode>)
        requires
            old(self).wf(),
        ensures
            final(self).wf(),
            ({
                let s = old(self).tasks();
                let einval = id >= s.len() || s[id as int].state == TaskState::Destroyed;
                let ebusy = id < s.len() && is_alive(s[id as int]);
                &&& einval ==> r == Err::<(), StatusCode>(StatusCode { value: EINVAL })
                &&& ebusy ==> r == Err::<(), StatusCode>(StatusCode { value: EBUSY })
                &&& r is Ok <==> !einval && !ebusy
            }),
            r is Err ==> *final(self) == *old(self),
            r is Ok ==> ({
                let h = old(self).tasks()[id as int];
                &&& final(self).tasks() == old(self).tasks().update(id as int, TaskHeader { state: TaskState::Destroyed, ..h })
                &&& final(self).bodies() == old(self).bodies()
                &&& final(self).spec_tick() == old(self).spec_tick()
                &&& final(self).spec_destroyed() == old(self).spec_destroyed()
                &&& final(self).spec_ring_entries() == old(self).spec_ring_entries()
            }),
    {
        if id >= self.headers.len() {
            return Err(StatusCode { value: EINVAL });
        }
        let h = self.headers[id];
        if h.state == TaskState::Destroyed {
            return Err(StatusCode { value: EINVAL });
        }
        if h.state != TaskState::Detached {
            return Err(StatusCode { value: EBUSY });
        }
        self.headers.set(id, TaskHeader { state: TaskState::Destroyed, ..h });
        Ok(())
    }

    /// Ready for a slice of task `i`, which is marked running.
    closed spec fn slice_ready(&self, i: int) -> bool {
        &&& self.headers@.len() == self.bodies@.len()
        &&& self.switchers@.len() == self.headers@.len()
        &&& self.current is None
        &&& 0 <= i < self.headers@.len()
        &&& self.headers@[i].state == TaskState::Running
        &&& self.tick < u64::MAX
        &&& forall|j: int| 0 <= j < self.headers@.len() ==> headers_ok_at(#[trigger] self.headers@[j], self.tick)
        &&& forall|j: int| 0 <= j < self.headers@.len() && j != i ==> #[trigger] self.headers@[j].state != TaskState::Running
    }

    /// What the running task `i` sees of the executor.
    fn context_for(&self, i: usize, now: u64) -> (r: TaskContext)
        requires
            self.spec_current_task() == Some(i),
        ensures
            r == context_of(self.tasks(), i as int, now),
    {
        proof {
            lemma_count_le(self.headers@, in_state(TaskState::PendingLaunch));
            lemma_count_le(self.headers@, in_state(TaskState::Running));
            lemma_count_disjoint(self.headers@, in_state(TaskState::SuspendedAwaiting), in_state(TaskState::SuspendedCompleted));
        }
        TaskContext {
            task: i,
            current_task: self.current,
            tasks_pending_launch: self.tasks_pending_launch(),
            tasks_running: self.tasks_running(),
            tasks_suspended: self.tasks_suspended(),
            now,
        }
    }

    /// Runs one slice of task `i` and ends it at the next tick.
    fn run_slice(&mut self, i: usize, now: u64) -> (step: Step)
        requires
            old(self).slice_ready(i as int),
        ensures
            final(self).wf(),
            final(self).spec_tick() == old(self).spec_tick() + 1,
            final(self).tasks() == old(self).tasks().update(
                i as int,
                spec_slice_ended(old(self).tasks()[i as int], step, final(self).spec_tick(), now),
            ),
            (final(self).tasks(), final(self).bodies())
                == slice_of(old(self).tasks(), old(self).bodies(), i as int, old(self).spec_tick(), now),
            step == old(self).bodies()[i as int].next_step(context_of(old(self).tasks(), i as int, now)),
            final(self).spec_destroyed() == old(self).spec_destroyed(),
            final(self).spec_ring_entries() == old(self).spec_ring_entries(),
    {
        self.current = Some(i);
        let ctx = self.context_for(i, now);
        let step = self.bodies[i].resume(&ctx);
        self.current = None;
        assert(ctx == context_of(old(self).headers@, i as int, now));
        let t = self.tick + 1;
        let h = self.headers[i];
        assert(headers_ok_at(h, self.tick));
        let h2 = h.slice_ended(step, t, now);
        self.headers.set(i, h2);
        self.tick = t;
        proof {
            let s = self.headers@;
            assert forall|j: int| 0 <= j < s.len() implies headers_ok_at(#[trigger] s[j], t) && s[j].state != TaskState::Running by {
                if j != i {
                    assert(headers_ok_at(old(self).headers@[j], old(self).tick));
                }
            }
        }
        step
    }

    /// Index of the first task waiting for its launch.
    fn first_pending(&self) -> (r: Option<usize>)
        ensures
            r is Some ==> is_first_pending(self.tasks(), r->Some_0 as int),
            r is None ==> !has_pending(self.tasks()),
    {
        let mut i: usize = 0;
        while i < self.headers.len()
            invariant
                i <= self.headers@.len(),
                forall|j: int| 0 <= j < i ==> self.headers@[j].state != TaskState::PendingLaunch,
            decreases self.headers@.len() - i,
        {
            if self.headers[i].state == TaskState::PendingLaunch {
                return Some(i);
            }
            i = i + 1;
        }
        None
    }

    /// Counts, by a scan, the tasks whose timer has fired at time `now` and
    /// the tasks a run at `now` with nothing to launch re-enters.
    fn count_due_ready(&self, now: u64) -> (r: (usize, usize))
        ensures
            r.0 == count_where(self.tasks(), due_at(now)),
            r.1 == count_where(self.tasks(), ready_at(now)),
    {
        let ghost s = self.headers@;
        let mut due: usize = 0;
        let mut ready: usize = 0;
        let mut i: usize = 0;
        while i < self.headers.len()
            invariant
                s == self.headers@,
                i <= s.len(),
                due == count_where(s.take(i as int), due_at(now)),
                ready == count_where(s.take(i as int), ready_at(now)),
            decreases s.len() - i,
        {
            proof {
                lemma_count_take(s, due_at(now), i as int);
                lemma_count_take(s, ready_at(now), i as int);
                lemma_count_le(s.take(i as int + 1), due_at(now));
                lemma_count_le(s.take(i as int + 1), ready_at(now));
            }
            let h = self.headers[i];
            if h.state == TaskState::SuspendedAwaiting && h.deadline <= now {
                due = due + 1;
                ready = ready + 1;
            } else if h.state == TaskState::SuspendedCompleted {
                ready = ready + 1;
            }
            i = i + 1;
        }
        proof {
            lemma_count_all(s, due_at(now));
            lemma_count_all(s, ready_at(now));
        }
        (due, ready)
    }

    /// One pass of the run loop at time `now`, in nanoseconds.
    ///
    /// When a task waits for its launch, the first attached of them is
    /// switched into for one slice, and the pass reports one task that made
    /// progress. Otherwise every waiting task whose deadline is at or before
    /// `now` is woken, in attach order, and then every woken task is
    /// re-entered for one slice, in attach order; the pass reports how many
    /// were re-entered. Tasks that suspend in this pass are not woken before
    /// the next. Fails with `EINVAL` once the executor is destroyed, and with
    /// `EOVERFLOW`, changing nothing, when the tick clock cannot cover the
    /// pass.
    pub fn run(&mut self, now: u64) -> (r: Result<usize, StatusCode>)
        requires
            old(self).wf(),
        ensures
            final(self).wf(),
            final(self).tasks().len() == old(self).tasks().len(),
            final(self).bodies().len() == old(self).bodies().len(),
            final(self).spec_destroyed() == old(self).spec_destroyed(),
            final(self).spec_ring_entries() == old(self).spec_ring_entries(),
            old(self).spec_destroyed() ==> r == Err::<usize, StatusCode>(StatusCode { value: EINVAL }),
            r is Err ==> *final(self) == *old(self),
            !old(self).spec_destroyed() && has_pending(old(self).tasks()) ==> if old(self).spec_tick() + 2 > u64::MAX {
                r == Err::<usize, StatusCode>(StatusCode { value: EOVERFLOW })
            } else {
                &&& r == Ok::<usize, StatusCode>(1)
                &&& final(self).spec_tick() == old(self).spec_tick() + 2
                &&& launch_step(old(self).tasks(), old(self).bodies(), final(self).tasks(), final(self).bodies(), old(self).spec_tick(), now)
            },
            !old(self).spec_destroyed() && !has_pending(old(self).tasks()) ==> ({
                let s = old(self).tasks();
                let t = old(self).spec_tick();
                if t + wake_ticks(s, now) > u64::MAX {
                    r == Err::<usize, StatusCode>(StatusCode { value: EOVERFLOW })
                } else {
                    &&& r == Ok::<usize, StatusCode>(count_where(s, ready_at(now)) as usize)
                    &&& final(self).spec_tick() == t + wake_ticks(s, now)
                    &&& ({
                        let (m, tm) = harvest_pass(s, t, now, s.len());
                        (final(self).tasks(), final(self).bodies(), final(self).spec_tick())
                            == resume_pass(m, old(self).bodies(), tm, now, s.len())
                    })
                    &&& forall|j: int| 0 <= j < s.len() ==> if is_ready(s[j], now) {
                        resumed_by_run(s[j], #[trigger] final(self).tasks()[j], t, now)
                    } else {
                        final(self).tasks()[j] == s[j]
                    }
                }
            }),
    {
        if self.destroyed {
            return Err(StatusCode { value: EINVAL });
        }
        match self.first_pending() {
            Some(i) => {
                if self.tick > u64::MAX - 2 {
                    return Err(StatusCode { value: EOVERFLOW });
                }
                let t = self.tick + 1;
                let h = self.headers[i];
                assert(headers_ok_at(h, self.tick));
                self.headers.set(i, h.launched(t));
                self.tick = t;
                proof {
                    let s = self.headers@;
                    assert forall|j: int| 0 <= j < s.len() implies headers_ok_at(#[trigger] s[j], t) by {
                        if j != i {
                            assert(headers_ok_at(old(self).headers@[j], old(self).tick));
                        }
                    }
                    assert forall|j: int| 0 <= j < s.len() && j != i implies #[trigger] s[j].state != TaskState::Running by {
                        assert(old(self).headers@[j].state != TaskState::Running);
                    }
                }
                let ghost launched = self.headers@;
                let step = self.run_slice(i, now);
                proof {
                    let s0 = old(self).headers@;
                    assert(launched =~= s0.update(i as int, spec_launched(s0[i as int], t)));
                    assert(is_first_pending(s0, i as int));
                }
                return Ok(1);
            },
            None => {},
        }
        let (due, ready) = self.count_due_ready(now);
        let ghost s0 = self.headers@;
        let ghost t0 = self.tick;
        proof {
            lemma_count_le(s0, ready_at(now));
        }
        if ready as u64 > (u64::MAX - self.tick) / 2 || due as u64 > u64::MAX - self.tick - 2 * (ready as u64) {
            return Err(StatusCode { value: EOVERFLOW });
        }
        assert(t0 + wake_ticks(s0, now) <= u64::MAX);
        // Wake every task whose timer has fired.
        let mut i: usize = 0;
        while i < self.headers.len()
            invariant
                self.headers@.len() == s0.len(),
                self.bodies@ == old(self).bodies@,
                self.destroyed == old(self).destroyed,
                self.ring_entries == old(self).ring_entries,
                self.switchers@.len() == s0.len(),
                self.current is None,
                i <= s0.len(),
                t0 + wake_ticks(s0, now) <= u64::MAX,
                self.tick == t0 + count_where(s0.take(i as int), due_at(now)),
                (self.headers@, self.tick) == harvest_pass(s0, t0, now, i as nat),
                forall|j: int| 0 <= j < s0.len() ==> headers_ok_at(#[trigger] self.headers@[j], self.tick)
                    && self.headers@[j].state != TaskState::Running,
                forall|j: int| 0 <= j < i ==> if is_due(s0[j], now) {
                    &&& #[trigger] self.headers@[j] == spec_wait_completed(s0[j], self.headers@[j].ticks_when_suspended_completed)
                    &&& t0 < self.headers@[j].ticks_when_suspended_completed
                } else {
                    self.headers@[j] == s0[j]
                },
                forall|j: int| i <= j < s0.len() ==> #[trigger] self.headers@[j] == s0[j],
            decreases s0.len() - i,
        {
            proof {
                lemma_count_take(s0, due_at(now), i as int);
                lemma_count_prefix_le(s0, due_at(now), i as int + 1);
            }
            let h = self.headers[i];
            if h.state == TaskState::SuspendedAwaiting && h.deadline <= now {
                let t = self.tick + 1;
                let ghost before = self.headers@;
                self.headers.set(i, h.wait_completed(t));
                self.tick = t;
                proof {
                    let s = self.headers@;
                    assert forall|j: int| 0 <= j < s0.len() implies headers_ok_at(#[trigger] s[j], t)
                        && s[j].state != TaskState::Running by {
                        assert(headers_ok_at(before[j], (t - 1) as u64));
                    }
                }
            }
            i = i + 1;
        }
        proof {
            lemma_count_all(s0, due_at(now));
        }
        let ghost mid = self.headers@;
        let ghost tm = self.tick;
        assert(self.bodies@ == old(self).bodies@);
        proof {
            lemma_count_pointwise(s0, ready_at(now), mid, in_state(TaskState::SuspendedCompleted));
        }
        // Re-enter every woken task.
        let mut n: usize = 0;
        let mut i: usize = 0;
        while i < self.headers.len()
            invariant
                self.headers@.len() == s0.len(),
                mid.len() == s0.len(),
                self.bodies@.len() == s0.len(),
                self.destroyed == old(self).destroyed,
                self.ring_entries == old(self).ring_entries,
                self.switchers@.len() == s0.len(),
                self.current is None,
                i <= s0.len(),
                tm + 2 * count_where(mid, in_state(TaskState::SuspendedCompleted)) <= u64::MAX,
                n == count_where(mid.take(i as int), in_state(TaskState::SuspendedCompleted)),
                self.tick == tm + 2 * n,
                (self.headers@, self.bodies@, self.tick) == resume_pass(mid, old(self).bodies@, tm, now, i as nat),
                forall|j: int| 0 <= j < s0.len() ==> headers_ok_at(#[trigger] self.headers@[j], self.tick)
                    && self.headers@[j].state != TaskState::Running,
                forall|j: int| 0 <= j < i ==> if mid[j].state == TaskState::SuspendedCompleted {
                    resumed_by_run(mid[j], #[trigger] self.headers@[j], tm, now)
                } else {
                    self.headers@[j] == mid[j]
                },
                forall|j: int| i <= j < s0.len() ==> #[trigger] self.headers@[j] == mid[j],
            decreases s0.len() - i,
        {
            proof {
                lemma_count_take(mid, in_state(TaskState::SuspendedCompleted), i as int);
                lemma_count_prefix_le(mid, in_state(TaskState::SuspendedCompleted), i as int + 1);
                lemma_count_le(mid.take(i as int + 1), in_state(TaskState::SuspendedCompleted));
            }
            let h = self.headers[i];
            if h.state == TaskState::SuspendedCompleted {
                let t = self.tick + 1;
                let ghost before = self.headers@;
                assert(headers_ok_at(h, self.tick));
                self.headers.set(i, h.resumed(t));
                self.tick = t;
                proof {
                    let s = self.headers@;
                    assert forall|j: int| 0 <= j < s.len() implies headers_ok_at(#[trigger] s[j], t) by {
                        assert(headers_ok_at(before[j], (t - 1) as u64));
                    }
                    assert forall|j: int| 0 <= j < s.len() && j != i implies #[trigger] s[j].state != TaskState::Running by {
                        assert(before[j].state != TaskState::Running);
                    }
                }
                let ghost running = self.headers@;
                let step = self.run_slice(i, now);
                proof {
                    assert(self.headers@[i as int] == spec_slice_ended(running[i as int], step, (t + 1) as u64, now));
                    assert forall|j: int| 0 <= j < s0.len() && j != i implies #[trigger] self.headers@[j] == before[j] by {
                    }
                }
                n = n + 1;
            }
            i = i + 1;
        }
        proof {
            lemma_count_all(mid, in_state(TaskState::SuspendedCompleted));
            let s = self.headers@;
            assert forall|j: int| 0 <= j < s0.len() implies if is_ready(s0[j], now) {
                resumed_by_run(s0[j], #[trigger] s[j], t0, now)
            } else {
                s[j] == s0[j]
            } by {
                if is_ready(s0[j], now) {
                    assert(mid[j].state == TaskState::SuspendedCompleted);
                }
            }
        }
        Ok(n)
    }
}

/// What the executor keeps true of every header between and during calls.
pub open spec fn headers_ok_at(h: TaskHeader, tick: u64) -> bool {
    &&& header_ok(h, tick)
    &&& h.state != TaskState::Created
}

/// What a blocking run does after a pass of the run loop.
#[derive(Clone, Copy, Debug, PartialEq, Eq, Structural)]
pub enum RunAction {
    /// Return the progress made so far.
    Return,
    /// The timeout passed with no progress: fail with `ETIME`.
    TimedOut,
    /// Wait until this time, in nanoseconds, and make another pass.
    SleepUntil(u64),
}

pub open spec fn spec_run_action(progress: usize, min_completions: usize, now: u64, timeout_at: u64, next_deadline: Option<u64>) -> RunAction {
    if progress >= min_completions {
        RunAction::Return
    } else if now >= timeout_at {
        if progress == 0 { RunAction::TimedOut } else { RunAction::Return }
    } else {
        match next_deadline {
            Some(d) => RunAction::SleepUntil(if d < timeout_at { d } else { timeout_at }),
            None => RunAction::SleepUntil(timeout_at),
        }
    }
}

/// Decides, after passes that made `progress` in all, whether a blocking run
/// that wants `min_completions` and gives up at `timeout_at` returns, times
/// out, or waits for the earlier of the next deadline and the timeout.
pub fn run_action(progress: usize, min_completions: usize, now: u64, timeout_at: u64, next_deadline: Option<u64>) -> (r: RunAction)
    ensures
        r == spec_run_action(progress, min_completions, now, timeout_at, next_deadline),
{
    if progress >= min_completions {
        RunAction::Return
    } else if now >= timeout_at {
        if progress == 0 {
            RunAction::TimedOut
        } else {
            RunAction::Return
        }
    } else {
        match next_deadline {
            Some(d) => RunAction::SleepUntil(if d < timeout_at { d } else { timeout_at }),
            None => RunAction::SleepUntil(timeout_at),
        }
    }
}

} // verus!
