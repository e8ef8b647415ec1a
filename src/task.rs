//! Tasks: the lifecycle state machine of one cooperative unit of work, its
//! tick counters, its result slot, and the user code it runs.

use vstd::prelude::*;
use crate::status::{RawOutcome, StatusCode, EINVAL};
use crate::switcher::{ContextSwitcher, SwitcherKind};

verus! {

/// Where a task stands in its lifecycle. Exactly one holds at any instant.
#[derive(Clone, Copy, Debug, PartialEq, Eq, Structural)]
pub enum TaskState {
    /// Created, not attached to any executor.
    Created,
    /// Attached, not yet given its first execution slice.
    PendingLaunch,
    /// Executing its user code inside the run loop.
    Running,
    /// Waiting for its timer.
    SuspendedAwaiting,
    /// Its timer fired; waiting only for the run loop to re-enter it.
    SuspendedCompleted,
    /// Its user code returned; the result slot is filled.
    Detached,
    /// Released; nothing refers to it any more.
    Destroyed,
}

/// Attributes given at task creation.
#[derive(Clone, Copy, Debug, PartialEq, Eq, Structural)]
pub struct TaskAttr {
    pub stack_size: usize,
}

/// What the user code of a task does at the end of an execution slice.
#[derive(Clone, Copy, Debug, PartialEq, Eq, Structural)]
pub enum Step {
    /// Suspend until at least this many nanoseconds after the slice's time.
    SuspendFor(u64),
    /// Return from the user code with this result (see `to_result`).
    Complete(RawOutcome),
}

/// What user code can observe of its executor while it runs.
#[derive(Clone, Copy, Debug, PartialEq, Eq, Structural)]
pub struct TaskContext {
    /// The task being run.
    pub task: usize,
    /// The executor's current task.
    pub current_task: Option<usize>,
    pub tasks_pending_launch: usize,
    pub tasks_running: usize,
    pub tasks_suspended: usize,
    /// The time of the run call, in nanoseconds.
    pub now: u64,
}

/// The user code of a task. Each call runs one execution slice, from the
/// task's launch or its last suspension point up to its next suspension
/// point or its return. What a slice does depends on the user code's own
/// state and on what it sees of the executor: an implementation promises
/// that `resume` returns `next_step` and leaves `next_state`, and what the
/// executor states of the tasks it runs rests on that promise. Outside
/// Verus the promise is kept most simply by writing `resume` from the two.
pub trait TaskBody: Sized {
    /// What the next slice ends with, given what it sees.
    spec fn next_step(&self, ctx: TaskContext) -> Step;

    /// The user code's own state after the next slice.
    spec fn next_state(&self, ctx: TaskContext) -> Self;

    fn resume(&mut self, ctx: &TaskContext) -> (r: Step)
        ensures
            r == old(self).next_step(*ctx),
            *final(self) == old(self).next_state(*ctx),
    ;
}

/// The header of a task: lifecycle state, tick counters, wake-up deadline
/// and result slot. Ticks come from the executor's logical clock; until a
/// task first suspends, its suspension ticks equal its initiation tick.
#[derive(Clone, Copy, Debug, PartialEq, Eq, Structural)]
pub struct TaskHeader {
    pub state: TaskState,
    /// The kind of switcher the task was created through.
    pub switcher: SwitcherKind,
    pub stack_size: usize,
    pub ticks_when_attached: u64,
    pub ticks_when_initiated: u64,
    pub ticks_when_suspended_awaiting: u64,
    pub ticks_when_suspended_completed: u64,
    pub ticks_when_resumed: u64,
    pub ticks_when_detached: u64,
    pub total_ticks_executed: u64,
    /// The time, in nanoseconds, at or after which a waiting task is woken.
    pub deadline: u64,
    pub result: Option<RawOutcome>,
}

/// The order of the tick counters that each state guarantees.
pub open spec fn ticks_ordered(h: TaskHeader) -> bool {
    let at = h.ticks_when_attached;
    let ini = h.ticks_when_initiated;
    let aw = h.ticks_when_suspended_awaiting;
    let co = h.ticks_when_suspended_completed;
    let re = h.ticks_when_resumed;
    let de = h.ticks_when_detached;
    let tot = h.total_ticks_executed;
    match h.state {
        TaskState::Created | TaskState::PendingLaunch => tot == 0,
        TaskState::SuspendedAwaiting => {
            &&& at < ini
            &&& ini <= co <= re < aw
            &&& (co == ini && re == ini) || (ini < co < re)
            &&& tot + ini <= aw
        },
        TaskState::SuspendedCompleted => at < ini <= re < aw < co && tot + ini <= aw,
        TaskState::Running => {
            &&& at < ini
            &&& (aw == ini && co == ini && re == ini) || (ini < aw < co < re)
            &&& tot + ini <= re
        },
        TaskState::Detached | TaskState::Destroyed => {
            &&& at < ini
            &&& (aw == ini && co == ini && re == ini) || (ini < aw < co < re)
            &&& re < de
            &&& tot + ini <= de
        },
    }
}

/// Every tick counter of `h` lies at or before `tick`.
pub open spec fn ticks_bounded(h: TaskHeader, tick: u64) -> bool {
    &&& h.ticks_when_attached <= tick
    &&& h.ticks_when_initiated <= tick
    &&& h.ticks_when_suspended_awaiting <= tick
    &&& h.ticks_when_suspended_completed <= tick
    &&& h.ticks_when_resumed <= tick
    &&& h.ticks_when_detached <= tick
    &&& h.total_ticks_executed <= tick
}

/// The result slot is filled exactly when the user code has returned.
pub open spec fn result_consistent(h: TaskHeader) -> bool {
    h.result is Some <==> (h.state == TaskState::Detached || h.state == TaskState::Destroyed)
}

pub open spec fn header_ok(h: TaskHeader, tick: u64) -> bool {
    &&& ticks_ordered(h)
    &&& ticks_bounded(h, tick)
    &&& result_consistent(h)
}

/// A fresh header.
pub open spec fn spec_created(switcher: SwitcherKind, attr: TaskAttr) -> TaskHeader {
    TaskHeader {
        state: TaskState::Created,
        switcher,
        stack_size: attr.stack_size,
        ticks_when_attached: 0,
        ticks_when_initiated: 0,
        ticks_when_suspended_awaiting: 0,
        ticks_when_suspended_completed: 0,
        ticks_when_resumed: 0,
        ticks_when_detached: 0,
        total_ticks_executed: 0,
        deadline: 0,
        result: None,
    }
}

/// Attaching at tick `t`: the counters start afresh.
pub open spec fn spec_attached(h: TaskHeader, t: u64) -> TaskHeader {
    TaskHeader {
        state: TaskState::PendingLaunch,
        ticks_when_attached: t,
        ticks_when_initiated: 0,
        ticks_when_suspended_awaiting: 0,
        ticks_when_suspended_completed: 0,
        ticks_when_resumed: 0,
        ticks_when_detached: 0,
        total_ticks_executed: 0,
        deadline: 0,
        result: None,
        ..h
    }
}

/// The first switch into the task, at tick `t`.
pub open spec fn spec_launched(h: TaskHeader, t: u64) -> TaskHeader {
    TaskHeader {
        state: TaskState::Running,
        ticks_when_initiated: t,
        ticks_when_suspended_awaiting: t,
        ticks_when_suspended_completed: t,
        ticks_when_resumed: t,
        ..h
    }
}

/// The timer of a waiting task fires at tick `t`.
pub open spec fn spec_wait_completed(h: TaskHeader, t: u64) -> TaskHeader {
    TaskHeader { state: TaskState::SuspendedCompleted, ticks_when_suspended_completed: t, ..h }
}

/// A woken task is switched into again at tick `t`.
pub open spec fn spec_resumed(h: TaskHeader, t: u64) -> TaskHeader {
    TaskHeader { state: TaskState::Running, ticks_when_resumed: t, ..h }
}

/// A slice that ran at time `now` ends with `step` at tick `t`.
pub open spec fn spec_slice_ended(h: TaskHeader, step: Step, t: u64, now: u64) -> TaskHeader {
    match step {
        Step::SuspendFor(d) => TaskHeader {
            state: TaskState::SuspendedAwaiting,
            ticks_when_suspended_awaiting: t,
            total_ticks_executed: (h.total_ticks_executed + (t - h.ticks_when_resumed)) as u64,
            deadline: now.saturating_add(d),
            ..h
        },
        Step::Complete(o) => TaskHeader {
            state: TaskState::Detached,
            ticks_when_detached: t,
            total_ticks_executed: (h.total_ticks_executed + (t - h.ticks_when_resumed)) as u64,
            result: Some(o),
            ..h
        },
    }
}

impl TaskHeader {
    pub fn is_pending_launch(&self) -> (r: bool)
        ensures
            r == (self.state == TaskState::PendingLaunch),
    {
        self.state == TaskState::PendingLaunch
    }

    pub fn is_running(&self) -> (r: bool)
        ensures
            r == (self.state == TaskState::Running),
    {
        self.state == TaskState::Running
    }

    pub fn is_suspended_awaiting(&self) -> (r: bool)
        ensures
            r == (self.state == TaskState::SuspendedAwaiting),
    {
        self.state == TaskState::SuspendedAwaiting
    }

    pub fn is_suspended_completed(&self) -> (r: bool)
        ensures
            r == (self.state == TaskState::SuspendedCompleted),
    {
        self.state == TaskState::SuspendedCompleted
    }

    pub fn attached(&self, t: u64) -> (r: TaskHeader)
        ensures
            r == spec_attached(*self, t),
    {
        TaskHeader {
            state: TaskState::PendingLaunch,
            ticks_when_attached: t,
            ticks_when_initiated: 0,
            ticks_when_suspended_awaiting: 0,
            ticks_when_suspended_completed: 0,
            ticks_when_resumed: 0,
            ticks_when_detached: 0,
            total_ticks_executed: 0,
            deadline: 0,
            result: None,
            ..*self
        }
    }

    pub fn launched(&self, t: u64) -> (r: TaskHeader)
        ensures
            r == spec_launched(*self, t),
    {
        TaskHeader {
            state: TaskState::Running,
            ticks_when_initiated: t,
            ticks_when_suspended_awaiting: t,
            ticks_when_suspended_completed: t,
            ticks_when_resumed: t,
            ..*self
        }
    }

    pub fn wait_completed(&self, t: u64) -> (r: TaskHeader)
        ensures
            r == spec_wait_completed(*self, t),
    {
        TaskHeader { state: TaskState::SuspendedCompleted, ticks_when_suspended_completed: t, ..*self }
    }

    pub fn resumed(&self, t: u64) -> (r: TaskHeader)
        ensures
            r == spec_resumed(*self, t),
    {
        TaskHeader { state: TaskState::Running, ticks_when_resumed: t, ..*self }
    }

    /// Ends the current slice at tick `t` with what the user code did.
    pub fn slice_ended(&self, step: Step, t: u64, now: u64) -> (r: TaskHeader)
        requires
            self.ticks_when_resumed <= t,
            self.total_ticks_executed + (t - self.ticks_when_resumed) <= u64::MAX,
        ensures
            r == spec_slice_ended(*self, step, t, now),
    {
        let total = self.total_ticks_executed + (t - self.ticks_when_resumed);
        match step {
            Step::SuspendFor(d) => TaskHeader {
                state: TaskState::SuspendedAwaiting,
                ticks_when_suspended_awaiting: t,
                total_ticks_executed: total,
                deadline: now.saturating_add(d),
                ..*self
            },
            Step::Complete(o) => TaskHeader {
                state: TaskState::Detached,
                ticks_when_detached: t,
                total_ticks_executed: total,
                result: Some(o),
                ..*self
            },
        }
    }
}

/// A task that is not attached to an executor: its header, its user code,
/// and a borrow of the switcher it was created through, held for as long as
/// the task exists.
pub struct Task<'a, B> {
    header: TaskHeader,
    body: B,
    switcher: &'a ContextSwitcher,
}

impl<'a, B> Task<'a, B> {
    /// A task outside any executor has never run.
    #[verifier::type_invariant]
    closed spec fn fresh(&self) -> bool {
        &&& self.header.state == TaskState::Created
        &&& self.header.total_ticks_executed == 0
        &&& self.header.result is None
    }
}

impl<'a, B: TaskBody> Task<'a, B> {
    pub closed spec fn spec_header(&self) -> TaskHeader {
        self.header
    }

    pub closed spec fn spec_body(&self) -> B {
        self.body
    }

    /// The switcher the task was created through.
    pub closed spec fn spec_switcher(&self) -> &'a ContextSwitcher {
        self.switcher
    }

    /// Creates a task through `switcher`, which it borrows from then on.
    /// Fails with `EINVAL` when the switcher is destroyed.
    pub fn create(switcher: &'a ContextSwitcher, attr: TaskAttr, body: B) -> (r: Result<Task<'a, B>, StatusCode>)
        ensures
            r is Ok <==> !switcher.spec_destroyed(),
            r is Err ==> r == Err::<Task<'a, B>, StatusCode>(StatusCode { value: EINVAL }),
            r is Ok ==> r->Ok_0.spec_header() == spec_created(switcher.spec_kind(), attr)
                && r->Ok_0.spec_body() == body
                && r->Ok_0.spec_switcher() == switcher,
    {
        if switcher.is_destroyed() {
            return Err(StatusCode { value: EINVAL });
        }
        let header = TaskHeader {
            state: TaskState::Created,
            switcher: switcher.kind(),
            stack_size: attr.stack_size,
            ticks_when_attached: 0,
            ticks_when_initiated: 0,
            ticks_when_suspended_awaiting: 0,
            ticks_when_suspended_completed: 0,
            ticks_when_resumed: 0,
            ticks_when_detached: 0,
            total_ticks_executed: 0,
            deadline: 0,
            result: None,
        };
        Ok(Task { header, body, switcher })
    }

    pub fn header(&self) -> (r: TaskHeader)
        ensures
            r == self.spec_header(),
            r.state == TaskState::Created,
            r.total_ticks_executed == 0,
            r.result is None,
    {
        proof {
            use_type_invariant(self);
        }
        self.header
    }

    pub fn body(&self) -> (r: &B)
        ensures
            *r == self.spec_body(),
    {
        &self.body
    }

    /// Splits the task into its header, user code and switcher borrow.
    pub fn into_parts(self) -> (r: (TaskHeader, B, &'a ContextSwitcher))
        ensures
            r.0 == self.spec_header(),
            r.1 == self.spec_body(),
            r.2 == self.spec_switcher(),
            r.0.state == TaskState::Created,
            r.0.total_ticks_executed == 0,
            r.0.result is None,
    {
        proof {
            use_type_invariant(&self);
        }
        (self.header, self.body, self.switcher)
    }

    /// Destroys an unattached task, ending its borrow of its switcher, and
    /// hands back its user code.
    pub fn destroy(self) -> (r: B)
        ensures
            r == self.spec_body(),
    {
        self.body
    }
}

} // verus!
