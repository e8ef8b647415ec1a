use runloop::executor::{Executor, ExecutorAttr};
use runloop::status::{make_failure, make_success, to_result, StatusCode, EBUSY, EINVAL};
use runloop::switcher::{ContextSwitcher, SwitcherKind};
use runloop::task::{Step, Task, TaskAttr, TaskBody, TaskContext, TaskState};

const TEN_MS: u64 = 10_000_000;

/// Writes 1 into its flag, suspends for ten milliseconds, writes 2 and
/// returns 5; records what it saw of the executor on each slice.
struct FlagBody {
    flag: i32,
    seen: Vec<TaskContext>,
}

impl FlagBody {
    fn new() -> FlagBody {
        FlagBody { flag: 0, seen: Vec::new() }
    }
}

impl TaskBody for FlagBody {
    fn next_step(&self, _ctx: TaskContext) -> Step {
        if self.flag == 0 {
            Step::SuspendFor(TEN_MS)
        } else {
            Step::Complete(make_success(5))
        }
    }

    fn next_state(&self, ctx: TaskContext) -> FlagBody {
        let mut seen = self.seen.clone();
        seen.push(ctx);
        FlagBody { flag: if self.flag == 0 { 1 } else { 2 }, seen }
    }

    fn resume(&mut self, ctx: &TaskContext) -> Step {
        let step = self.next_step(*ctx);
        *self = self.next_state(*ctx);
        step
    }
}

/// Returns at once with a fixed outcome.
struct OneShot {
    fail: bool,
}

impl TaskBody for OneShot {
    fn next_step(&self, _ctx: TaskContext) -> Step {
        if self.fail {
            Step::Complete(make_failure(StatusCode::new(5)))
        } else {
            Step::Complete(make_success(7))
        }
    }

    fn next_state(&self, _ctx: TaskContext) -> OneShot {
        OneShot { fail: self.fail }
    }

    fn resume(&mut self, ctx: &TaskContext) -> Step {
        self.next_step(*ctx)
    }
}

fn executor<'a, B: TaskBody>() -> Executor<'a, B> {
    let mut ex_attr = ExecutorAttr { ring_entries: 0 };
    ex_attr.ring_entries = 64;
    Executor::new(ex_attr).unwrap()
}

#[test]
fn test_executor_works() {
    let switcher = ContextSwitcher::create(SwitcherKind::SetjmpLongjmp);
    let mut ex: Executor<FlagBody> = executor();
    assert_eq!(ex.tasks_running(), 0);
    let t_attr = TaskAttr { stack_size: 0 };
    let mut now: u64 = 0;
    for n in 0..10 {
        let task = Task::create(&switcher, t_attr, FlagBody::new()).unwrap();
        let id = ex.attach(task).unwrap();
        let h = ex.task(id);
        assert_eq!(h.is_pending_launch(), true);
        assert_eq!(h.is_running(), false);
        assert_eq!(h.is_suspended_awaiting(), false);
        assert_eq!(h.is_suspended_completed(), false);
        assert_eq!(ex.current_task(), None);
        assert_eq!(ex.tasks_pending_launch(), 1);
        assert_eq!(ex.tasks_running(), 0);
        assert_eq!(ex.tasks_suspended(), 0);

        let mut r = ex.run(now).unwrap(); // runs and suspends
        let ticks_when_resumed = ex.task(id).ticks_when_resumed;
        assert_eq!(ex.body(id).flag, 1);
        assert_eq!(ex.tasks_pending_launch(), 0);
        assert_eq!(ex.tasks_running(), 0);
        assert_eq!(ex.tasks_suspended(), 1);
        assert_eq!(r, 1);
        let h = ex.task(id);
        assert_eq!(h.is_pending_launch(), false);
        assert_eq!(h.is_running(), false);
        assert_eq!(h.is_suspended_awaiting(), true);
        assert_eq!(h.is_suspended_completed(), false);

        now += TEN_MS;
        r = ex.run(now).unwrap(); // resumes and exits
        assert_eq!(ex.body(id).flag, 2);
        assert_eq!(ex.tasks_pending_launch(), 0);
        assert_eq!(ex.tasks_running(), 0);
        assert_eq!(ex.tasks_suspended(), 0);
        assert_eq!(r, 1);
        let h = ex.task(id);
        assert_eq!(h.is_pending_launch(), false);
        assert_eq!(h.is_running(), false);
        assert_eq!(h.is_suspended_awaiting(), false);
        assert_eq!(h.is_suspended_completed(), false);
        assert_eq!(to_result(h.result.unwrap()).unwrap(), 5);

        // What the task saw of its executor while it ran.
        for ctx in ex.body(id).seen.iter() {
            assert_eq!(ctx.current_task, Some(id));
            assert_eq!(ctx.tasks_pending_launch, 0);
            assert_eq!(ctx.tasks_running, 1);
            assert_eq!(ctx.tasks_suspended, 0);
        }
        assert_eq!(ex.body(id).seen.len(), 2);
        if n == 9 {
            println!("   Task attach to task initiate took {} ticks.", ticks_when_resumed - h.ticks_when_attached);
            println!("   Task initiate to task suspend await took {} ticks.", h.ticks_when_suspended_awaiting - ticks_when_resumed);
            println!(
                "   Task suspend await to task suspend completed took {} ticks.",
                h.ticks_when_suspended_completed - h.ticks_when_suspended_awaiting
            );
            println!("   Task suspend completed to task resume took {} ticks.", h.ticks_when_resumed - h.ticks_when_suspended_completed);
            println!("   Task resume to task detach took {} ticks.", h.ticks_when_detached - h.ticks_when_resumed);
            println!("   Task executed for a total of {} ticks.", h.total_ticks_executed);
        }
        now += TEN_MS;
    }
}

#[test]
fn attached_tasks_all_wait_for_launch() {
    let sw = ContextSwitcher::create(SwitcherKind::SetjmpLongjmp);
    let mut ex: Executor<FlagBody> = executor();
    for k in 0..3 {
        let id = ex.attach(Task::create(&sw, TaskAttr { stack_size: 4096 }, FlagBody::new()).unwrap()).unwrap();
        assert_eq!(id, k);
    }
    for k in 0..3 {
        assert_eq!(ex.task(k).state, TaskState::PendingLaunch);
    }
    assert_eq!(ex.tasks_pending_launch(), 3);
    assert_eq!(ex.tasks_running(), 0);
    assert_eq!(ex.tasks_suspended(), 0);
}

#[test]
fn first_run_launches_oldest_task_only() {
    let sw = ContextSwitcher::create(SwitcherKind::Plain);
    let mut ex: Executor<FlagBody> = executor();
    for _ in 0..3 {
        ex.attach(Task::create(&sw, TaskAttr { stack_size: 0 }, FlagBody::new()).unwrap()).unwrap();
    }
    assert_eq!(ex.run(0), Ok(1));
    assert_eq!(ex.task(0).state, TaskState::SuspendedAwaiting);
    assert_eq!(ex.task(1).state, TaskState::PendingLaunch);
    assert_eq!(ex.task(2).state, TaskState::PendingLaunch);
    assert_eq!(ex.tasks_pending_launch(), 2);
    assert_eq!(ex.tasks_running(), 0);
    assert_eq!(ex.tasks_suspended(), 1);
    // The task saw two tasks still waiting for their launch.
    assert_eq!(ex.body(0).seen[0].tasks_pending_launch, 2);
    assert_eq!(ex.body(0).seen[0].tasks_running, 1);
    assert_eq!(ex.run(0), Ok(1));
    assert_eq!(ex.task(1).state, TaskState::SuspendedAwaiting);
    assert_eq!(ex.tasks_suspended(), 2);
}

#[test]
fn waiting_task_is_not_woken_before_its_deadline() {
    let sw = ContextSwitcher::create(SwitcherKind::SetjmpLongjmp);
    let mut ex: Executor<FlagBody> = executor();
    ex.attach(Task::create(&sw, TaskAttr { stack_size: 0 }, FlagBody::new()).unwrap()).unwrap();
    assert_eq!(ex.run(1_000), Ok(1));
    assert_eq!(ex.task(0).deadline, 1_000 + TEN_MS);
    let tick = ex.tick();
    assert_eq!(ex.run(1_000 + TEN_MS - 1), Ok(0));
    assert_eq!(ex.task(0).state, TaskState::SuspendedAwaiting);
    assert_eq!(ex.tick(), tick);
    assert_eq!(ex.body(0).flag, 1);
    assert_eq!(ex.run(1_000 + TEN_MS), Ok(1));
    assert_eq!(ex.task(0).state, TaskState::Detached);
    assert_eq!(ex.body(0).flag, 2);
}

#[test]
fn ticks_of_a_completed_task_are_ordered() {
    let sw = ContextSwitcher::create(SwitcherKind::SetjmpLongjmp);
    let mut ex: Executor<FlagBody> = executor();
    ex.attach(Task::create(&sw, TaskAttr { stack_size: 0 }, FlagBody::new()).unwrap()).unwrap();
    ex.run(0).unwrap();
    ex.run(TEN_MS).unwrap();
    let h = ex.task(0);
    assert_eq!(h.ticks_when_attached, 1);
    assert_eq!(h.ticks_when_initiated, 2);
    assert_eq!(h.ticks_when_suspended_awaiting, 3);
    assert_eq!(h.ticks_when_suspended_completed, 4);
    assert_eq!(h.ticks_when_resumed, 5);
    assert_eq!(h.ticks_when_detached, 6);
    assert_eq!(h.total_ticks_executed, 2);
    assert_eq!(ex.tick(), 6);
}

#[test]
fn task_that_never_suspends_keeps_equal_suspension_ticks() {
    let sw = ContextSwitcher::create(SwitcherKind::SetjmpLongjmp);
    let mut ex: Executor<OneShot> = executor();
    ex.attach(Task::create(&sw, TaskAttr { stack_size: 0 }, OneShot { fail: false }).unwrap()).unwrap();
    assert_eq!(ex.run(0), Ok(1));
    let h = ex.task(0);
    assert_eq!(h.state, TaskState::Detached);
    assert_eq!(h.ticks_when_initiated, 2);
    assert_eq!(h.ticks_when_suspended_awaiting, 2);
    assert_eq!(h.ticks_when_suspended_completed, 2);
    assert_eq!(h.ticks_when_resumed, 2);
    assert_eq!(h.ticks_when_detached, 3);
    assert_eq!(to_result(h.result.unwrap()), Ok(7));
}

#[test]
fn failing_user_code_fills_the_result_slot() {
    let sw = ContextSwitcher::create(SwitcherKind::SetjmpLongjmp);
    let mut ex: Executor<OneShot> = executor();
    ex.attach(Task::create(&sw, TaskAttr { stack_size: 0 }, OneShot { fail: true }).unwrap()).unwrap();
    assert_eq!(ex.run(0), Ok(1));
    assert_eq!(to_result(ex.task(0).result.unwrap()), Err(StatusCode::new(5)));
    assert_eq!(ex.tasks_suspended(), 0);
}

#[test]
fn destroy_refused_while_tasks_alive() {
    let mut sw = ContextSwitcher::create(SwitcherKind::SetjmpLongjmp);
    {
        let mut ex: Executor<FlagBody> = executor();
        ex.attach(Task::create(&sw, TaskAttr { stack_size: 0 }, FlagBody::new()).unwrap()).unwrap();
        assert_eq!(ex.destroy(), Err(StatusCode::new(EBUSY)));
        ex.run(0).unwrap();
        assert_eq!(ex.destroy(), Err(StatusCode::new(EBUSY)));
        assert_eq!(ex.destroy_task(0), Err(StatusCode::new(EBUSY)));
        ex.run(TEN_MS).unwrap();
        assert_eq!(ex.destroy_task(0), Ok(()));
        assert_eq!(ex.task(0).state, TaskState::Destroyed);
        assert_eq!(ex.destroy_task(0), Err(StatusCode::new(EINVAL)));
        assert_eq!(ex.destroy(), Ok(()));
        assert_eq!(ex.destroy(), Err(StatusCode::new(EINVAL)));
    }
    // The executor and its tasks no longer borrow the switcher.
    assert_eq!(sw.destroy(), Ok(()));
    assert_eq!(sw.destroy(), Err(StatusCode::new(EINVAL)));
}

#[test]
fn destroyed_executor_refuses_work() {
    let sw = ContextSwitcher::create(SwitcherKind::Plain);
    let mut ex: Executor<OneShot> = executor();
    ex.destroy().unwrap();
    assert_eq!(ex.run(0), Err(StatusCode::new(EINVAL)));
    let t = Task::create(&sw, TaskAttr { stack_size: 0 }, OneShot { fail: false }).unwrap();
    assert_eq!(ex.attach(t), Err(StatusCode::new(EINVAL)));
}

#[test]
fn destroy_task_checks_its_arguments() {
    let sw = ContextSwitcher::create(SwitcherKind::SetjmpLongjmp);
    let mut ex: Executor<OneShot> = executor();
    ex.attach(Task::create(&sw, TaskAttr { stack_size: 0 }, OneShot { fail: false }).unwrap()).unwrap();
    assert_eq!(ex.destroy_task(3), Err(StatusCode::new(EINVAL)));
    assert_eq!(ex.destroy_task(0), Err(StatusCode::new(EBUSY)));
    ex.run(0).unwrap();
    assert_eq!(ex.task(0).state, TaskState::Detached);
    assert_eq!(ex.destroy_task(0), Ok(()));
}

#[test]
fn executor_needs_ring_entries() {
    let r: Result<Executor<OneShot>, StatusCode> = Executor::new(ExecutorAttr { ring_entries: 0 });
    assert_eq!(r.err(), Some(StatusCode::new(EINVAL)));
    let ex: Executor<OneShot> = executor();
    assert_eq!(ex.ring_entries(), 64);
    assert_eq!(ex.task_count(), 0);
}

#[test]
fn inspecting_counts_is_pure() {
    let sw = ContextSwitcher::create(SwitcherKind::SetjmpLongjmp);
    let mut ex: Executor<FlagBody> = executor();
    for _ in 0..2 {
        ex.attach(Task::create(&sw, TaskAttr { stack_size: 0 }, FlagBody::new()).unwrap()).unwrap();
    }
    ex.run(0).unwrap();
    let first = (ex.tasks_pending_launch(), ex.tasks_running(), ex.tasks_suspended(), ex.tick());
    let second = (ex.tasks_pending_launch(), ex.tasks_running(), ex.tasks_suspended(), ex.tick());
    assert_eq!(first, second);
    assert_eq!(first, (1, 0, 1, 4));
}

#[test]
fn next_deadline_is_the_earliest() {
    let sw = ContextSwitcher::create(SwitcherKind::SetjmpLongjmp);
    let mut ex: Executor<FlagBody> = executor();
    assert_eq!(ex.next_deadline(), None);
    for _ in 0..2 {
        ex.attach(Task::create(&sw, TaskAttr { stack_size: 0 }, FlagBody::new()).unwrap()).unwrap();
    }
    ex.run(500).unwrap();
    ex.run(100).unwrap();
    assert_eq!(ex.next_deadline(), Some(100 + TEN_MS));
}

#[test]
fn switcher_destroyed_once_its_tasks_are_gone() {
    let mut a = ContextSwitcher::create(SwitcherKind::SetjmpLongjmp);
    let mut b = ContextSwitcher::create(SwitcherKind::Plain);
    {
        let mut ex: Executor<OneShot> = executor();
        ex.attach(Task::create(&a, TaskAttr { stack_size: 0 }, OneShot { fail: false }).unwrap()).unwrap();
        let t2 = Task::create(&b, TaskAttr { stack_size: 0 }, OneShot { fail: false }).unwrap();
        assert_eq!(ex.task(0).switcher, SwitcherKind::SetjmpLongjmp);
        assert_eq!(t2.header().switcher, SwitcherKind::Plain);
        ex.run(0).unwrap();
        assert_eq!(ex.destroy_task(0), Ok(()));
        let body = t2.destroy();
        assert!(!body.fail);
    }
    assert_eq!(b.destroy(), Ok(()));
    assert_eq!(a.destroy(), Ok(()));
    assert!(a.is_destroyed());
}

/// Suspends once for `d`, then returns 1; records what it saw.
struct Sleeper {
    d: u64,
    slept: bool,
    seen: Vec<TaskContext>,
}

impl TaskBody for Sleeper {
    fn next_step(&self, _ctx: TaskContext) -> Step {
        if self.slept {
            Step::Complete(make_success(1))
        } else {
            Step::SuspendFor(self.d)
        }
    }

    fn next_state(&self, ctx: TaskContext) -> Sleeper {
        let mut seen = self.seen.clone();
        seen.push(ctx);
        Sleeper { d: self.d, slept: true, seen }
    }

    fn resume(&mut self, ctx: &TaskContext) -> Step {
        let step = self.next_step(*ctx);
        *self = self.next_state(*ctx);
        step
    }
}

#[test]
fn resumed_tasks_see_themselves_running() {
    let sw = ContextSwitcher::create(SwitcherKind::SetjmpLongjmp);
    let mut ex: Executor<Sleeper> = executor();
    for d in [30u64, 20u64] {
        ex.attach(Task::create(&sw, TaskAttr { stack_size: 0 }, Sleeper { d, slept: false, seen: Vec::new() }).unwrap()).unwrap();
    }
    ex.run(100).unwrap();
    ex.run(100).unwrap();
    assert_eq!(ex.task(0).deadline, 130);
    assert_eq!(ex.task(1).deadline, 120);
    assert_eq!(ex.run(130), Ok(2));
    // Task 0 is re-entered first, while task 1 is still woken.
    let c0 = ex.body(0).seen[1];
    assert_eq!((c0.current_task, c0.tasks_pending_launch, c0.tasks_running, c0.tasks_suspended), (Some(0), 0, 1, 1));
    let c1 = ex.body(1).seen[1];
    assert_eq!((c1.current_task, c1.tasks_pending_launch, c1.tasks_running, c1.tasks_suspended), (Some(1), 0, 1, 0));
    assert_eq!(c1.now, 130);
}
