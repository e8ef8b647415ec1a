use runloop::executor::{run_action, RunAction};
use runloop::status::{from_result, make_failure, make_success, to_result, RawOutcome, StatusCode};
use runloop::switcher::{ContextSwitcher, SwitcherKind};
use runloop::task::{Step, Task, TaskAttr, TaskBody, TaskContext};

#[test]
fn to_result_reads_bit_zero() {
    let e = StatusCode::new(22);
    assert_eq!(to_result(RawOutcome { flags: 1, value: 5, error: e }), Ok(5));
    assert_eq!(to_result(RawOutcome { flags: 3, value: -2, error: e }), Ok(-2));
    assert_eq!(to_result(RawOutcome { flags: 0, value: 5, error: e }), Err(e));
    assert_eq!(to_result(RawOutcome { flags: 2, value: 5, error: e }), Err(e));
}

#[test]
fn outcomes_round_trip() {
    assert_eq!(to_result(make_success(9)), Ok(9));
    assert_eq!(to_result(make_failure(StatusCode::new(11))), Err(StatusCode::new(11)));
    assert_eq!(to_result(from_result(Ok(-4))), Ok(-4));
    assert_eq!(to_result(from_result(Err(StatusCode::new(16)))), Err(StatusCode::new(16)));
}

#[test]
fn run_action_decides_the_blocking_loop() {
    assert_eq!(run_action(1, 1, 0, 100, None), RunAction::Return);
    assert_eq!(run_action(0, 0, 0, 100, None), RunAction::Return);
    assert_eq!(run_action(0, 1, 100, 100, Some(50)), RunAction::TimedOut);
    assert_eq!(run_action(1, 2, 100, 100, None), RunAction::Return);
    assert_eq!(run_action(0, 1, 10, 100, Some(50)), RunAction::SleepUntil(50));
    assert_eq!(run_action(0, 1, 10, 100, Some(500)), RunAction::SleepUntil(100));
    assert_eq!(run_action(0, 1, 10, 100, None), RunAction::SleepUntil(100));
}

struct Idle;

impl TaskBody for Idle {
    fn next_step(&self, _ctx: TaskContext) -> Step {
        Step::SuspendFor(1)
    }

    fn next_state(&self, _ctx: TaskContext) -> Idle {
        Idle
    }

    fn resume(&mut self, ctx: &TaskContext) -> Step {
        self.next_step(*ctx)
    }
}

#[test]
fn tasks_borrow_their_switcher() {
    let mut sw = ContextSwitcher::create(SwitcherKind::SetjmpLongjmp);
    assert_eq!(sw.kind(), SwitcherKind::SetjmpLongjmp);
    let t = Task::create(&sw, TaskAttr { stack_size: 8192 }, Idle).unwrap();
    assert_eq!(t.header().stack_size, 8192);
    assert_eq!(t.header().switcher, SwitcherKind::SetjmpLongjmp);
    let _idle: Idle = t.destroy();
    assert_eq!(sw.destroy(), Ok(()));
    assert!(sw.is_destroyed());
    assert_eq!(sw.destroy(), Err(StatusCode::new(22)));
    assert_eq!(Task::create(&sw, TaskAttr { stack_size: 0 }, Idle).err(), Some(StatusCode::new(22)));
}
