use lib_thread::scheduler::{Condition, Scheduler};
use lib_thread::signal::Signal;
use lib_thread::thread_trait::{AwaitPc, CooperatePc, EmitPc, FinishPc, Step, Wait};

fn sched_with_signal() -> (Scheduler, usize) {
    let mut s = Scheduler::scheduler_create(0);
    let h = s.register_signal(Signal::signal_create(0));
    (s, h)
}

#[test]
fn emit_of_absent_signal_records_and_raises_it() {
    let (mut s, h) = sched_with_signal();
    assert!(matches!(s.thread_emit(h, EmitPc::Start), Step::Done));
    assert!(s.signal_present(h));
    assert_eq!(s.list_emit_signaux, vec![h]);
}

#[test]
fn emit_waits_for_an_awake_scheduler() {
    let (mut s, h) = sched_with_signal();
    s.notify_all_wake_up();
    match s.thread_emit(h, EmitPc::Start) {
        Step::Block(Wait::Condition(Condition::Emit), EmitPc::Raise) => {}
        other => panic!("unexpected {:?}", other),
    }
    assert!(!s.signal_present(h));
    assert!(matches!(s.thread_emit(h, EmitPc::Raise), Step::Done));
    assert!(s.signal_present(h));
}

#[test]
fn emit_after_the_end_of_an_instant_passes_the_code_barrier() {
    let (mut s, h) = sched_with_signal();
    s.return_code = true;
    match s.thread_emit(h, EmitPc::Start) {
        Step::Block(Wait::Condition(Condition::CodeSignal), EmitPc::Record) => {}
        other => panic!("unexpected {:?}", other),
    }
    assert!(s.get_condvar_wake_up());
    s.notify_return_code();
    assert!(matches!(s.thread_emit(h, EmitPc::Record), Step::Block(Wait::Condition(Condition::Emit), EmitPc::Raise)));
}

#[test]
fn await_of_absent_signal_counts_the_thread() {
    let (mut s, h) = sched_with_signal();
    s.increment_nbthread();
    s.increment_nbthread();
    match s.thread_await_signal(h, 2, AwaitPc::Start) {
        Step::Block(Wait::Signal(x), AwaitPc::Finish { check: true }) => assert_eq!(x, h),
        other => panic!("unexpected {:?}", other),
    }
    assert_eq!(s.nb_wait, 1);
    assert_eq!(s.list_wait_signaux, vec![h]);
    assert!(!s.get_condvar_wake_up());
    assert!(matches!(s.thread_await_signal(h, 2, AwaitPc::Finish { check: true }), Step::Done));
    assert_eq!(s.nb_wait, 0);
}

#[test]
fn await_by_the_last_running_thread_wakes_the_scheduler() {
    let (mut s, h) = sched_with_signal();
    s.increment_nbthread();
    match s.thread_await_signal(h, 1, AwaitPc::Start) {
        Step::Block(Wait::Signal(_), AwaitPc::Finish { check: true }) => {}
        other => panic!("unexpected {:?}", other),
    }
    assert!(s.get_condvar_wake_up());
}

#[test]
fn await_of_present_signal_does_not_count() {
    let (mut s, h) = sched_with_signal();
    s.scheduler_emit(h);
    match s.thread_await_signal(h, 5, AwaitPc::Start) {
        Step::Block(Wait::Signal(_), AwaitPc::Finish { check: false }) => {}
        other => panic!("unexpected {:?}", other),
    }
    assert_eq!(s.nb_wait, 0);
    assert!(s.thread_await());
}

#[test]
fn cooperate_registers_and_resumes() {
    let mut s = Scheduler::scheduler_create(0);
    match s.thread_cooperate(CooperatePc::Start) {
        Step::Block(Wait::Condition(Condition::Cooperate), CooperatePc::Resume) => {}
        other => panic!("unexpected {:?}", other),
    }
    assert_eq!(s.nb_cooperate, 1);
    assert!(s.get_condvar_wake_up());
    s.return_wakeup_false();
    assert!(matches!(s.thread_cooperate(CooperatePc::Resume), Step::Done));
    assert_eq!(s.nb_cooperate, 0);
    assert!(s.get_condvar_wake_up());
}

#[test]
fn cooperate_waits_to_enter_the_new_instant() {
    let mut s = Scheduler::scheduler_create(0);
    s.add_instant();
    match s.thread_cooperate(CooperatePc::Start) {
        Step::Block(Wait::Condition(Condition::Instant), CooperatePc::LeaveInstantWait) => {}
        other => panic!("unexpected {:?}", other),
    }
    assert_eq!(s.nb_wait_cooperate, 1);
    s.notify_instant();
    assert!(matches!(s.thread_cooperate(CooperatePc::LeaveInstantWait), Step::Block(_, CooperatePc::Resume)));
    assert_eq!(s.nb_wait_cooperate, 0);
}

#[test]
fn finish_counts_the_thread() {
    let mut s = Scheduler::scheduler_create(0);
    assert!(matches!(s.thread_finish(FinishPc::Start), Step::Done));
    assert_eq!(s.nb_finish, 1);
    assert!(s.get_condvar_wake_up());
    assert!(matches!(s.thread_finish(FinishPc::Start), Step::Block(Wait::Condition(Condition::Finish), FinishPc::Count)));
    assert_eq!(s.nb_finish, 1);
    assert!(matches!(s.thread_finish(FinishPc::Count), Step::Done));
    assert_eq!(s.nb_finish, 2);
}
