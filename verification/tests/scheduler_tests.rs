use lib_thread::scheduler::{Condition, Scheduler, SchedulerAction, SchedulerEvent};
use lib_thread::signal::Signal;

fn with_signals(n: usize) -> (Scheduler, Vec<usize>) {
    let mut s = Scheduler::scheduler_create(0);
    let mut hs = Vec::new();
    for i in 0..n {
        hs.push(s.register_signal(Signal::signal_create(i)));
    }
    (s, hs)
}

#[test]
fn scheduler_create_starts_empty() {
    let s = Scheduler::scheduler_create(4);
    assert_eq!(s.id_scheduler, 5);
    assert_eq!(s.nb_thread, 0);
    assert_eq!(s.nb_instant, 0);
    assert_eq!(s.next_instant, 1);
    assert!(!s.return_code());
    assert!(s.list_wait_signaux.is_empty() && s.list_emit_signaux.is_empty());
    for c in [
        Condition::Cooperate,
        Condition::WakeUp,
        Condition::Emit,
        Condition::CooperateWake,
        Condition::Finish,
        Condition::Instant,
        Condition::CodeSignal,
    ] {
        assert!(!s.condition(c));
    }
}

#[test]
fn register_signal_hands_out_positions() {
    let (s, hs) = with_signals(3);
    assert_eq!(hs, vec![0, 1, 2]);
    assert_eq!(s.signaux[2].id, 3);
}

#[test]
fn return_length_list_wait_counts_absent_awaited_signals() {
    let (mut s, hs) = with_signals(3);
    s.add_wait_signal(hs[0]);
    s.add_wait_signal(hs[1]);
    s.add_wait_signal(hs[1]);
    assert_eq!(s.return_length_list_wait(), 3);
    s.scheduler_emit(hs[1]);
    assert_eq!(s.return_length_list_wait(), 1);
    s.clear_all_liste_wait();
    assert_eq!(s.return_length_list_wait(), 0);
}

#[test]
fn add_wait_signal_of_present_signal_adds_no_waiting_thread() {
    let (mut s, hs) = with_signals(2);
    s.scheduler_emit(hs[0]);
    s.add_wait_signal(hs[0]);
    assert_eq!(s.return_length_list_wait(), 0);
    s.add_wait_signal(hs[1]);
    assert_eq!(s.return_length_list_wait(), 1);
}

#[test]
fn notify_thread_wait_emits_every_awaited_signal() {
    let (mut s, hs) = with_signals(3);
    s.add_wait_signal(hs[0]);
    s.add_wait_signal(hs[2]);
    s.notify_thread_wait();
    assert!(s.signal_present(hs[0]) && s.signal_present(hs[2]));
    assert!(!s.signal_present(hs[1]));
    assert_eq!(s.return_length_list_wait(), 0);
}

#[test]
fn initialise_all_signaux_makes_listed_signals_absent() {
    let (mut s, hs) = with_signals(3);
    for h in &hs {
        s.scheduler_emit(*h);
    }
    s.add_wait_signal(hs[0]);
    s.add_emit_signal(hs[1]);
    s.initialise_all_signaux_wait();
    assert!(!s.signal_present(hs[0]) && s.signal_present(hs[1]) && s.signal_present(hs[2]));
    assert_eq!(s.return_length_list_wait(), 1);
    s.initialise_all_signaux_emit();
    assert!(!s.signal_present(hs[1]) && s.signal_present(hs[2]));
    s.return_false_signal(hs[2]);
    assert!(!s.signal_present(hs[2]));
}

#[test]
fn verify_return_code_ends_the_instant_for_waiting_threads() {
    let (mut s, hs) = with_signals(2);
    s.add_wait_signal(hs[0]);
    s.scheduler_emit(hs[0]);
    s.return_code = true;
    s.verify_return_code();
    assert!(!s.return_code());
    assert!(s.list_wait_signaux.is_empty());
    assert!(!s.signal_present(hs[0]));
    assert!(s.wait_code_signal());
}

#[test]
fn verify_return_code_waits_while_a_thread_waits() {
    let (mut s, hs) = with_signals(1);
    s.add_wait_signal(hs[0]);
    s.add_nbwait();
    s.return_code = true;
    s.verify_return_code();
    assert!(s.return_code());
    assert_eq!(s.list_wait_signaux.len(), 1);
    assert!(!s.wait_code_signal());
}

#[test]
fn add_next_instant_moves_the_next_instant_on() {
    let mut s = Scheduler::scheduler_create(0);
    s.add_instant();
    assert!(s.add_next_instant());
    assert_eq!(s.next_instant, 2);
    assert!(s.add_next_instant());
    assert_eq!(s.next_instant, 2);
    s.add_nbcooperate();
    assert!(!s.add_next_instant());
}

#[test]
fn counters_undo_one_another() {
    let mut s = Scheduler::scheduler_create(0);
    s.add_nbwait();
    s.decrement_nbwait();
    assert_eq!(s.nb_wait, 0);
    s.add_nbwait_cooperate();
    s.decrement_wait_cooperate();
    assert_eq!(s.nb_wait_cooperate, 0);
    s.increment_nbthread();
    s.add_nbfinish();
    assert_eq!((s.nb_thread, s.nb_finish), (1, 1));
}

#[test]
fn notify_and_return_false_set_and_clear_conditions() {
    let mut s = Scheduler::scheduler_create(0);
    s.notify_all_cooperate();
    s.notify_all_wake_up();
    s.notify_all_emit();
    s.notify_all_cooperate_wake();
    s.notify_all_finish();
    s.notify_instant();
    s.notify_return_code();
    assert!(s.wait_cooperate() && s.get_condvar_cooperate() && s.get_condvar_wake_up());
    assert!(s.wait_return_code() && s.wait_cooperate_wake() && s.get_condvar_cooperateWake());
    assert!(s.wait_finish() && s.get_condvar_instant() && s.wait_code_signal());
    s.return_cooperate_false();
    s.return_wakeup_false();
    s.return_emit_false();
    s.return_cooperatewake_false();
    s.return_finish_false();
    s.return_code_signal();
    s.return_instant_false();
    assert!(!s.wait_cooperate() && !s.get_condvar_wake_up() && !s.wait_return_code());
    assert!(!s.wait_cooperate_wake() && !s.wait_finish() && !s.wait_code_signal());
    assert!(!s.get_condvar_instant());
}

#[test]
fn return_instant_false_keeps_the_instant_while_threads_wait_for_it() {
    let mut s = Scheduler::scheduler_create(0);
    s.notify_instant();
    s.add_nbwait_cooperate();
    s.return_instant_false();
    assert!(s.get_condvar_instant());
}

#[test]
fn wait_wake_up_clears_the_previous_round() {
    let mut s = Scheduler::scheduler_create(0);
    s.notify_all_emit();
    s.notify_all_finish();
    assert!(!s.wait_wake_up());
    assert!(s.wait_return_code());
    s.notify_all_wake_up();
    assert!(s.wait_wake_up());
    assert!(!s.wait_return_code() && !s.wait_finish());
}

#[test]
fn wait_instant_counts_waiting_threads() {
    let mut s = Scheduler::scheduler_create(0);
    assert!(!s.wait_instant());
    assert_eq!(s.nb_wait_cooperate, 1);
    s.decrement_wait_cooperate();
    s.notify_instant();
    assert!(s.wait_instant());
    assert_eq!(s.nb_wait_cooperate, 0);
}

#[test]
fn decrement_cooperate_wakes_the_scheduler_for_the_last_thread() {
    let mut s = Scheduler::scheduler_create(0);
    s.add_nbcooperate();
    s.add_nbcooperate();
    assert!(!s.decrement_cooperate());
    assert!(!s.get_condvar_wake_up());
    assert!(!s.decrement_cooperate());
    assert!(s.get_condvar_wake_up());
    s.add_nbcooperate();
    assert!(s.decrement_cooperate());
}

#[test]
fn thread_finish_and_not_finish_execution() {
    let (mut s, hs) = with_signals(1);
    s.increment_nbthread();
    s.increment_nbthread();
    assert!(s.thread_not_finish_execution());
    assert!(!s.thread_finish_execution());
    s.add_nbcooperate();
    s.add_wait_signal(hs[0]);
    assert!(!s.thread_not_finish_execution());
    assert!(!s.thread_finish_execution());
    assert!(!s.check_nb_wait);
    s.decrement_cooperate();
    s.add_nbfinish();
    s.add_nbwait();
    assert!(!s.thread_finish_execution());
    assert!(s.check_nb_wait);
    s.decrement_nbwait();
    s.clear_all_liste_wait();
    s.add_nbfinish();
    assert!(s.thread_finish_execution());
    assert!(!s.thread_not_finish_execution());
    assert_eq!(s.stopped_count(), 2);
}

#[test]
fn scheduler_round_start_holds_cooperating_threads() {
    let mut s = Scheduler::scheduler_create(0);
    s.notify_all_cooperate();
    assert_eq!(s.scheduler_start(SchedulerEvent::RoundStart), SchedulerAction::WaitWakeUp);
    assert!(!s.get_condvar_cooperate());
}

#[test]
fn scheduler_not_woken_changes_nothing() {
    let mut s = Scheduler::scheduler_create(0);
    s.notify_all_cooperate();
    assert_eq!(s.scheduler_start(SchedulerEvent::WokenUp), SchedulerAction::WaitWakeUp);
    assert!(s.get_condvar_cooperate());
}

#[test]
fn scheduler_round_while_running_lets_threads_go_on() {
    let mut s = Scheduler::scheduler_create(0);
    s.increment_nbthread();
    s.notify_all_wake_up();
    assert_eq!(s.scheduler_start(SchedulerEvent::WokenUp), SchedulerAction::WaitWakeUp);
    assert!(!s.get_condvar_wake_up());
    assert!(s.wait_cooperate_wake() && s.wait_return_code() && s.wait_finish());
    assert_eq!(s.nb_instant, 0);
    assert_eq!(s.next_instant, 1);
}

#[test]
fn scheduler_round_ends_an_instant_of_waiting_threads() {
    let (mut s, hs) = with_signals(2);
    s.increment_nbthread();
    s.add_nbwait();
    s.add_wait_signal(hs[0]);
    s.add_emit_signal(hs[1]);
    s.scheduler_emit(hs[1]);
    s.notify_all_wake_up();
    assert_eq!(s.scheduler_start(SchedulerEvent::WokenUp), SchedulerAction::WaitWakeUp);
    assert_eq!(s.nb_instant, 1);
    assert_eq!(s.next_instant, 1);
    assert!(s.return_code());
    assert!(s.check_nb_wait);
    assert!(s.signal_present(hs[0]));
    assert!(!s.signal_present(hs[1]));
    assert!(s.list_emit_signaux.is_empty());
    assert!(!s.get_condvar_wake_up() && !s.wait_code_signal());
    assert!(s.get_condvar_instant());
}

#[test]
fn scheduler_round_ends_an_instant_of_cooperating_threads() {
    let mut s = Scheduler::scheduler_create(0);
    s.increment_nbthread();
    s.add_nbcooperate();
    s.notify_all_wake_up();
    assert_eq!(s.scheduler_start(SchedulerEvent::WokenUp), SchedulerAction::WaitWakeUp);
    assert_eq!(s.nb_instant, 1);
    assert_eq!(s.next_instant, 1);
    assert!(s.return_code());
    assert!(!s.check_nb_wait);
    assert!(s.wait_cooperate() && s.wait_finish() && s.wait_return_code());
}

#[test]
fn scheduler_round_with_cooperation_pending_waits_for_it() {
    let mut s = Scheduler::scheduler_create(0);
    s.increment_nbthread();
    s.add_nbcooperate();
    s.notify_all_cooperate();
    s.add_instant();
    s.notify_all_wake_up();
    s.scheduler_start(SchedulerEvent::WokenUp);
    assert_eq!(s.nb_instant, 1);
    assert!(!s.return_code());
    assert!(s.wait_cooperate_wake() && s.wait_finish());
    assert!(s.get_condvar_cooperate());
}

#[test]
fn scheduler_finishes_when_every_thread_has_finished() {
    let mut s = Scheduler::scheduler_create(0);
    s.increment_nbthread();
    s.add_nbfinish();
    s.notify_all_wake_up();
    assert_eq!(s.scheduler_start(SchedulerEvent::WokenUp), SchedulerAction::Finished);
    assert!(s.get_condvar_wake_up());
}
