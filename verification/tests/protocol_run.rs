use lib_thread::reactif::{Operation, Reactif_Thread1, Reactif_Thread2};
use lib_thread::scheduler::{Condition, Scheduler, SchedulerAction, SchedulerEvent};
use lib_thread::signal::Signal;
use lib_thread::thread_trait::{AwaitPc, CooperatePc, EmitPc, FinishPc, Step, Wait};

#[derive(Debug, Clone, Copy)]
enum Op {
    Emit(usize),
    Await(usize),
    Cooperate,
}

#[derive(Debug, Clone, Copy)]
enum Current {
    Idle,
    Cooperate(CooperatePc),
    Emit(usize, EmitPc),
    Await(usize, AwaitPc),
    Finish(FinishPc),
    Done,
}

struct Runner {
    program: Vec<Op>,
    next_op: usize,
    current: Current,
    blocked: Option<Wait>,
    started: bool,
    seen: Vec<bool>,
}

fn holds(s: &Scheduler, w: Wait) -> bool {
    match w {
        Wait::Condition(c) => s.condition(c),
        Wait::Signal(h) => s.signal_present(h),
    }
}

impl Runner {
    fn from_ops(program: Vec<Operation>) -> Runner {
        Runner::new(
            program
                .into_iter()
                .map(|o| match o {
                    Operation::Emit(h) => Op::Emit(h),
                    Operation::Await(h) => Op::Await(h),
                })
                .collect(),
        )
    }

    fn new(program: Vec<Op>) -> Runner {
        Runner { program, next_op: 0, current: Current::Idle, blocked: None, started: false, seen: Vec::new() }
    }

    /// Runs the thread until it blocks or ends; returns whether it moved.
    fn advance(&mut self, s: &mut Scheduler) -> bool {
        if let Some(w) = self.blocked {
            if !holds(s, w) {
                return false;
            }
            self.blocked = None;
        }
        if !self.started {
            s.increment_nbthread();
            self.started = true;
        }
        loop {
            match self.current {
                Current::Done => return false,
                Current::Idle => {
                    if self.next_op < self.program.len() {
                        self.current = match self.program[self.next_op] {
                            Op::Emit(h) => Current::Emit(h, EmitPc::Start),
                            Op::Await(h) => Current::Await(h, AwaitPc::Start),
                            Op::Cooperate => Current::Cooperate(CooperatePc::Start),
                        };
                        self.next_op += 1;
                    } else {
                        self.current = Current::Finish(FinishPc::Start);
                    }
                }
                Current::Emit(h, pc) => match s.thread_emit(h, pc) {
                    Step::Block(w, next) => {
                        self.current = Current::Emit(h, next);
                        self.blocked = Some(w);
                        return true;
                    }
                    Step::Done => self.current = Current::Idle,
                },
                Current::Await(h, pc) => {
                    let n = s.nb_thread;
                    match s.thread_await_signal(h, n, pc) {
                        Step::Block(w, next) => {
                            self.current = Current::Await(h, next);
                            self.blocked = Some(w);
                            return true;
                        }
                        Step::Done => {
                            self.seen.push(s.thread_await());
                            self.current = Current::Idle;
                        }
                    }
                }
                Current::Cooperate(pc) => match s.thread_cooperate(pc) {
                    Step::Block(w, next) => {
                        self.current = Current::Cooperate(next);
                        self.blocked = Some(w);
                        return true;
                    }
                    Step::Done => self.current = Current::Idle,
                },
                Current::Finish(pc) => match s.thread_finish(pc) {
                    Step::Block(w, next) => {
                        self.current = Current::Finish(next);
                        self.blocked = Some(w);
                        return true;
                    }
                    Step::Done => {
                        self.current = Current::Done;
                        return true;
                    }
                },
            }
        }
    }
}

#[test]
fn two_reactive_threads_exchange_signals() {
    let mut s = Scheduler::scheduler_create(0);
    let h1 = s.register_signal(Signal::signal_create(0));
    let h2 = s.register_signal(Signal::signal_create(1));
    let t1 = Reactif_Thread1::new(0, h1, h2);
    let t2 = Reactif_Thread2::new(1, h1, h2);
    let mut runners = vec![Runner::from_ops(t1.thread_execute()), Runner::from_ops(t2.thread_execute())];
    let finished = run(&mut s, &mut runners);
    assert!(finished);
    assert_eq!(s.nb_finish, 2);
    assert!(runners.iter().all(|r| matches!(r.current, Current::Done)));
    assert_eq!(runners[1].seen, vec![true]);
    assert_eq!(runners[0].seen, vec![true]);
}

fn run(s: &mut Scheduler, runners: &mut Vec<Runner>) -> bool {
    let mut action = s.scheduler_start(SchedulerEvent::RoundStart);
    let mut finished = false;
    for _ in 0..1000 {
        let mut moved = false;
        for r in runners.iter_mut() {
            moved |= r.advance(s);
        }
        if action == SchedulerAction::WaitWakeUp && s.condition(Condition::WakeUp) {
            action = s.scheduler_start(SchedulerEvent::WokenUp);
            moved = true;
        }
        if action == SchedulerAction::Finished {
            finished = true;
            break;
        }
        if !moved {
            break;
        }
    }
    finished
}

#[test]
fn awaiting_a_signal_nobody_emits_ends_the_instant() {
    let mut s = Scheduler::scheduler_create(0);
    let h = s.register_signal(Signal::signal_create(0));
    let mut runners = vec![Runner::new(vec![Op::Await(h)])];
    assert!(run(&mut s, &mut runners));
    assert_eq!(runners[0].seen, vec![false]);
    assert_eq!(s.nb_instant, 1);
    assert_eq!(s.nb_finish, 1);
    assert_eq!(s.nb_wait, 0);
}

#[test]
fn cooperating_threads_move_through_instants() {
    let mut s = Scheduler::scheduler_create(0);
    let mut runners = vec![
        Runner::new(vec![Op::Cooperate, Op::Cooperate]),
        Runner::new(vec![Op::Cooperate]),
    ];
    assert!(run(&mut s, &mut runners));
    assert!(runners.iter().all(|r| matches!(r.current, Current::Done)));
    assert_eq!(s.nb_cooperate, 0);
    assert_eq!(s.nb_finish, 2);
    assert!(s.nb_instant >= 2);
}

#[test]
fn emission_seen_in_the_same_instant() {
    let mut s = Scheduler::scheduler_create(0);
    let h = s.register_signal(Signal::signal_create(0));
    let mut runners = vec![Runner::new(vec![Op::Await(h)]), Runner::new(vec![Op::Cooperate, Op::Emit(h)])];
    assert!(run(&mut s, &mut runners));
    println!("seen {:?}, instants {}", runners[0].seen, s.nb_instant);
    assert_eq!(runners[0].seen.len(), 1);
}
