use vstd::prelude::*;
use crate::signal::Signal;

pub use crate::signal::{get_condvar, notify_thread, return_condvar_false};

verus! {

/// The conditions on which threads and the scheduler wait for one another.
#[derive(Clone, Copy, Debug, PartialEq, Eq, Structural)]
pub enum Condition {
    /// the next instant has begun (cooperating threads may go on)
    Cooperate,
    /// the scheduler has been woken up
    WakeUp,
    /// the scheduler has taken account of an emission
    Emit,
    /// the scheduler has taken account of a cooperation
    CooperateWake,
    /// the scheduler has taken account of a finished thread
    Finish,
    /// a new instant may be entered
    Instant,
    /// the end-of-instant code has been settled
    CodeSignal,
}

/// The scheduler of reactive threads: the counters and flags through which
/// it decides when an instant ends, and the signals that it coordinates.
///
/// Signals are held in `signaux` and named by their position there; the
/// lists of awaited and emitted signals hold such positions.
pub struct Scheduler {
    pub id_scheduler: usize,
    pub nb_thread: isize,
    pub signaux: Vec<Signal>,
    pub list_wait_signaux: Vec<usize>,
    pub list_emit_signaux: Vec<usize>,
    pub condition_cooperate: bool,
    pub condition_wake_up: bool,
    pub condition_emit: bool,
    pub condition_cooperate_wake: bool,
    pub condition_finish: bool,
    pub condition_instant: bool,
    pub condition_code_signal: bool,
    pub nb_cooperate: i32,
    pub nb_wait: i32,
    pub nb_finish: i32,
    pub nb_instant: i32,
    pub next_instant: i32,
    pub nb_wait_cooperate: i32,
    pub check_nb_wait: bool,
    pub check_nb_cooperate: bool,
    pub return_code: bool,
}

/// The scheduler as a mathematical value.
#[verifier::ext_equal]
pub struct SchedulerView {
    pub id_scheduler: usize,
    pub nb_thread: isize,
    pub signaux: Seq<Signal>,
    pub list_wait_signaux: Seq<usize>,
    pub list_emit_signaux: Seq<usize>,
    pub condition_cooperate: bool,
    pub condition_wake_up: bool,
    pub condition_emit: bool,
    pub condition_cooperate_wake: bool,
    pub condition_finish: bool,
    pub condition_instant: bool,
    pub condition_code_signal: bool,
    pub nb_cooperate: i32,
    pub nb_wait: i32,
    pub nb_finish: i32,
    pub nb_instant: i32,
    pub next_instant: i32,
    pub nb_wait_cooperate: i32,
    pub check_nb_wait: bool,
    pub check_nb_cooperate: bool,
    pub return_code: bool,
}

impl View for Scheduler {
    type V = SchedulerView;

    open spec fn view(&self) -> SchedulerView {
        SchedulerView {
            id_scheduler: self.id_scheduler,
            nb_thread: self.nb_thread,
            signaux: self.signaux@,
            list_wait_signaux: self.list_wait_signaux@,
            list_emit_signaux: self.list_emit_signaux@,
            condition_cooperate: self.condition_cooperate,
            condition_wake_up: self.condition_wake_up,
            condition_emit: self.condition_emit,
            condition_cooperate_wake: self.condition_cooperate_wake,
            condition_finish: self.condition_finish,
            condition_instant: self.condition_instant,
            condition_code_signal: self.condition_code_signal,
            nb_cooperate: self.nb_cooperate,
            nb_wait: self.nb_wait,
            nb_finish: self.nb_finish,
            nb_instant: self.nb_instant,
            next_instant: self.next_instant,
            nb_wait_cooperate: self.nb_wait_cooperate,
            check_nb_wait: self.check_nb_wait,
            check_nb_cooperate: self.check_nb_cooperate,
            return_code: self.return_code,
        }
    }
}

/// How many of the signals named in `list` are absent.
pub open spec fn absent_count(signaux: Seq<Signal>, list: Seq<usize>) -> nat
    decreases list.len(),
{
    if list.len() == 0 {
        0
    } else {
        absent_count(signaux, list.drop_last()) + if signaux[list.last() as int].condition_variable {
            0nat
        } else {
            1nat
        }
    }
}

/// How many of the signals named in `list` are present.
pub open spec fn present_count(signaux: Seq<Signal>, list: Seq<usize>) -> nat
    decreases list.len(),
{
    if list.len() == 0 {
        0
    } else {
        present_count(signaux, list.drop_last()) + if signaux[list.last() as int].condition_variable {
            1nat
        } else {
            0nat
        }
    }
}

/// Whether position `k` is named in `list`.
pub open spec fn listed(list: Seq<usize>, k: int) -> bool {
    exists|i: int| 0 <= i < list.len() && #[trigger] list[i] as int == k
}

/// `signaux` with the flag of every signal named in `list` set to `flag`.
pub open spec fn set_listed(signaux: Seq<Signal>, list: Seq<usize>, flag: bool) -> Seq<Signal> {
    Seq::new(
        signaux.len(),
        |k: int|
            if listed(list, k) {
                Signal { id: signaux[k].id, condition_variable: flag }
            } else {
                signaux[k]
            },
    )
}

/// `signaux` with the flag of the signal at position `k` set to `flag`.
pub open spec fn set_one(signaux: Seq<Signal>, k: int, flag: bool) -> Seq<Signal> {
    signaux.update(k, Signal { id: signaux[k].id, condition_variable: flag })
}

pub proof fn lemma_absent_plus_present(signaux: Seq<Signal>, list: Seq<usize>)
    ensures
        absent_count(signaux, list) + present_count(signaux, list) == list.len(),
    decreases list.len(),
{
    if list.len() > 0 {
        lemma_absent_plus_present(signaux, list.drop_last());
    }
}

pub proof fn lemma_absent_count_all(signaux: Seq<Signal>, list: Seq<usize>, flag: bool)
    requires
        forall|i: int| 0 <= i < list.len() ==> signaux[#[trigger] list[i] as int].condition_variable == flag,
    ensures
        absent_count(signaux, list) == if flag { 0 } else { list.len() },
    decreases list.len(),
{
    if list.len() > 0 {
        let l = list.drop_last();
        assert forall|i: int| 0 <= i < l.len() implies signaux[#[trigger] l[i] as int].condition_variable == flag by {
            assert(l[i] == list[i]);
        }
        lemma_absent_count_all(signaux, l, flag);
    }
}

impl SchedulerView {
    /// Every position named in the lists is that of a signal.
    pub open spec fn wf(&self) -> bool {
        &&& forall|i: int| 0 <= i < self.list_wait_signaux.len() ==> #[trigger] self.list_wait_signaux[i] < self.signaux.len()
        &&& forall|i: int| 0 <= i < self.list_emit_signaux.len() ==> #[trigger] self.list_emit_signaux[i] < self.signaux.len()
    }

    /// The number of awaited signals that are still absent.
    pub open spec fn waiting(&self) -> nat {
        absent_count(self.signaux, self.list_wait_signaux)
    }

    /// The threads that have stopped for this instant: waiting on an absent
    /// signal, cooperating, or finished.
    pub open spec fn stopped(&self) -> int {
        self.waiting() + self.nb_cooperate + self.nb_finish
    }

    /// The counts that `stopped` adds up fit in an `i32` at every step.
    pub open spec fn stopped_fits(&self) -> bool {
        &&& self.list_wait_signaux.len() <= i32::MAX
        &&& i32::MIN <= self.waiting() + self.nb_cooperate <= i32::MAX
        &&& i32::MIN <= self.stopped() <= i32::MAX
    }

    pub open spec fn condition(&self, c: Condition) -> bool {
        match c {
            Condition::Cooperate => self.condition_cooperate,
            Condition::WakeUp => self.condition_wake_up,
            Condition::Emit => self.condition_emit,
            Condition::CooperateWake => self.condition_cooperate_wake,
            Condition::Finish => self.condition_finish,
            Condition::Instant => self.condition_instant,
            Condition::CodeSignal => self.condition_code_signal,
        }
    }

    /// This view with condition `c` set to `flag`.
    pub open spec fn with_condition(self, c: Condition, flag: bool) -> SchedulerView {
        match c {
            Condition::Cooperate => SchedulerView { condition_cooperate: flag, ..self },
            Condition::WakeUp => SchedulerView { condition_wake_up: flag, ..self },
            Condition::Emit => SchedulerView { condition_emit: flag, ..self },
            Condition::CooperateWake => SchedulerView { condition_cooperate_wake: flag, ..self },
            Condition::Finish => SchedulerView { condition_finish: flag, ..self },
            Condition::Instant => SchedulerView { condition_instant: flag, ..self },
            Condition::CodeSignal => SchedulerView { condition_code_signal: flag, ..self },
        }
    }
}


pub proof fn lemma_set_listed_step(signaux: Seq<Signal>, list: Seq<usize>, k: int, flag: bool)
    requires
        0 <= k < list.len(),
        list[k] < signaux.len(),
    ensures
        set_one(set_listed(signaux, list.take(k), flag), list[k] as int, flag)
            =~= set_listed(signaux, list.take(k + 1), flag),
{
    assert forall|j: int| 0 <= j < signaux.len() implies
        (#[trigger] listed(list.take(k + 1), j) <==> (listed(list.take(k), j) || j == list[k] as int))
    by {
        if listed(list.take(k), j) {
            let w = choose|w: int| 0 <= w < list.take(k).len() && #[trigger] list.take(k)[w] as int == j;
            assert(list.take(k + 1)[w] as int == j);
        }
        if j == list[k] as int {
            assert(list.take(k + 1)[k] as int == j);
        }
        if listed(list.take(k + 1), j) {
            let w = choose|w: int| 0 <= w < list.take(k + 1).len() && #[trigger] list.take(k + 1)[w] as int == j;
            if w < k {
                assert(list.take(k)[w] as int == j);
            }
        }
    }
}

/// The scheduler once woken up: the conditions of the previous round are
/// cleared (the instant condition only if no thread waits to enter it).
pub open spec fn after_wake_up(s: SchedulerView) -> SchedulerView {
    let s1 = s.with_condition(Condition::CooperateWake, false).with_condition(Condition::Finish, false)
        .with_condition(Condition::Emit, false);
    if s.nb_wait_cooperate == 0 {
        s1.with_condition(Condition::Instant, false)
    } else {
        s1
    }
}

pub open spec fn add_next_instant_spec(s: SchedulerView) -> (SchedulerView, bool) {
    if s.nb_cooperate == 0 {
        if s.nb_instant == s.next_instant {
            (SchedulerView { next_instant: (s.next_instant + 1) as i32, ..s }, true)
        } else {
            (s, true)
        }
    } else {
        (s, false)
    }
}

pub open spec fn verify_return_code_spec(s: SchedulerView) -> SchedulerView {
    if s.nb_wait == 0 && s.return_code {
        SchedulerView {
            signaux: set_listed(s.signaux, s.list_wait_signaux, false),
            list_wait_signaux: Seq::empty(),
            return_code: false,
            condition_code_signal: true,
            ..s
        }
    } else {
        s
    }
}

pub open spec fn thread_finish_execution_spec(s: SchedulerView) -> (SchedulerView, bool) {
    if s.nb_thread == s.stopped() {
        if s.nb_cooperate == 0 && s.nb_wait == 0 {
            (s, true)
        } else if s.nb_cooperate == 0 {
            (SchedulerView { check_nb_wait: true, ..s }, false)
        } else if s.nb_wait == 0 {
            (SchedulerView { check_nb_wait: false, ..s }, false)
        } else {
            (s, false)
        }
    } else {
        (s, false)
    }
}

/// What wakes the scheduler's loop.
#[derive(Clone, Copy, Debug, PartialEq, Eq, Structural)]
pub enum SchedulerEvent {
    /// the loop starts
    RoundStart,
    /// the scheduler has been woken up (or believes so)
    WokenUp,
}

/// What the scheduler's loop does next.
#[derive(Clone, Copy, Debug, PartialEq, Eq, Structural)]
pub enum SchedulerAction {
    /// wait until `Condition::WakeUp` holds, then report `WokenUp`
    WaitWakeUp,
    /// every thread has finished: the loop ends
    Finished,
}

/// The top of the scheduler's loop: with no cooperating thread, the
/// cooperating threads are held until the next instant.
pub open spec fn round_prepare(s: SchedulerView) -> SchedulerView {
    if s.nb_cooperate == 0 {
        s.with_condition(Condition::Cooperate, false)
    } else {
        s
    }
}

/// The state of a round once the scheduler has looked at the threads, with
/// whether some thread still runs and whether every thread has finished.
pub open spec fn round_prefix(s: SchedulerView) -> (SchedulerView, bool, bool) {
    let s1 = after_wake_up(s);
    let (s2, next) = add_next_instant_spec(s1);
    let s3 = verify_return_code_spec(s2);
    let running = s3.nb_thread > s3.stopped();
    let (s4, finished) = if running { (s3, false) } else { thread_finish_execution_spec(s3) };
    let s5 = if next {
        s4.with_condition(Condition::Cooperate, false).with_condition(Condition::Instant, true)
    } else {
        s4
    };
    (s5, running, finished)
}

/// The state just before the threads are counted in a round.
pub open spec fn round_counted(s: SchedulerView) -> SchedulerView {
    verify_return_code_spec(add_next_instant_spec(after_wake_up(s)).0)
}

/// Whether the round ends the current instant: every thread has stopped,
/// not all have finished, and the cooperating threads are held.
pub open spec fn ends_instant(s: SchedulerView) -> bool {
    let (s5, running, finished) = round_prefix(s);
    !running && !finished && !s5.condition_cooperate
}

/// The end of an instant: the instant count moves on, the end-of-instant
/// code is set, every awaited signal is emitted so that its waiting thread
/// sees the end of the instant, and the signals emitted in the instant are
/// made absent and forgotten. When the instant ends with cooperating
/// threads, they are let into the next instant.
pub open spec fn end_instant(s: SchedulerView) -> SchedulerView {
    let emitted = set_listed(s.signaux, s.list_wait_signaux, true);
    let t = SchedulerView {
        nb_instant: (s.nb_instant + 1) as i32,
        condition_wake_up: false,
        return_code: true,
        condition_code_signal: false,
        condition_emit: true,
        signaux: set_listed(emitted, s.list_emit_signaux, false),
        list_emit_signaux: Seq::empty(),
        ..s
    };
    if s.check_nb_wait {
        t
    } else {
        SchedulerView { condition_cooperate: true, condition_finish: true, ..t }
    }
}

/// One round of the scheduler once woken up: the new state and whether
/// every thread has finished.
pub open spec fn round_spec(s: SchedulerView) -> (SchedulerView, bool) {
    let (s5, running, finished) = round_prefix(s);
    if running {
        (SchedulerView {
            condition_wake_up: false,
            condition_cooperate_wake: true,
            condition_emit: true,
            condition_finish: true,
            ..s5
        }, false)
    } else if !finished {
        if !s5.condition_cooperate {
            (end_instant(s5), false)
        } else {
            (SchedulerView {
                condition_wake_up: false,
                condition_cooperate_wake: true,
                condition_finish: true,
                ..s5
            }, false)
        }
    } else {
        (s5, true)
    }
}

/// No step of a round overflows.
pub open spec fn round_fits(s: SchedulerView) -> bool {
    &&& (s.nb_cooperate == 0 && s.nb_instant == s.next_instant ==> s.next_instant < i32::MAX)
    &&& round_counted(s).stopped_fits()
    &&& (ends_instant(s) ==> s.nb_instant < i32::MAX)
}

impl Scheduler {
    /// Makes a scheduler with no thread, no signal, and every condition
    /// unset. `old_scheduler_count` is the number of schedulers made before
    /// this one; the new scheduler's id is one more.
    pub fn scheduler_create(old_scheduler_count: usize) -> (sche: Scheduler)
        requires
            old_scheduler_count < usize::MAX,
        ensures
            sche@ == (SchedulerView {
                id_scheduler: (old_scheduler_count + 1) as usize,
                nb_thread: 0,
                signaux: Seq::empty(),
                list_wait_signaux: Seq::empty(),
                list_emit_signaux: Seq::empty(),
                condition_cooperate: false,
                condition_wake_up: false,
                condition_emit: false,
                condition_cooperate_wake: false,
                condition_finish: false,
                condition_instant: false,
                condition_code_signal: false,
                nb_cooperate: 0,
                nb_wait: 0,
                nb_finish: 0,
                nb_instant: 0,
                next_instant: 1,
                nb_wait_cooperate: 0,
                check_nb_wait: false,
                check_nb_cooperate: false,
                return_code: false,
            }),
            sche@.wf(),
    {
        Scheduler {
            id_scheduler: old_scheduler_count + 1,
            nb_thread: 0,
            signaux: Vec::new(),
            list_wait_signaux: Vec::new(),
            list_emit_signaux: Vec::new(),
            condition_cooperate: false,
            condition_wake_up: false,
            condition_emit: false,
            condition_cooperate_wake: false,
            condition_finish: false,
            condition_instant: false,
            condition_code_signal: false,
            nb_cooperate: 0,
            nb_wait: 0,
            nb_finish: 0,
            nb_instant: 0,
            next_instant: 1,
            nb_wait_cooperate: 0,
            check_nb_wait: false,
            check_nb_cooperate: false,
            return_code: false,
        }
    }

    /// Puts `signal` under this scheduler's coordination; the result names it
    /// in the scheduler's operations.
    pub fn register_signal(&mut self, signal: Signal) -> (handle: usize)
        requires
            old(self)@.wf(),
        ensures
            handle == old(self)@.signaux.len(),
            final(self)@ == (SchedulerView { signaux: old(self)@.signaux.push(signal), ..old(self)@ }),
            final(self)@.wf(),
    {
        let handle = self.signaux.len();
        self.signaux.push(signal);
        handle
    }

    /// Whether condition `c` holds.
    pub fn condition(&self, c: Condition) -> (holds: bool)
        ensures
            holds == self@.condition(c),
    {
        match c {
            Condition::Cooperate => self.condition_cooperate,
            Condition::WakeUp => self.condition_wake_up,
            Condition::Emit => self.condition_emit,
            Condition::CooperateWake => self.condition_cooperate_wake,
            Condition::Finish => self.condition_finish,
            Condition::Instant => self.condition_instant,
            Condition::CodeSignal => self.condition_code_signal,
        }
    }

    /// Whether the signal named `signal` is present.
    pub fn signal_present(&self, signal: usize) -> (present: bool)
        requires
            signal < self@.signaux.len(),
        ensures
            present == self@.signaux[signal as int].condition_variable,
    {
        crate::signal::get_condvar_bool(&self.signaux[signal])
    }

    /// One more thread runs under this scheduler.
    pub fn increment_nbthread(&mut self)
        requires
            old(self).nb_thread < isize::MAX,
        ensures
            final(self)@ == (SchedulerView { nb_thread: (old(self).nb_thread + 1) as isize, ..old(self)@ }),
    {
        self.nb_thread = self.nb_thread + 1;
    }

    /// Empties the list of awaited signals.
    pub fn clear_all_liste_wait(&mut self)
        ensures
            final(self)@ == (SchedulerView { list_wait_signaux: Seq::empty(), ..old(self)@ }),
    {
        self.list_wait_signaux.clear();
    }

    /// Empties the list of emitted signals.
    pub fn clear_all_liste_emit(&mut self)
        ensures
            final(self)@ == (SchedulerView { list_emit_signaux: Seq::empty(), ..old(self)@ }),
    {
        self.list_emit_signaux.clear();
    }

    /// Records that a thread waits on `signal`.
    pub fn add_wait_signal(&mut self, signal: usize)
        requires
            old(self)@.wf(),
            signal < old(self)@.signaux.len(),
        ensures
            final(self)@ == (SchedulerView { list_wait_signaux: old(self)@.list_wait_signaux.push(signal), ..old(self)@ }),
            final(self)@.wf(),
    {
        self.list_wait_signaux.push(signal);
    }

    /// Records that `signal` has been emitted in this instant.
    pub fn add_emit_signal(&mut self, signal: usize)
        requires
            old(self)@.wf(),
            signal < old(self)@.signaux.len(),
        ensures
            final(self)@ == (SchedulerView { list_emit_signaux: old(self)@.list_emit_signaux.push(signal), ..old(self)@ }),
            final(self)@.wf(),
    {
        self.list_emit_signaux.push(signal);
    }

    /// The number of awaited signals that are still absent: the threads
    /// blocked on a signal.
    pub fn return_length_list_wait(&self) -> (length: i32)
        requires
            self@.wf(),
            self@.list_wait_signaux.len() <= i32::MAX,
        ensures
            length == self@.waiting(),
    {
        let mut i: i32 = 0;
        let mut k: usize = 0;
        while k < self.list_wait_signaux.len()
            invariant
                self@.wf(),
                self@.list_wait_signaux.len() <= i32::MAX,
                k <= self.list_wait_signaux.len(),
                i == present_count(self@.signaux, self@.list_wait_signaux.take(k as int)),
                i <= k,
            decreases self.list_wait_signaux.len() - k,
        {
            let s = self.list_wait_signaux[k];
            assert(self@.list_wait_signaux.take(k + 1).drop_last() =~= self@.list_wait_signaux.take(k as int));
            if crate::signal::get_condvar_bool(&self.signaux[s]) {
                i = i + 1;
            }
            k = k + 1;
        }
        assert(self@.list_wait_signaux.take(k as int) =~= self@.list_wait_signaux);
        proof {
            lemma_absent_plus_present(self@.signaux, self@.list_wait_signaux);
        }
        let length = self.list_wait_signaux.len() as i32;
        length - i
    }

    /// The end-of-instant code: set when an instant ends, until every thread
    /// that waited on a signal has seen it.
    pub fn return_code(&self) -> (code: bool)
        ensures
            code == self.return_code,
    {
        self.return_code
    }

    /// Emits `signal`.
    pub fn scheduler_emit(&mut self, signal: usize)
        requires
            signal < old(self)@.signaux.len(),
        ensures
            final(self)@ == (SchedulerView { signaux: set_one(old(self)@.signaux, signal as int, true), ..old(self)@ }),
    {
        crate::signal::notify_thread(crate::signal::get_condvar(&mut self.signaux[signal]));
    }

    /// Makes `signal` absent again.
    pub fn return_false_signal(&mut self, signal: usize)
        requires
            signal < old(self)@.signaux.len(),
        ensures
            final(self)@ == (SchedulerView { signaux: set_one(old(self)@.signaux, signal as int, false), ..old(self)@ }),
    {
        crate::signal::return_condvar_false(crate::signal::get_condvar(&mut self.signaux[signal]));
    }

    /// Makes every emitted signal of this instant absent again.
    pub fn initialise_all_signaux_emit(&mut self)
        requires
            old(self)@.wf(),
        ensures
            final(self)@ == (SchedulerView {
                signaux: set_listed(old(self)@.signaux, old(self)@.list_emit_signaux, false),
                ..old(self)@
            }),
            final(self)@.wf(),
    {
        let ghost s0 = self@;
        let mut k: usize = 0;
        while k < self.list_emit_signaux.len()
            invariant
                s0.wf(),
                k <= s0.list_emit_signaux.len(),
                self@ == (SchedulerView {
                    signaux: set_listed(s0.signaux, s0.list_emit_signaux.take(k as int), false),
                    ..s0
                }),
            decreases self.list_emit_signaux.len() - k,
        {
            let s = self.list_emit_signaux[k];
            proof {
                lemma_set_listed_step(s0.signaux, s0.list_emit_signaux, k as int, false);
            }
            self.return_false_signal(s);
            k = k + 1;
        }
        assert(s0.list_emit_signaux.take(k as int) =~= s0.list_emit_signaux);
    }

    /// Makes every awaited signal absent again.
    pub fn initialise_all_signaux_wait(&mut self)
        requires
            old(self)@.wf(),
        ensures
            final(self)@ == (SchedulerView {
                signaux: set_listed(old(self)@.signaux, old(self)@.list_wait_signaux, false),
                ..old(self)@
            }),
            final(self)@.wf(),
    {
        let ghost s0 = self@;
        let mut k: usize = 0;
        while k < self.list_wait_signaux.len()
            invariant
                s0.wf(),
                k <= s0.list_wait_signaux.len(),
                self@ == (SchedulerView {
                    signaux: set_listed(s0.signaux, s0.list_wait_signaux.take(k as int), false),
                    ..s0
                }),
            decreases self.list_wait_signaux.len() - k,
        {
            let s = self.list_wait_signaux[k];
            proof {
                lemma_set_listed_step(s0.signaux, s0.list_wait_signaux, k as int, false);
            }
            self.return_false_signal(s);
            k = k + 1;
        }
        assert(s0.list_wait_signaux.take(k as int) =~= s0.list_wait_signaux);
    }

    /// Emits every awaited signal that is still absent, so that every thread
    /// waiting on a signal can see the end of the instant.
    pub fn notify_thread_wait(&mut self)
        requires
            old(self)@.wf(),
        ensures
            final(self)@ == (SchedulerView {
                signaux: set_listed(old(self)@.signaux, old(self)@.list_wait_signaux, true),
                ..old(self)@
            }),
            final(self)@.wf(),
    {
        let ghost s0 = self@;
        let mut k: usize = 0;
        while k < self.list_wait_signaux.len()
            invariant
                s0.wf(),
                k <= s0.list_wait_signaux.len(),
                self@ == (SchedulerView {
                    signaux: set_listed(s0.signaux, s0.list_wait_signaux.take(k as int), true),
                    ..s0
                }),
            decreases self.list_wait_signaux.len() - k,
        {
            let s = self.list_wait_signaux[k];
            proof {
                lemma_set_listed_step(s0.signaux, s0.list_wait_signaux, k as int, true);
            }
            if !crate::signal::get_condvar_bool(&self.signaux[s]) {
                self.scheduler_emit(s);
            } else {
                assert(set_one(self@.signaux, s as int, true) =~= self@.signaux);
            }
            k = k + 1;
        }
        assert(s0.list_wait_signaux.take(k as int) =~= s0.list_wait_signaux);
    }

    /// Settles the end-of-instant code: threads held at the code barrier may go on.
    pub fn notify_return_code(&mut self)
        ensures
            final(self)@ == old(self)@.with_condition(Condition::CodeSignal, true),
    {
        self.condition_code_signal = true;
    }

    /// Whether a thread held at the code barrier may go on.
    pub fn wait_code_signal(&self) -> (may_go_on: bool)
        ensures
            may_go_on == self@.condition(Condition::CodeSignal),
    {
        self.condition_code_signal
    }

    /// Starts the next instant for the cooperating threads.
    pub fn notify_all_cooperate(&mut self)
        ensures
            final(self)@ == old(self)@.with_condition(Condition::Cooperate, true),
    {
        self.condition_cooperate = true;
    }

    /// Whether a cooperating thread may go on into the next instant.
    pub fn wait_cooperate(&self) -> (may_go_on: bool)
        ensures
            may_go_on == self@.condition(Condition::Cooperate),
    {
        self.condition_cooperate
    }

    /// Wakes the scheduler up.
    pub fn notify_all_wake_up(&mut self)
        ensures
            final(self)@ == old(self)@.with_condition(Condition::WakeUp, true),
    {
        self.condition_wake_up = true;
    }

    /// Whether the scheduler has been woken up and has not yet gone back to sleep.
    pub fn get_condvar_wake_up(&self) -> (holds: bool)
        ensures
            holds == self@.condition(Condition::WakeUp),
    {
        self.condition_wake_up
    }

    /// Whether the scheduler has taken account of a cooperation.
    pub fn get_condvar_cooperateWake(&self) -> (holds: bool)
        ensures
            holds == self@.condition(Condition::CooperateWake),
    {
        self.condition_cooperate_wake
    }

    /// Whether the next instant has begun for the cooperating threads.
    pub fn get_condvar_cooperate(&self) -> (holds: bool)
        ensures
            holds == self@.condition(Condition::Cooperate),
    {
        self.condition_cooperate
    }

    /// Lets threads enter the new instant.
    pub fn notify_instant(&mut self)
        ensures
            final(self)@ == old(self)@.with_condition(Condition::Instant, true),
    {
        self.condition_instant = true;
    }

    /// Whether threads may enter the new instant.
    pub fn get_condvar_instant(&self) -> (holds: bool)
        ensures
            holds == self@.condition(Condition::Instant),
    {
        self.condition_instant
    }

    /// Records that the scheduler has taken account of a cooperation.
    pub fn notify_all_cooperate_wake(&mut self)
        ensures
            final(self)@ == old(self)@.with_condition(Condition::CooperateWake, true),
    {
        self.condition_cooperate_wake = true;
    }

    /// Whether a thread waiting for the scheduler to take account of a cooperation may go on.
    pub fn wait_cooperate_wake(&self) -> (may_go_on: bool)
        ensures
            may_go_on == self@.condition(Condition::CooperateWake),
    {
        self.condition_cooperate_wake
    }

    /// Records that the scheduler has taken account of an emission.
    pub fn notify_all_emit(&mut self)
        ensures
            final(self)@ == old(self)@.with_condition(Condition::Emit, true),
    {
        self.condition_emit = true;
    }

    /// Whether a thread waiting for the scheduler to take account of an emission may go on.
    pub fn wait_return_code(&self) -> (may_go_on: bool)
        ensures
            may_go_on == self@.condition(Condition::Emit),
    {
        self.condition_emit
    }

    /// Clears the emission condition.
    pub fn return_emit_false(&mut self)
        ensures
            final(self)@ == old(self)@.with_condition(Condition::Emit, false),
    {
        self.condition_emit = false;
    }

    /// Records that the scheduler has taken account of a finished thread.
    pub fn notify_all_finish(&mut self)
        ensures
            final(self)@ == old(self)@.with_condition(Condition::Finish, true),
    {
        self.condition_finish = true;
    }

    /// Whether a finishing thread may go on.
    pub fn wait_finish(&self) -> (may_go_on: bool)
        ensures
            may_go_on == self@.condition(Condition::Finish),
    {
        self.condition_finish
    }

    /// Clears the cooperation condition.
    pub fn return_cooperatewake_false(&mut self)
        ensures
            final(self)@ == old(self)@.with_condition(Condition::CooperateWake, false),
    {
        self.condition_cooperate_wake = false;
    }

    /// Clears the finish condition.
    pub fn return_finish_false(&mut self)
        ensures
            final(self)@ == old(self)@.with_condition(Condition::Finish, false),
    {
        self.condition_finish = false;
    }

    /// Puts the scheduler back to sleep.
    pub fn return_wakeup_false(&mut self)
        ensures
            final(self)@ == old(self)@.with_condition(Condition::WakeUp, false),
    {
        self.condition_wake_up = false;
    }

    /// Holds the cooperating threads until the next instant.
    pub fn return_cooperate_false(&mut self)
        ensures
            final(self)@ == old(self)@.with_condition(Condition::Cooperate, false),
    {
        self.condition_cooperate = false;
    }

    /// Holds threads at the code barrier.
    pub fn return_code_signal(&mut self)
        ensures
            final(self)@ == old(self)@.with_condition(Condition::CodeSignal, false),
    {
        self.condition_code_signal = false;
    }

    /// One more instant has ended.
    pub fn add_instant(&mut self)
        requires
            old(self).nb_instant < i32::MAX,
        ensures
            final(self)@ == (SchedulerView { nb_instant: (old(self).nb_instant + 1) as i32, ..old(self)@ }),
    {
        self.nb_instant = self.nb_instant + 1;
    }

    /// One more thread cooperates in this instant.
    pub fn add_nbcooperate(&mut self)
        requires
            old(self).nb_cooperate < i32::MAX,
        ensures
            final(self)@ == (SchedulerView { nb_cooperate: (old(self).nb_cooperate + 1) as i32, ..old(self)@ }),
    {
        self.nb_cooperate = self.nb_cooperate + 1;
    }

    /// One more thread has finished.
    pub fn add_nbfinish(&mut self)
        requires
            old(self).nb_finish < i32::MAX,
        ensures
            final(self)@ == (SchedulerView { nb_finish: (old(self).nb_finish + 1) as i32, ..old(self)@ }),
    {
        self.nb_finish = self.nb_finish + 1;
    }

    /// One more thread waits to enter the new instant.
    pub fn add_nbwait_cooperate(&mut self)
        requires
            old(self).nb_wait_cooperate < i32::MAX,
        ensures
            final(self)@ == (SchedulerView { nb_wait_cooperate: (old(self).nb_wait_cooperate + 1) as i32, ..old(self)@ }),
    {
        self.nb_wait_cooperate = self.nb_wait_cooperate + 1;
    }

    /// One more thread waits on an absent signal.
    pub fn add_nbwait(&mut self)
        requires
            old(self).nb_wait < i32::MAX,
        ensures
            final(self)@ == (SchedulerView { nb_wait: (old(self).nb_wait + 1) as i32, ..old(self)@ }),
    {
        self.nb_wait = self.nb_wait + 1;
    }

    /// One thread fewer waits on a signal.
    pub fn decrement_nbwait(&mut self)
        requires
            old(self).nb_wait > i32::MIN,
        ensures
            final(self)@ == (SchedulerView { nb_wait: (old(self).nb_wait - 1) as i32, ..old(self)@ }),
    {
        self.nb_wait = self.nb_wait - 1;
    }

    /// One thread fewer waits to enter the new instant.
    pub fn decrement_wait_cooperate(&mut self)
        requires
            old(self).nb_wait_cooperate > i32::MIN,
        ensures
            final(self)@ == (SchedulerView { nb_wait_cooperate: (old(self).nb_wait_cooperate - 1) as i32, ..old(self)@ }),
    {
        self.nb_wait_cooperate = self.nb_wait_cooperate - 1;
    }

    /// Clears the instant condition, unless a thread still waits to enter
    /// the new instant.
    pub fn return_instant_false(&mut self)
        ensures
            final(self)@ == if old(self).nb_wait_cooperate == 0 {
                old(self)@.with_condition(Condition::Instant, false)
            } else {
                old(self)@
            },
    {
        if self.nb_wait_cooperate == 0 {
            self.condition_instant = false;
        }
    }

    /// Ends the wait of the scheduler for its wake-up, if it has been woken
    /// up: then the conditions of the previous round are cleared and the
    /// result is `true`. Otherwise nothing changes and the scheduler must go
    /// on waiting.
    pub fn wait_wake_up(&mut self) -> (woken: bool)
        ensures
            woken == old(self).condition_wake_up,
            final(self)@ == if woken { after_wake_up(old(self)@) } else { old(self)@ },
    {
        if self.condition_wake_up {
            self.return_cooperatewake_false();
            self.return_finish_false();
            self.return_emit_false();
            self.return_instant_false();
            true
        } else {
            false
        }
    }

    /// A thread starts to wait for the new instant. It is counted among the
    /// threads that wait for it; if the new instant may already be entered,
    /// it stops being counted at once and the result is `true`. Otherwise
    /// the thread must wait until it may, then call
    /// `decrement_wait_cooperate`.
    pub fn wait_instant(&mut self) -> (entered: bool)
        requires
            old(self).nb_wait_cooperate < i32::MAX,
        ensures
            entered == old(self).condition_instant,
            final(self)@ == if entered {
                old(self)@
            } else {
                SchedulerView { nb_wait_cooperate: (old(self).nb_wait_cooperate + 1) as i32, ..old(self)@ }
            },
    {
        self.add_nbwait_cooperate();
        if self.condition_instant {
            self.decrement_wait_cooperate();
            true
        } else {
            false
        }
    }

    /// A cooperating thread resumes. When it was the last one, the scheduler
    /// is woken up, unless it is awake already: then the result is `true`,
    /// and the thread must wait for `CooperateWake` and then wake the
    /// scheduler up itself.
    pub fn decrement_cooperate(&mut self) -> (must_wait: bool)
        requires
            old(self).nb_cooperate > i32::MIN,
        ensures
            must_wait == (old(self).nb_cooperate - 1 == 0 && old(self).condition_wake_up),
            final(self)@ == {
                let s = SchedulerView { nb_cooperate: (old(self).nb_cooperate - 1) as i32, ..old(self)@ };
                if s.nb_cooperate == 0 && !s.condition_wake_up {
                    s.with_condition(Condition::WakeUp, true)
                } else {
                    s
                }
            },
    {
        self.nb_cooperate = self.nb_cooperate - 1;
        if self.nb_cooperate == 0 {
            if self.get_condvar_wake_up() {
                return true;
            }
            self.notify_all_wake_up();
        }
        false
    }

    /// When no thread cooperates, the instants may move on: if the count of
    /// ended instants has caught up with the next instant, the next instant
    /// moves one further. The result says whether no thread cooperates.
    pub fn add_next_instant(&mut self) -> (no_cooperation: bool)
        requires
            old(self).nb_cooperate == 0 && old(self).nb_instant == old(self).next_instant
                ==> old(self).next_instant < i32::MAX,
        ensures
            (final(self)@, no_cooperation) == add_next_instant_spec(old(self)@),
    {
        if self.nb_cooperate == 0 {
            if self.nb_instant == self.next_instant {
                self.next_instant = self.next_instant + 1;
            }
            return true;
        }
        false
    }

    /// When no thread waits on a signal any more and the end-of-instant
    /// code is set, the instant is over for the waiting threads: the awaited
    /// signals are made absent, their list is emptied, the code is cleared
    /// and the threads held at the code barrier may go on.
    pub fn verify_return_code(&mut self)
        requires
            old(self)@.wf(),
        ensures
            final(self)@ == verify_return_code_spec(old(self)@),
            final(self)@.wf(),
    {
        if self.nb_wait == 0 && self.return_code {
            self.initialise_all_signaux_wait();
            self.clear_all_liste_wait();
            self.return_code = false;
            self.notify_return_code();
        }
    }

    /// The number of threads that have stopped in this instant: waiting on
    /// an absent signal, cooperating, or finished.
    pub fn stopped_count(&self) -> (stopped: isize)
        requires
            self@.wf(),
            self@.stopped_fits(),
        ensures
            stopped == self@.stopped(),
    {
        let w = self.return_length_list_wait();
        let stopped = w + self.nb_cooperate + self.nb_finish;
        stopped as isize
    }

    /// Whether some thread is still running in this instant: more threads
    /// run under the scheduler than have stopped.
    pub fn thread_not_finish_execution(&self) -> (running: bool)
        requires
            self@.wf(),
            self@.stopped_fits(),
        ensures
            running == (self.nb_thread > self@.stopped()),
    {
        let w = self.return_length_list_wait();
        let stopped = w + self.nb_cooperate + self.nb_finish;
        self.nb_thread > stopped as isize
    }

    /// Whether every thread has finished. When every thread has stopped but
    /// not every one has finished, it records in `check_nb_wait` whether
    /// the instant ends with waiting threads only (`true`) or with
    /// cooperating threads only (`false`).
    pub fn thread_finish_execution(&mut self) -> (finished: bool)
        requires
            old(self)@.wf(),
            old(self)@.stopped_fits(),
        ensures
            (final(self)@, finished) == thread_finish_execution_spec(old(self)@),
    {
        let w = self.return_length_list_wait();
        let stopped = w + self.nb_cooperate + self.nb_finish;
        if self.nb_thread == stopped as isize {
            if self.nb_cooperate == 0 && self.nb_wait == 0 {
                return true;
            } else if self.nb_cooperate == 0 && self.nb_wait != 0 {
                self.check_nb_wait = true;
                return false;
            } else if self.nb_cooperate != 0 && self.nb_wait == 0 {
                self.check_nb_wait = false;
                return false;
            }
        }
        false
    }

    /// Looks at the threads once woken up: the round's state before its
    /// decision, whether some thread still runs, and whether every thread
    /// has finished.
    fn scheduler_look(&mut self) -> (r: (bool, bool))
        requires
            old(self)@.wf(),
            old(self).condition_wake_up,
            round_fits(old(self)@),
        ensures
            (final(self)@, r.0, r.1) == round_prefix(old(self)@),
            final(self)@.wf(),
    {
        let woken = self.wait_wake_up();
        let verify = self.add_next_instant();
        self.verify_return_code();
        let not_finish_execution = self.thread_not_finish_execution();
        let mut finish_execution = false;
        if !not_finish_execution {
            finish_execution = self.thread_finish_execution();
        }
        if verify {
            self.return_cooperate_false();
            self.notify_instant();
        }
        (not_finish_execution, finish_execution)
    }

    /// Ends the current instant (see `end_instant`).
    fn scheduler_end_instant(&mut self)
        requires
            old(self)@.wf(),
            old(self).nb_instant < i32::MAX,
        ensures
            final(self)@ == end_instant(old(self)@),
            final(self)@.wf(),
    {
        if !self.check_nb_wait {
            self.add_instant();
            self.return_wakeup_false();
            self.return_code = true;
            self.return_code_signal();
            self.notify_thread_wait();
            self.notify_all_cooperate();
            self.notify_all_finish();
            self.notify_all_emit();
            self.initialise_all_signaux_emit();
            self.clear_all_liste_emit();
        } else {
            self.return_code = true;
            self.return_code_signal();
            assert(self@.list_wait_signaux == old(self)@.list_wait_signaux);
            assert(self@.signaux == old(self)@.signaux);
            assert(self@.list_emit_signaux == old(self)@.list_emit_signaux);
            self.notify_thread_wait();
            self.add_instant();
            self.return_wakeup_false();
            self.notify_all_emit();
            self.initialise_all_signaux_emit();
            self.clear_all_liste_emit();
        }
    }

    /// One round of the scheduler once woken up (see `round_spec`); the
    /// result says whether every thread has finished.
    fn scheduler_round(&mut self) -> (done: bool)
        requires
            old(self)@.wf(),
            old(self).condition_wake_up,
            round_fits(old(self)@),
        ensures
            (final(self)@, done) == round_spec(old(self)@),
            final(self)@.wf(),
    {
        let (not_finish_execution, finish_execution) = self.scheduler_look();
        if not_finish_execution {
            self.return_wakeup_false();
            self.notify_all_cooperate_wake();
            self.notify_all_emit();
            self.notify_all_finish();
            false
        } else if !finish_execution {
            if !self.get_condvar_cooperate() {
                self.scheduler_end_instant();
            } else {
                self.return_wakeup_false();
                self.notify_all_cooperate_wake();
                self.notify_all_finish();
            }
            false
        } else {
            true
        }
    }

    /// One step of the scheduler's loop. On `RoundStart` it prepares the
    /// first round. On `WokenUp`, if the scheduler has indeed been woken up,
    /// it plays one round: it decides whether some thread still runs in this
    /// instant, whether the instant is over, or whether every thread has
    /// finished, and wakes the threads concerned; then, unless every thread
    /// has finished, it prepares the next round.
    pub fn scheduler_start(&mut self, event: SchedulerEvent) -> (action: SchedulerAction)
        requires
            old(self)@.wf(),
            event == SchedulerEvent::WokenUp && old(self).condition_wake_up ==> round_fits(old(self)@),
        ensures
            final(self)@.wf(),
            event == SchedulerEvent::RoundStart ==> final(self)@ == round_prepare(old(self)@)
                && action == SchedulerAction::WaitWakeUp,
            event == SchedulerEvent::WokenUp && !old(self).condition_wake_up ==> final(self)@ == old(self)@
                && action == SchedulerAction::WaitWakeUp,
            event == SchedulerEvent::WokenUp && old(self).condition_wake_up ==> {
                let (s, done) = round_spec(old(self)@);
                if done {
                    final(self)@ == s && action == SchedulerAction::Finished
                } else {
                    final(self)@ == round_prepare(s) && action == SchedulerAction::WaitWakeUp
                }
            },
    {
        match event {
            SchedulerEvent::RoundStart => {
                if self.nb_cooperate == 0 {
                    self.return_cooperate_false();
                }
                SchedulerAction::WaitWakeUp
            },
            SchedulerEvent::WokenUp => {
                if !self.condition_wake_up {
                    return SchedulerAction::WaitWakeUp;
                }
                if self.scheduler_round() {
                    return SchedulerAction::Finished;
                }
                if self.nb_cooperate == 0 {
                    self.return_cooperate_false();
                }
                SchedulerAction::WaitWakeUp
            },
        }
    }
}

} // verus!

verus! {

/// A round that does not end the scheduler's loop puts the scheduler back
/// to sleep: it waits for the next wake-up before it decides again.
pub proof fn lemma_round_goes_back_to_sleep(s: SchedulerView)
    ensures
        !round_spec(s).1 ==> !round_prepare(round_spec(s).0).condition_wake_up,
{
}

/// The scheduler's loop ends exactly when, at the time it counts the
/// threads, every thread has stopped, none cooperates and none waits on a
/// signal.
pub proof fn lemma_round_finishes_iff(s: SchedulerView)
    ensures
        round_spec(s).1 <==> {
            let c = round_counted(s);
            c.nb_thread == c.stopped() && c.nb_cooperate == 0 && c.nb_wait == 0
        },
{
}

/// While some thread still runs in the instant, a round lets every thread
/// held by the scheduler go on and goes back to sleep, without ending the
/// instant.
pub proof fn lemma_round_while_running(s: SchedulerView)
    requires
        round_prefix(s).1,
    ensures
        ({
            let t = round_spec(s).0;
            &&& !round_spec(s).1
            &&& !t.condition_wake_up
            &&& t.condition_cooperate_wake
            &&& t.condition_emit
            &&& t.condition_finish
            &&& t.nb_instant == s.nb_instant
        }),
{
}

/// An instant ends only when every thread has stopped: while, at the time
/// the scheduler counts the threads, more threads run under it than are
/// waiting on an absent signal, cooperating or finished, the round neither
/// ends the instant nor the loop; it lets the held threads go on and goes
/// back to sleep, leaving the end-of-instant code as it found it.
pub proof fn lemma_instant_ends_only_when_all_stopped(s: SchedulerView)
    ensures
        ends_instant(s) ==> round_counted(s).nb_thread <= round_counted(s).stopped(),
        round_spec(s).0.nb_instant != s.nb_instant ==> round_counted(s).nb_thread <= round_counted(s).stopped(),
        round_spec(s).1 ==> round_counted(s).nb_thread <= round_counted(s).stopped(),
        round_counted(s).nb_thread > round_counted(s).stopped() ==> ({
            let c = round_counted(s);
            let (t, done) = round_spec(s);
            &&& !done
            &&& t.nb_instant == s.nb_instant
            &&& t.return_code == c.return_code
            &&& t.list_emit_signaux == c.list_emit_signaux
            &&& t.signaux == c.signaux
            &&& !t.condition_wake_up
            &&& t.condition_cooperate_wake
            &&& t.condition_emit
            &&& t.condition_finish
        }),
{
}

/// A round that ends the instant counts one more instant, sets the
/// end-of-instant code, holds threads at the code barrier, forgets the
/// signals emitted in the instant (making them absent), and emits every
/// awaited signal that was not emitted in the instant, so that each
/// waiting thread wakes up and sees the end of the instant.
pub proof fn lemma_round_ends_instant(s: SchedulerView)
    requires
        ends_instant(s),
        round_fits(s),
    ensures
        ({
            let c = round_counted(s);
            let t = round_spec(s).0;
            &&& !round_spec(s).1
            &&& t.nb_instant == s.nb_instant + 1
            &&& t.return_code
            &&& !t.condition_code_signal
            &&& !t.condition_wake_up
            &&& t.list_emit_signaux.len() == 0
            &&& t.list_wait_signaux == c.list_wait_signaux
            &&& t.signaux.len() == c.signaux.len()
            &&& forall|k: int|
                0 <= k < c.signaux.len() && listed(c.list_wait_signaux, k) && !listed(c.list_emit_signaux, k)
                    ==> #[trigger] t.signaux[k].condition_variable
            &&& forall|k: int|
                0 <= k < c.signaux.len() && listed(c.list_emit_signaux, k)
                    ==> !(#[trigger] t.signaux[k]).condition_variable
        }),
{
}

proof fn lemma_prefix_instants(s: SchedulerView)
    requires
        s.nb_cooperate == 0 && s.nb_instant == s.next_instant ==> s.next_instant < i32::MAX,
    ensures
        round_prefix(s).0.nb_instant == s.nb_instant,
        round_prefix(s).0.next_instant >= s.next_instant,
{
    let s1 = after_wake_up(s);
    assert(s1.nb_instant == s.nb_instant && s1.next_instant == s.next_instant && s1.nb_cooperate == s.nb_cooperate);
    let (s2, next) = add_next_instant_spec(s1);
    assert(s2.nb_instant == s.nb_instant && s2.next_instant >= s.next_instant);
    let s3 = verify_return_code_spec(s2);
    assert(s3.nb_instant == s2.nb_instant && s3.next_instant == s2.next_instant);
}

/// A round never moves the instant counts back.
#[verifier::spinoff_prover]
pub proof fn lemma_round_instants_monotone(s: SchedulerView)
    requires
        s.nb_cooperate == 0 && s.nb_instant == s.next_instant ==> s.next_instant < i32::MAX,
        ends_instant(s) ==> s.nb_instant < i32::MAX,
    ensures
        round_prepare(round_spec(s).0).nb_instant >= s.nb_instant,
        round_prepare(round_spec(s).0).next_instant >= s.next_instant,
{
    lemma_prefix_instants(s);
    let (s5, running, finished) = round_prefix(s);
    let t = round_spec(s).0;
    if running {
        assert(t.nb_instant == s5.nb_instant && t.next_instant == s5.next_instant);
    } else if !finished {
        if !s5.condition_cooperate {
            assert(t == end_instant(s5));
            assert(t.nb_instant == s.nb_instant + 1 && t.next_instant == s5.next_instant);
        } else {
            assert(t.nb_instant == s5.nb_instant && t.next_instant == s5.next_instant);
        }
    }
}

/// Every thread having finished and some thread still running exclude one
/// another.
pub proof fn lemma_finished_excludes_running(s: SchedulerView)
    ensures
        thread_finish_execution_spec(s).1 ==> !(s.nb_thread > s.stopped()),
{
}

/// Once every awaited signal has been emitted, no thread waits on a signal.
pub proof fn lemma_notify_thread_wait_empties_waiting(s: SchedulerView)
    requires
        s.wf(),
    ensures
        (SchedulerView { signaux: set_listed(s.signaux, s.list_wait_signaux, true), ..s }).waiting() == 0,
{
    let t = SchedulerView { signaux: set_listed(s.signaux, s.list_wait_signaux, true), ..s };
    assert forall|i: int| 0 <= i < t.list_wait_signaux.len() implies
        t.signaux[#[trigger] t.list_wait_signaux[i] as int].condition_variable == true by {
        assert(listed(s.list_wait_signaux, s.list_wait_signaux[i] as int));
    }
    lemma_absent_count_all(t.signaux, t.list_wait_signaux, true);
}

/// Once every awaited signal has been made absent, every entry of the list
/// counts as a waiting thread.
pub proof fn lemma_initialise_wait_all_absent(s: SchedulerView)
    requires
        s.wf(),
    ensures
        (SchedulerView { signaux: set_listed(s.signaux, s.list_wait_signaux, false), ..s }).waiting()
            == s.list_wait_signaux.len(),
{
    let t = SchedulerView { signaux: set_listed(s.signaux, s.list_wait_signaux, false), ..s };
    assert forall|i: int| 0 <= i < t.list_wait_signaux.len() implies
        t.signaux[#[trigger] t.list_wait_signaux[i] as int].condition_variable == false by {
        assert(listed(s.list_wait_signaux, s.list_wait_signaux[i] as int));
    }
    lemma_absent_count_all(t.signaux, t.list_wait_signaux, false);
}

/// Awaiting an absent signal makes one more waiting thread; awaiting a
/// present one makes none.
pub proof fn lemma_add_wait_signal_waiting(s: SchedulerView, signal: usize)
    requires
        s.wf(),
        signal < s.signaux.len(),
    ensures
        (SchedulerView { list_wait_signaux: s.list_wait_signaux.push(signal), ..s }).waiting()
            == s.waiting() + if s.signaux[signal as int].condition_variable { 0nat } else { 1nat },
{
    assert(s.list_wait_signaux.push(signal).drop_last() =~= s.list_wait_signaux);
}

} // verus!
