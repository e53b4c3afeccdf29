use vstd::prelude::*;
use crate::scheduler::{Condition, Scheduler, SchedulerView, set_one};

pub use crate::signal::{get_condvar, notify_thread};

verus! {

/// What a reactive thread waits for before it goes on.
#[derive(Clone, Copy, Debug, PartialEq, Eq, Structural)]
pub enum Wait {
    /// a condition of the scheduler
    Condition(Condition),
    /// the presence of the signal with this handle
    Signal(usize),
}

/// The outcome of one step of a thread's operation: wait for something and
/// then resume at the given point, or the operation is over.
#[derive(Debug)]
pub enum Step<P> {
    Block(Wait, P),
    Done,
}

/// The points at which an emission resumes.
#[derive(Clone, Copy, Debug, PartialEq, Eq, Structural)]
pub enum EmitPc {
    Start,
    WakeScheduler,
    Record,
    Raise,
}

/// The points at which the wait on a signal resumes; `check` says whether
/// the thread counted itself among the threads waiting on a signal.
#[derive(Clone, Copy, Debug, PartialEq, Eq, Structural)]
pub enum AwaitPc {
    Start,
    WakeScheduler,
    Check,
    WakeAll { check: bool },
    Finish { check: bool },
}

/// The points at which a cooperation resumes.
#[derive(Clone, Copy, Debug, PartialEq, Eq, Structural)]
pub enum CooperatePc {
    Start,
    LeaveInstantWait,
    Barrier,
    WakeScheduler,
    Join,
    Register,
    Resume,
    WakeLast,
}

/// The points at which the end of a thread resumes.
#[derive(Clone, Copy, Debug, PartialEq, Eq, Structural)]
pub enum FinishPc {
    Start,
    Count,
}

pub open spec fn wake(s: SchedulerView) -> SchedulerView {
    s.with_condition(Condition::WakeUp, true)
}

pub open spec fn block<P>(c: Condition, resume: P) -> Step<P> {
    Step::Block(Wait::Condition(c), resume)
}

// ---------------------------------------------------------------- emission

pub open spec fn emit_raise(s: SchedulerView, signal: usize) -> (SchedulerView, Step<EmitPc>) {
    (SchedulerView { signaux: set_one(s.signaux, signal as int, true), ..s }, Step::Done)
}

pub open spec fn emit_record(s: SchedulerView, signal: usize) -> (SchedulerView, Step<EmitPc>) {
    if !s.signaux[signal as int].condition_variable {
        let t = SchedulerView { list_emit_signaux: s.list_emit_signaux.push(signal), ..s };
        if t.condition_wake_up {
            (t, block(Condition::Emit, EmitPc::Raise))
        } else {
            emit_raise(t, signal)
        }
    } else {
        emit_raise(s, signal)
    }
}

pub open spec fn emit_wake(s: SchedulerView) -> (SchedulerView, Step<EmitPc>) {
    (wake(s), block(Condition::CodeSignal, EmitPc::Record))
}

pub open spec fn emit_start(s: SchedulerView, signal: usize) -> (SchedulerView, Step<EmitPc>) {
    if s.return_code {
        if s.nb_wait == 0 {
            if s.condition_wake_up {
                (s, block(Condition::Emit, EmitPc::WakeScheduler))
            } else {
                emit_wake(s)
            }
        } else {
            (s, block(Condition::CodeSignal, EmitPc::Record))
        }
    } else {
        emit_record(s, signal)
    }
}

/// One step of the emission of `signal`, resumed at `pc`.
pub open spec fn emit_spec(s: SchedulerView, signal: usize, pc: EmitPc) -> (SchedulerView, Step<EmitPc>) {
    match pc {
        EmitPc::Start => emit_start(s, signal),
        EmitPc::WakeScheduler => emit_wake(s),
        EmitPc::Record => emit_record(s, signal),
        EmitPc::Raise => emit_raise(s, signal),
    }
}

// ------------------------------------------------------- waiting on a signal

pub open spec fn await_finish(s: SchedulerView, check: bool) -> (SchedulerView, Step<AwaitPc>) {
    if check {
        (SchedulerView { nb_wait: (s.nb_wait - 1) as i32, ..s }, Step::Done)
    } else {
        (s, Step::Done)
    }
}

pub open spec fn await_wake_all(s: SchedulerView, signal: usize, check: bool) -> (SchedulerView, Step<AwaitPc>) {
    (wake(s), Step::Block(Wait::Signal(signal), AwaitPc::Finish { check }))
}

/// The state once the thread has counted itself, if the signal is absent,
/// among the threads waiting on a signal.
pub open spec fn await_counted(s: SchedulerView, signal: usize) -> SchedulerView {
    if !s.signaux[signal as int].condition_variable {
        SchedulerView {
            nb_wait: (s.nb_wait + 1) as i32,
            list_wait_signaux: s.list_wait_signaux.push(signal),
            ..s
        }
    } else {
        s
    }
}

pub open spec fn await_check(s: SchedulerView, signal: usize, nb_thread: isize) -> (SchedulerView, Step<AwaitPc>) {
    let check = !s.signaux[signal as int].condition_variable;
    let t = await_counted(s, signal);
    if nb_thread == t.stopped() {
        if t.condition_wake_up {
            (t, block(Condition::Emit, AwaitPc::WakeAll { check }))
        } else {
            await_wake_all(t, signal, check)
        }
    } else {
        (t, Step::Block(Wait::Signal(signal), AwaitPc::Finish { check }))
    }
}

pub open spec fn await_wake(s: SchedulerView) -> (SchedulerView, Step<AwaitPc>) {
    (wake(s), block(Condition::CodeSignal, AwaitPc::Check))
}

pub open spec fn await_start(s: SchedulerView, signal: usize, nb_thread: isize) -> (SchedulerView, Step<AwaitPc>) {
    if s.return_code {
        if s.nb_wait == 0 {
            if s.condition_wake_up {
                (s, block(Condition::Emit, AwaitPc::WakeScheduler))
            } else {
                await_wake(s)
            }
        } else {
            (s, block(Condition::CodeSignal, AwaitPc::Check))
        }
    } else {
        await_check(s, signal, nb_thread)
    }
}

/// One step of the wait on `signal`, resumed at `pc`, in a scheduler that
/// runs `nb_thread` threads.
pub open spec fn await_spec(s: SchedulerView, signal: usize, nb_thread: isize, pc: AwaitPc) -> (SchedulerView, Step<AwaitPc>) {
    match pc {
        AwaitPc::Start => await_start(s, signal, nb_thread),
        AwaitPc::WakeScheduler => await_wake(s),
        AwaitPc::Check => await_check(s, signal, nb_thread),
        AwaitPc::WakeAll { check } => await_wake_all(s, signal, check),
        AwaitPc::Finish { check } => await_finish(s, check),
    }
}

/// No step of the wait on `signal` resumed at `pc` overflows.
pub open spec fn await_fits(s: SchedulerView, signal: usize, pc: AwaitPc) -> bool {
    match pc {
        AwaitPc::Start => !s.return_code ==> await_check_fits(s, signal),
        AwaitPc::Check => await_check_fits(s, signal),
        AwaitPc::Finish { check } => check ==> s.nb_wait > i32::MIN,
        _ => true,
    }
}

pub open spec fn await_check_fits(s: SchedulerView, signal: usize) -> bool {
    &&& (!s.signaux[signal as int].condition_variable ==> s.nb_wait < i32::MAX)
    &&& await_counted(s, signal).stopped_fits()
}

// ------------------------------------------------------------- cooperation

pub open spec fn coop_wake_last(s: SchedulerView) -> (SchedulerView, Step<CooperatePc>) {
    (wake(s), Step::Done)
}

pub open spec fn coop_resume(s: SchedulerView) -> (SchedulerView, Step<CooperatePc>) {
    let t = SchedulerView { nb_cooperate: (s.nb_cooperate - 1) as i32, ..s };
    if t.nb_cooperate == 0 {
        if t.condition_wake_up {
            (t, block(Condition::CooperateWake, CooperatePc::WakeLast))
        } else {
            (wake(t), Step::Done)
        }
    } else {
        (t, Step::Done)
    }
}

pub open spec fn coop_register(s: SchedulerView) -> (SchedulerView, Step<CooperatePc>) {
    (wake(SchedulerView { nb_cooperate: (s.nb_cooperate + 1) as i32, ..s }), block(Condition::Cooperate, CooperatePc::Resume))
}

pub open spec fn coop_join(s: SchedulerView) -> (SchedulerView, Step<CooperatePc>) {
    if s.condition_wake_up {
        (s, block(Condition::CooperateWake, CooperatePc::Register))
    } else {
        coop_register(s)
    }
}

pub open spec fn coop_wake(s: SchedulerView) -> (SchedulerView, Step<CooperatePc>) {
    (wake(s), block(Condition::CodeSignal, CooperatePc::Join))
}

pub open spec fn coop_barrier(s: SchedulerView) -> (SchedulerView, Step<CooperatePc>) {
    if s.return_code {
        if s.nb_wait == 0 {
            if s.condition_wake_up {
                (s, block(Condition::CooperateWake, CooperatePc::WakeScheduler))
            } else {
                coop_wake(s)
            }
        } else {
            (s, block(Condition::CodeSignal, CooperatePc::Join))
        }
    } else {
        coop_join(s)
    }
}

pub open spec fn coop_leave_instant_wait(s: SchedulerView) -> (SchedulerView, Step<CooperatePc>) {
    coop_barrier(SchedulerView { nb_wait_cooperate: (s.nb_wait_cooperate - 1) as i32, ..s })
}

pub open spec fn coop_start(s: SchedulerView) -> (SchedulerView, Step<CooperatePc>) {
    if s.nb_instant == s.next_instant {
        if s.condition_instant {
            coop_barrier(s)
        } else {
            (SchedulerView { nb_wait_cooperate: (s.nb_wait_cooperate + 1) as i32, ..s },
             block(Condition::Instant, CooperatePc::LeaveInstantWait))
        }
    } else {
        coop_barrier(s)
    }
}

/// One step of a cooperation (the wait for the next instant), resumed at
/// `pc`.
pub open spec fn cooperate_spec(s: SchedulerView, pc: CooperatePc) -> (SchedulerView, Step<CooperatePc>) {
    match pc {
        CooperatePc::Start => coop_start(s),
        CooperatePc::LeaveInstantWait => coop_leave_instant_wait(s),
        CooperatePc::Barrier => coop_barrier(s),
        CooperatePc::WakeScheduler => coop_wake(s),
        CooperatePc::Join => coop_join(s),
        CooperatePc::Register => coop_register(s),
        CooperatePc::Resume => coop_resume(s),
        CooperatePc::WakeLast => coop_wake_last(s),
    }
}

/// No step of a cooperation resumed at `pc` overflows.
pub open spec fn cooperate_fits(s: SchedulerView, pc: CooperatePc) -> bool {
    match pc {
        CooperatePc::Start => {
            &&& (s.nb_instant == s.next_instant ==> s.nb_wait_cooperate < i32::MAX)
            &&& (s.nb_instant != s.next_instant || s.condition_instant ==> coop_barrier_fits(s))
        },
        CooperatePc::LeaveInstantWait => {
            &&& s.nb_wait_cooperate > i32::MIN
            &&& coop_barrier_fits(SchedulerView { nb_wait_cooperate: (s.nb_wait_cooperate - 1) as i32, ..s })
        },
        CooperatePc::Barrier => coop_barrier_fits(s),
        CooperatePc::Join => !s.condition_wake_up ==> s.nb_cooperate < i32::MAX,
        CooperatePc::Register => s.nb_cooperate < i32::MAX,
        CooperatePc::Resume => s.nb_cooperate > i32::MIN,
        _ => true,
    }
}

pub open spec fn coop_barrier_fits(s: SchedulerView) -> bool {
    !s.return_code && !s.condition_wake_up ==> s.nb_cooperate < i32::MAX
}

// ------------------------------------------------------- end of a thread

pub open spec fn finish_count(s: SchedulerView) -> (SchedulerView, Step<FinishPc>) {
    (wake(SchedulerView { nb_finish: (s.nb_finish + 1) as i32, ..s }), Step::Done)
}

/// One step of the end of a thread, resumed at `pc`: the thread counts
/// itself among the finished threads and wakes the scheduler up.
pub open spec fn finish_spec(s: SchedulerView, pc: FinishPc) -> (SchedulerView, Step<FinishPc>) {
    match pc {
        FinishPc::Start => if s.condition_wake_up {
            (s, block(Condition::Finish, FinishPc::Count))
        } else {
            finish_count(s)
        },
        FinishPc::Count => finish_count(s),
    }
}


impl Scheduler {
    fn emit_raise(&mut self, signal: usize) -> (step: Step<EmitPc>)
        requires
            old(self)@.wf(),
            signal < old(self)@.signaux.len(),
        ensures
            (final(self)@, step) == emit_raise(old(self)@, signal),
            final(self)@.wf(),
    {
        self.scheduler_emit(signal);
        Step::Done
    }

    fn emit_record(&mut self, signal: usize) -> (step: Step<EmitPc>)
        requires
            old(self)@.wf(),
            signal < old(self)@.signaux.len(),
        ensures
            (final(self)@, step) == emit_record(old(self)@, signal),
            final(self)@.wf(),
    {
        if !self.signal_present(signal) {
            self.add_emit_signal(signal);
            if self.get_condvar_wake_up() {
                return Step::Block(Wait::Condition(Condition::Emit), EmitPc::Raise);
            }
        }
        self.emit_raise(signal)
    }

    fn emit_wake(&mut self) -> (step: Step<EmitPc>)
        requires
            old(self)@.wf(),
        ensures
            (final(self)@, step) == emit_wake(old(self)@),
            final(self)@.wf(),
    {
        self.notify_all_wake_up();
        Step::Block(Wait::Condition(Condition::CodeSignal), EmitPc::Record)
    }

    /// One step of a thread's emission of `signal`, resumed at `pc` (first
    /// at `EmitPc::Start`). If the instant has just ended, the thread first
    /// waits until the end-of-instant code is settled, waking the scheduler
    /// up when no thread waits on a signal. Then, if the signal is absent,
    /// it is recorded as emitted in this instant (the thread first lets an
    /// awake scheduler take account of it); finally the signal is made
    /// present.
    pub fn thread_emit(&mut self, signal: usize, pc: EmitPc) -> (step: Step<EmitPc>)
        requires
            old(self)@.wf(),
            signal < old(self)@.signaux.len(),
        ensures
            (final(self)@, step) == emit_spec(old(self)@, signal, pc),
            final(self)@.wf(),
    {
        match pc {
            EmitPc::Start => {
                if self.return_code() {
                    if self.nb_wait == 0 {
                        if self.get_condvar_wake_up() {
                            return Step::Block(Wait::Condition(Condition::Emit), EmitPc::WakeScheduler);
                        }
                        return self.emit_wake();
                    }
                    return Step::Block(Wait::Condition(Condition::CodeSignal), EmitPc::Record);
                }
                self.emit_record(signal)
            },
            EmitPc::WakeScheduler => self.emit_wake(),
            EmitPc::Record => self.emit_record(signal),
            EmitPc::Raise => self.emit_raise(signal),
        }
    }

    fn await_finish(&mut self, check: bool) -> (step: Step<AwaitPc>)
        requires
            check ==> old(self).nb_wait > i32::MIN,
        ensures
            (final(self)@, step) == await_finish(old(self)@, check),
    {
        if check {
            self.decrement_nbwait();
        }
        Step::Done
    }

    fn await_wake_all(&mut self, signal: usize, check: bool) -> (step: Step<AwaitPc>)
        ensures
            (final(self)@, step) == await_wake_all(old(self)@, signal, check),
    {
        self.notify_all_wake_up();
        Step::Block(Wait::Signal(signal), AwaitPc::Finish { check })
    }

    fn await_check(&mut self, signal: usize, nb_thread: isize) -> (step: Step<AwaitPc>)
        requires
            old(self)@.wf(),
            signal < old(self)@.signaux.len(),
            await_check_fits(old(self)@, signal),
        ensures
            (final(self)@, step) == await_check(old(self)@, signal, nb_thread),
            final(self)@.wf(),
    {
        let mut check = false;
        if !self.signal_present(signal) {
            check = true;
            self.add_nbwait();
            self.add_wait_signal(signal);
        }
        if nb_thread == self.stopped_count() {
            if self.get_condvar_wake_up() {
                return Step::Block(Wait::Condition(Condition::Emit), AwaitPc::WakeAll { check });
            }
            return self.await_wake_all(signal, check);
        }
        Step::Block(Wait::Signal(signal), AwaitPc::Finish { check })
    }

    fn await_wake(&mut self) -> (step: Step<AwaitPc>)
        requires
            old(self)@.wf(),
        ensures
            (final(self)@, step) == await_wake(old(self)@),
            final(self)@.wf(),
    {
        self.notify_all_wake_up();
        Step::Block(Wait::Condition(Condition::CodeSignal), AwaitPc::Check)
    }

    /// One step of a thread's wait on `signal`, resumed at `pc` (first at
    /// `AwaitPc::Start`), in a scheduler that runs `nb_thread` threads. As
    /// for an emission, the thread first passes the code barrier. If the
    /// signal is absent, the thread counts itself among the threads waiting
    /// on a signal and records the signal as awaited. If every thread has
    /// then stopped, it wakes the scheduler up (first letting an awake one
    /// take account of the previous event). It then waits for the signal,
    /// and once the signal is present it stops counting itself.
    pub fn thread_await_signal(&mut self, signal: usize, nb_thread: isize, pc: AwaitPc) -> (step: Step<AwaitPc>)
        requires
            old(self)@.wf(),
            signal < old(self)@.signaux.len(),
            await_fits(old(self)@, signal, pc),
        ensures
            (final(self)@, step) == await_spec(old(self)@, signal, nb_thread, pc),
            final(self)@.wf(),
    {
        match pc {
            AwaitPc::Start => {
                if self.return_code() {
                    if self.nb_wait == 0 {
                        if self.get_condvar_wake_up() {
                            return Step::Block(Wait::Condition(Condition::Emit), AwaitPc::WakeScheduler);
                        }
                        return self.await_wake();
                    }
                    return Step::Block(Wait::Condition(Condition::CodeSignal), AwaitPc::Check);
                }
                self.await_check(signal, nb_thread)
            },
            AwaitPc::WakeScheduler => self.await_wake(),
            AwaitPc::Check => self.await_check(signal, nb_thread),
            AwaitPc::WakeAll { check } => self.await_wake_all(signal, check),
            AwaitPc::Finish { check } => self.await_finish(check),
        }
    }

    /// Once its wait on a signal is over, whether the thread saw the signal
    /// present in the instant (`true`), or was woken up by the end of the
    /// instant (`false`): this chooses which of its two continuations runs.
    pub fn thread_await(&self) -> (present: bool)
        ensures
            present == !self.return_code,
    {
        !self.return_code()
    }

    fn coop_wake_last(&mut self) -> (step: Step<CooperatePc>)
        ensures
            (final(self)@, step) == coop_wake_last(old(self)@),
    {
        self.notify_all_wake_up();
        Step::Done
    }

    fn coop_resume(&mut self) -> (step: Step<CooperatePc>)
        requires
            old(self).nb_cooperate > i32::MIN,
        ensures
            (final(self)@, step) == coop_resume(old(self)@),
    {
        if self.decrement_cooperate() {
            Step::Block(Wait::Condition(Condition::CooperateWake), CooperatePc::WakeLast)
        } else {
            Step::Done
        }
    }

    fn coop_register(&mut self) -> (step: Step<CooperatePc>)
        requires
            old(self).nb_cooperate < i32::MAX,
        ensures
            (final(self)@, step) == coop_register(old(self)@),
    {
        self.add_nbcooperate();
        self.notify_all_wake_up();
        Step::Block(Wait::Condition(Condition::Cooperate), CooperatePc::Resume)
    }

    fn coop_join(&mut self) -> (step: Step<CooperatePc>)
        requires
            !old(self).condition_wake_up ==> old(self).nb_cooperate < i32::MAX,
        ensures
            (final(self)@, step) == coop_join(old(self)@),
    {
        if self.get_condvar_wake_up() {
            return Step::Block(Wait::Condition(Condition::CooperateWake), CooperatePc::Register);
        }
        self.coop_register()
    }

    fn coop_wake(&mut self) -> (step: Step<CooperatePc>)
        ensures
            (final(self)@, step) == coop_wake(old(self)@),
    {
        self.notify_all_wake_up();
        Step::Block(Wait::Condition(Condition::CodeSignal), CooperatePc::Join)
    }

    fn coop_barrier(&mut self) -> (step: Step<CooperatePc>)
        requires
            coop_barrier_fits(old(self)@),
        ensures
            (final(self)@, step) == coop_barrier(old(self)@),
    {
        if self.return_code() {
            if self.nb_wait == 0 {
                if self.get_condvar_wake_up() {
                    return Step::Block(Wait::Condition(Condition::CooperateWake), CooperatePc::WakeScheduler);
                }
                return self.coop_wake();
            }
            return Step::Block(Wait::Condition(Condition::CodeSignal), CooperatePc::Join);
        }
        self.coop_join()
    }

    /// One step of a thread's cooperation, resumed at `pc` (first at
    /// `CooperatePc::Start`): the thread gives up the rest of the instant.
    /// If the instant count has caught up with the next instant, it first
    /// waits to enter the new instant. It passes the code barrier, lets an
    /// awake scheduler take account of the previous event, counts itself
    /// among the cooperating threads, wakes the scheduler up and waits for
    /// the next instant. Then it stops counting itself; the last one to do
    /// so wakes the scheduler up.
    pub fn thread_cooperate(&mut self, pc: CooperatePc) -> (step: Step<CooperatePc>)
        requires
            cooperate_fits(old(self)@, pc),
        ensures
            (final(self)@, step) == cooperate_spec(old(self)@, pc),
    {
        match pc {
            CooperatePc::Start => {
                if self.nb_instant == self.next_instant {
                    if !self.wait_instant() {
                        return Step::Block(Wait::Condition(Condition::Instant), CooperatePc::LeaveInstantWait);
                    }
                }
                self.coop_barrier()
            },
            CooperatePc::LeaveInstantWait => {
                self.decrement_wait_cooperate();
                self.coop_barrier()
            },
            CooperatePc::Barrier => self.coop_barrier(),
            CooperatePc::WakeScheduler => self.coop_wake(),
            CooperatePc::Join => self.coop_join(),
            CooperatePc::Register => self.coop_register(),
            CooperatePc::Resume => self.coop_resume(),
            CooperatePc::WakeLast => self.coop_wake_last(),
        }
    }

    /// One step of the end of a thread, resumed at `pc` (first at
    /// `FinishPc::Start`): it lets an awake scheduler take account of the
    /// previous event, counts itself among the finished threads and wakes
    /// the scheduler up.
    pub fn thread_finish(&mut self, pc: FinishPc) -> (step: Step<FinishPc>)
        requires
            old(self).nb_finish < i32::MAX,
        ensures
            (final(self)@, step) == finish_spec(old(self)@, pc),
    {
        if pc == FinishPc::Start && self.get_condvar_wake_up() {
            return Step::Block(Wait::Condition(Condition::Finish), FinishPc::Count);
        }
        self.add_nbfinish();
        self.notify_all_wake_up();
        Step::Done
    }
}

} // verus!

verus! {

/// An emission that is over leaves its signal present.
pub proof fn lemma_emit_done_signal_present(s: SchedulerView, signal: usize, pc: EmitPc)
    requires
        signal < s.signaux.len(),
    ensures
        emit_spec(s, signal, pc).1 is Done ==> emit_spec(s, signal, pc).0.signaux[signal as int].condition_variable,
{
}

/// An emission never makes a signal absent, and never touches any other
/// signal.
pub proof fn lemma_emit_touches_only_its_signal(s: SchedulerView, signal: usize, pc: EmitPc)
    requires
        signal < s.signaux.len(),
    ensures
        ({
            let t = emit_spec(s, signal, pc).0;
            &&& t.signaux.len() == s.signaux.len()
            &&& forall|k: int| 0 <= k < s.signaux.len() && k != signal ==> #[trigger] t.signaux[k] == s.signaux[k]
            &&& s.signaux[signal as int].condition_variable ==> t.signaux[signal as int].condition_variable
        }),
{
}

/// The wait on a signal is over only when it resumes after its last wait,
/// and that last wait is always a wait on the signal itself.
pub proof fn lemma_await_ends_after_the_signal(s: SchedulerView, signal: usize, nb_thread: isize, pc: AwaitPc)
    ensures
        (await_spec(s, signal, nb_thread, pc).1 is Done) <==> (pc is Finish),
        forall|w: Wait, check: bool|
            #[trigger] await_spec(s, signal, nb_thread, pc).1 == Step::Block(w, AwaitPc::Finish { check })
                ==> w == Wait::Signal(signal),
{
}

/// A thread that finds its signal absent counts itself among the threads
/// waiting on a signal, and stops counting itself when its wait is over;
/// one that finds the signal present does neither.
pub proof fn lemma_await_counts_itself(s: SchedulerView, signal: usize, nb_thread: isize, t: SchedulerView)
    requires
        signal < s.signaux.len(),
        s.nb_wait < i32::MAX,
        t.nb_wait > i32::MIN,
    ensures
        ({
            let (u, step) = await_spec(s, signal, nb_thread, AwaitPc::Check);
            let check = !s.signaux[signal as int].condition_variable;
            &&& u.nb_wait == s.nb_wait + if check { 1int } else { 0int }
            &&& (check ==> u.list_wait_signaux == s.list_wait_signaux.push(signal))
            &&& step matches Step::Block(_, next) && next == (if nb_thread == await_counted(s, signal).stopped() && s.condition_wake_up {
                AwaitPc::WakeAll { check }
            } else {
                AwaitPc::Finish { check }
            })
            &&& await_spec(t, signal, nb_thread, AwaitPc::Finish { check }).0.nb_wait == t.nb_wait - if check { 1int } else { 0int }
        }),
{
}

/// A cooperating thread is counted among the cooperating threads from the
/// moment it registers until it resumes in the next instant, and it waits
/// for the next instant in between.
pub proof fn lemma_cooperate_counts_itself(s: SchedulerView, t: SchedulerView)
    requires
        s.nb_cooperate < i32::MAX,
        t.nb_cooperate > i32::MIN,
    ensures
        cooperate_spec(s, CooperatePc::Register).0.nb_cooperate == s.nb_cooperate + 1,
        cooperate_spec(s, CooperatePc::Register).0.condition_wake_up,
        cooperate_spec(s, CooperatePc::Register).1 == Step::Block(Wait::Condition(Condition::Cooperate), CooperatePc::Resume),
        cooperate_spec(t, CooperatePc::Resume).0.nb_cooperate == t.nb_cooperate - 1,
{
}

/// The last cooperating thread to resume leaves the scheduler awake: it
/// wakes it up at once, or after the scheduler has taken account of the
/// previous event.
pub proof fn lemma_last_cooperating_thread_wakes_scheduler(t: SchedulerView)
    requires
        t.nb_cooperate == 1,
    ensures
        ({
            let (u, step) = cooperate_spec(t, CooperatePc::Resume);
            &&& u.nb_cooperate == 0
            &&& (step is Done ==> u.condition_wake_up)
            &&& (step is Block ==> step == Step::Block(Wait::Condition(Condition::CooperateWake), CooperatePc::WakeLast)
                && cooperate_spec(u, CooperatePc::WakeLast).0.condition_wake_up)
        }),
{
}

/// A thread that ends counts itself once among the finished threads and
/// leaves the scheduler awake.
pub proof fn lemma_finish_counts_once(s: SchedulerView)
    requires
        s.nb_finish < i32::MAX,
    ensures
        ({
            let (u, step) = finish_spec(s, FinishPc::Start);
            if step is Done {
                u.nb_finish == s.nb_finish + 1 && u.condition_wake_up
            } else {
                u == s && step == Step::Block(Wait::Condition(Condition::Finish), FinishPc::Count)
                    && finish_spec(s, FinishPc::Count).0.nb_finish == s.nb_finish + 1
            }
        }),
{
}

} // verus!

verus! {

/// A thread held at the end-of-instant code barrier while no thread waits
/// on a signal leaves the scheduler awake, so that the scheduler settles the
/// code and the barrier opens: whenever a step of an emission blocks on
/// `CodeSignal` from a state with no waiting thread, the scheduler is awake
/// afterwards.
pub proof fn lemma_emit_code_barrier_wakes_scheduler(s: SchedulerView, signal: usize, pc: EmitPc)
    ensures
        (s.nb_wait == 0 && (emit_spec(s, signal, pc).1 matches Step::Block(Wait::Condition(Condition::CodeSignal), _)))
            ==> emit_spec(s, signal, pc).0.condition_wake_up,
        s.return_code && s.nb_wait == 0 && !s.condition_wake_up ==> emit_spec(s, signal, EmitPc::Start).0.condition_wake_up,
{
}

/// The same for the wait on a signal: it never blocks on `CodeSignal`
/// with no waiting thread while the scheduler sleeps.
pub proof fn lemma_await_code_barrier_wakes_scheduler(s: SchedulerView, signal: usize, nb_thread: isize, pc: AwaitPc)
    ensures
        (s.nb_wait == 0 && (await_spec(s, signal, nb_thread, pc).1 matches Step::Block(Wait::Condition(Condition::CodeSignal), _)))
            ==> await_spec(s, signal, nb_thread, pc).0.condition_wake_up,
        s.return_code && s.nb_wait == 0 && !s.condition_wake_up
            ==> await_spec(s, signal, nb_thread, AwaitPc::Start).0.condition_wake_up,
{
}

/// The same for a cooperation.
pub proof fn lemma_cooperate_code_barrier_wakes_scheduler(s: SchedulerView, pc: CooperatePc)
    ensures
        (s.nb_wait == 0 && (cooperate_spec(s, pc).1 matches Step::Block(Wait::Condition(Condition::CodeSignal), _)))
            ==> cooperate_spec(s, pc).0.condition_wake_up,
        s.return_code && s.nb_wait == 0 && !s.condition_wake_up && s.nb_instant != s.next_instant
            ==> cooperate_spec(s, CooperatePc::Start).0.condition_wake_up,
{
}

/// An emission of an absent signal outside the code barrier records the
/// signal as emitted in the instant before anything else, so that the end
/// of the instant makes it absent again (see `lemma_round_ends_instant`);
/// an emission of a present signal records nothing.
pub proof fn lemma_emit_records_absent_signal(s: SchedulerView, signal: usize)
    requires
        signal < s.signaux.len(),
    ensures
        !s.return_code && !s.signaux[signal as int].condition_variable
            ==> emit_spec(s, signal, EmitPc::Start).0.list_emit_signaux == s.list_emit_signaux.push(signal),
        !s.signaux[signal as int].condition_variable
            ==> emit_spec(s, signal, EmitPc::Record).0.list_emit_signaux == s.list_emit_signaux.push(signal),
        s.signaux[signal as int].condition_variable
            ==> emit_spec(s, signal, EmitPc::Record).0.list_emit_signaux == s.list_emit_signaux,
        !s.return_code && !s.signaux[signal as int].condition_variable
            ==> crate::scheduler::listed(emit_spec(s, signal, EmitPc::Start).0.list_emit_signaux, signal as int),
{
    if !s.signaux[signal as int].condition_variable {
        let l = s.list_emit_signaux.push(signal);
        assert(l[l.len() - 1] as int == signal as int);
    }
}

} // verus!
