use vstd::prelude::*;
use crate::scheduler::{round_prepare, round_spec, SchedulerView};
use crate::thread_trait::{
    await_spec, cooperate_spec, emit_spec, finish_spec, AwaitPc, CooperatePc, EmitPc, FinishPc, Step,
};

verus! {

/// Where a started reactive thread stands.
pub enum ThreadState {
    /// running its own code, between reactive operations
    Running,
    /// emitting a signal, to resume at the given point
    Emitting(usize, EmitPc),
    /// waiting on a signal, to resume at the given point
    Awaiting(usize, AwaitPc),
    /// cooperating, to resume at the given point
    Cooperating(CooperatePc),
    /// ending, to resume at the given point
    Finishing(FinishPc),
    /// over
    Finished,
}

/// The thread counts itself among the threads waiting on a signal.
pub open spec fn counts_as_waiting(t: ThreadState) -> bool {
    t matches ThreadState::Awaiting(_, AwaitPc::WakeAll { check: true })
        || t matches ThreadState::Awaiting(_, AwaitPc::Finish { check: true })
}

/// The thread counts itself among the cooperating threads.
pub open spec fn counts_as_cooperating(t: ThreadState) -> bool {
    t matches ThreadState::Cooperating(CooperatePc::Resume)
}

/// The thread counts itself among the threads waiting to enter the new
/// instant.
pub open spec fn counts_as_entering(t: ThreadState) -> bool {
    t matches ThreadState::Cooperating(CooperatePc::LeaveInstantWait)
}

pub open spec fn counts_as_finished(t: ThreadState) -> bool {
    t is Finished
}

/// How many threads of `ts` satisfy `f`.
pub open spec fn count(ts: Seq<ThreadState>, f: spec_fn(ThreadState) -> bool) -> int
    decreases ts.len(),
{
    if ts.len() == 0 {
        0
    } else {
        count(ts.drop_last(), f) + if f(ts.last()) { 1int } else { 0int }
    }
}

/// The scheduler's counts of threads are exact: it runs the threads of
/// `ts`, and counts exactly those that wait on a signal, cooperate, wait to
/// enter the new instant, or have finished.
pub open spec fn counts_match(s: SchedulerView, ts: Seq<ThreadState>) -> bool {
    &&& s.nb_thread == ts.len()
    &&& s.nb_wait == count(ts, |t: ThreadState| counts_as_waiting(t))
    &&& s.nb_cooperate == count(ts, |t: ThreadState| counts_as_cooperating(t))
    &&& s.nb_wait_cooperate == count(ts, |t: ThreadState| counts_as_entering(t))
    &&& s.nb_finish == count(ts, |t: ThreadState| counts_as_finished(t))
}

pub open spec fn after_emit(signal: usize, step: Step<EmitPc>) -> ThreadState {
    match step {
        Step::Block(_, pc) => ThreadState::Emitting(signal, pc),
        Step::Done => ThreadState::Running,
    }
}

pub open spec fn after_await(signal: usize, step: Step<AwaitPc>) -> ThreadState {
    match step {
        Step::Block(_, pc) => ThreadState::Awaiting(signal, pc),
        Step::Done => ThreadState::Running,
    }
}

pub open spec fn after_cooperate(step: Step<CooperatePc>) -> ThreadState {
    match step {
        Step::Block(_, pc) => ThreadState::Cooperating(pc),
        Step::Done => ThreadState::Running,
    }
}

pub open spec fn after_finish(step: Step<FinishPc>) -> ThreadState {
    match step {
        Step::Block(_, pc) => ThreadState::Finishing(pc),
        Step::Done => ThreadState::Finished,
    }
}

proof fn lemma_count_update(ts: Seq<ThreadState>, i: int, x: ThreadState, f: spec_fn(ThreadState) -> bool)
    requires
        0 <= i < ts.len(),
    ensures
        count(ts.update(i, x), f) == count(ts, f) - (if f(ts[i]) { 1int } else { 0int }) + (if f(x) { 1int } else { 0int }),
    decreases ts.len(),
{
    let u = ts.update(i, x);
    if i == ts.len() - 1 {
        assert(u.drop_last() =~= ts.drop_last());
    } else {
        assert(u.drop_last() =~= ts.drop_last().update(i, x));
        lemma_count_update(ts.drop_last(), i, x, f);
    }
}

proof fn lemma_count_push(ts: Seq<ThreadState>, x: ThreadState, f: spec_fn(ThreadState) -> bool)
    ensures
        count(ts.push(x), f) == count(ts, f) + (if f(x) { 1int } else { 0int }),
{
    assert(ts.push(x).drop_last() =~= ts);
}

proof fn lemma_counts_update(s: SchedulerView, ts: Seq<ThreadState>, i: int, x: ThreadState)
    requires
        0 <= i < ts.len(),
    ensures
        count(ts.update(i, x), |t: ThreadState| counts_as_waiting(t)) == count(ts, |t: ThreadState| counts_as_waiting(t))
            - (if counts_as_waiting(ts[i]) { 1int } else { 0int }) + (if counts_as_waiting(x) { 1int } else { 0int }),
        count(ts.update(i, x), |t: ThreadState| counts_as_cooperating(t)) == count(ts, |t: ThreadState| counts_as_cooperating(t))
            - (if counts_as_cooperating(ts[i]) { 1int } else { 0int }) + (if counts_as_cooperating(x) { 1int } else { 0int }),
        count(ts.update(i, x), |t: ThreadState| counts_as_entering(t)) == count(ts, |t: ThreadState| counts_as_entering(t))
            - (if counts_as_entering(ts[i]) { 1int } else { 0int }) + (if counts_as_entering(x) { 1int } else { 0int }),
        count(ts.update(i, x), |t: ThreadState| counts_as_finished(t)) == count(ts, |t: ThreadState| counts_as_finished(t))
            - (if counts_as_finished(ts[i]) { 1int } else { 0int }) + (if counts_as_finished(x) { 1int } else { 0int }),
{
    lemma_count_update(ts, i, x, |t: ThreadState| counts_as_waiting(t));
    lemma_count_update(ts, i, x, |t: ThreadState| counts_as_cooperating(t));
    lemma_count_update(ts, i, x, |t: ThreadState| counts_as_entering(t));
    lemma_count_update(ts, i, x, |t: ThreadState| counts_as_finished(t));
}

/// A thread that starts (`increment_nbthread`) is counted as running.
pub proof fn lemma_start_keeps_counts(s: SchedulerView, ts: Seq<ThreadState>)
    requires
        counts_match(s, ts),
        s.nb_thread < isize::MAX,
    ensures
        counts_match(SchedulerView { nb_thread: (s.nb_thread + 1) as isize, ..s }, ts.push(ThreadState::Running)),
{
    lemma_count_push(ts, ThreadState::Running, |t: ThreadState| counts_as_waiting(t));
    lemma_count_push(ts, ThreadState::Running, |t: ThreadState| counts_as_cooperating(t));
    lemma_count_push(ts, ThreadState::Running, |t: ThreadState| counts_as_entering(t));
    lemma_count_push(ts, ThreadState::Running, |t: ThreadState| counts_as_finished(t));
}

/// A running thread that starts a reactive operation keeps the counts.
pub proof fn lemma_begin_operation_keeps_counts(s: SchedulerView, ts: Seq<ThreadState>, i: int, op: ThreadState)
    requires
        counts_match(s, ts),
        0 <= i < ts.len(),
        ts[i] is Running,
        op == ThreadState::Emitting(op->Emitting_0, EmitPc::Start)
            || op == ThreadState::Awaiting(op->Awaiting_0, AwaitPc::Start)
            || op == ThreadState::Cooperating(CooperatePc::Start)
            || op == ThreadState::Finishing(FinishPc::Start),
    ensures
        counts_match(s, ts.update(i, op)),
{
    lemma_counts_update(s, ts, i, op);
}

/// A step of an emission keeps the counts exact.
pub proof fn lemma_emit_keeps_counts(s: SchedulerView, ts: Seq<ThreadState>, i: int, signal: usize, pc: EmitPc)
    requires
        counts_match(s, ts),
        0 <= i < ts.len(),
        ts[i] == ThreadState::Emitting(signal, pc),
    ensures
        ({
            let (t, step) = emit_spec(s, signal, pc);
            counts_match(t, ts.update(i, after_emit(signal, step)))
        }),
{
    let (t, step) = emit_spec(s, signal, pc);
    lemma_counts_update(s, ts, i, after_emit(signal, step));
}

/// A step of the wait on a signal keeps the counts exact.
pub proof fn lemma_await_keeps_counts(s: SchedulerView, ts: Seq<ThreadState>, i: int, signal: usize, pc: AwaitPc)
    requires
        counts_match(s, ts),
        0 <= i < ts.len(),
        ts[i] == ThreadState::Awaiting(signal, pc),
        pc == AwaitPc::Start || pc == AwaitPc::WakeScheduler || pc == AwaitPc::Check ==> s.nb_wait < i32::MAX,
    ensures
        ({
            let (t, step) = await_spec(s, signal, s.nb_thread, pc);
            counts_match(t, ts.update(i, after_await(signal, step)))
        }),
{
    let (t, step) = await_spec(s, signal, s.nb_thread, pc);
    lemma_counts_update(s, ts, i, after_await(signal, step));
    if pc == (AwaitPc::Finish { check: true }) {
        {
            lemma_count_pos(ts, i, |t: ThreadState| counts_as_waiting(t));
        }
    }
}

proof fn lemma_count_nonneg(ts: Seq<ThreadState>, f: spec_fn(ThreadState) -> bool)
    ensures
        count(ts, f) >= 0,
    decreases ts.len(),
{
    if ts.len() > 0 {
        lemma_count_nonneg(ts.drop_last(), f);
    }
}

proof fn lemma_count_pos(ts: Seq<ThreadState>, i: int, f: spec_fn(ThreadState) -> bool)
    requires
        0 <= i < ts.len(),
        f(ts[i]),
        !f(ThreadState::Running),
    ensures
        count(ts, f) >= 1,
{
    lemma_count_update(ts, i, ThreadState::Running, f);
    lemma_count_nonneg(ts.update(i, ThreadState::Running), f);
}

/// A step of a cooperation keeps the counts exact.
#[verifier::spinoff_prover]
pub proof fn lemma_cooperate_keeps_counts(s: SchedulerView, ts: Seq<ThreadState>, i: int, pc: CooperatePc)
    requires
        counts_match(s, ts),
        0 <= i < ts.len(),
        ts[i] == ThreadState::Cooperating(pc),
        s.nb_cooperate < i32::MAX,
        s.nb_wait_cooperate < i32::MAX,
    ensures
        ({
            let (t, step) = cooperate_spec(s, pc);
            counts_match(t, ts.update(i, after_cooperate(step)))
        }),
{
    let (t, step) = cooperate_spec(s, pc);
    lemma_counts_update(s, ts, i, after_cooperate(step));
    if pc == CooperatePc::Resume {
        lemma_count_pos(ts, i, |t: ThreadState| counts_as_cooperating(t));
    } else if pc == CooperatePc::LeaveInstantWait {
        lemma_count_pos(ts, i, |t: ThreadState| counts_as_entering(t));
    }
}

/// A step of the end of a thread keeps the counts exact.
pub proof fn lemma_finish_keeps_counts(s: SchedulerView, ts: Seq<ThreadState>, i: int, pc: FinishPc)
    requires
        counts_match(s, ts),
        0 <= i < ts.len(),
        ts[i] == ThreadState::Finishing(pc),
        s.nb_finish < i32::MAX,
    ensures
        ({
            let (t, step) = finish_spec(s, pc);
            counts_match(t, ts.update(i, after_finish(step)))
        }),
{
    let (t, step) = finish_spec(s, pc);
    lemma_counts_update(s, ts, i, after_finish(step));
}

/// The scheduler's own steps never change the counts of threads.
pub proof fn lemma_scheduler_keeps_counts(s: SchedulerView, ts: Seq<ThreadState>)
    requires
        counts_match(s, ts),
    ensures
        counts_match(round_prepare(s), ts),
        counts_match(round_spec(s).0, ts),
        counts_match(round_prepare(round_spec(s).0), ts),
{
}

} // verus!

verus! {

/// The signal on which a thread waits, if it waits on one.
pub open spec fn waits_on(t: ThreadState, k: int) -> bool {
    counts_as_waiting(t) && (t matches ThreadState::Awaiting(s, _) && s as int == k)
}

/// How many times position `k` is named in `list`.
pub open spec fn list_count(list: Seq<usize>, k: int) -> int
    decreases list.len(),
{
    if list.len() == 0 {
        0
    } else {
        list_count(list.drop_last(), k) + if list.last() as int == k { 1int } else { 0int }
    }
}

/// While the end-of-instant code is unset, every absent awaited signal is
/// awaited by a thread that still counts itself as waiting, once for each
/// time the signal is named in the list of awaited signals.
pub open spec fn awaited_absent_have_waiters(s: SchedulerView, ts: Seq<ThreadState>) -> bool {
    !s.return_code ==> forall|k: int|
        0 <= k < s.signaux.len() && !s.signaux[k].condition_variable
            ==> #[trigger] list_count(s.list_wait_signaux, k) <= count(ts, |t: ThreadState| waits_on(t, k))
}

/// The state of a system of reactive threads under one scheduler that the
/// laws below speak of: the counts are exact and every absent awaited
/// signal has its waiters.
pub open spec fn system_inv(s: SchedulerView, ts: Seq<ThreadState>) -> bool {
    &&& s.wf()
    &&& counts_match(s, ts)
    &&& awaited_absent_have_waiters(s, ts)
}

proof fn lemma_count_mono(ts: Seq<ThreadState>, f: spec_fn(ThreadState) -> bool, g: spec_fn(ThreadState) -> bool)
    requires
        forall|t: ThreadState| #[trigger] f(t) ==> g(t),
    ensures
        count(ts, f) <= count(ts, g),
    decreases ts.len(),
{
    if ts.len() > 0 {
        lemma_count_mono(ts.drop_last(), f, g);
    }
}

proof fn lemma_count_all(ts: Seq<ThreadState>, f: spec_fn(ThreadState) -> bool)
    requires
        count(ts, f) == ts.len(),
    ensures
        forall|i: int| 0 <= i < ts.len() ==> f(#[trigger] ts[i]),
    decreases ts.len(),
{
    if ts.len() > 0 {
        lemma_count_le_len(ts.drop_last(), f);
        lemma_count_all(ts.drop_last(), f);
        assert forall|i: int| 0 <= i < ts.len() implies f(#[trigger] ts[i]) by {
            if i < ts.len() - 1 {
                assert(ts[i] == ts.drop_last()[i]);
            }
        }
    }
}

proof fn lemma_count_le_len(ts: Seq<ThreadState>, f: spec_fn(ThreadState) -> bool)
    ensures
        count(ts, f) <= ts.len(),
    decreases ts.len(),
{
    if ts.len() > 0 {
        lemma_count_le_len(ts.drop_last(), f);
    }
}

proof fn lemma_list_count_pos(list: Seq<usize>, i: int)
    requires
        0 <= i < list.len(),
    ensures
        list_count(list, list[i] as int) >= 1,
    decreases list.len(),
{
    if i < list.len() - 1 {
        assert(list.drop_last()[i] == list[i]);
        lemma_list_count_pos(list.drop_last(), i);
        lemma_list_count_nonneg(list.drop_last(), list[i] as int);
    } else {
        lemma_list_count_nonneg(list.drop_last(), list[i] as int);
    }
}

proof fn lemma_list_count_nonneg(list: Seq<usize>, k: int)
    ensures
        list_count(list, k) >= 0,
    decreases list.len(),
{
    if list.len() > 0 {
        lemma_list_count_nonneg(list.drop_last(), k);
    }
}

proof fn lemma_list_count_push(list: Seq<usize>, x: usize, k: int)
    ensures
        list_count(list.push(x), k) == list_count(list, k) + if x as int == k { 1int } else { 0int },
{
    assert(list.push(x).drop_last() =~= list);
}

/// With no thread waiting on a signal and the end-of-instant code unset,
/// every awaited signal is present.
proof fn lemma_no_waiter_no_absent(s: SchedulerView, ts: Seq<ThreadState>)
    requires
        system_inv(s, ts),
        !s.return_code,
        s.nb_wait == 0,
    ensures
        s.waiting() == 0,
{
    assert forall|i: int| 0 <= i < s.list_wait_signaux.len() implies
        s.signaux[#[trigger] s.list_wait_signaux[i] as int].condition_variable == true by {
        let k = s.list_wait_signaux[i] as int;
        if !s.signaux[k].condition_variable {
            lemma_list_count_pos(s.list_wait_signaux, i);
            assert(list_count(s.list_wait_signaux, k) <= count(ts, |t: ThreadState| waits_on(t, k)));
            lemma_count_mono(ts, |t: ThreadState| waits_on(t, k), |t: ThreadState| counts_as_waiting(t));
        }
    }
    crate::scheduler::lemma_absent_count_all(s.signaux, s.list_wait_signaux, true);
}

/// The scheduler's loop ends only when every thread has finished.
pub proof fn lemma_loop_ends_when_all_finished(s: SchedulerView, ts: Seq<ThreadState>)
    requires
        system_inv(s, ts),
        round_spec(s).1,
    ensures
        forall|i: int| 0 <= i < ts.len() ==> #[trigger] ts[i] is Finished,
{
    crate::scheduler::lemma_round_finishes_iff(s);
    let c = crate::scheduler::round_counted(s);
    let s1 = crate::scheduler::after_wake_up(s);
    let s2 = crate::scheduler::add_next_instant_spec(s1).0;
    assert(c.nb_wait == s.nb_wait && c.nb_cooperate == s.nb_cooperate && c.nb_finish == s.nb_finish);
    assert(c.nb_thread == s.nb_thread);
    if s2.nb_wait == 0 && s2.return_code {
        assert(c.list_wait_signaux.len() == 0);
        assert(c.waiting() == 0);
    } else {
        assert(s2.signaux == s.signaux && s2.list_wait_signaux == s.list_wait_signaux);
        assert(system_inv(s, ts));
        lemma_no_waiter_no_absent(s, ts);
        assert(c.waiting() == s.waiting());
    }
    assert(ts.len() == count(ts, |t: ThreadState| counts_as_finished(t)));
    lemma_count_all(ts, |t: ThreadState| counts_as_finished(t));
}

} // verus!

verus! {

proof fn lemma_list_count_absent(list: Seq<usize>, k: int)
    requires
        forall|i: int| 0 <= i < list.len() ==> #[trigger] list[i] as int != k,
    ensures
        list_count(list, k) == 0,
    decreases list.len(),
{
    if list.len() > 0 {
        assert forall|i: int| 0 <= i < list.drop_last().len() implies #[trigger] list.drop_last()[i] as int != k by {
            assert(list.drop_last()[i] == list[i]);
        }
        lemma_list_count_absent(list.drop_last(), k);
        assert(list.last() == list[list.len() - 1]);
    }
}

/// A new scheduler with no thread satisfies the system's invariant.
pub proof fn lemma_new_system(s: SchedulerView)
    requires
        s.wf(),
        s.nb_thread == 0,
        s.nb_wait == 0,
        s.nb_cooperate == 0,
        s.nb_wait_cooperate == 0,
        s.nb_finish == 0,
        s.list_wait_signaux.len() == 0,
    ensures
        system_inv(s, Seq::empty()),
{
    assert forall|k: int| 0 <= k < s.signaux.len() && !s.signaux[k].condition_variable implies
        #[trigger] list_count(s.list_wait_signaux, k) <= count(Seq::<ThreadState>::empty(), |t: ThreadState| waits_on(t, k)) by {
        lemma_list_count_absent(s.list_wait_signaux, k);
    }
}

/// Registering a new signal keeps the system's invariant.
pub proof fn lemma_register_keeps_inv(s: SchedulerView, ts: Seq<ThreadState>, signal: crate::signal::Signal)
    requires
        system_inv(s, ts),
    ensures
        system_inv(SchedulerView { signaux: s.signaux.push(signal), ..s }, ts),
{
    let t = SchedulerView { signaux: s.signaux.push(signal), ..s };
    assert forall|k: int| !t.return_code && 0 <= k < t.signaux.len() && !t.signaux[k].condition_variable implies
        #[trigger] list_count(t.list_wait_signaux, k) <= count(ts, |u: ThreadState| waits_on(u, k)) by {
        if k == s.signaux.len() {
            lemma_list_count_absent(s.list_wait_signaux, k);
            lemma_count_nonneg(ts, |u: ThreadState| waits_on(u, k));
        } else {
            assert(t.signaux[k] == s.signaux[k]);
        }
    }
}

/// A thread that starts keeps the system's invariant.
pub proof fn lemma_start_keeps_inv(s: SchedulerView, ts: Seq<ThreadState>)
    requires
        system_inv(s, ts),
        s.nb_thread < isize::MAX,
    ensures
        system_inv(SchedulerView { nb_thread: (s.nb_thread + 1) as isize, ..s }, ts.push(ThreadState::Running)),
{
    lemma_start_keeps_counts(s, ts);
    let t = SchedulerView { nb_thread: (s.nb_thread + 1) as isize, ..s };
    assert forall|k: int| !t.return_code && 0 <= k < t.signaux.len() && !t.signaux[k].condition_variable implies
        #[trigger] list_count(t.list_wait_signaux, k) <= count(ts.push(ThreadState::Running), |u: ThreadState| waits_on(u, k)) by {
        lemma_count_push(ts, ThreadState::Running, |u: ThreadState| waits_on(u, k));
        assert(list_count(s.list_wait_signaux, k) <= count(ts, |u: ThreadState| waits_on(u, k)));
    }
}

/// A running thread that starts a reactive operation keeps the system's
/// invariant.
pub proof fn lemma_begin_operation_keeps_inv(s: SchedulerView, ts: Seq<ThreadState>, i: int, op: ThreadState)
    requires
        system_inv(s, ts),
        0 <= i < ts.len(),
        ts[i] is Running,
        op == ThreadState::Emitting(op->Emitting_0, EmitPc::Start)
            || op == ThreadState::Awaiting(op->Awaiting_0, AwaitPc::Start)
            || op == ThreadState::Cooperating(CooperatePc::Start)
            || op == ThreadState::Finishing(FinishPc::Start),
    ensures
        system_inv(s, ts.update(i, op)),
{
    lemma_begin_operation_keeps_counts(s, ts, i, op);
    assert forall|k: int| !s.return_code && 0 <= k < s.signaux.len() && !s.signaux[k].condition_variable implies
        #[trigger] list_count(s.list_wait_signaux, k) <= count(ts.update(i, op), |u: ThreadState| waits_on(u, k)) by {
        lemma_count_update(ts, i, op, |u: ThreadState| waits_on(u, k));
        assert(list_count(s.list_wait_signaux, k) <= count(ts, |u: ThreadState| waits_on(u, k)));
    }
}

/// A step of an emission keeps the system's invariant.
pub proof fn lemma_emit_keeps_inv(s: SchedulerView, ts: Seq<ThreadState>, i: int, signal: usize, pc: EmitPc)
    requires
        system_inv(s, ts),
        0 <= i < ts.len(),
        ts[i] == ThreadState::Emitting(signal, pc),
        signal < s.signaux.len(),
    ensures
        ({
            let (t, step) = emit_spec(s, signal, pc);
            system_inv(t, ts.update(i, after_emit(signal, step)))
        }),
{
    lemma_emit_keeps_counts(s, ts, i, signal, pc);
    crate::thread_trait::lemma_emit_touches_only_its_signal(s, signal, pc);
    let (t, step) = emit_spec(s, signal, pc);
    let x = after_emit(signal, step);
    assert(t.list_wait_signaux == s.list_wait_signaux && t.return_code == s.return_code);
    assert forall|k: int| !t.return_code && 0 <= k < t.signaux.len() && !t.signaux[k].condition_variable implies
        #[trigger] list_count(t.list_wait_signaux, k) <= count(ts.update(i, x), |u: ThreadState| waits_on(u, k)) by {
        lemma_count_update(ts, i, x, |u: ThreadState| waits_on(u, k));
        assert(!s.signaux[k].condition_variable);
        assert(list_count(s.list_wait_signaux, k) <= count(ts, |u: ThreadState| waits_on(u, k)));
    }
}

/// A step of the wait on a signal keeps the system's invariant, when the
/// thread resumes after its wait on the signal only once the signal is
/// present.
pub proof fn lemma_await_keeps_inv(s: SchedulerView, ts: Seq<ThreadState>, i: int, signal: usize, pc: AwaitPc)
    requires
        system_inv(s, ts),
        0 <= i < ts.len(),
        ts[i] == ThreadState::Awaiting(signal, pc),
        signal < s.signaux.len(),
        pc == AwaitPc::Start || pc == AwaitPc::WakeScheduler || pc == AwaitPc::Check ==> s.nb_wait < i32::MAX,
        pc is Finish ==> s.signaux[signal as int].condition_variable,
    ensures
        ({
            let (t, step) = await_spec(s, signal, s.nb_thread, pc);
            system_inv(t, ts.update(i, after_await(signal, step)))
        }),
{
    lemma_await_keeps_counts(s, ts, i, signal, pc);
    let (t, step) = await_spec(s, signal, s.nb_thread, pc);
    let x = after_await(signal, step);
    assert(t.signaux == s.signaux && t.return_code == s.return_code);
    assert(t.wf());
    assert forall|k: int| !t.return_code && 0 <= k < t.signaux.len() && !t.signaux[k].condition_variable implies
        #[trigger] list_count(t.list_wait_signaux, k) <= count(ts.update(i, x), |u: ThreadState| waits_on(u, k)) by {
        lemma_count_update(ts, i, x, |u: ThreadState| waits_on(u, k));
        assert(list_count(s.list_wait_signaux, k) <= count(ts, |u: ThreadState| waits_on(u, k)));
        if t.list_wait_signaux != s.list_wait_signaux {
            assert(t.list_wait_signaux == s.list_wait_signaux.push(signal));
            lemma_list_count_push(s.list_wait_signaux, signal, k);
        }
    }
}

proof fn lemma_cooperate_frame(s: SchedulerView, pc: CooperatePc)
    ensures
        ({
            let t = cooperate_spec(s, pc).0;
            &&& t.signaux == s.signaux
            &&& t.return_code == s.return_code
            &&& t.list_wait_signaux == s.list_wait_signaux
            &&& t.list_emit_signaux == s.list_emit_signaux
        }),
{
}

/// A step of a cooperation keeps the system's invariant.
#[verifier::spinoff_prover]
pub proof fn lemma_cooperate_keeps_inv(s: SchedulerView, ts: Seq<ThreadState>, i: int, pc: CooperatePc)
    requires
        system_inv(s, ts),
        0 <= i < ts.len(),
        ts[i] == ThreadState::Cooperating(pc),
        s.nb_cooperate < i32::MAX,
        s.nb_wait_cooperate < i32::MAX,
    ensures
        ({
            let (t, step) = cooperate_spec(s, pc);
            system_inv(t, ts.update(i, after_cooperate(step)))
        }),
{
    lemma_cooperate_keeps_counts(s, ts, i, pc);
    lemma_cooperate_frame(s, pc);
    let (t, step) = cooperate_spec(s, pc);
    let x = after_cooperate(step);
    assert(!waits_on_any(x));
    assert(!waits_on_any(ts[i]));
    assert forall|k: int| !t.return_code && 0 <= k < t.signaux.len() && !t.signaux[k].condition_variable implies
        #[trigger] list_count(t.list_wait_signaux, k) <= count(ts.update(i, x), |u: ThreadState| waits_on(u, k)) by {
        lemma_count_update(ts, i, x, |u: ThreadState| waits_on(u, k));
        assert(list_count(s.list_wait_signaux, k) <= count(ts, |u: ThreadState| waits_on(u, k)));
    }
}

pub open spec fn waits_on_any(t: ThreadState) -> bool {
    t is Awaiting
}

/// A step of the end of a thread keeps the system's invariant.
pub proof fn lemma_finish_keeps_inv(s: SchedulerView, ts: Seq<ThreadState>, i: int, pc: FinishPc)
    requires
        system_inv(s, ts),
        0 <= i < ts.len(),
        ts[i] == ThreadState::Finishing(pc),
        s.nb_finish < i32::MAX,
    ensures
        ({
            let (t, step) = finish_spec(s, pc);
            system_inv(t, ts.update(i, after_finish(step)))
        }),
{
    lemma_finish_keeps_counts(s, ts, i, pc);
    let (t, step) = finish_spec(s, pc);
    let x = after_finish(step);
    assert(t.signaux == s.signaux && t.return_code == s.return_code && t.list_wait_signaux == s.list_wait_signaux);
    assert(t.list_emit_signaux == s.list_emit_signaux);
    assert forall|k: int| !t.return_code && 0 <= k < t.signaux.len() && !t.signaux[k].condition_variable implies
        #[trigger] list_count(t.list_wait_signaux, k) <= count(ts.update(i, x), |u: ThreadState| waits_on(u, k)) by {
        lemma_count_update(ts, i, x, |u: ThreadState| waits_on(u, k));
        assert(list_count(s.list_wait_signaux, k) <= count(ts, |u: ThreadState| waits_on(u, k)));
    }
}

} // verus!

verus! {

proof fn lemma_round_frame(s: SchedulerView)
    requires
        s.wf(),
    ensures
        ({
            let t = round_spec(s).0;
            &&& t.wf()
            &&& t.return_code || (t.signaux == s.signaux && t.list_wait_signaux == s.list_wait_signaux && !s.return_code)
                || t.list_wait_signaux.len() == 0
        }),
{
    let s1 = crate::scheduler::after_wake_up(s);
    let s2 = crate::scheduler::add_next_instant_spec(s1).0;
    let c = crate::scheduler::round_counted(s);
    assert(s2.signaux == s.signaux && s2.list_wait_signaux == s.list_wait_signaux && s2.list_emit_signaux == s.list_emit_signaux);
    assert(s2.return_code == s.return_code);
    assert(c.signaux.len() == s.signaux.len());
    assert(c.wf());
    let (s5, running, finished) = crate::scheduler::round_prefix(s);
    assert(s5.signaux == c.signaux && s5.list_wait_signaux == c.list_wait_signaux && s5.list_emit_signaux == c.list_emit_signaux);
    assert(s5.return_code == c.return_code);
    if !running && !finished && !s5.condition_cooperate {
        let t = crate::scheduler::end_instant(s5);
        assert(t.signaux.len() == s5.signaux.len());
        assert(t.wf());
    }
}

/// The scheduler's steps keep the system's invariant.
pub proof fn lemma_scheduler_keeps_inv(s: SchedulerView, ts: Seq<ThreadState>)
    requires
        system_inv(s, ts),
    ensures
        system_inv(round_prepare(s), ts),
        system_inv(round_spec(s).0, ts),
        system_inv(round_prepare(round_spec(s).0), ts),
{
    lemma_scheduler_keeps_counts(s, ts);
    lemma_round_frame(s);
    let t = round_spec(s).0;
    assert forall|k: int| !t.return_code && 0 <= k < t.signaux.len() && !t.signaux[k].condition_variable implies
        #[trigger] list_count(t.list_wait_signaux, k) <= count(ts, |u: ThreadState| waits_on(u, k)) by {
        lemma_count_nonneg(ts, |u: ThreadState| waits_on(u, k));
        if t.list_wait_signaux.len() == 0 {
            assert(list_count(t.list_wait_signaux, k) == 0);
        } else {
            assert(list_count(s.list_wait_signaux, k) <= count(ts, |u: ThreadState| waits_on(u, k)));
        }
    }
}

} // verus!
