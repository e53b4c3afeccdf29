use vstd::prelude::*;

verus! {

/// A reactive signal: an identifier and the flag that says whether the
/// signal has been emitted during the current instant.
#[derive(Clone, Copy, Debug, PartialEq, Eq, Structural)]
pub struct Signal {
    pub id: usize,
    pub condition_variable: bool,
}

impl Signal {
    /// Makes a fresh, absent signal. `old_signal_count` is the number of
    /// signals made before this one; the new signal's id is one more.
    pub fn signal_create(old_signal_count: usize) -> (signal: Signal)
        requires
            old_signal_count < usize::MAX,
        ensures
            signal.id == old_signal_count + 1,
            !signal.condition_variable,
    {
        Signal { id: old_signal_count + 1, condition_variable: false }
    }
}

/// Hands out the presence flag of `signal`; what is written through the
/// returned reference is the signal's new flag.
pub fn get_condvar(signal: &mut Signal) -> (condvar: &mut bool)
    ensures
        *condvar == old(signal).condition_variable,
        final(signal).id == old(signal).id,
        final(signal).condition_variable == *final(condvar),
{
    &mut signal.condition_variable
}

/// Whether `signal` is present.
pub fn get_condvar_bool(signal: &Signal) -> (present: bool)
    ensures
        present == signal.condition_variable,
{
    signal.condition_variable
}

/// Raises a presence flag: the signal is emitted.
pub fn notify_thread(condvar: &mut bool)
    ensures
        *final(condvar),
{
    *condvar = true;
}

/// Lowers a presence flag: the signal is absent again.
pub fn return_condvar_false(condvar: &mut bool)
    ensures
        !*final(condvar),
{
    *condvar = false;
}

/// Removes the signal at position `indice` from a list of signals.
pub fn remove_liste(liste: &mut Vec<Signal>, indice: usize)
    requires
        indice < old(liste).len(),
    ensures
        final(liste)@ == old(liste)@.remove(indice as int),
{
    liste.remove(indice);
}

} // verus!
