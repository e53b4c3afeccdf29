use vstd::prelude::*;

verus! {

/// One reactive operation of a thread's program.
#[derive(Clone, Copy, Debug, PartialEq, Eq, Structural)]
pub enum Operation {
    /// emit the signal with this handle
    Emit(usize),
    /// wait for the signal with this handle
    Await(usize),
}

/// A reactive thread that emits its first signal, then waits for its
/// second one.
#[derive(Clone, Copy, Debug, PartialEq, Eq, Structural)]
#[allow(non_camel_case_types)]
pub struct Reactif_Thread1 {
    pub id_thread: usize,
    pub signal1: usize,
    pub signal2: usize,
}

/// A reactive thread that waits for its first signal, then emits its
/// second one.
#[derive(Clone, Copy, Debug, PartialEq, Eq, Structural)]
#[allow(non_camel_case_types)]
pub struct Reactif_Thread2 {
    pub id_thread: usize,
    pub signal1: usize,
    pub signal2: usize,
}

impl Reactif_Thread1 {
    /// Makes the thread; `old_thread_count` is the number of threads made
    /// before, and the new thread's id is one more.
    pub fn new(old_thread_count: usize, s1: usize, s2: usize) -> (t: Reactif_Thread1)
        requires
            old_thread_count < usize::MAX,
        ensures
            t == (Reactif_Thread1 { id_thread: (old_thread_count + 1) as usize, signal1: s1, signal2: s2 }),
    {
        Reactif_Thread1 { id_thread: old_thread_count + 1, signal1: s1, signal2: s2 }
    }

    /// The thread's program: emit the first signal, then wait for the
    /// second.
    pub fn thread_execute(&self) -> (program: Vec<Operation>)
        ensures
            program@ == seq![Operation::Emit(self.signal1), Operation::Await(self.signal2)],
    {
        let mut program = Vec::new();
        program.push(Operation::Emit(self.signal1));
        program.push(Operation::Await(self.signal2));
        program
    }

    /// What the thread does when its awaited signal is here.
    pub fn is_here() {
    }

    /// What the thread does when its awaited signal is not here.
    pub fn is_not_here() {
    }
}

impl Reactif_Thread2 {
    /// Makes the thread; `old_thread_count` is the number of threads made
    /// before, and the new thread's id is one more.
    pub fn new(old_thread_count: usize, s1: usize, s2: usize) -> (t: Reactif_Thread2)
        requires
            old_thread_count < usize::MAX,
        ensures
            t == (Reactif_Thread2 { id_thread: (old_thread_count + 1) as usize, signal1: s1, signal2: s2 }),
    {
        Reactif_Thread2 { id_thread: old_thread_count + 1, signal1: s1, signal2: s2 }
    }

    /// The thread's program: wait for the first signal, then emit the
    /// second.
    pub fn thread_execute(&self) -> (program: Vec<Operation>)
        ensures
            program@ == seq![Operation::Await(self.signal1), Operation::Emit(self.signal2)],
    {
        let mut program = Vec::new();
        program.push(Operation::Await(self.signal1));
        program.push(Operation::Emit(self.signal2));
        program
    }

    /// What the thread does when its awaited signal is here.
    pub fn is_here() {
    }

    /// What the thread does when its awaited signal is not here.
    pub fn is_not_here() {
    }
}

} // verus!
