# lib_thread

Reactive threads: threads that run in synchronous instants, emit and await
signals, and cooperate, under a scheduler that decides when an instant ends
(every thread has stopped: waiting on an absent signal, cooperating, or
finished), releases the threads that waited in vain, and ends when every
thread has finished.

`src/` is the verified library:

- `signal`: signals and their presence flags.
- `scheduler`: the scheduler's state (`Scheduler`, viewed as
  `SchedulerView`), its operations, and one round of its loop
  (`scheduler_start`), with the laws of a round.
- `thread_trait`: the operations of a reactive thread (emit, await a
  signal, cooperate, finish) as step functions: each step changes the
  scheduler's state and says what the thread waits for next.
- `threads`: a system of threads under one scheduler, the invariant that
  every step keeps (the scheduler's counts of threads are exact, and every
  absent awaited signal has its waiters), and the law that the scheduler's
  loop ends only when every thread has finished.
- `neighbours`, `grid`: cells of a grid whose edges wrap around.
- `proie`: the prey-predator cells; `cell`: the game of life's cells.
- `reactif`: two threads that exchange signals; `colour`: the colours the
  examples draw with.

`app/` runs it all with real threads: one mutex guards the scheduler's
state, one condition variable carries every wake-up, and each thread runs
the step functions, waiting between steps. It also holds the example
programs and their windows, and the planets' motion, which is computed in
floating point.
