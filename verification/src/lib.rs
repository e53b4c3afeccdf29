//! Reactive threads: threads that synchronise on instants and on signals,
//! driven by a scheduler whose decisions are verified here.
use vstd::prelude::*;

pub mod signal;
pub mod scheduler;
pub mod thread_trait;
pub mod threads;
pub mod neighbours;
pub mod grid;
pub mod proie;
pub mod cell;
pub mod reactif;
pub mod colour;

verus! {

} // verus!
