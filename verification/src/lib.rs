//! Zero-copy fan-out of one byte stream into any number of files and a
//! passthrough output.
//!
//! The engine is a set of small decision procedures: each worker is told the
//! outcome of the transfer it asked for and answers with the next thing to
//! do, and a rendezvous says whose turn it is. The module [`model`] states
//! the run as a state machine and proves that, in whatever order the workers
//! act and whatever their transfers move, a run that completes has brought
//! the input exactly to every file and to the passthrough output. The modules
//! [`pipeline`] and [`run`] execute that machine on channels and files held
//! in memory.

use vstd::prelude::*;

pub mod channel;
pub mod cli;
pub mod fault;
pub mod feeder;
pub mod file;
pub mod model;
pub mod pipeline;
pub mod report;
pub mod round;
pub mod run;
pub mod sink;
pub mod stdout;

verus! {

/// Largest number of bytes that one transfer moves: one round carries at most
/// this much.
pub const CHUNK_SIZE: usize = 65536;

} // verus!
