//! The input feeder: it moves standard input into the shared channel, one
//! chunk at a time, and closes the write end when the input is exhausted.

use vstd::prelude::*;
use crate::fault::{Cause, Fault, Operation, Transfer};
use crate::CHUNK_SIZE;

verus! {

/// What the feeder does next.
#[derive(Clone, Copy, Debug, PartialEq, Eq, Structural)]
pub enum FeederStep {
    /// This many bytes entered the shared channel and make up the round. When
    /// the round has been drained, move at most [`CHUNK_SIZE`] bytes more.
    Filled { count: usize },
    /// The input is exhausted: close the write end and stop.
    Close,
    /// Report the fault and end the process.
    Abort(Fault),
}

/// The feeder's answer to the outcome of one move, as a function.
pub open spec fn feeder_step(outcome: Transfer) -> FeederStep {
    match outcome {
        Transfer::Failed(errno) => FeederStep::Abort(
            Fault::Transfer { operation: Operation::Feed, cause: Cause::Os(errno) },
        ),
        Transfer::Moved(count) => if count == 0 {
            FeederStep::Close
        } else if count > CHUNK_SIZE {
            FeederStep::Abort(Fault::Transfer { operation: Operation::Feed, cause: Cause::Overrun })
        } else {
            FeederStep::Filled { count }
        },
    }
}

/// The pump from standard input into the shared channel.
pub struct InputFeeder {
    closed: bool,
}

impl InputFeeder {
    /// Whether the feeder has closed the write end.
    pub closed spec fn is_closed(&self) -> bool {
        self.closed
    }

    /// A feeder that has not closed the write end yet.
    pub fn new() -> (feeder: InputFeeder)
        ensures
            !feeder.is_closed(),
    {
        InputFeeder { closed: false }
    }

    /// Whether the feeder has closed the write end.
    pub fn has_closed(&self) -> (closed: bool)
        ensures
            closed == self.is_closed(),
    {
        self.closed
    }

    /// The largest number of bytes that one move may carry.
    pub fn request(&self) -> (max: usize)
        ensures
            max == CHUNK_SIZE,
    {
        CHUNK_SIZE
    }

    /// Takes the outcome of one move of at most [`CHUNK_SIZE`] bytes and
    /// decides what follows. A move of zero bytes is the end of the input; a
    /// refused move, or one that reports more than was asked for, is fatal.
    pub fn on_moved(&mut self, outcome: Transfer) -> (step: FeederStep)
        ensures
            step == feeder_step(outcome),
            final(self).is_closed() == (old(self).is_closed() || step == FeederStep::Close),
    {
        match outcome {
            Transfer::Failed(errno) => FeederStep::Abort(
                Fault::Transfer { operation: Operation::Feed, cause: Cause::Os(errno) },
            ),
            Transfer::Moved(count) => {
                if count == 0 {
                    self.closed = true;
                    FeederStep::Close
                } else if count > CHUNK_SIZE {
                    FeederStep::Abort(
                        Fault::Transfer { operation: Operation::Feed, cause: Cause::Overrun },
                    )
                } else {
                    FeederStep::Filled { count }
                }
            },
        }
    }
}

} // verus!
