//! The worker of standard output: the one consumer that drains the shared
//! channel, once per round, after every sink has joined.

use vstd::prelude::*;
use crate::fault::{Cause, Fault, Operation, Transfer};
use crate::round::{enabled, RoundBarrier, RoundEvent};
use crate::CHUNK_SIZE;

verus! {

/// What the worker of standard output does next.
#[derive(Clone, Copy, Debug, PartialEq, Eq, Structural)]
pub enum StdoutStep {
    /// Move exactly `count` bytes more from the shared channel to standard
    /// output.
    Drain { count: usize },
    /// The round's bytes have left the shared channel: reset the counter and
    /// release the barrier.
    Release,
    /// The stream has ended: end the process successfully.
    Finish,
    /// Report the fault and end the process.
    Abort(Fault),
}

/// How many bytes the worker asks for when the round holds `length` bytes
/// and `drained` of them have left: the rest of the round, or a whole chunk
/// when the round holds nothing and only the end of the stream can come.
pub open spec fn wanted(length: nat, drained: nat) -> nat {
    if length == 0 {
        CHUNK_SIZE as nat
    } else if drained <= length {
        (length - drained) as nat
    } else {
        0
    }
}

/// The worker's answer to the outcome of a drain in a round that holds
/// `length` bytes, `drained` of which had left before, and the number that
/// have left after. A round that holds nothing is the end of the stream.
pub open spec fn after_output(drained: nat, length: nat, outcome: Transfer) -> (nat, StdoutStep) {
    match outcome {
        Transfer::Failed(errno) => (
            drained,
            StdoutStep::Abort(
                Fault::Transfer { operation: Operation::DrainToStdout, cause: Cause::Os(errno) },
            ),
        ),
        Transfer::Moved(count) => if drained > length || count > length - drained {
            (
                drained,
                StdoutStep::Abort(
                    Fault::Transfer { operation: Operation::DrainToStdout, cause: Cause::Overrun },
                ),
            )
        } else if length == 0 {
            (drained, StdoutStep::Finish)
        } else if count == 0 {
            (
                drained,
                StdoutStep::Abort(
                    Fault::Transfer { operation: Operation::DrainToStdout, cause: Cause::Short },
                ),
            )
        } else if drained + count == length {
            (0, StdoutStep::Release)
        } else {
            (
                drained + count as nat,
                StdoutStep::Drain { count: (length - drained - count) as usize },
            )
        },
    }
}

/// The decisions of standard output: it remembers how much of the round it
/// has drained.
pub struct StdoutWorker {
    drained: usize,
}

impl StdoutWorker {
    /// How many bytes of the round have left the shared channel.
    pub closed spec fn view(&self) -> nat {
        self.drained as nat
    }

    /// A worker that has drained nothing yet.
    pub fn new() -> (worker: StdoutWorker)
        ensures
            worker@ == 0,
    {
        StdoutWorker { drained: 0 }
    }

    /// How many bytes of the round have left the shared channel.
    pub fn drained(&self) -> (drained: usize)
        ensures
            drained == self@,
    {
        self.drained
    }

    /// Whether standard output may drain now: only when the rendezvous says
    /// that every sink has joined the round.
    pub fn may_drain(&self, barrier: &RoundBarrier) -> (may: bool)
        ensures
            may == enabled(barrier@, RoundEvent::Drained),
    {
        barrier.may_drain()
    }

    /// How many bytes to ask for in a round that holds `length` bytes.
    pub fn request(&self, length: usize) -> (count: usize)
        ensures
            count == wanted(length as nat, self@),
    {
        if length == 0 {
            CHUNK_SIZE
        } else if self.drained <= length {
            length - self.drained
        } else {
            0
        }
    }

    /// Takes the outcome of a drain from the shared channel into standard
    /// output, in a round that holds `length` bytes. A round that holds
    /// nothing is the end of the stream. Otherwise the worker drains until
    /// the whole round has left, and then releases the barrier; a drain that
    /// moves nothing has failed.
    pub fn on_drain(&mut self, length: usize, outcome: Transfer) -> (step: StdoutStep)
        ensures
            (final(self)@, step) == after_output(old(self)@, length as nat, outcome),
    {
        match outcome {
            Transfer::Failed(errno) => StdoutStep::Abort(
                Fault::Transfer { operation: Operation::DrainToStdout, cause: Cause::Os(errno) },
            ),
            Transfer::Moved(count) => {
                if self.drained > length || count > length - self.drained {
                    StdoutStep::Abort(
                        Fault::Transfer {
                            operation: Operation::DrainToStdout,
                            cause: Cause::Overrun,
                        },
                    )
                } else if length == 0 {
                    StdoutStep::Finish
                } else if count == 0 {
                    StdoutStep::Abort(
                        Fault::Transfer { operation: Operation::DrainToStdout, cause: Cause::Short },
                    )
                } else if self.drained + count == length {
                    self.drained = 0;
                    StdoutStep::Release
                } else {
                    self.drained = self.drained + count;
                    StdoutStep::Drain { count: length - self.drained }
                }
            },
        }
    }
}

} // verus!
