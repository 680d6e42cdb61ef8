//! The worker of one target file. Each round it duplicates the shared channel
//! into its private channel, then drains the private channel into the file at
//! the offset it tracks.

use vstd::prelude::*;
use crate::fault::{Cause, Fault, Operation, Transfer};
use crate::CHUNK_SIZE;

verus! {

/// Largest offset that a positioned write accepts.
pub const MAX_OFFSET: u64 = 0x7fff_ffff_ffff_ffff;

/// What a sink worker does next.
#[derive(Clone, Copy, Debug, PartialEq, Eq, Structural)]
pub enum SinkStep {
    /// Move exactly `count` bytes from the private channel into the file,
    /// starting at `offset`.
    Drain { count: usize, offset: u64 },
    /// The round's bytes are in the file: count this sink in and wait at the
    /// barrier.
    Join,
    /// The stream has ended: end the process successfully.
    Finish,
    /// Report the fault and end the process.
    Abort(Fault),
}

/// What a sink worker remembers between transfers.
#[verifier::ext_equal]
pub struct SinkState {
    /// Where the next byte goes in the file.
    pub offset: nat,
    /// How many duplicated bytes wait in the private channel.
    pub pending: nat,
}

/// The worker's answer to the outcome of a duplicate in a round that holds
/// `expected` bytes, and its state after. The duplicate has to bring the
/// whole round: it cannot be taken up again. A round that holds nothing is
/// the end of the stream.
pub open spec fn after_duplicate(state: SinkState, expected: nat, outcome: Transfer) -> (
    SinkState,
    SinkStep,
) {
    match outcome {
        Transfer::Failed(errno) => (
            state,
            SinkStep::Abort(
                Fault::Transfer { operation: Operation::Duplicate, cause: Cause::Os(errno) },
            ),
        ),
        Transfer::Moved(count) => if count > CHUNK_SIZE || count > expected || state.pending
            + count > usize::MAX {
            (
                state,
                SinkStep::Abort(
                    Fault::Transfer { operation: Operation::Duplicate, cause: Cause::Overrun },
                ),
            )
        } else if count < expected {
            (
                state,
                SinkStep::Abort(
                    Fault::Transfer { operation: Operation::Duplicate, cause: Cause::Short },
                ),
            )
        } else if count == 0 {
            (state, SinkStep::Finish)
        } else {
            (
                SinkState { offset: state.offset, pending: state.pending + count as nat },
                SinkStep::Drain {
                    count: (state.pending + count) as usize,
                    offset: state.offset as u64,
                },
            )
        },
    }
}

/// The worker's answer to the outcome of a drain into the file, and its state
/// after. The offset advances by what was written; what is still pending is
/// asked for again.
pub open spec fn after_drain(state: SinkState, outcome: Transfer) -> (SinkState, SinkStep) {
    match outcome {
        Transfer::Failed(errno) => (
            state,
            SinkStep::Abort(
                Fault::Transfer { operation: Operation::DrainToFile, cause: Cause::Os(errno) },
            ),
        ),
        Transfer::Moved(count) => if count > state.pending {
            (
                state,
                SinkStep::Abort(
                    Fault::Transfer { operation: Operation::DrainToFile, cause: Cause::Overrun },
                ),
            )
        } else if count == 0 && state.pending > 0 {
            (
                state,
                SinkStep::Abort(
                    Fault::Transfer { operation: Operation::DrainToFile, cause: Cause::Short },
                ),
            )
        } else if state.offset + count > MAX_OFFSET {
            (
                state,
                SinkStep::Abort(
                    Fault::Transfer {
                        operation: Operation::DrainToFile,
                        cause: Cause::OffsetOverflow,
                    },
                ),
            )
        } else {
            let next = SinkState {
                offset: state.offset + count as nat,
                pending: (state.pending - count) as nat,
            };
            if next.pending == 0 {
                (next, SinkStep::Join)
            } else {
                (next, SinkStep::Drain { count: next.pending as usize, offset: next.offset as u64 })
            }
        },
    }
}

/// The decisions of one sink: it owns the write offset of its file, and
/// nothing else changes that offset.
pub struct SinkWorker {
    offset: u64,
    pending: usize,
}

impl SinkWorker {
    #[verifier::type_invariant]
    spec fn within_range(self) -> bool {
        self.offset <= MAX_OFFSET
    }

    /// The offset and the number of pending bytes.
    pub closed spec fn view(&self) -> SinkState {
        SinkState { offset: self.offset as nat, pending: self.pending as nat }
    }

    /// A worker for a file that is `length` bytes long once opened: writes
    /// begin at its end. `None` if no write could follow such a length.
    pub fn new(length: u64) -> (worker: Option<SinkWorker>)
        ensures
            worker is Some <==> length <= MAX_OFFSET,
            worker matches Some(w) ==> w@ == (SinkState { offset: length as nat, pending: 0 }),
    {
        if length <= MAX_OFFSET {
            Some(SinkWorker { offset: length, pending: 0 })
        } else {
            None
        }
    }

    /// Where the next byte goes in the file.
    pub fn offset(&self) -> (offset: u64)
        ensures
            offset == self@.offset,
            offset <= MAX_OFFSET,
    {
        proof {
            use_type_invariant(self);
        }
        self.offset
    }

    /// How many duplicated bytes wait in the private channel.
    pub fn pending(&self) -> (pending: usize)
        ensures
            pending == self@.pending,
    {
        self.pending
    }

    /// The largest number of bytes that one duplicate may carry.
    pub fn request(&self) -> (max: usize)
        ensures
            max == CHUNK_SIZE,
    {
        CHUNK_SIZE
    }

    /// Takes the outcome of a duplicate of at most [`CHUNK_SIZE`] bytes into
    /// the private channel, in a round that holds `expected` bytes. A round
    /// that holds nothing is the end of the stream. Otherwise the duplicate
    /// must have brought the whole round; the bytes are then pending and the
    /// worker asks for exactly that many to be drained into the file at its
    /// offset.
    pub fn on_duplicate(&mut self, expected: usize, outcome: Transfer) -> (step: SinkStep)
        ensures
            (final(self)@, step) == after_duplicate(old(self)@, expected as nat, outcome),
    {
        proof {
            use_type_invariant(&*self);
        }
        match outcome {
            Transfer::Failed(errno) => SinkStep::Abort(
                Fault::Transfer { operation: Operation::Duplicate, cause: Cause::Os(errno) },
            ),
            Transfer::Moved(count) => {
                if count > CHUNK_SIZE || count > expected || count > usize::MAX - self.pending {
                    SinkStep::Abort(
                        Fault::Transfer { operation: Operation::Duplicate, cause: Cause::Overrun },
                    )
                } else if count < expected {
                    SinkStep::Abort(
                        Fault::Transfer { operation: Operation::Duplicate, cause: Cause::Short },
                    )
                } else if count == 0 {
                    SinkStep::Finish
                } else {
                    self.pending = self.pending + count;
                    SinkStep::Drain { count: self.pending, offset: self.offset }
                }
            },
        }
    }

    /// Takes the outcome of a drain from the private channel into the file.
    /// The offset advances by what was written. While bytes are still
    /// pending the worker asks for the rest; when none are left it joins the
    /// round's rendezvous. A drain that moves nothing of what is pending has
    /// failed.
    pub fn on_drain(&mut self, outcome: Transfer) -> (step: SinkStep)
        ensures
            (final(self)@, step) == after_drain(old(self)@, outcome),
    {
        proof {
            use_type_invariant(&*self);
        }
        match outcome {
            Transfer::Failed(errno) => SinkStep::Abort(
                Fault::Transfer { operation: Operation::DrainToFile, cause: Cause::Os(errno) },
            ),
            Transfer::Moved(count) => {
                if count > self.pending {
                    SinkStep::Abort(
                        Fault::Transfer { operation: Operation::DrainToFile, cause: Cause::Overrun },
                    )
                } else if count == 0 && self.pending > 0 {
                    SinkStep::Abort(
                        Fault::Transfer { operation: Operation::DrainToFile, cause: Cause::Short },
                    )
                } else if count as u64 > MAX_OFFSET - self.offset {
                    SinkStep::Abort(
                        Fault::Transfer {
                            operation: Operation::DrainToFile,
                            cause: Cause::OffsetOverflow,
                        },
                    )
                } else {
                    self.offset = self.offset + count as u64;
                    self.pending = self.pending - count;
                    if self.pending == 0 {
                        SinkStep::Join
                    } else {
                        SinkStep::Drain { count: self.pending, offset: self.offset }
                    }
                }
            },
        }
    }
}

} // verus!
