//! A target file held in memory, together with the private channel and the
//! worker of its sink.

use vstd::prelude::*;
use crate::channel::{moved, remainder, transfer_len, ByteChannel, DuplicateHandle};
use crate::fault::Transfer;
use crate::sink::{after_drain, after_duplicate, SinkState, SinkStep, SinkWorker, MAX_OFFSET};
use crate::CHUNK_SIZE;

verus! {

/// Error number of a write that would make a file larger than can be held.
pub const FILE_TOO_BIG: i32 = 27;

/// The content of a file after `bytes` have been written at `offset`: bytes
/// already there are overwritten, and a gap before `offset` reads as zeros.
pub open spec fn placed(content: Seq<u8>, offset: nat, bytes: Seq<u8>) -> Seq<u8> {
    if bytes.len() == 0 {
        content
    } else {
        let end = offset + bytes.len();
        Seq::new(
            if content.len() < end {
                end
            } else {
                content.len()
            },
            |i: int|
                if offset <= i < end {
                    bytes[i - offset]
                } else if i < content.len() {
                    content[i]
                } else {
                    0u8
                },
        )
    }
}

/// How a target is opened.
#[derive(Clone, Copy, Debug, PartialEq, Eq, Structural)]
pub struct OpenMode {
    /// Open for reading.
    pub read: bool,
    /// Open for writing.
    pub write: bool,
    /// Create the file if it does not exist.
    pub create: bool,
    /// Drop what the file holds.
    pub truncate: bool,
}

/// The mode in which every target is opened: for reading and writing,
/// created if absent, and truncated unless the run appends.
pub fn open_mode(append: bool) -> (mode: OpenMode)
    ensures
        mode == (OpenMode { read: true, write: true, create: true, truncate: !append }),
{
    OpenMode { read: true, write: true, create: true, truncate: !append }
}

/// The content of a target once it is opened: what it held if the run
/// appends, nothing if the run truncates.
pub open spec fn opened(prior: Seq<u8>, append: bool) -> Seq<u8> {
    if append {
        prior
    } else {
        Seq::empty()
    }
}

/// A write at the end of a file appends.
pub proof fn lemma_placed_at_end(content: Seq<u8>, bytes: Seq<u8>)
    ensures
        placed(content, content.len(), bytes) == content + bytes,
{
    assert(placed(content, content.len(), bytes) =~= content + bytes);
}

/// Writes `bytes` into `content` at `offset`, as a positioned write does.
/// A write that would end beyond what memory can hold is refused and changes
/// nothing.
pub fn write_at(content: &mut Vec<u8>, offset: usize, bytes: &Vec<u8>) -> (written: bool)
    ensures
        written == (offset + bytes@.len() <= usize::MAX),
        final(content)@ == if written {
            placed(old(content)@, offset as nat, bytes@)
        } else {
            old(content)@
        },
{
    if bytes.len() > usize::MAX - offset {
        return false;
    }
    if bytes.len() == 0 {
        return true;
    }
    while content.len() < offset
        invariant
            old(content)@.len() <= content@.len(),
            content@.len() <= offset || content@ == old(content)@,
            forall|i: int| 0 <= i < old(content)@.len() ==> content@[i] == old(content)@[i],
            forall|i: int| old(content)@.len() <= i < content@.len() ==> content@[i] == 0u8,
        decreases offset - content@.len(),
    {
        content.push(0u8);
    }
    let ghost padded = content@;
    let mut written: usize = 0;
    while written < bytes.len()
        invariant
            written <= bytes@.len(),
            offset + bytes@.len() <= usize::MAX,
            offset <= padded.len(),
            content@.len() == if padded.len() < offset + written {
                offset + written
            } else {
                padded.len() as int
            },
            forall|i: int|
                0 <= i < content@.len() ==> content@[i] == if offset <= i < offset + written {
                    bytes@[i - offset]
                } else {
                    padded[i]
                },
        decreases bytes@.len() - written,
    {
        let at = offset + written;
        if at < content.len() {
            content.set(at, bytes[written]);
        } else {
            content.push(bytes[written]);
        }
        written += 1;
    }
    assert(content@ =~= placed(old(content)@, offset as nat, bytes@));
    true
}

/// A sink as the run sees it: the file's content, what waits in the private
/// channel, and what the worker remembers.
#[verifier::ext_equal]
pub struct SinkModel {
    /// The content of the file.
    pub file: Seq<u8>,
    /// The bytes buffered in the private channel.
    pub private: Seq<u8>,
    /// The offset and the pending count of the worker.
    pub worker: SinkState,
}

/// What a duplicate of `shared` moves when nothing holds it back: all that
/// is buffered, up to one chunk.
pub open spec fn whole_duplicate(shared: Seq<u8>) -> Transfer {
    Transfer::Moved(transfer_len(shared.len(), CHUNK_SIZE as nat) as usize)
}

/// What a drain into the file of `sink` moves when nothing holds it back: all
/// that is pending. A file that would grow beyond what memory can hold
/// refuses the write.
pub open spec fn whole_write(sink: SinkModel) -> Transfer {
    let count = transfer_len(sink.private.len(), sink.worker.pending);
    if sink.worker.offset + count > usize::MAX {
        Transfer::Failed(FILE_TOO_BIG)
    } else {
        Transfer::Moved(count as usize)
    }
}

/// A sink and its worker's answer after a duplicate of `shared` into the
/// private channel came out as `outcome`, in a round that holds `length`
/// bytes.
pub open spec fn sink_duplicate(
    sink: SinkModel,
    shared: Seq<u8>,
    length: nat,
    outcome: Transfer,
) -> (SinkModel, SinkStep) {
    let (worker, step) = after_duplicate(sink.worker, length, outcome);
    let private = match outcome {
        Transfer::Moved(count) => sink.private + moved(shared, count as nat),
        Transfer::Failed(_) => sink.private,
    };
    (SinkModel { file: sink.file, private, worker }, step)
}

/// A sink and its worker's answer after a drain from the private channel
/// into the file, at the worker's offset, came out as `outcome`.
pub open spec fn sink_write(sink: SinkModel, outcome: Transfer) -> (SinkModel, SinkStep) {
    let (worker, step) = after_drain(sink.worker, outcome);
    match outcome {
        Transfer::Moved(count) => {
            let bytes = moved(sink.private, count as nat);
            (
                SinkModel {
                    file: if sink.worker.offset + bytes.len() <= usize::MAX {
                        placed(sink.file, sink.worker.offset, bytes)
                    } else {
                        sink.file
                    },
                    private: remainder(sink.private, count as nat),
                    worker,
                },
                step,
            )
        },
        Transfer::Failed(_) => (SinkModel { worker, ..sink }, step),
    }
}

/// A sink and its worker's answer after one round of the sink in which
/// nothing holds the transfers back: a duplicate of `shared` and, if that
/// brought the round's bytes, one drain into the file.
pub open spec fn sink_round(sink: SinkModel, shared: Seq<u8>, length: nat) -> (
    SinkModel,
    SinkStep,
) {
    let (copied, step) = sink_duplicate(sink, shared, length, whole_duplicate(shared));
    if step is Drain {
        sink_write(copied, whole_write(copied))
    } else {
        (copied, step)
    }
}

/// A target file, the private channel that feeds it, and the worker that
/// owns its write offset.
pub struct FileSink {
    content: Vec<u8>,
    private: ByteChannel,
    worker: SinkWorker,
}

impl FileSink {
    /// The sink as the run sees it.
    pub closed spec fn view(&self) -> SinkModel {
        SinkModel { file: self.content@, private: self.private@, worker: self.worker@ }
    }

    /// Opens a target that held `prior` (nothing, if it did not exist). The
    /// content is kept if the run appends and dropped if it truncates; writes
    /// begin at the end of what is kept. `None` if the file is too long for
    /// any write to follow.
    pub fn open(prior: Vec<u8>, append: bool) -> (sink: Option<FileSink>)
        ensures
            sink is Some <==> opened(prior@, append).len() <= MAX_OFFSET,
            sink matches Some(s) ==> s@ == (SinkModel {
                file: opened(prior@, append),
                private: Seq::empty(),
                worker: SinkState { offset: opened(prior@, append).len(), pending: 0 },
            }),
    {
        let content = if append {
            prior
        } else {
            Vec::new()
        };
        let length = content.len() as u64;
        match SinkWorker::new(length) {
            Some(worker) => Some(FileSink { content, private: ByteChannel::new(), worker }),
            None => None,
        }
    }

    /// A copy of the file's content.
    pub fn content(&self) -> (bytes: Vec<u8>)
        ensures
            bytes@ == self@.file,
    {
        self.content.clone()
    }

    /// Where the next byte goes in the file.
    pub fn offset(&self) -> (offset: u64)
        ensures
            offset == self@.worker.offset,
            offset <= MAX_OFFSET,
    {
        self.worker.offset()
    }

    /// Whether a drain into the file can come out as `outcome`: it cannot
    /// move more than is pending or more than the private channel holds, and
    /// it cannot make the file longer than memory can hold.
    pub fn can_write(&self, outcome: Transfer) -> (can: bool)
        ensures
            can == match outcome {
                Transfer::Moved(count) => count <= self@.private.len() && count
                    <= self@.worker.pending && self@.worker.offset + count <= usize::MAX,
                Transfer::Failed(_) => true,
            },
    {
        match outcome {
            Transfer::Moved(count) => {
                let offset = self.worker.offset();
                count <= self.private.len() && count <= self.worker.pending() && offset
                    <= usize::MAX as u64 && count <= usize::MAX - offset as usize
            },
            Transfer::Failed(_) => true,
        }
    }

    /// First half of a round, with the outcome given: moves what `outcome`
    /// says of the shared channel into the private channel and lets the
    /// worker decide.
    pub fn duplicate_with(
        &mut self,
        shared: &DuplicateHandle<'_>,
        length: usize,
        outcome: Transfer,
    ) -> (step: SinkStep)
        ensures
            (final(self)@, step) == sink_duplicate(old(self)@, shared@, length as nat, outcome),
    {
        match outcome {
            Transfer::Moved(count) => {
                let _ = shared.duplicate_into(&mut self.private, count);
            },
            Transfer::Failed(_) => {},
        }
        self.worker.on_duplicate(length, outcome)
    }

    /// Second half of a round, with the outcome given: moves what `outcome`
    /// says from the private channel into the file at the worker's offset and
    /// lets the worker decide.
    pub fn write_with(&mut self, outcome: Transfer) -> (step: SinkStep)
        ensures
            (final(self)@, step) == sink_write(old(self)@, outcome),
    {
        match outcome {
            Transfer::Moved(count) => {
                let offset = self.worker.offset();
                let bytes = self.private.drain(count);
                if offset <= usize::MAX as u64 {
                    let _ = write_at(&mut self.content, offset as usize, &bytes);
                }
            },
            Transfer::Failed(_) => {},
        }
        self.worker.on_drain(outcome)
    }

    /// First half of a round: duplicates at most [`CHUNK_SIZE`] bytes of the
    /// shared channel into the private channel and lets the worker decide.
    pub fn duplicate_from(&mut self, shared: &DuplicateHandle<'_>, length: usize) -> (step:
        SinkStep)
        ensures
            (final(self)@, step) == sink_duplicate(
                old(self)@,
                shared@,
                length as nat,
                whole_duplicate(shared@),
            ),
    {
        let available = shared.len();
        let count = if available <= CHUNK_SIZE {
            available
        } else {
            CHUNK_SIZE
        };
        self.duplicate_with(shared, length, Transfer::Moved(count))
    }

    /// What a drain into the file moves when nothing holds it back: all that
    /// is pending, unless the file would grow beyond what memory can hold.
    pub fn whole_write(&self) -> (outcome: Transfer)
        ensures
            outcome == whole_write(self@),
    {
        let pending = self.worker.pending();
        let offset = self.worker.offset();
        let available = self.private.len();
        let count = if available <= pending {
            available
        } else {
            pending
        };
        if offset > usize::MAX as u64 || count > usize::MAX - offset as usize {
            Transfer::Failed(FILE_TOO_BIG)
        } else {
            Transfer::Moved(count)
        }
    }

    /// Second half of a round: drains what is pending from the private
    /// channel into the file at the worker's offset and lets the worker
    /// decide.
    pub fn drain_to_file(&mut self) -> (step: SinkStep)
        ensures
            (final(self)@, step) == sink_write(old(self)@, whole_write(old(self)@)),
    {
        let outcome = self.whole_write();
        self.write_with(outcome)
    }

    /// One round of this sink: duplicates the shared channel into the
    /// private channel and, unless the stream has ended, drains the duplicate
    /// into the file.
    pub fn write_from_pipe(&mut self, shared: &DuplicateHandle<'_>, length: usize) -> (step:
        SinkStep)
        ensures
            (final(self)@, step) == sink_round(old(self)@, shared@, length as nat),
    {
        match self.duplicate_from(shared, length) {
            SinkStep::Drain { .. } => self.drain_to_file(),
            step => step,
        }
    }
}

} // verus!
