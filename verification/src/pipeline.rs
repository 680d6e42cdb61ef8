//! The engine on in-memory channels and files: one state that takes the
//! participants' transfers one at a time, in any order that the rendezvous
//! admits.

use vstd::prelude::*;
use crate::channel::ByteChannel;
use crate::fault::{Ending, Transfer};
use crate::feeder::{FeederStep, InputFeeder};
use crate::file::{FileSink, SinkModel};
use crate::model::{ended, next, permitted, possible, whole, Event, Model, Turn};
use crate::round::{initial, Phase, RoundBarrier, RoundEvent};
use crate::sink::{SinkStep, MAX_OFFSET};
use crate::stdout::{StdoutStep, StdoutWorker};
use crate::CHUNK_SIZE;

verus! {

/// The sinks of a run, as the model sees them.
pub open spec fn sink_models(sinks: Seq<FileSink>) -> Seq<SinkModel> {
    Seq::new(sinks.len(), |i: int| sinks[i]@)
}

/// A run in memory: standard input, the shared channel, the sinks, standard
/// output, and the rendezvous.
pub struct Pipeline {
    stdin: ByteChannel,
    feeder: InputFeeder,
    shared: ByteChannel,
    sinks: Vec<FileSink>,
    stdout: StdoutWorker,
    output: Vec<u8>,
    barrier: RoundBarrier,
    exit: Option<Ending>,
}

impl Pipeline {
    /// The state of the run.
    pub closed spec fn view(&self) -> Model {
        Model {
            unread: self.stdin@,
            shared: self.shared@,
            open: self.shared.is_open(),
            sinks: sink_models(self.sinks@),
            output: self.output@,
            drained: self.stdout@,
            round: self.barrier@,
            exit: self.exit,
        }
    }

    /// A run that has `input` on standard input and these sinks, before the
    /// first transfer.
    pub fn new(input: Vec<u8>, sinks: Vec<FileSink>) -> (pipeline: Pipeline)
        ensures
            pipeline@ == (Model {
                unread: input@,
                shared: Seq::empty(),
                open: true,
                sinks: sink_models(sinks@),
                output: Seq::empty(),
                drained: 0,
                round: initial(sinks@.len()),
                exit: None,
            }),
    {
        let mut stdin = ByteChannel::new();
        let _ = stdin.feed(&input);
        stdin.close_write();
        let barrier = RoundBarrier::new(sinks.len());
        Pipeline {
            stdin,
            feeder: InputFeeder::new(),
            shared: ByteChannel::new(),
            sinks,
            stdout: StdoutWorker::new(),
            output: Vec::new(),
            barrier,
            exit: None,
        }
    }

    /// How the run ended, once it has.
    pub fn ending(&self) -> (ending: Option<Ending>)
        ensures
            ending == self@.exit,
    {
        self.exit
    }

    /// Number of input bytes that the feeder has not read yet.
    pub fn unread(&self) -> (count: usize)
        ensures
            count == self@.unread.len(),
    {
        self.stdin.len()
    }

    /// Number of bytes buffered in the shared channel.
    pub fn buffered(&self) -> (count: usize)
        ensures
            count == self@.shared.len(),
    {
        self.shared.len()
    }

    /// Number of sinks.
    pub fn sinks(&self) -> (count: usize)
        ensures
            count == self@.sinks.len(),
    {
        self.sinks.len()
    }

    /// The phase of the round.
    pub fn phase(&self) -> (phase: Phase)
        ensures
            phase == self@.round.phase,
    {
        self.barrier.phase()
    }

    /// A copy of what standard output has received.
    pub fn output(&self) -> (bytes: Vec<u8>)
        ensures
            bytes@ == self@.output,
    {
        self.output.clone()
    }

    /// A copy of the content of the file at `sink`, if there is one.
    pub fn file(&self, sink: usize) -> (bytes: Option<Vec<u8>>)
        ensures
            bytes is Some <==> sink < self@.sinks.len(),
            bytes matches Some(content) ==> content@ == self@.sinks[sink as int].file,
    {
        if sink < self.sinks.len() {
            Some(self.sinks[sink].content())
        } else {
            None
        }
    }

    /// Takes the run apart: what standard output received, and the content of
    /// each file.
    pub fn into_parts(self) -> (parts: (Vec<u8>, Vec<Vec<u8>>))
        ensures
            parts.0@ == self@.output,
            parts.1@.len() == self@.sinks.len(),
            forall|i: int|
                0 <= i < self@.sinks.len() ==> {
                    &&& (#[trigger] parts.1@[i])@ == self@.sinks[i].file
                    &&& self@.sinks[i].file.len() <= usize::MAX
                    &&& self@.sinks[i].worker.offset <= MAX_OFFSET
                },
    {
        let mut files: Vec<Vec<u8>> = Vec::new();
        let mut index: usize = 0;
        while index < self.sinks.len()
            invariant
                index <= self.sinks@.len(),
                files@.len() == index,
                forall|i: int|
                    0 <= i < index ==> {
                        &&& (#[trigger] files@[i])@ == self.sinks@[i]@.file
                        &&& self.sinks@[i]@.file.len() <= usize::MAX
                        &&& self.sinks@[i]@.worker.offset <= MAX_OFFSET
                    },
            decreases self.sinks@.len() - index,
        {
            let content = self.sinks[index].content();
            let length = content.len();
            let offset = self.sinks[index].offset();
            let ghost collected = files@;
            files.push(content);
            assert forall|i: int| 0 <= i <= index implies {
                &&& (#[trigger] files@[i])@ == self.sinks@[i]@.file
                &&& self.sinks@[i]@.file.len() <= usize::MAX
                &&& self.sinks@[i]@.worker.offset <= MAX_OFFSET
            } by {
                if i < index {
                    assert(files@[i] == collected[i]);
                } else {
                    assert(self.sinks@[i]@.file.len() == length);
                    assert(self.sinks@[i]@.worker.offset == offset);
                }
            }
            index += 1;
        }
        (self.output, files)
    }

    /// How many bytes the round holds.
    pub fn round_length(&self) -> (length: usize)
        ensures
            length == self@.round.length,
    {
        self.barrier.length()
    }

    /// Whether a transfer that asks for at most `wanted` bytes of the
    /// `available` ones can come out as `outcome`.
    fn possible(outcome: Transfer, available: usize, wanted: usize) -> (can: bool)
        ensures
            can == possible(outcome, available as nat, wanted as nat),
    {
        match outcome {
            Transfer::Moved(count) => count <= available && count <= wanted,
            Transfer::Failed(_) => true,
        }
    }

    /// Whether `event` can happen now.
    pub fn permits(&self, event: Event) -> (allowed: bool)
        ensures
            allowed == permitted(self@, event),
    {
        match event {
            Event::Fill(outcome) => {
                self.barrier.phase() == Phase::Filling && self.shared.write_end_open()
                    && Self::possible(outcome, self.stdin.len(), CHUNK_SIZE) && match outcome {
                    Transfer::Moved(count) => (count == 0) == (self.stdin.len() == 0),
                    Transfer::Failed(_) => true,
                }
            },
            Event::Duplicate(sink, outcome) => self.barrier.admits(RoundEvent::Copied(sink))
                && sink < self.sinks.len() && Self::possible(
                outcome,
                self.shared.len(),
                CHUNK_SIZE,
            ),
            Event::Write(sink, outcome) => self.barrier.admits(RoundEvent::Joined(sink)) && sink
                < self.sinks.len() && self.sinks[sink].can_write(outcome),
            Event::Drain(outcome) => self.barrier.admits(RoundEvent::Drained) && Self::possible(
                outcome,
                self.shared.len(),
                self.stdout.request(self.barrier.length()),
            ),
            Event::Release => self.barrier.admits(RoundEvent::Released),
        }
    }

    /// The transfer of `turn` with the outcome that it has when nothing holds
    /// it back.
    pub fn whole(&self, turn: Turn) -> (event: Event)
        ensures
            event == whole(self@, turn),
    {
        match turn {
            Turn::Fill => {
                let unread = self.stdin.len();
                Event::Fill(
                    Transfer::Moved(
                        if unread <= CHUNK_SIZE {
                            unread
                        } else {
                            CHUNK_SIZE
                        },
                    ),
                )
            },
            Turn::Duplicate(sink) => {
                let buffered = self.shared.len();
                Event::Duplicate(
                    sink,
                    Transfer::Moved(
                        if buffered <= CHUNK_SIZE {
                            buffered
                        } else {
                            CHUNK_SIZE
                        },
                    ),
                )
            },
            Turn::Write(sink) => Event::Write(
                sink,
                if sink < self.sinks.len() {
                    self.sinks[sink].whole_write()
                } else {
                    Transfer::Moved(0)
                },
            ),
            Turn::Drain => {
                let buffered = self.shared.len();
                let wanted = self.stdout.request(self.barrier.length());
                Event::Drain(
                    Transfer::Moved(
                        if buffered <= wanted {
                            buffered
                        } else {
                            wanted
                        },
                    ),
                )
            },
            Turn::Release => Event::Release,
        }
    }

    /// Ends the run.
    fn end(&mut self, ending: Ending)
        ensures
            final(self)@ == ended(old(self)@, ending),
    {
        let _ = self.barrier.apply(RoundEvent::Stopped);
        self.exit = Some(ending);
    }

    /// Performs one transfer with the outcome given, if it is that
    /// participant's turn and the outcome is possible, and lets its worker
    /// decide what follows. An event that is not permitted is refused and
    /// changes nothing.
    pub fn step(&mut self, event: Event) -> (taken: bool)
        ensures
            taken == permitted(old(self)@, event),
            final(self)@ == next(old(self)@, event),
    {
        if !self.permits(event) {
            return false;
        }
        match event {
            Event::Fill(outcome) => {
                match self.feeder.on_moved(outcome) {
                    FeederStep::Filled { count } => {
                        let bytes = self.stdin.drain(count);
                        let _ = self.shared.feed(&bytes);
                        let _ = self.barrier.apply(RoundEvent::Filled(count));
                    },
                    FeederStep::Close => {
                        self.shared.close_write();
                        let _ = self.barrier.apply(RoundEvent::Filled(0));
                    },
                    FeederStep::Abort(fault) => self.end(Ending::Aborted(fault)),
                }
            },
            Event::Duplicate(sink, outcome) => {
                let length = self.barrier.length();
                let handle = self.shared.duplicator();
                match self.sinks[sink].duplicate_with(&handle, length, outcome) {
                    SinkStep::Drain { .. } => {
                        let _ = self.barrier.apply(RoundEvent::Copied(sink));
                    },
                    SinkStep::Join => {},
                    SinkStep::Finish => self.end(Ending::Completed),
                    SinkStep::Abort(fault) => self.end(Ending::Aborted(fault)),
                }
            },
            Event::Write(sink, outcome) => {
                match self.sinks[sink].write_with(outcome) {
                    SinkStep::Drain { .. } => {},
                    SinkStep::Join => {
                        let _ = self.barrier.apply(RoundEvent::Joined(sink));
                    },
                    SinkStep::Finish => self.end(Ending::Completed),
                    SinkStep::Abort(fault) => self.end(Ending::Aborted(fault)),
                }
            },
            Event::Drain(outcome) => {
                let length = self.barrier.length();
                match outcome {
                    Transfer::Moved(count) => {
                        let _ = self.shared.drain_into(&mut self.output, count);
                    },
                    Transfer::Failed(_) => {},
                }
                match self.stdout.on_drain(length, outcome) {
                    StdoutStep::Drain { .. } => {},
                    StdoutStep::Release => {
                        let _ = self.barrier.apply(RoundEvent::Drained);
                    },
                    StdoutStep::Finish => self.end(Ending::Completed),
                    StdoutStep::Abort(fault) => self.end(Ending::Aborted(fault)),
                }
            },
            Event::Release => {
                let _ = self.barrier.apply(RoundEvent::Released);
            },
        }
        true
    }
}

} // verus!
