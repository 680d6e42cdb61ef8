//! The whole run as a state machine, and what holds of every run.
//!
//! A state holds the input that is still unread, the shared channel, every
//! sink, what standard output has received, and the rendezvous. An event is
//! one transfer by one participant, with its outcome: it may have moved all
//! that was asked for, or less, or have failed. The participants may act in
//! any order that the rendezvous admits.

use vstd::prelude::*;
use crate::channel::{moved, remainder, transfer_len};
use crate::fault::{Ending, Fault, Operation, Transfer};
use crate::feeder::{feeder_step, FeederStep};
use crate::file::{
    lemma_placed_at_end, sink_duplicate, sink_write, whole_duplicate, whole_write, SinkModel,
};
use crate::round::{
    advance, all_at, consistent, enabled, initial, lemma_consistency_is_kept,
    lemma_initial_is_consistent, Phase, RoundEvent, RoundModel, Stage,
};
use crate::sink::{SinkState, SinkStep, MAX_OFFSET};
use crate::stdout::{after_output, wanted, StdoutStep};
use crate::CHUNK_SIZE;

verus! {

/// One transfer by one participant, with its outcome.
#[derive(Clone, Copy, Debug, PartialEq, Eq, Structural)]
pub enum Event {
    /// The feeder moves input into the shared channel; zero bytes mean that
    /// the input is exhausted.
    Fill(Transfer),
    /// The sink at this position duplicates the shared channel.
    Duplicate(usize, Transfer),
    /// The sink at this position drains its duplicate into its file.
    Write(usize, Transfer),
    /// Standard output drains the shared channel.
    Drain(Transfer),
    /// The barrier releases every participant into the next round.
    Release,
}

/// The state of a run.
#[verifier::ext_equal]
pub struct Model {
    /// The input that the feeder has not read yet.
    pub unread: Seq<u8>,
    /// The bytes buffered in the shared channel.
    pub shared: Seq<u8>,
    /// Whether the write end of the shared channel is open.
    pub open: bool,
    /// The sinks, in the order of the targets.
    pub sinks: Seq<SinkModel>,
    /// What standard output has received.
    pub output: Seq<u8>,
    /// How many bytes of the round standard output has drained.
    pub drained: nat,
    /// The rendezvous.
    pub round: RoundModel,
    /// How the process ended, once it has.
    pub exit: Option<Ending>,
}

/// The state before the first event: nothing of `input` is read, and the
/// sink at each position holds the opened content of its target.
pub open spec fn start(input: Seq<u8>, files: Seq<Seq<u8>>) -> Model {
    Model {
        unread: input,
        shared: Seq::empty(),
        open: true,
        sinks: Seq::new(
            files.len(),
            |i: int|
                SinkModel {
                    file: files[i],
                    private: Seq::empty(),
                    worker: SinkState { offset: files[i].len(), pending: 0 },
                },
        ),
        output: Seq::empty(),
        drained: 0,
        round: initial(files.len()),
        exit: None,
    }
}

/// Whether a transfer that asks for at most `wanted` bytes of the `available`
/// ones can come out as `outcome`: it may fail, and it may move any number of
/// bytes that is neither more than asked for nor more than there is.
pub open spec fn possible(outcome: Transfer, available: nat, wanted: nat) -> bool {
    outcome matches Transfer::Moved(count) ==> count <= available && count <= wanted
}

/// Whether `event` can happen in `model`. The rendezvous decides whose turn
/// it is, and the outcome must be possible. A fill needs the write end open,
/// and moves nothing only when nothing is unread. A write must not make the
/// file longer than memory can hold.
pub open spec fn permitted(model: Model, event: Event) -> bool {
    match event {
        Event::Fill(outcome) => {
            &&& model.round.phase == Phase::Filling
            &&& model.open
            &&& possible(outcome, model.unread.len(), CHUNK_SIZE as nat)
            &&& outcome matches Transfer::Moved(count) ==> (count == 0 <==> model.unread.len()
                == 0)
        },
        Event::Duplicate(sink, outcome) => {
            &&& enabled(model.round, RoundEvent::Copied(sink))
            &&& sink < model.sinks.len()
            &&& possible(outcome, model.shared.len(), CHUNK_SIZE as nat)
        },
        Event::Write(sink, outcome) => {
            &&& enabled(model.round, RoundEvent::Joined(sink))
            &&& sink < model.sinks.len()
            &&& possible(
                outcome,
                model.sinks[sink as int].private.len(),
                model.sinks[sink as int].worker.pending,
            )
            &&& outcome matches Transfer::Moved(count) ==> model.sinks[sink as int].worker.offset
                + count <= usize::MAX
        },
        Event::Drain(outcome) => {
            &&& enabled(model.round, RoundEvent::Drained)
            &&& possible(outcome, model.shared.len(), wanted(model.round.length, model.drained))
        },
        Event::Release => enabled(model.round, RoundEvent::Released),
    }
}

/// The state in which the process has ended in this way.
pub open spec fn ended(model: Model, ending: Ending) -> Model {
    Model { round: advance(model.round, RoundEvent::Stopped), exit: Some(ending), ..model }
}

/// The state after `event`. An event that is not permitted changes nothing.
pub open spec fn next(model: Model, event: Event) -> Model {
    if !permitted(model, event) {
        model
    } else {
        match event {
            Event::Fill(outcome) => match feeder_step(outcome) {
                FeederStep::Filled { count } => Model {
                    unread: model.unread.skip(count as int),
                    shared: model.shared + model.unread.take(count as int),
                    round: advance(model.round, RoundEvent::Filled(count)),
                    ..model
                },
                FeederStep::Close => Model {
                    open: false,
                    round: advance(model.round, RoundEvent::Filled(0)),
                    ..model
                },
                FeederStep::Abort(fault) => ended(model, Ending::Aborted(fault)),
            },
            Event::Duplicate(sink, outcome) => {
                let (after, step) = sink_duplicate(
                    model.sinks[sink as int],
                    model.shared,
                    model.round.length,
                    outcome,
                );
                let moved = Model { sinks: model.sinks.update(sink as int, after), ..model };
                match step {
                    SinkStep::Drain { .. } => Model {
                        round: advance(model.round, RoundEvent::Copied(sink)),
                        ..moved
                    },
                    SinkStep::Join => moved,
                    SinkStep::Finish => ended(moved, Ending::Completed),
                    SinkStep::Abort(fault) => ended(moved, Ending::Aborted(fault)),
                }
            },
            Event::Write(sink, outcome) => {
                let (after, step) = sink_write(model.sinks[sink as int], outcome);
                let moved = Model { sinks: model.sinks.update(sink as int, after), ..model };
                match step {
                    SinkStep::Drain { .. } => moved,
                    SinkStep::Join => Model {
                        round: advance(model.round, RoundEvent::Joined(sink)),
                        ..moved
                    },
                    SinkStep::Finish => ended(moved, Ending::Completed),
                    SinkStep::Abort(fault) => ended(moved, Ending::Aborted(fault)),
                }
            },
            Event::Drain(outcome) => {
                let (drained, step) = after_output(model.drained, model.round.length, outcome);
                let moved = match outcome {
                    Transfer::Moved(count) => Model {
                        output: model.output + moved(model.shared, count as nat),
                        shared: remainder(model.shared, count as nat),
                        drained,
                        ..model
                    },
                    Transfer::Failed(_) => model,
                };
                match step {
                    StdoutStep::Drain { .. } => moved,
                    StdoutStep::Release => Model {
                        round: advance(model.round, RoundEvent::Drained),
                        ..moved
                    },
                    StdoutStep::Finish => ended(moved, Ending::Completed),
                    StdoutStep::Abort(fault) => ended(moved, Ending::Aborted(fault)),
                }
            },
            Event::Release => Model {
                round: advance(model.round, RoundEvent::Released),
                ..model
            },
        }
    }
}

/// The state after the events of `trace`, in their order.
pub open spec fn after(model: Model, trace: Seq<Event>) -> Model
    decreases trace.len(),
{
    if trace.len() == 0 {
        model
    } else {
        next(after(model, trace.drop_last()), trace.last())
    }
}

/// Standard output holds exactly `input`, and each file holds what it held
/// when it was opened, followed by exactly `input`.
pub open spec fn delivered(model: Model, input: Seq<u8>, files: Seq<Seq<u8>>) -> bool {
    &&& model.output == input
    &&& model.sinks.len() == files.len()
    &&& forall|i: int| 0 <= i < files.len() ==> (#[trigger] model.sinks[i]).file == files[i] + input
}

/// What holds of the sink at `sink` while the run goes on: its offset is the
/// end of its file, and its file holds what standard output has received,
/// and the round's bytes too as far as the sink has written them.
pub open spec fn sink_in_step(model: Model, sink: int, file: Seq<u8>) -> bool {
    let state = model.sinks[sink];
    &&& state.worker.offset == state.file.len()
    &&& state.worker.pending == state.private.len()
    &&& match model.round.stages[sink] {
        Stage::Ready => state.file == file + model.output && state.private.len() == 0,
        Stage::Copied => state.file + state.private == file + model.output + model.shared && 0
            < state.private.len() <= model.shared.len(),
        Stage::Joined => state.file == file + model.output + model.shared && state.private.len()
            == 0,
    }
}

/// What the phase of the round says of the shared channel: it holds the
/// whole round while the sinks replicate it, what standard output has not
/// drained yet while that drains, and nothing otherwise.
pub open spec fn shared_in_step(model: Model) -> bool {
    match model.round.phase {
        Phase::Filling => model.shared.len() == 0 && model.drained == 0,
        Phase::Replicating => model.shared.len() == model.round.length && model.drained == 0,
        Phase::Draining => model.shared.len() + model.drained == model.round.length,
        Phase::Released => model.shared.len() == 0 && model.drained == 0,
        Phase::Finished => true,
    }
}

/// What holds in every state that a run from `start(input, files)` reaches.
pub open spec fn in_step(model: Model, input: Seq<u8>, files: Seq<Seq<u8>>) -> bool {
    &&& model.sinks.len() == files.len()
    &&& model.round.stages.len() == files.len()
    &&& consistent(model.round)
    &&& (model.round.phase == Phase::Finished) == (model.exit is Some)
    &&& !model.open ==> model.round.length == 0 && (model.round.phase == Phase::Replicating
        || model.round.phase == Phase::Draining || model.round.phase == Phase::Finished)
    &&& model.exit == Some(Ending::Completed) ==> delivered(model, input, files)
        && model.shared.len() == 0
    &&& model.exit is None || model.exit == Some(Ending::Completed) ==> {
        &&& model.output + model.shared + model.unread == input
        &&& model.round.length <= CHUNK_SIZE
        &&& shared_in_step(model)
        &&& model.round.length == 0 && (model.round.phase == Phase::Replicating
            || model.round.phase == Phase::Draining) ==> model.unread.len() == 0
        &&& forall|i: int| 0 <= i < files.len() ==> sink_in_step(model, i, files[i])
    }
}

proof fn lemma_fill_keeps(model: Model, outcome: Transfer, input: Seq<u8>, files: Seq<Seq<u8>>)
    requires
        in_step(model, input, files),
        permitted(model, Event::Fill(outcome)),
    ensures
        in_step(next(model, Event::Fill(outcome)), input, files),
{
    let after = next(model, Event::Fill(outcome));
    lemma_consistency_is_kept(model.round, RoundEvent::Stopped);
    assert(model.exit is None);
    assert(model.shared =~= Seq::<u8>::empty());
    if let Transfer::Moved(count) = outcome {
        lemma_consistency_is_kept(model.round, RoundEvent::Filled(count));
        if count > 0 {
            assert(after.output + after.shared + after.unread =~= input) by {
                assert(model.unread.take(count as int) + model.unread.skip(count as int)
                    =~= model.unread);
            }
        }
        assert forall|i: int| 0 <= i < files.len() implies sink_in_step(after, i, files[i]) by {
            assert(sink_in_step(model, i, files[i]));
        }
    }
}

proof fn lemma_duplicate_keeps(
    model: Model,
    sink: usize,
    outcome: Transfer,
    input: Seq<u8>,
    files: Seq<Seq<u8>>,
)
    requires
        in_step(model, input, files),
        permitted(model, Event::Duplicate(sink, outcome)),
    ensures
        in_step(next(model, Event::Duplicate(sink, outcome)), input, files),
{
    let after = next(model, Event::Duplicate(sink, outcome));
    lemma_consistency_is_kept(model.round, RoundEvent::Copied(sink));
    lemma_consistency_is_kept(model.round, RoundEvent::Stopped);
    assert(model.exit is None);
    assert(sink_in_step(model, sink as int, files[sink as int]));
    assert(model.sinks[sink as int].private =~= Seq::<u8>::empty());
    if after.exit == Some(Ending::Completed) {
        assert(model.shared =~= Seq::<u8>::empty());
        assert(model.output =~= input);
        assert(after.sinks =~= model.sinks);
        assert forall|i: int| 0 <= i < files.len() implies (#[trigger] after.sinks[i]).file
            == files[i] + input && sink_in_step(after, i, files[i]) by {
            assert(sink_in_step(model, i, files[i]));
            assert(files[i] + model.output + model.shared =~= files[i] + model.output);
        }
    } else if after.exit is None {
        assert(outcome == Transfer::Moved(model.round.length as usize));
        assert(moved(model.shared, model.round.length) =~= model.shared);
        assert forall|i: int| 0 <= i < files.len() implies sink_in_step(after, i, files[i]) by {
            assert(sink_in_step(model, i, files[i]));
            if i == sink {
                assert(after.sinks[i].private =~= model.shared);
                assert(after.sinks[i].file + after.sinks[i].private =~= files[i] + model.output
                    + model.shared);
            }
        }
    }
}

proof fn lemma_write_keeps(
    model: Model,
    sink: usize,
    outcome: Transfer,
    input: Seq<u8>,
    files: Seq<Seq<u8>>,
)
    requires
        in_step(model, input, files),
        permitted(model, Event::Write(sink, outcome)),
    ensures
        in_step(next(model, Event::Write(sink, outcome)), input, files),
{
    let after = next(model, Event::Write(sink, outcome));
    let before = model.sinks[sink as int];
    lemma_consistency_is_kept(model.round, RoundEvent::Joined(sink));
    lemma_consistency_is_kept(model.round, RoundEvent::Stopped);
    assert(model.exit is None);
    assert(sink_in_step(model, sink as int, files[sink as int]));
    if after.exit is None {
        let count = outcome->Moved_0;
        let written = moved(before.private, count as nat);
        assert(written =~= before.private.take(count as int));
        assert(remainder(before.private, count as nat) =~= before.private.skip(count as int));
        lemma_placed_at_end(before.file, written);
        assert forall|i: int| 0 <= i < files.len() implies sink_in_step(after, i, files[i]) by {
            assert(sink_in_step(model, i, files[i]));
            if i == sink {
                let now = after.sinks[i];
                assert(now.file + now.private =~= before.file + before.private) by {
                    assert(before.private.take(count as int) + before.private.skip(count as int)
                        =~= before.private);
                }
                if now.private.len() == 0 {
                    assert(now.file =~= now.file + now.private);
                }
            }
        }
    }
}

proof fn lemma_drain_keeps(model: Model, outcome: Transfer, input: Seq<u8>, files: Seq<Seq<u8>>)
    requires
        in_step(model, input, files),
        permitted(model, Event::Drain(outcome)),
    ensures
        in_step(next(model, Event::Drain(outcome)), input, files),
{
    let after = next(model, Event::Drain(outcome));
    lemma_consistency_is_kept(model.round, RoundEvent::Drained);
    lemma_consistency_is_kept(model.round, RoundEvent::Stopped);
    assert(model.exit is None);
    if after.exit is None || after.exit == Some(Ending::Completed) {
        let count = outcome->Moved_0;
        assert(moved(model.shared, count as nat) =~= model.shared.take(count as int));
        assert(remainder(model.shared, count as nat) =~= model.shared.skip(count as int));
        assert(after.output + after.shared =~= model.output + model.shared) by {
            assert(model.shared.take(count as int) + model.shared.skip(count as int)
                =~= model.shared);
        }
        assert(after.output + after.shared + after.unread =~= input);
        assert forall|i: int| 0 <= i < files.len() implies sink_in_step(after, i, files[i])
            && (after.exit == Some(Ending::Completed) ==> (#[trigger] after.sinks[i]).file
            == files[i] + input) by {
            assert(sink_in_step(model, i, files[i]));
            assert(files[i] + after.output + after.shared =~= files[i] + model.output
                + model.shared) by {
                assert(files[i] + (after.output + after.shared) =~= files[i] + after.output
                    + after.shared);
                assert(files[i] + (model.output + model.shared) =~= files[i] + model.output
                    + model.shared);
            }
            if after.exit == Some(Ending::Completed) {
                assert(after.shared =~= Seq::<u8>::empty());
                assert(after.output =~= input);
                assert(files[i] + after.output + after.shared =~= files[i] + after.output);
            }
        }
    }
}

proof fn lemma_release_keeps(model: Model, input: Seq<u8>, files: Seq<Seq<u8>>)
    requires
        in_step(model, input, files),
        permitted(model, Event::Release),
    ensures
        in_step(next(model, Event::Release), input, files),
{
    let after = next(model, Event::Release);
    lemma_consistency_is_kept(model.round, RoundEvent::Released);
    assert(model.exit is None);
    assert forall|i: int| 0 <= i < files.len() implies sink_in_step(after, i, files[i]) by {
        assert(sink_in_step(model, i, files[i]));
        assert(files[i] + model.output + model.shared =~= files[i] + model.output);
    }
}

/// A run starts in step.
pub proof fn lemma_run_starts_in_step(input: Seq<u8>, files: Seq<Seq<u8>>)
    ensures
        in_step(start(input, files), input, files),
{
    let first = start(input, files);
    lemma_initial_is_consistent(files.len());
    assert(first.output + first.shared + first.unread =~= input);
    assert forall|i: int| 0 <= i < files.len() implies sink_in_step(first, i, files[i]) by {
        assert(files[i] + first.output =~= files[i]);
    }
}

/// Every event keeps a run in step.
pub proof fn lemma_run_stays_in_step(
    model: Model,
    event: Event,
    input: Seq<u8>,
    files: Seq<Seq<u8>>,
)
    requires
        in_step(model, input, files),
    ensures
        in_step(next(model, event), input, files),
{
    if permitted(model, event) {
        match event {
            Event::Fill(outcome) => lemma_fill_keeps(model, outcome, input, files),
            Event::Duplicate(sink, outcome) => lemma_duplicate_keeps(
                model,
                sink,
                outcome,
                input,
                files,
            ),
            Event::Write(sink, outcome) => lemma_write_keeps(model, sink, outcome, input, files),
            Event::Drain(outcome) => lemma_drain_keeps(model, outcome, input, files),
            Event::Release => lemma_release_keeps(model, input, files),
        }
    }
}

/// Every byte reaches every destination, in order. Whatever the order in
/// which the participants act, however the input is cut into chunks, and
/// whatever each transfer moves or fails to move: when the process has ended
/// successfully, standard output holds exactly the input, and each file
/// holds what it held when it was opened, followed by exactly the input.
pub proof fn lemma_success_delivers_input(
    input: Seq<u8>,
    files: Seq<Seq<u8>>,
    trace: Seq<Event>,
)
    ensures
        in_step(after(start(input, files), trace), input, files),
        after(start(input, files), trace).exit == Some(Ending::Completed) ==> delivered(
            after(start(input, files), trace),
            input,
            files,
        ),
    decreases trace.len(),
{
    let first = start(input, files);
    if trace.len() == 0 {
        lemma_run_starts_in_step(input, files);
    } else {
        lemma_success_delivers_input(input, files, trace.drop_last());
        lemma_run_stays_in_step(after(first, trace.drop_last()), trace.last(), input, files);
    }
}

/// No sink misses a byte of a round. Whenever the rendezvous lets standard
/// output drain, in a run from `start(input, files)`, every file already
/// holds all that is left in the shared channel.
pub proof fn lemma_drain_finds_every_file_written(
    input: Seq<u8>,
    files: Seq<Seq<u8>>,
    trace: Seq<Event>,
)
    requires
        enabled(after(start(input, files), trace).round, RoundEvent::Drained),
    ensures
        ({
            let model = after(start(input, files), trace);
            forall|i: int|
                0 <= i < files.len() ==> (#[trigger] model.sinks[i]).file == files[i]
                    + model.output + model.shared
        }),
{
    let model = after(start(input, files), trace);
    lemma_success_delivers_input(input, files, trace);
    assert forall|i: int| 0 <= i < files.len() implies (#[trigger] model.sinks[i]).file
        == files[i] + model.output + model.shared by {
        assert(sink_in_step(model, i, files[i]));
    }
}

/// Whether every event of `trace` is a duplicate by some sink.
pub open spec fn only_duplicates(trace: Seq<Event>) -> bool {
    forall|i: int| 0 <= i < trace.len() ==> trace[i] is Duplicate
}

/// Duplicating takes nothing away. However many sinks duplicate the shared
/// channel, in whatever order and with whatever outcome, it holds afterwards
/// what it held before: the drain to standard output that follows finds
/// every byte.
pub proof fn lemma_duplicates_keep_shared(model: Model, trace: Seq<Event>)
    requires
        only_duplicates(trace),
    ensures
        after(model, trace).shared == model.shared,
        after(model, trace).output == model.output,
        after(model, trace).unread == model.unread,
    decreases trace.len(),
{
    if trace.len() > 0 {
        assert(only_duplicates(trace.drop_last())) by {
            assert forall|i: int| 0 <= i < trace.drop_last().len() implies trace.drop_last()[i]
                is Duplicate by {
                assert(trace.drop_last()[i] == trace[i]);
            }
        }
        lemma_duplicates_keep_shared(model, trace.drop_last());
        assert(trace.last() is Duplicate);
    }
}

/// Whose turn it is to make a transfer.
#[derive(Clone, Copy, Debug, PartialEq, Eq, Structural)]
pub enum Turn {
    /// The feeder.
    Fill,
    /// The sink at this position, to duplicate.
    Duplicate(usize),
    /// The sink at this position, to write.
    Write(usize),
    /// Standard output.
    Drain,
    /// The barrier.
    Release,
}

/// The transfer of `turn` with the outcome that it has when nothing holds it
/// back: it moves all that there is, up to what it asks for. Only a file
/// that would grow beyond what memory can hold refuses.
pub open spec fn whole(model: Model, turn: Turn) -> Event {
    match turn {
        Turn::Fill => Event::Fill(
            Transfer::Moved(transfer_len(model.unread.len(), CHUNK_SIZE as nat) as usize),
        ),
        Turn::Duplicate(sink) => Event::Duplicate(sink, whole_duplicate(model.shared)),
        Turn::Write(sink) => Event::Write(
            sink,
            if sink < model.sinks.len() {
                whole_write(model.sinks[sink as int])
            } else {
                Transfer::Moved(0)
            },
        ),
        Turn::Drain => Event::Drain(
            Transfer::Moved(
                transfer_len(model.shared.len(), wanted(model.round.length, model.drained))
                    as usize,
            ),
        ),
        Turn::Release => Event::Release,
    }
}

/// Whether a file that holds `file` can take all of `input` after it: its
/// length must stay within what memory can hold and within the range of a
/// file offset.
pub open spec fn has_room(file: Seq<u8>, input: Seq<u8>) -> bool {
    file.len() + input.len() <= usize::MAX && file.len() + input.len() <= MAX_OFFSET
}

/// Whether the run has not been stopped by anything but a write to a file.
pub open spec fn only_a_write_failed(exit: Option<Ending>) -> bool {
    match exit {
        None => true,
        Some(Ending::Completed) => true,
        Some(Ending::Aborted(fault)) => fault matches Fault::Transfer {
            operation: Operation::DrainToFile,
            ..
        },
    }
}

/// What a fill that nothing holds back leaves behind: the round holds the
/// next chunk of the input, or nothing if the input is exhausted.
pub proof fn lemma_fill_starts_round(model: Model, input: Seq<u8>, files: Seq<Seq<u8>>)
    requires
        in_step(model, input, files),
        model.exit is None,
        model.round.phase == Phase::Filling,
    ensures
        ({
            let after = next(model, whole(model, Turn::Fill));
            &&& permitted(model, whole(model, Turn::Fill))
            &&& in_step(after, input, files)
            &&& after.exit is None
            &&& after.round.phase == if files.len() == 0 {
                Phase::Draining
            } else {
                Phase::Replicating
            }
            &&& after.round.counter == 0
            &&& after.round.length == transfer_len(model.unread.len(), CHUNK_SIZE as nat)
            &&& all_at(after.round.stages, Stage::Ready)
            &&& after.unread.len() == model.unread.len() - after.round.length
        }),
{
    lemma_run_stays_in_step(model, whole(model, Turn::Fill), input, files);
}

/// What a duplicate that nothing holds back leaves behind: if the round
/// holds bytes the sink has a copy of them, if it holds none the run has
/// completed.
pub proof fn lemma_duplicate_copies_round(
    model: Model,
    sink: usize,
    input: Seq<u8>,
    files: Seq<Seq<u8>>,
)
    requires
        in_step(model, input, files),
        model.exit is None,
        enabled(model.round, RoundEvent::Copied(sink)),
    ensures
        ({
            let after = next(model, whole(model, Turn::Duplicate(sink)));
            &&& permitted(model, whole(model, Turn::Duplicate(sink)))
            &&& in_step(after, input, files)
            &&& after.unread == model.unread
            &&& if model.round.length == 0 {
                after.exit == Some(Ending::Completed)
            } else {
                after.exit is None && after.round == advance(
                    model.round,
                    RoundEvent::Copied(sink),
                )
            }
        }),
{
    lemma_run_stays_in_step(model, whole(model, Turn::Duplicate(sink)), input, files);
    assert(sink_in_step(model, sink as int, files[sink as int]));
}

/// What a write that nothing but the size of the file holds back leaves
/// behind: the sink has joined, unless its file has no room for the round's
/// bytes.
pub proof fn lemma_write_joins_round(
    model: Model,
    sink: usize,
    input: Seq<u8>,
    files: Seq<Seq<u8>>,
)
    requires
        in_step(model, input, files),
        model.exit is None,
        enabled(model.round, RoundEvent::Joined(sink)),
    ensures
        ({
            let after = next(model, whole(model, Turn::Write(sink)));
            &&& permitted(model, whole(model, Turn::Write(sink)))
            &&& in_step(after, input, files)
            &&& after.unread == model.unread
            &&& only_a_write_failed(after.exit)
            &&& after.exit != Some(Ending::Completed)
            &&& after.exit is None ==> after.round == advance(
                model.round,
                RoundEvent::Joined(sink),
            )
            &&& has_room(files[sink as int], input) ==> after.exit is None
        }),
{
    lemma_run_stays_in_step(model, whole(model, Turn::Write(sink)), input, files);
    assert(sink_in_step(model, sink as int, files[sink as int]));
    let before = model.sinks[sink as int];
    assert(model.output + model.shared + model.unread == input);
    assert((before.file + before.private).len() == (files[sink as int] + model.output
        + model.shared).len());
}

/// What a drain that nothing holds back leaves behind: if the round holds
/// bytes they have all moved to standard output, if it holds none the run
/// has completed.
pub proof fn lemma_drain_ends_round(model: Model, input: Seq<u8>, files: Seq<Seq<u8>>)
    requires
        in_step(model, input, files),
        model.exit is None,
        enabled(model.round, RoundEvent::Drained),
        model.drained == 0,
    ensures
        ({
            let after = next(model, whole(model, Turn::Drain));
            &&& permitted(model, whole(model, Turn::Drain))
            &&& in_step(after, input, files)
            &&& after.unread == model.unread
            &&& if model.round.length == 0 {
                after.exit == Some(Ending::Completed)
            } else {
                after.exit is None && after.round.phase == Phase::Released
            }
        }),
{
    lemma_run_stays_in_step(model, whole(model, Turn::Drain), input, files);
}

/// What a release leaves behind: the next round can be filled.
pub proof fn lemma_release_opens_round(model: Model, input: Seq<u8>, files: Seq<Seq<u8>>)
    requires
        in_step(model, input, files),
        permitted(model, Event::Release),
    ensures
        ({
            let after = next(model, Event::Release);
            &&& in_step(after, input, files)
            &&& after.unread == model.unread
            &&& after.exit is None
            &&& after.round.phase == Phase::Filling
        }),
{
    lemma_run_stays_in_step(model, Event::Release, input, files);
}

} // verus!
