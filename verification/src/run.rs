//! A whole run in memory: open every target, then feed, duplicate, write and
//! drain round after round until the input is exhausted.

use vstd::prelude::*;
use crate::fault::{Ending, Fault, Operation};
use crate::file::{opened, FileSink, SinkModel, FILE_TOO_BIG};
use crate::model::{
    has_room, in_step, lemma_drain_ends_round, lemma_duplicate_copies_round,
    lemma_fill_starts_round, lemma_release_opens_round, lemma_run_starts_in_step,
    lemma_write_joins_round, only_a_write_failed, sink_in_step, start, Event, Turn,
};
use crate::pipeline::Pipeline;
use crate::round::{Phase, Stage};
use crate::sink::{SinkState, MAX_OFFSET};

verus! {

/// A target path, as far as a run depends on it.
#[derive(Debug, PartialEq, Eq)]
pub enum Target {
    /// It can be opened for reading and writing, and holds these bytes; none
    /// if it does not exist yet.
    Writable(Vec<u8>),
    /// Opening it fails with this error number.
    Refused(i32),
}

/// What a run leaves behind.
#[derive(Debug, PartialEq, Eq)]
pub struct Outcome {
    /// How the process ended.
    pub ending: Ending,
    /// What standard output received.
    pub output: Vec<u8>,
    /// The content of each target, in the order given; nothing for a target
    /// that cannot be opened.
    pub files: Vec<Vec<u8>>,
}

/// The bytes that a target holds before the run.
pub open spec fn prior(target: Target) -> Seq<u8> {
    match target {
        Target::Writable(bytes) => bytes@,
        Target::Refused(_) => Seq::empty(),
    }
}

/// The error number with which opening `target` fails, if it does. A file too
/// long for any write to follow cannot be opened either.
pub open spec fn refusal(target: Target, append: bool) -> Option<i32> {
    match target {
        Target::Writable(bytes) => if opened(bytes@, append).len() <= MAX_OFFSET {
            None
        } else {
            Some(FILE_TOO_BIG)
        },
        Target::Refused(errno) => Some(errno),
    }
}

/// Position and error number of the first target at or after `from` that
/// cannot be opened.
pub open spec fn first_refusal(targets: Seq<Target>, append: bool, from: nat) -> Option<
    (nat, i32),
>
    decreases targets.len() - from,
{
    if from >= targets.len() {
        None
    } else {
        match refusal(targets[from as int], append) {
            Some(errno) => Some((from, errno)),
            None => first_refusal(targets, append, from + 1),
        }
    }
}

/// The content of every target once the first `count` of them are opened.
pub open spec fn opened_upto(targets: Seq<Target>, append: bool, count: nat) -> Seq<Seq<u8>> {
    Seq::new(
        targets.len(),
        |i: int|
            if i < count {
                opened(prior(targets[i]), append)
            } else {
                prior(targets[i])
            },
    )
}

/// The views of these byte vectors.
pub open spec fn contents(files: Seq<Vec<u8>>) -> Seq<Seq<u8>> {
    Seq::new(files.len(), |i: int| files[i]@)
}

/// Whether every opened target has room for all of `input`.
pub open spec fn all_have_room(files: Seq<Seq<u8>>, input: Seq<u8>) -> bool {
    forall|i: int| 0 <= i < files.len() ==> has_room(#[trigger] files[i], input)
}

/// What [`instanttee`] returns for these arguments, as far as it is fixed.
///
/// A target that cannot be opened stops the run before any byte moves: the
/// targets before it are opened already, the others are untouched. With every
/// target open, the run completes exactly when every file has room for the
/// input, and then standard output holds the input and each file holds its
/// opened content followed by the input. Without room, a write to a file
/// fails; what the files and standard output then hold is not fixed.
pub open spec fn run_result(
    input: Seq<u8>,
    targets: Seq<Target>,
    append: bool,
    outcome: Outcome,
) -> bool {
    let files = opened_upto(targets, append, targets.len());
    &&& outcome.files@.len() == targets.len()
    &&& match first_refusal(targets, append, 0) {
        Some((index, errno)) => {
            &&& outcome.ending == Ending::Aborted(Fault::SinkOpen { index: index as usize, errno })
            &&& outcome.output@ == Seq::<u8>::empty()
            &&& contents(outcome.files@) == opened_upto(targets, append, index)
        },
        None => {
            &&& outcome.ending == Ending::Completed <==> all_have_room(files, input)
            &&& outcome.ending == Ending::Completed ==> {
                &&& outcome.output@ == input
                &&& forall|i: int|
                    0 <= i < targets.len() ==> (#[trigger] outcome.files@[i])@ == files[i] + input
            }
            &&& outcome.ending matches Ending::Aborted(fault) ==> fault matches Fault::Transfer {
                operation: Operation::DrainToFile,
                ..
            }
        },
    }
}

/// The state of a sink that has just been opened on `file`.
pub open spec fn fresh_sink(file: Seq<u8>) -> SinkModel {
    SinkModel {
        file,
        private: Seq::empty(),
        worker: SinkState { offset: file.len(), pending: 0 },
    }
}

/// Opens the targets in their order and stops at the first that refuses.
fn open_all(targets: &Vec<Target>, append: bool) -> (result: Result<Vec<FileSink>, (usize, i32)>)
    ensures
        match result {
            Ok(sinks) => {
                &&& first_refusal(targets@, append, 0) is None
                &&& sinks@.len() == targets@.len()
                &&& forall|i: int|
                    0 <= i < sinks@.len() ==> (#[trigger] sinks@[i])@ == fresh_sink(
                        opened(prior(targets@[i]), append),
                    )
            },
            Err((index, errno)) => first_refusal(targets@, append, 0) == Some(
                (index as nat, errno),
            ),
        },
{
    let mut sinks: Vec<FileSink> = Vec::new();
    let mut index: usize = 0;
    while index < targets.len()
        invariant
            index <= targets@.len(),
            sinks@.len() == index,
            first_refusal(targets@, append, 0) == first_refusal(targets@, append, index as nat),
            forall|i: int|
                0 <= i < index ==> (#[trigger] sinks@[i])@ == fresh_sink(
                    opened(prior(targets@[i]), append),
                ),
        decreases targets@.len() - index,
    {
        match &targets[index] {
            Target::Refused(errno) => {
                return Err((index, *errno));
            },
            Target::Writable(bytes) => match FileSink::open(bytes.clone(), append) {
                Some(sink) => {
                    sinks.push(sink);
                },
                None => {
                    return Err((index, FILE_TOO_BIG));
                },
            },
        }
        index += 1;
    }
    Ok(sinks)
}

/// The content of every target after the first `count` of them were opened.
fn contents_after_opening(targets: &Vec<Target>, append: bool, count: usize) -> (files: Vec<
    Vec<u8>,
>)
    ensures
        files@.len() == targets@.len(),
        contents(files@) == opened_upto(targets@, append, count as nat),
{
    let mut files: Vec<Vec<u8>> = Vec::new();
    let mut index: usize = 0;
    while index < targets.len()
        invariant
            index <= targets@.len(),
            files@.len() == index,
            forall|i: int|
                0 <= i < index ==> (#[trigger] files@[i])@ == opened_upto(
                    targets@,
                    append,
                    count as nat,
                )[i],
        decreases targets@.len() - index,
    {
        let kept: Vec<u8> = match &targets[index] {
            Target::Writable(bytes) => if append || index >= count {
                bytes.clone()
            } else {
                Vec::new()
            },
            Target::Refused(_) => Vec::new(),
        };
        files.push(kept);
        index += 1;
    }
    assert(contents(files@) =~= opened_upto(targets@, append, count as nat));
    files
}

/// Drives the rounds until the run has ended: fill, then each sink in turn
/// duplicates and writes, then standard output drains and all are released.
/// Nothing holds the transfers back.
fn run_rounds(pipeline: &mut Pipeline, Ghost(input): Ghost<Seq<u8>>, Ghost(files): Ghost<Seq<Seq<u8>>>)
    requires
        in_step(old(pipeline)@, input, files),
        old(pipeline)@.exit is None,
        old(pipeline)@.round.phase == Phase::Filling,
    ensures
        in_step(final(pipeline)@, input, files),
        final(pipeline)@.exit is Some,
        only_a_write_failed(final(pipeline)@.exit),
        all_have_room(files, input) ==> final(pipeline)@.exit == Some(Ending::Completed),
{
    loop
        invariant
            in_step(pipeline@, input, files),
            pipeline@.exit is None,
            pipeline@.round.phase == Phase::Filling,
        decreases pipeline@.unread.len(),
    {
        let sinks = pipeline.sinks();
        proof {
            lemma_fill_starts_round(pipeline@, input, files);
        }
        let fill = pipeline.whole(Turn::Fill);
        let _ = pipeline.step(fill);
        if pipeline.round_length() == 0 {
            if sinks > 0 {
                proof {
                    lemma_duplicate_copies_round(pipeline@, 0, input, files);
                }
                let duplicate = pipeline.whole(Turn::Duplicate(0));
                let _ = pipeline.step(duplicate);
            } else {
                proof {
                    lemma_drain_ends_round(pipeline@, input, files);
                }
                let drain = pipeline.whole(Turn::Drain);
                let _ = pipeline.step(drain);
            }
            return ;
        }
        let ghost rest = pipeline@.unread;
        let ghost length = pipeline@.round.length;
        let mut sink: usize = 0;
        while sink < sinks
            invariant
                in_step(pipeline@, input, files),
                pipeline@.exit is None,
                sink <= sinks == files.len(),
                pipeline@.round.phase == if sink == sinks {
                    Phase::Draining
                } else {
                    Phase::Replicating
                },
                pipeline@.round.counter == sink,
                forall|i: int| 0 <= i < sink ==> pipeline@.round.stages[i] == Stage::Joined,
                forall|i: int| sink <= i < sinks ==> pipeline@.round.stages[i] == Stage::Ready,
                pipeline@.round.length == length > 0,
                pipeline@.drained == 0,
                pipeline@.unread == rest,
            decreases sinks - sink,
        {
            proof {
                lemma_duplicate_copies_round(pipeline@, sink, input, files);
            }
            let duplicate = pipeline.whole(Turn::Duplicate(sink));
            let _ = pipeline.step(duplicate);
            proof {
                lemma_write_joins_round(pipeline@, sink, input, files);
            }
            let write = pipeline.whole(Turn::Write(sink));
            let _ = pipeline.step(write);
            if pipeline.ending().is_some() {
                return ;
            }
            sink += 1;
        }
        proof {
            lemma_drain_ends_round(pipeline@, input, files);
        }
        let drain = pipeline.whole(Turn::Drain);
        let _ = pipeline.step(drain);
        proof {
            lemma_release_opens_round(pipeline@, input, files);
        }
        let _ = pipeline.step(Event::Release);
    }
}

/// Copies standard input to every target and to standard output.
///
/// `targets` stand for the paths given on the command line; with `append`
/// their content is kept and the input follows it, without it they are
/// truncated first. No targets at all make a pure passthrough.
pub fn instanttee(input: Vec<u8>, targets: Vec<Target>, append: bool) -> (outcome: Outcome)
    ensures
        run_result(input@, targets@, append, outcome),
{
    match open_all(&targets, append) {
        Err((index, errno)) => Outcome {
            ending: Ending::Aborted(Fault::SinkOpen { index, errno }),
            output: Vec::new(),
            files: contents_after_opening(&targets, append, index),
        },
        Ok(sinks) => {
            let ghost bytes = input@;
            let ghost files = opened_upto(targets@, append, targets@.len());
            let mut pipeline = Pipeline::new(input, sinks);
            proof {
                assert(pipeline@ =~= start(bytes, files));
                lemma_run_starts_in_step(bytes, files);
            }
            run_rounds(&mut pipeline, Ghost(bytes), Ghost(files));
            let ghost last = pipeline@;
            let ending = match pipeline.ending() {
                Some(ending) => ending,
                None => Ending::Completed,
            };
            let (output, contents) = pipeline.into_parts();
            proof {
                if ending == Ending::Completed {
                    assert forall|i: int| 0 <= i < files.len() implies has_room(
                        #[trigger] files[i],
                        bytes,
                    ) by {
                        assert(sink_in_step(last, i, files[i]));
                        assert(last.sinks[i].file == files[i] + bytes);
                        assert(contents@[i]@ == last.sinks[i].file);
                    }
                }
            }
            Outcome { ending, output, files: contents }
        },
    }
}

/// With nothing on standard input, a run that can open its targets
/// completes, standard output receives nothing, and every file is left as it
/// was opened: empty, unless the run appends.
pub proof fn lemma_empty_input_leaves_files_as_opened(
    targets: Seq<Target>,
    append: bool,
    outcome: Outcome,
)
    requires
        run_result(Seq::empty(), targets, append, outcome),
        first_refusal(targets, append, 0) is None,
    ensures
        outcome.ending == Ending::Completed,
        outcome.output@.len() == 0,
        forall|i: int|
            0 <= i < targets.len() ==> (#[trigger] outcome.files@[i])@ == opened(
                prior(targets[i]),
                append,
            ),
        !append ==> forall|i: int|
            0 <= i < targets.len() ==> (#[trigger] outcome.files@[i])@.len() == 0,
{
    let files = opened_upto(targets, append, targets.len());
    assert forall|i: int| 0 <= i < files.len() implies has_room(
        #[trigger] files[i],
        Seq::<u8>::empty(),
    ) by {
        lemma_refusals_after(targets, append, 0, i);
        match targets[i] {
            Target::Writable(bytes) => {
                assert(bytes@.len() == bytes.len());
            },
            Target::Refused(_) => {},
        }
    }
    assert forall|i: int| 0 <= i < targets.len() implies (#[trigger] outcome.files@[i])@
        == opened(prior(targets[i]), append) by {
        assert(files[i] + Seq::<u8>::empty() =~= files[i]);
    }
}

/// Where no target at or after `from` refuses, none at `at` does.
proof fn lemma_refusals_after(targets: Seq<Target>, append: bool, from: nat, at: int)
    requires
        first_refusal(targets, append, from) is None,
        from <= at < targets.len(),
    ensures
        refusal(targets[at], append) is None,
    decreases targets.len() - from,
{
    if from < at {
        lemma_refusals_after(targets, append, from + 1, at);
    }
}

} // verus!
