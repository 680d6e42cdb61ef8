//! The rendezvous that gates the rounds: a counter of the sinks that have
//! finished the round, and the order in which the participants may act.
//!
//! A round runs through four phases. The feeder fills the shared channel;
//! every sink duplicates it and drains its copy into its file; when the
//! counter has reached the number of sinks, standard output drains the shared
//! channel; then all participants are released together into the next round.

use vstd::prelude::*;

verus! {

/// Where a round stands.
#[derive(Clone, Copy, Debug, PartialEq, Eq, Structural)]
pub enum Phase {
    /// The feeder moves one chunk into the shared channel.
    Filling,
    /// The sinks duplicate the chunk and write it out.
    Replicating,
    /// Every sink has joined: standard output drains the chunk.
    Draining,
    /// The chunk is gone from the shared channel: all wait to be released.
    Released,
    /// A participant has ended the run: nothing follows.
    Finished,
}

/// How far one sink has come in the current round.
#[derive(Clone, Copy, Debug, PartialEq, Eq, Structural)]
pub enum Stage {
    /// It has not duplicated the round's bytes yet.
    Ready,
    /// It holds a duplicate in its private channel.
    Copied,
    /// Its file holds the round's bytes and it waits at the barrier.
    Joined,
}

/// What a participant reports to the rendezvous.
#[derive(Clone, Copy, Debug, PartialEq, Eq, Structural)]
pub enum RoundEvent {
    /// The feeder has moved this many bytes into the shared channel; none
    /// means that it has closed the write end.
    Filled(usize),
    /// The sink at this position has duplicated the shared channel.
    Copied(usize),
    /// The sink at this position has drained its duplicate into its file.
    Joined(usize),
    /// Standard output has drained the shared channel.
    Drained,
    /// The barrier has released every participant.
    Released,
    /// A participant has ended the run: it moved zero bytes, which is the end
    /// of the stream, or it failed.
    Stopped,
}

/// The state of the rendezvous.
#[verifier::ext_equal]
pub struct RoundModel {
    /// The stage of each sink.
    pub stages: Seq<Stage>,
    /// The phase of the round.
    pub phase: Phase,
    /// How many sinks have joined since the last drain.
    pub counter: nat,
    /// How many bytes the round holds.
    pub length: nat,
}

/// Number of sinks that have joined.
pub open spec fn joined_count(stages: Seq<Stage>) -> nat
    decreases stages.len(),
{
    if stages.len() == 0 {
        0
    } else {
        joined_count(stages.drop_last()) + if stages.last() == Stage::Joined {
            1nat
        } else {
            0nat
        }
    }
}

/// Every sink is at `stage`.
pub open spec fn all_at(stages: Seq<Stage>, stage: Stage) -> bool {
    forall|i: int| 0 <= i < stages.len() ==> stages[i] == stage
}

/// The rendezvous before the first round, for this many sinks.
pub open spec fn initial(sinks: nat) -> RoundModel {
    RoundModel {
        stages: Seq::new(sinks, |i: int| Stage::Ready),
        phase: Phase::Filling,
        counter: 0,
        length: 0,
    }
}

/// Whether the rendezvous lets `event` happen now.
pub open spec fn enabled(model: RoundModel, event: RoundEvent) -> bool {
    match event {
        RoundEvent::Filled(_) => model.phase == Phase::Filling,
        RoundEvent::Copied(i) => model.phase == Phase::Replicating && i < model.stages.len()
            && model.stages[i as int] == Stage::Ready,
        RoundEvent::Joined(i) => model.phase == Phase::Replicating && i < model.stages.len()
            && model.stages[i as int] == Stage::Copied,
        RoundEvent::Drained => model.phase == Phase::Draining,
        RoundEvent::Released => model.phase == Phase::Released,
        RoundEvent::Stopped => model.phase != Phase::Finished,
    }
}

/// The rendezvous after `event`. An event that is not enabled changes
/// nothing.
pub open spec fn advance(model: RoundModel, event: RoundEvent) -> RoundModel {
    if !enabled(model, event) {
        model
    } else {
        match event {
            RoundEvent::Filled(count) => RoundModel {
                phase: if model.stages.len() == 0 {
                    Phase::Draining
                } else {
                    Phase::Replicating
                },
                length: count as nat,
                ..model
            },
            RoundEvent::Copied(i) => RoundModel {
                stages: model.stages.update(i as int, Stage::Copied),
                ..model
            },
            RoundEvent::Joined(i) => RoundModel {
                stages: model.stages.update(i as int, Stage::Joined),
                phase: if model.counter + 1 == model.stages.len() {
                    Phase::Draining
                } else {
                    Phase::Replicating
                },
                counter: model.counter + 1,
                ..model
            },
            RoundEvent::Drained => RoundModel { phase: Phase::Released, counter: 0, ..model },
            RoundEvent::Released => RoundModel {
                stages: Seq::new(model.stages.len(), |i: int| Stage::Ready),
                phase: Phase::Filling,
                ..model
            },
            RoundEvent::Stopped => RoundModel { phase: Phase::Finished, ..model },
        }
    }
}

/// What holds of the rendezvous in every state that it can reach: the counter
/// says how many sinks have joined, and standard output may drain only when
/// it says all of them.
pub open spec fn consistent(model: RoundModel) -> bool {
    match model.phase {
        Phase::Filling => model.counter == 0 && all_at(model.stages, Stage::Ready),
        Phase::Replicating => model.counter == joined_count(model.stages) && model.counter
            < model.stages.len(),
        Phase::Draining => model.counter == model.stages.len() && all_at(
            model.stages,
            Stage::Joined,
        ),
        Phase::Released => model.counter == 0 && all_at(model.stages, Stage::Joined),
        Phase::Finished => true,
    }
}

proof fn lemma_joined_count_bounds(stages: Seq<Stage>)
    ensures
        joined_count(stages) <= stages.len(),
        joined_count(stages) == stages.len() ==> all_at(stages, Stage::Joined),
        all_at(stages, Stage::Joined) ==> joined_count(stages) == stages.len(),
    decreases stages.len(),
{
    if stages.len() > 0 {
        let front = stages.drop_last();
        lemma_joined_count_bounds(front);
        if joined_count(stages) == stages.len() {
            assert forall|i: int| 0 <= i < stages.len() implies stages[i] == Stage::Joined by {
                if i < front.len() {
                    assert(front[i] == stages[i]);
                }
            }
        }
        if all_at(stages, Stage::Joined) {
            assert forall|i: int| 0 <= i < front.len() implies front[i] == Stage::Joined by {
                assert(front[i] == stages[i]);
            }
        }
    }
}

proof fn lemma_joined_count_none(stages: Seq<Stage>)
    requires
        forall|i: int| 0 <= i < stages.len() ==> stages[i] != Stage::Joined,
    ensures
        joined_count(stages) == 0,
    decreases stages.len(),
{
    if stages.len() > 0 {
        let front = stages.drop_last();
        assert forall|i: int| 0 <= i < front.len() implies front[i] != Stage::Joined by {
            assert(front[i] == stages[i]);
        }
        lemma_joined_count_none(front);
    }
}

proof fn lemma_joined_count_update(stages: Seq<Stage>, at: int, stage: Stage)
    requires
        0 <= at < stages.len(),
        stages[at] != Stage::Joined,
    ensures
        joined_count(stages.update(at, stage)) == joined_count(stages) + if stage
            == Stage::Joined {
            1nat
        } else {
            0nat
        },
    decreases stages.len(),
{
    let after = stages.update(at, stage);
    if at == stages.len() - 1 {
        assert(after.drop_last() == stages.drop_last());
    } else {
        lemma_joined_count_update(stages.drop_last(), at, stage);
        assert(after.drop_last() == stages.drop_last().update(at, stage));
    }
}

/// The rendezvous starts consistent.
pub proof fn lemma_initial_is_consistent(sinks: nat)
    ensures
        consistent(initial(sinks)),
        initial(sinks).stages.len() == sinks,
{
}

/// Every event keeps the rendezvous consistent, and none changes the number
/// of sinks.
pub proof fn lemma_consistency_is_kept(model: RoundModel, event: RoundEvent)
    requires
        consistent(model),
    ensures
        consistent(advance(model, event)),
        advance(model, event).stages.len() == model.stages.len(),
{
    let next = advance(model, event);
    if enabled(model, event) {
        match event {
            RoundEvent::Filled(_) => {
                lemma_joined_count_none(model.stages);
            },
            RoundEvent::Copied(i) => {
                lemma_joined_count_update(model.stages, i as int, Stage::Copied);
            },
            RoundEvent::Joined(i) => {
                lemma_joined_count_update(model.stages, i as int, Stage::Joined);
                lemma_joined_count_bounds(next.stages);
            },
            RoundEvent::Drained => {},
            RoundEvent::Released => {},
            RoundEvent::Stopped => {},
        }
    }
}

/// The rendezvous after the events of `trace`, in their order, from the start.
pub open spec fn replay(sinks: nat, trace: Seq<RoundEvent>) -> RoundModel
    decreases trace.len(),
{
    if trace.len() == 0 {
        initial(sinks)
    } else {
        advance(replay(sinks, trace.drop_last()), trace.last())
    }
}

/// Whether the rendezvous let every event of `trace` happen when it came.
pub open spec fn accepted(sinks: nat, trace: Seq<RoundEvent>) -> bool
    decreases trace.len(),
{
    trace.len() > 0 ==> accepted(sinks, trace.drop_last()) && enabled(
        replay(sinks, trace.drop_last()),
        trace.last(),
    )
}

/// How often the sink at `sink` has duplicated in `trace`.
pub open spec fn copies(trace: Seq<RoundEvent>, sink: nat) -> nat
    decreases trace.len(),
{
    if trace.len() == 0 {
        0
    } else {
        copies(trace.drop_last(), sink) + if trace.last() == RoundEvent::Copied(sink as usize) {
            1nat
        } else {
            0nat
        }
    }
}

/// How often standard output has drained in `trace`.
pub open spec fn drains(trace: Seq<RoundEvent>) -> nat
    decreases trace.len(),
{
    if trace.len() == 0 {
        0
    } else {
        drains(trace.drop_last()) + if trace.last() == RoundEvent::Drained {
            1nat
        } else {
            0nat
        }
    }
}

/// How many duplicates the sink at `sink` is ahead of the drains.
spec fn lead(model: RoundModel, sink: int) -> nat {
    match model.phase {
        Phase::Filling => 0,
        Phase::Replicating => if model.stages[sink] == Stage::Ready {
            0
        } else {
            1
        },
        Phase::Draining => 1,
        Phase::Released => 0,
        Phase::Finished => 0,
    }
}

proof fn lemma_accepted_prefix(sinks: nat, trace: Seq<RoundEvent>, len: int)
    requires
        accepted(sinks, trace),
        0 <= len <= trace.len(),
    ensures
        accepted(sinks, trace.take(len)),
    decreases trace.len(),
{
    if len == trace.len() {
        assert(trace.take(len) == trace);
    } else {
        lemma_accepted_prefix(sinks, trace.drop_last(), len);
        assert(trace.drop_last().take(len) == trace.take(len));
    }
}

proof fn lemma_counts_in_step(sinks: nat, trace: Seq<RoundEvent>)
    requires
        accepted(sinks, trace),
        sinks <= usize::MAX,
    ensures
        consistent(replay(sinks, trace)),
        replay(sinks, trace).stages.len() == sinks,
        replay(sinks, trace).phase != Phase::Finished ==> forall|sink: int|
            0 <= sink < sinks ==> #[trigger] copies(trace, sink as nat) == drains(trace) + lead(
                replay(sinks, trace),
                sink,
            ),
    decreases trace.len(),
{
    let now = replay(sinks, trace);
    if trace.len() == 0 {
        lemma_initial_is_consistent(sinks);
    } else {
        let before = replay(sinks, trace.drop_last());
        lemma_counts_in_step(sinks, trace.drop_last());
        lemma_consistency_is_kept(before, trace.last());
        if now.phase != Phase::Finished {
            assert forall|sink: int| 0 <= sink < sinks implies #[trigger] copies(
                trace,
                sink as nat,
            ) == drains(trace) + lead(now, sink) by {
                assert(copies(trace.drop_last(), sink as nat) == drains(trace.drop_last()) + lead(
                    before,
                    sink,
                ));
            }
        }
    }
}

/// Standard output never drains a round before every sink has duplicated it.
/// In any order of events that the rendezvous accepts, when a drain comes,
/// each sink has by then duplicated once more than standard output has
/// drained: its duplicate of this very round is done.
pub proof fn lemma_drain_follows_every_duplicate(
    sinks: nat,
    trace: Seq<RoundEvent>,
    at: int,
    sink: nat,
)
    requires
        sinks <= usize::MAX,
        accepted(sinks, trace),
        0 <= at < trace.len(),
        trace[at] == RoundEvent::Drained,
        sink < sinks,
    ensures
        copies(trace.take(at), sink) == drains(trace.take(at)) + 1,
{
    let upto = trace.take(at + 1);
    lemma_accepted_prefix(sinks, trace, at + 1);
    assert(upto.drop_last() == trace.take(at));
    assert(upto.last() == trace[at]);
    assert(enabled(replay(sinks, trace.take(at)), RoundEvent::Drained));
    lemma_counts_in_step(sinks, trace.take(at));
    let position = sink as int;
    assert(copies(trace.take(at), position as nat) == drains(trace.take(at)) + lead(
        replay(sinks, trace.take(at)),
        position,
    ));
}

/// A copy of `stages`, with the entry at `at` replaced if `stage` names one.
fn with_stage(stages: &Vec<Stage>, at: usize, stage: Option<Stage>) -> (copy: Vec<Stage>)
    requires
        stage is Some ==> at < stages@.len(),
    ensures
        copy@ == match stage {
            Some(value) => stages@.update(at as int, value),
            None => stages@,
        },
{
    let mut copy: Vec<Stage> = Vec::new();
    let mut next: usize = 0;
    while next < stages.len()
        invariant
            next <= stages@.len(),
            copy@.len() == next,
            stage is Some ==> at < stages@.len(),
            forall|i: int|
                0 <= i < next ==> copy@[i] == if stage is Some && i == at {
                    stage->0
                } else {
                    stages@[i]
                },
        decreases stages@.len() - next,
    {
        let entry = match stage {
            Some(value) => if next == at {
                value
            } else {
                stages[next]
            },
            None => stages[next],
        };
        copy.push(entry);
        next += 1;
    }
    assert(copy@ =~= match stage {
        Some(value) => stages@.update(at as int, value),
        None => stages@,
    });
    copy
}

/// The rendezvous of one run: it counts the sinks in and refuses every
/// report that comes out of turn.
pub struct RoundBarrier {
    stages: Vec<Stage>,
    phase: Phase,
    counter: usize,
    length: usize,
}

impl RoundBarrier {
    #[verifier::type_invariant]
    spec fn well_formed(self) -> bool {
        consistent(self@)
    }

    /// The state of the rendezvous.
    pub closed spec fn view(&self) -> RoundModel {
        RoundModel {
            stages: self.stages@,
            phase: self.phase,
            counter: self.counter as nat,
            length: self.length as nat,
        }
    }

    /// A rendezvous for this many sinks, before the first round.
    pub fn new(sinks: usize) -> (barrier: RoundBarrier)
        ensures
            barrier@ == initial(sinks as nat),
    {
        let mut stages: Vec<Stage> = Vec::new();
        while stages.len() < sinks
            invariant
                stages@.len() <= sinks,
                all_at(stages@, Stage::Ready),
            decreases sinks - stages@.len(),
        {
            stages.push(Stage::Ready);
        }
        assert(stages@ == initial(sinks as nat).stages);
        RoundBarrier { stages, phase: Phase::Filling, counter: 0, length: 0 }
    }

    /// Number of sinks.
    pub fn sinks(&self) -> (sinks: usize)
        ensures
            sinks == self@.stages.len(),
    {
        self.stages.len()
    }

    /// The phase of the round.
    pub fn phase(&self) -> (phase: Phase)
        ensures
            phase == self@.phase,
    {
        self.phase
    }

    /// How many sinks have joined since the last drain.
    pub fn counter(&self) -> (counter: usize)
        ensures
            counter == self@.counter,
    {
        self.counter
    }

    /// How many bytes the round holds, as the feeder reported them.
    pub fn length(&self) -> (length: usize)
        ensures
            length == self@.length,
    {
        self.length
    }

    /// The stage of the sink at `sink`, if there is one.
    pub fn stage(&self, sink: usize) -> (stage: Option<Stage>)
        ensures
            stage == if sink < self@.stages.len() {
                Some(self@.stages[sink as int])
            } else {
                None
            },
    {
        if sink < self.stages.len() {
            Some(self.stages[sink])
        } else {
            None
        }
    }

    /// Whether standard output may drain the shared channel now: it may when
    /// the round has been filled and the counter equals the number of sinks.
    pub fn may_drain(&self) -> (may: bool)
        ensures
            may == enabled(self@, RoundEvent::Drained),
            may ==> self@.counter == self@.stages.len() && all_at(self@.stages, Stage::Joined),
    {
        proof {
            use_type_invariant(self);
        }
        self.phase == Phase::Draining
    }

    /// Whether the rendezvous lets `event` happen now.
    pub fn admits(&self, event: RoundEvent) -> (admitted: bool)
        ensures
            admitted == enabled(self@, event),
    {
        match event {
            RoundEvent::Filled(_) => self.phase == Phase::Filling,
            RoundEvent::Copied(sink) => self.phase == Phase::Replicating && sink
                < self.stages.len() && self.stages[sink] == Stage::Ready,
            RoundEvent::Joined(sink) => self.phase == Phase::Replicating && sink
                < self.stages.len() && self.stages[sink] == Stage::Copied,
            RoundEvent::Drained => self.phase == Phase::Draining,
            RoundEvent::Released => self.phase == Phase::Released,
            RoundEvent::Stopped => self.phase != Phase::Finished,
        }
    }

    /// Takes the report of a participant. A report that the round is not
    /// ready for is refused and changes nothing.
    pub fn apply(&mut self, event: RoundEvent) -> (taken: bool)
        ensures
            taken == enabled(old(self)@, event),
            final(self)@ == advance(old(self)@, event),
    {
        proof {
            use_type_invariant(&*self);
            lemma_consistency_is_kept(self@, event);
        }
        if !self.admits(event) {
            return false;
        }
        match event {
            RoundEvent::Filled(count) => {
                self.phase = if self.stages.len() == 0 {
                    Phase::Draining
                } else {
                    Phase::Replicating
                };
                self.length = count;
            },
            RoundEvent::Copied(sink) => {
                let stages = with_stage(&self.stages, sink, Some(Stage::Copied));
                *self = RoundBarrier {
                    stages,
                    phase: self.phase,
                    counter: self.counter,
                    length: self.length,
                };
            },
            RoundEvent::Joined(sink) => {
                let stages = with_stage(&self.stages, sink, Some(Stage::Joined));
                let sinks = self.stages.len();
                let counter = self.counter + 1;
                let phase = if counter == sinks {
                    Phase::Draining
                } else {
                    Phase::Replicating
                };
                *self = RoundBarrier { stages, phase, counter, length: self.length };
            },
            RoundEvent::Drained => {
                let stages = with_stage(&self.stages, 0, None);
                *self = RoundBarrier {
                    stages,
                    phase: Phase::Released,
                    counter: 0,
                    length: self.length,
                };
            },
            RoundEvent::Released => {
                let stages = RoundBarrier::new(self.stages.len()).stages;
                *self = RoundBarrier {
                    stages,
                    phase: Phase::Filling,
                    counter: 0,
                    length: self.length,
                };
            },
            RoundEvent::Stopped => {
                self.phase = Phase::Finished;
            },
        }
        true
    }
}

} // verus!
