//! Stashing both ends of a fresh socket pair in a ring, one system call at
//! a time.
//!
//! The work alternates between the operating system and decisions: send the
//! first end, close it, send the second, close it, and stop early where the
//! ring is full. `PairStash` holds the decisions. Its driver performs each
//! `Action` and hands the outcome to `step`, until the action is `Finish`.

use crate::ring::{Error, Ring, RingModel, SlotModel, StashableThing};
use crate::wire::SendRequest;
use vstd::prelude::*;

verus! {

/// Stands in for a descriptor where there is none.
pub const NO_DESCRIPTOR: i32 = -1;

/// What the driver is to do next.
#[derive(Copy, Clone, Debug, PartialEq, Eq)]
pub enum Action {
    /// Send this message and report whether it was sent.
    Send(SendRequest),
    /// Close this descriptor and report whether it was closed.
    Close(i32),
    /// Stop: this is the result, the number of descriptors stashed.
    Finish(Result<u64, Error>),
}

/// How far the work has come.
#[derive(Copy, Clone, Debug, PartialEq, Eq)]
pub enum Stage {
    /// The first end's message is being sent.
    StashingFirst,
    /// The first end is stashed and its descriptor is being closed.
    ClosingFirst,
    /// The ring took nothing, with this error number, and the first end is
    /// being closed.
    DroppingFirst(i32),
    /// The ring took nothing, with this error number, and the second end is
    /// being closed.
    DroppingSecond(i32),
    /// The second end's message is being sent.
    StashingSecond,
    /// The second end is being closed; `both` tells whether it was stashed.
    ClosingSecond { both: bool },
    /// The work is over, with this result.
    Finished(Result<u64, Error>),
}

/// The work of stashing the two ends `one` and `two` of a socket pair.
#[derive(Copy, Clone, Debug, PartialEq, Eq)]
pub struct PairStash {
    pub one: i32,
    pub two: i32,
    pub stage: Stage,
}

impl Stage {
    /// How many descriptors the ring has taken by this stage.
    pub open spec fn stashed(self) -> nat {
        match self {
            Stage::StashingFirst => 0,
            Stage::ClosingFirst => 1,
            Stage::DroppingFirst(_) => 0,
            Stage::DroppingSecond(_) => 0,
            Stage::StashingSecond => 1,
            Stage::ClosingSecond { both } => if both {
                2
            } else {
                1
            },
            Stage::Finished(_) => 0,
        }
    }

    /// An upper bound on the steps that are left.
    pub open spec fn steps_left(self) -> nat {
        match self {
            Stage::StashingFirst => 4,
            Stage::ClosingFirst => 3,
            Stage::DroppingFirst(_) => 2,
            Stage::DroppingSecond(_) => 1,
            Stage::StashingSecond => 2,
            Stage::ClosingSecond { .. } => 1,
            Stage::Finished(_) => 0,
        }
    }
}

impl PairStash {
    /// The work for the outcome `pair` of creating a socket pair: over at
    /// once where none was created, else about to send the first end.
    pub open spec fn begun(ring: RingModel, pair: Result<(i32, i32), i32>) -> PairStash {
        match pair {
            Ok((one, two)) => PairStash { one, two, stage: Stage::StashingFirst },
            Err(errno) => PairStash {
                one: NO_DESCRIPTOR,
                two: NO_DESCRIPTOR,
                stage: Stage::Finished(Err(ring.platform.classified(errno))),
            },
        }
    }

    /// The stage that follows when the current action had `outcome`.
    ///
    /// A failed close ends the work with the classified error. A send that
    /// fails at a limit leads to closing what is still open: both ends and
    /// the limit as the result for the first end, the second end and a
    /// result of one for the second. Any other failed send ends the work.
    pub open spec fn next_stage(self, ring: RingModel, outcome: Result<(), i32>) -> Stage {
        match self.stage {
            Stage::Finished(result) => Stage::Finished(result),
            Stage::StashingFirst => match outcome {
                Ok(_) => Stage::ClosingFirst,
                Err(errno) => if ring.platform.is_limit(errno) {
                    Stage::DroppingFirst(errno)
                } else {
                    Stage::Finished(Err(Error::Bad(errno)))
                },
            },
            Stage::StashingSecond => match outcome {
                Ok(_) => Stage::ClosingSecond { both: true },
                Err(errno) => if ring.platform.is_limit(errno) {
                    Stage::ClosingSecond { both: false }
                } else {
                    Stage::Finished(Err(Error::Bad(errno)))
                },
            },
            closing => match outcome {
                Err(errno) => Stage::Finished(Err(ring.platform.classified(errno))),
                Ok(_) => match closing {
                    Stage::ClosingFirst => Stage::StashingSecond,
                    Stage::DroppingFirst(limit) => Stage::DroppingSecond(limit),
                    Stage::DroppingSecond(limit) => Stage::Finished(Err(Error::Limit(limit))),
                    Stage::ClosingSecond { both } => Stage::Finished(
                        Ok(
                            if both {
                                2
                            } else {
                                1
                            },
                        ),
                    ),
                    other => other,
                },
            },
        }
    }

    /// What the driver is to do in the current stage.
    pub open spec fn action(self, ring: RingModel) -> Action {
        match self.stage {
            Stage::StashingFirst => Action::Send(ring.send_request(self.one)),
            Stage::ClosingFirst => Action::Close(self.one),
            Stage::DroppingFirst(_) => Action::Close(self.one),
            Stage::DroppingSecond(_) => Action::Close(self.two),
            Stage::StashingSecond => Action::Send(ring.send_request(self.two)),
            Stage::ClosingSecond { .. } => Action::Close(self.two),
            Stage::Finished(result) => Action::Finish(result),
        }
    }

    /// The ring after the current action had `outcome`: with one more plain
    /// descriptor where a message was sent, else unchanged.
    pub open spec fn ring_after(self, ring: RingModel, outcome: Result<(), i32>) -> RingModel {
        match self.stage {
            Stage::StashingFirst => ring.after_add(SlotModel::One, outcome),
            Stage::StashingSecond => ring.after_add(SlotModel::One, outcome),
            _ => ring,
        }
    }

    /// The work after the current action had `outcome`.
    pub open spec fn after(self, ring: RingModel, outcome: Result<(), i32>) -> PairStash {
        PairStash { stage: self.next_stage(ring, outcome), ..self }
    }

    /// The work and the ring after the outcomes of the actions from the
    /// current one on, in order.
    pub open spec fn run(self, ring: RingModel, outcomes: Seq<Result<(), i32>>) -> (
        PairStash,
        RingModel,
    )
        decreases outcomes.len(),
    {
        if outcomes.len() == 0 {
            (self, ring)
        } else {
            let (work, before) = self.run(ring, outcomes.drop_last());
            (work.after(before, outcomes.last()), work.ring_after(before, outcomes.last()))
        }
    }

    /// The current action.
    pub fn current(&self, ring: &Ring) -> (action: Action)
        ensures
            action == self.action(ring@),
    {
        match self.stage {
            Stage::StashingFirst => Action::Send(ring.send_request(&StashableThing::One(self.one))),
            Stage::ClosingFirst => Action::Close(self.one),
            Stage::DroppingFirst(_) => Action::Close(self.one),
            Stage::DroppingSecond(_) => Action::Close(self.two),
            Stage::StashingSecond => Action::Send(
                ring.send_request(&StashableThing::One(self.two)),
            ),
            Stage::ClosingSecond { .. } => Action::Close(self.two),
            Stage::Finished(result) => Action::Finish(result),
        }
    }

    /// Takes the outcome of the current action and gives the next one.
    ///
    /// Every step that does not find the work finished brings it closer to
    /// its end, so a driver that performs each action stops.
    pub fn step(&mut self, ring: &mut Ring, outcome: Result<(), i32>) -> (action: Action)
        ensures
            *final(self) == old(self).after(old(ring)@, outcome),
            final(ring)@ == old(self).ring_after(old(ring)@, outcome),
            action == final(self).action(final(ring)@),
            !(old(self).stage is Finished) ==> final(self).stage.steps_left() < old(
                self,
            ).stage.steps_left(),
            action is Finish <==> final(self).stage is Finished,
    {
        let next = match self.stage {
            Stage::Finished(result) => Stage::Finished(result),
            Stage::StashingFirst => match ring.add(&StashableThing::One(self.one), outcome) {
                Ok(_) => Stage::ClosingFirst,
                Err(Error::Limit(errno)) => Stage::DroppingFirst(errno),
                Err(error) => Stage::Finished(Err(error)),
            },
            Stage::StashingSecond => match ring.add(&StashableThing::One(self.two), outcome) {
                Ok(_) => Stage::ClosingSecond { both: true },
                Err(Error::Limit(_)) => Stage::ClosingSecond { both: false },
                Err(error) => Stage::Finished(Err(error)),
            },
            closing => match outcome {
                Err(errno) => Stage::Finished(Err(ring.classify(errno))),
                Ok(_) => match closing {
                    Stage::ClosingFirst => Stage::StashingSecond,
                    Stage::DroppingFirst(limit) => Stage::DroppingSecond(limit),
                    Stage::DroppingSecond(limit) => Stage::Finished(Err(Error::Limit(limit))),
                    Stage::ClosingSecond { both } => Stage::Finished(
                        Ok(
                            if both {
                                2
                            } else {
                                1
                            },
                        ),
                    ),
                    other => other,
                },
            },
        };
        self.stage = next;
        self.current(ring)
    }
}

/// Work that finishes with a number has stashed that many descriptors: the
/// ring holds that many more than when the work began, one or two.
pub proof fn lemma_pair_count(
    ring: RingModel,
    pair: Result<(i32, i32), i32>,
    outcomes: Seq<Result<(), i32>>,
)
    ensures
        ({
            let (work, after) = PairStash::begun(ring, pair).run(ring, outcomes);
            work.stage matches Stage::Finished(Ok(n)) ==> {
                &&& after.count() == ring.count() + n
                &&& (n == 1 || n == 2)
            }
        }),
{
    lemma_pair_run(ring, pair, outcomes);
}

/// Throughout the work the ring holds what it held plus what the stage says
/// was stashed, and it keeps its host profile.
proof fn lemma_pair_run(
    ring: RingModel,
    pair: Result<(i32, i32), i32>,
    outcomes: Seq<Result<(), i32>>,
)
    ensures
        ({
            let (work, after) = PairStash::begun(ring, pair).run(ring, outcomes);
            &&& after.platform == ring.platform
            &&& match work.stage {
                Stage::Finished(Ok(n)) => after.count() == ring.count() + n && (n == 1 || n == 2),
                Stage::Finished(Err(_)) => true,
                stage => after.count() == ring.count() + stage.stashed(),
            }
        }),
    decreases outcomes.len(),
{
    if outcomes.len() > 0 {
        lemma_pair_run(ring, pair, outcomes.drop_last());
    }
}

} // verus!
