//! The dispatch loop's decisions: one state machine, driven by the outcomes
//! of the publish operations, covering both publishing strategies. The
//! outside work — publishing, sleeping — is performed by the caller, which
//! reports each outcome as an event and receives the next action.

use vstd::prelude::*;

use crate::sensor::SerializationError;

verus! {

/// How one cycle fans the publish operations out.
#[derive(Clone, Copy, PartialEq, Eq, Structural, Debug)]
pub enum Strategy {
    /// All sensors publish as independently scheduled operations; the cycle
    /// waits at a single join point.
    Concurrent,
    /// The sensors publish strictly one after the other.
    Sequential,
}

/// The publisher could not deliver, or confirm delivery of, a message.
#[derive(Clone, Copy, PartialEq, Eq, Structural, Debug)]
pub enum TransportError {
    /// No acknowledgment within the configured deadline.
    Timeout,
    /// A connection-level failure.
    Connection,
}

/// Any error a cycle can surface. Every one is fatal: the loop halts on the
/// first, with no retry and no partial-failure tolerance.
#[derive(Clone, Copy, PartialEq, Eq, Structural, Debug)]
pub enum DispatchError {
    /// The reading could not be encoded.
    Serialization(SerializationError),
    /// The publisher could not deliver the payload.
    Transport(TransportError),
}

/// Where the loop stands.
#[derive(Clone, Copy, PartialEq, Eq, Structural, Debug)]
pub enum DispatchState {
    /// Concurrent cycle in flight: every sensor's publish was issued and the
    /// loop waits at the join.
    FanOut,
    /// Sequential cycle in flight: the sensor at this index publishes now,
    /// the later ones have not been started.
    Publishing { next: usize },
    /// Between cycles.
    Sleeping,
    /// A publish or an encoding failed; the loop is over.
    Halted,
}

/// What the loop asks its caller to do next.
#[derive(Clone, Copy, PartialEq, Eq, Structural, Debug)]
pub enum DispatchAction {
    /// Issue every sensor's publish concurrently and report all outcomes.
    PublishAll,
    /// Publish the reading of the sensor at this index and report the
    /// outcome.
    Publish(usize),
    /// Pause for the configured interval.
    Sleep,
    /// Stop the process with this error.
    Halt(DispatchError),
}

/// What the caller reports back.
pub enum DispatchEvent {
    /// Concurrent join: the outcome of every sensor's publish, in sensor
    /// order.
    AllCompleted(Vec<Result<(), DispatchError>>),
    /// Sequential: the outcome of the one publish in flight.
    Completed(Result<(), DispatchError>),
    /// The pause between cycles is over.
    SleepFinished,
}

/// The first failure among the joined outcomes, if any.
pub open spec fn first_error(rs: Seq<Result<(), DispatchError>>) -> Option<DispatchError>
    decreases rs.len(),
{
    if rs.len() == 0 {
        None
    } else {
        match rs[0] {
            Err(e) => Some(e),
            Ok(_) => first_error(rs.drop_first()),
        }
    }
}

/// The dispatch loop: a strategy, a number of sensors, and the current
/// state. It decides; the caller performs.
pub struct DispatchLoop {
    pub strategy: Strategy,
    pub sensor_count: usize,
    pub state: DispatchState,
}

impl DispatchLoop {
    /// The states each strategy can reach.
    pub open spec fn wf(&self) -> bool {
        match self.state {
            DispatchState::FanOut => self.strategy == Strategy::Concurrent,
            DispatchState::Publishing { next } => self.strategy == Strategy::Sequential && next
                < self.sensor_count,
            _ => true,
        }
    }

    /// Where a fresh loop starts: at the first publish of the first cycle,
    /// or asleep when there is no sensor to publish for.
    pub open spec fn initial_state(strategy: Strategy, sensor_count: usize) -> DispatchState {
        if sensor_count == 0 {
            DispatchState::Sleeping
        } else if strategy == Strategy::Concurrent {
            DispatchState::FanOut
        } else {
            DispatchState::Publishing { next: 0 }
        }
    }

    /// Which events the current state can take.
    pub open spec fn event_fits(&self, e: DispatchEvent) -> bool {
        match (self.state, e) {
            (DispatchState::FanOut, DispatchEvent::AllCompleted(_)) => true,
            (DispatchState::Publishing { .. }, DispatchEvent::Completed(_)) => true,
            (DispatchState::Sleeping, DispatchEvent::SleepFinished) => true,
            _ => false,
        }
    }

    /// The whole decision table: next state and next action for a state and
    /// an event. Any failure halts the loop at once; a completed cycle goes
    /// to sleep; a finished sleep starts the next cycle as the strategy
    /// prescribes.
    pub open spec fn spec_step(self, e: DispatchEvent) -> (DispatchState, DispatchAction) {
        match (self.state, e) {
            (DispatchState::FanOut, DispatchEvent::AllCompleted(rs)) => match first_error(rs@) {
                Some(err) => (DispatchState::Halted, DispatchAction::Halt(err)),
                None => (DispatchState::Sleeping, DispatchAction::Sleep),
            },
            (DispatchState::Publishing { next }, DispatchEvent::Completed(res)) => match res {
                Err(err) => (DispatchState::Halted, DispatchAction::Halt(err)),
                Ok(_) => if next + 1 < self.sensor_count {
                    (
                        DispatchState::Publishing { next: (next + 1) as usize },
                        DispatchAction::Publish((next + 1) as usize),
                    )
                } else {
                    (DispatchState::Sleeping, DispatchAction::Sleep)
                },
            },
            (DispatchState::Sleeping, DispatchEvent::SleepFinished) => if self.sensor_count == 0 {
                (DispatchState::Sleeping, DispatchAction::Sleep)
            } else if self.strategy == Strategy::Concurrent {
                (DispatchState::FanOut, DispatchAction::PublishAll)
            } else {
                (DispatchState::Publishing { next: 0 }, DispatchAction::Publish(0))
            },
            _ => (DispatchState::Halted, DispatchAction::Sleep),
        }
    }

    /// The action the current state is waiting on, if the loop still runs.
    pub open spec fn pending_action(&self) -> Option<DispatchAction> {
        match self.state {
            DispatchState::FanOut => Some(DispatchAction::PublishAll),
            DispatchState::Publishing { next } => Some(DispatchAction::Publish(next)),
            DispatchState::Sleeping => Some(DispatchAction::Sleep),
            DispatchState::Halted => None,
        }
    }

    /// A fresh loop for the given strategy over `sensor_count` sensors.
    pub fn new(strategy: Strategy, sensor_count: usize) -> (r: DispatchLoop)
        ensures
            r.strategy == strategy,
            r.sensor_count == sensor_count,
            r.state == Self::initial_state(strategy, sensor_count),
            r.wf(),
    {
        let state = if sensor_count == 0 {
            DispatchState::Sleeping
        } else if strategy == Strategy::Concurrent {
            DispatchState::FanOut
        } else {
            DispatchState::Publishing { next: 0 }
        };
        DispatchLoop { strategy, sensor_count, state }
    }

    /// The action the current state is waiting on.
    pub fn current_action(&self) -> (a: Option<DispatchAction>)
        ensures
            a == self.pending_action(),
    {
        match self.state {
            DispatchState::FanOut => Some(DispatchAction::PublishAll),
            DispatchState::Publishing { next } => Some(DispatchAction::Publish(next)),
            DispatchState::Sleeping => Some(DispatchAction::Sleep),
            DispatchState::Halted => None,
        }
    }

    /// Takes one event and moves the loop: exactly the decision table
    /// `spec_step`. The strategy and the sensor count never change.
    pub fn step(&mut self, event: DispatchEvent) -> (a: DispatchAction)
        requires
            old(self).wf(),
            old(self).event_fits(event),
        ensures
            final(self).strategy == old(self).strategy,
            final(self).sensor_count == old(self).sensor_count,
            (final(self).state, a) == old(self).spec_step(event),
            final(self).wf(),
    {
        match event {
            DispatchEvent::AllCompleted(rs) => {
                match find_first_error(&rs) {
                    Some(err) => {
                        self.state = DispatchState::Halted;
                        DispatchAction::Halt(err)
                    },
                    None => {
                        self.state = DispatchState::Sleeping;
                        DispatchAction::Sleep
                    },
                }
            },
            DispatchEvent::Completed(res) => {
                if let DispatchState::Publishing { next } = self.state {
                    match res {
                        Err(err) => {
                            self.state = DispatchState::Halted;
                            DispatchAction::Halt(err)
                        },
                        Ok(_) => {
                            if next + 1 < self.sensor_count {
                                self.state = DispatchState::Publishing { next: next + 1 };
                                DispatchAction::Publish(next + 1)
                            } else {
                                self.state = DispatchState::Sleeping;
                                DispatchAction::Sleep
                            }
                        },
                    }
                } else {
                    proof {
                        assert(false);
                    }
                    DispatchAction::Sleep
                }
            },
            DispatchEvent::SleepFinished => {
                if self.sensor_count == 0 {
                    self.state = DispatchState::Sleeping;
                    DispatchAction::Sleep
                } else if self.strategy == Strategy::Concurrent {
                    self.state = DispatchState::FanOut;
                    DispatchAction::PublishAll
                } else {
                    self.state = DispatchState::Publishing { next: 0 };
                    DispatchAction::Publish(0)
                }
            },
        }
    }
}

/// The first failure among the joined outcomes; decides `first_error`.
fn find_first_error(rs: &Vec<Result<(), DispatchError>>) -> (r: Option<DispatchError>)
    ensures
        r == first_error(rs@),
{
    let len = rs.len();
    proof {
        assert(rs@.skip(0) =~= rs@);
    }
    for k in 0..len
        invariant
            len == rs@.len(),
            first_error(rs@) == first_error(rs@.skip(k as int)),
    {
        proof {
            assert(rs@.skip(k as int)[0] == rs@[k as int]);
            assert(rs@.skip(k as int).drop_first() =~= rs@.skip(k as int + 1));
        }
        match rs[k] {
            Err(e) => {
                return Some(e);
            },
            Ok(_) => {
            },
        }
    }
    proof {
        assert(rs@.skip(rs@.len() as int) =~= Seq::<Result<(), DispatchError>>::empty());
    }
    None
}

/// A failure somewhere in the joined outcomes means the join surfaces one.
proof fn lemma_first_error_some(rs: Seq<Result<(), DispatchError>>, i: int)
    requires
        0 <= i < rs.len(),
        rs[i] is Err,
    ensures
        first_error(rs) is Some,
    decreases i,
{
    if rs[0] is Err {
    } else {
        assert(rs.drop_first()[i - 1] == rs[i]);
        lemma_first_error_some(rs.drop_first(), i - 1);
    }
}

/// Fan-out fail-fast: when any publish of a concurrent cycle has failed, the
/// join surfaces an error and the loop halts — it does not sleep and starts
/// no further cycle — whatever the other operations' outcomes were.
pub proof fn lemma_fanout_fail_fast(l: DispatchLoop, rs: Vec<Result<(), DispatchError>>, i: int)
    requires
        l.wf(),
        l.state == DispatchState::FanOut,
        0 <= i < rs@.len(),
        rs@[i] is Err,
    ensures
        l.spec_step(DispatchEvent::AllCompleted(rs)).0 == DispatchState::Halted,
        l.spec_step(DispatchEvent::AllCompleted(rs)).1 is Halt,
{
    lemma_first_error_some(rs@, i);
}

/// A concurrent cycle whose publishes all succeeded goes to sleep and halts
/// nothing.
pub proof fn lemma_fanout_all_ok(l: DispatchLoop, rs: Vec<Result<(), DispatchError>>)
    requires
        l.wf(),
        l.state == DispatchState::FanOut,
        forall|i: int| 0 <= i < rs@.len() ==> rs@[i] is Ok,
    ensures
        l.spec_step(DispatchEvent::AllCompleted(rs)) == (
            DispatchState::Sleeping,
            DispatchAction::Sleep,
        ),
{
    lemma_first_error_none(rs@);
}

/// No failure among the outcomes, no error at the join.
proof fn lemma_first_error_none(rs: Seq<Result<(), DispatchError>>)
    requires
        forall|i: int| 0 <= i < rs.len() ==> rs[i] is Ok,
    ensures
        first_error(rs) is None,
    decreases rs.len(),
{
    if rs.len() > 0 {
        assert(forall|i: int|
            0 <= i < rs.drop_first().len() ==> rs.drop_first()[i] == rs[i + 1]);
        lemma_first_error_none(rs.drop_first());
    }
}

/// Sequential short-circuit: when the sensor now publishing reports a
/// failure, the loop halts with that error; the later sensors' publishes are
/// never requested in that cycle.
pub proof fn lemma_sequential_short_circuit(l: DispatchLoop, err: DispatchError)
    requires
        l.wf(),
        l.state matches DispatchState::Publishing { .. },
    ensures
        l.spec_step(DispatchEvent::Completed(Err(err))).0 == DispatchState::Halted,
        l.spec_step(DispatchEvent::Completed(Err(err))).1 == DispatchAction::Halt(err),
        !(l.spec_step(DispatchEvent::Completed(Err(err))).1 matches DispatchAction::Publish(_)),
{
}

} // verus!
