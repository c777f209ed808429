//! One live sample of the connection at a time.

use vstd::prelude::*;

use crate::conn_close::{bump, bumped};

verus! {

/// What the transport tells of the path that it uses.
#[derive(Clone, Copy, Debug, PartialEq, Eq, Structural)]
pub struct PathSnapshot {
    /// How often the path has changed.
    pub path_generation: u64,
    pub smoothed_rtt_micros: u64,
    pub congestion_window_bytes: u64,
    pub bytes_in_flight: u64,
}

/// A sample of the connection.
#[derive(Clone, Copy, Debug, PartialEq, Eq, Structural)]
pub struct WebTransportLiveConnectionSnapshot {
    /// How many samples were taken before.
    pub sample_sequence: u64,
    pub path: PathSnapshot,
}

/// How a request for a sample stands.
#[derive(Clone, Copy, Debug, PartialEq, Eq, Structural)]
pub enum SnapshotStage {
    /// The driver has not seen it.
    Waiting,
    /// It was given up before the driver saw it.
    GivenUp,
    /// The driver answered it.
    Sampled(WebTransportLiveConnectionSnapshot),
}

/// What a request for a sample is answered.
#[derive(Clone, Copy, Debug, PartialEq, Eq, Structural)]
pub enum SnapshotOutcome {
    Sampled(WebTransportLiveConnectionSnapshot),
    /// Another request is under way, or the command lane is full.
    Saturated,
    Cancelled,
    ConnectionClosed,
    DriverGone,
}

/// Why no sample can be had any more.
#[derive(Clone, Copy, Debug, PartialEq, Eq, Structural)]
pub enum SnapshotEnd {
    ConnectionClosed,
    DriverGone,
}

/// The place for one request and the totals so far.
#[derive(Clone, Copy, Debug, PartialEq, Eq, Structural)]
pub struct SnapshotSlot {
    pub stage: Option<SnapshotStage>,
    pub ended: Option<SnapshotEnd>,
    pub sample_total: u64,
    pub saturation_total: u64,
    pub cancellation_total: u64,
}

impl SnapshotSlot {
    /// The answer of a slot that no sample can be had from.
    pub open spec fn end_outcome(end: SnapshotEnd) -> SnapshotOutcome {
        match end {
            SnapshotEnd::ConnectionClosed => SnapshotOutcome::ConnectionClosed,
            SnapshotEnd::DriverGone => SnapshotOutcome::DriverGone,
        }
    }

    fn outcome_of_end(end: SnapshotEnd) -> (outcome: SnapshotOutcome)
        ensures
            outcome == SnapshotSlot::end_outcome(end),
    {
        match end {
            SnapshotEnd::ConnectionClosed => SnapshotOutcome::ConnectionClosed,
            SnapshotEnd::DriverGone => SnapshotOutcome::DriverGone,
        }
    }

    /// An unused slot.
    pub open spec fn fresh() -> SnapshotSlot {
        SnapshotSlot {
            stage: None,
            ended: None,
            sample_total: 0,
            saturation_total: 0,
            cancellation_total: 0,
        }
    }

    /// An unused slot.
    pub fn new() -> (slot: Self)
        ensures
            slot == SnapshotSlot::fresh(),
    {
        SnapshotSlot {
            stage: None,
            ended: None,
            sample_total: 0,
            saturation_total: 0,
            cancellation_total: 0,
        }
    }

    /// The slot after a sample was asked for.
    pub open spec fn requested(self, lane_has_room: bool) -> SnapshotSlot {
        if self.ended is Some {
            self
        } else if self.stage is Some || !lane_has_room {
            SnapshotSlot { saturation_total: bumped(self.saturation_total), ..self }
        } else {
            SnapshotSlot { stage: Some(SnapshotStage::Waiting), ..self }
        }
    }

    /// What a request is answered at once, if anything.
    pub open spec fn instant_answer(self, lane_has_room: bool) -> Option<SnapshotOutcome> {
        match self.ended {
            Some(end) => Some(SnapshotSlot::end_outcome(end)),
            None => if self.stage is Some || !lane_has_room {
                Some(SnapshotOutcome::Saturated)
            } else {
                None
            },
        }
    }

    /// Asks for a sample. Returns the answer where it is known at once.
    pub fn request(&mut self, lane_has_room: bool) -> (answer: Option<SnapshotOutcome>)
        ensures
            *final(self) == old(self).requested(lane_has_room),
            answer == old(self).instant_answer(lane_has_room),
    {
        if let Some(end) = self.ended {
            return Some(Self::outcome_of_end(end));
        }
        if self.stage.is_some() || !lane_has_room {
            self.saturation_total = bump(self.saturation_total);
            Some(SnapshotOutcome::Saturated)
        } else {
            self.stage = Some(SnapshotStage::Waiting);
            None
        }
    }

    /// The slot after the driver saw the request.
    pub open spec fn sampled(self, path: PathSnapshot) -> SnapshotSlot {
        match self.stage {
            Some(SnapshotStage::Waiting) => SnapshotSlot {
                stage: Some(
                    SnapshotStage::Sampled(
                        WebTransportLiveConnectionSnapshot {
                            sample_sequence: self.sample_total,
                            path,
                        },
                    ),
                ),
                sample_total: bumped(self.sample_total),
                ..self
            },
            Some(SnapshotStage::GivenUp) => SnapshotSlot { stage: None, ..self },
            _ => self,
        }
    }

    /// The driver sees the request.
    pub fn sample(&mut self, path: PathSnapshot)
        ensures
            *final(self) == old(self).sampled(path),
    {
        match self.stage {
            Some(SnapshotStage::Waiting) => {
                let sample = WebTransportLiveConnectionSnapshot {
                    sample_sequence: self.sample_total,
                    path,
                };
                self.stage = Some(SnapshotStage::Sampled(sample));
                self.sample_total = bump(self.sample_total);
            },
            Some(SnapshotStage::GivenUp) => {
                self.stage = None;
            },
            _ => {},
        }
    }

    /// The answer, where there is one. The end of the connection wins over a
    /// sample that was not taken before.
    pub open spec fn answer(self) -> Option<SnapshotOutcome> {
        match self.ended {
            Some(end) => Some(SnapshotSlot::end_outcome(end)),
            None => match self.stage {
                Some(SnapshotStage::Sampled(sample)) => Some(SnapshotOutcome::Sampled(sample)),
                _ => None,
            },
        }
    }

    /// The slot after the answer was taken.
    pub open spec fn taken(self) -> SnapshotSlot {
        if self.answer() is Some {
            SnapshotSlot { stage: None, ..self }
        } else {
            self
        }
    }

    /// Takes the answer.
    pub fn take(&mut self) -> (answer: Option<SnapshotOutcome>)
        ensures
            answer == old(self).answer(),
            *final(self) == old(self).taken(),
    {
        if let Some(end) = self.ended {
            self.stage = None;
            return Some(Self::outcome_of_end(end));
        }
        match self.stage {
            Some(SnapshotStage::Sampled(sample)) => {
                self.stage = None;
                Some(SnapshotOutcome::Sampled(sample))
            },
            _ => None,
        }
    }

    /// The slot after the request was given up. It stays taken until the driver
    /// has seen the request.
    pub open spec fn given_up(self) -> SnapshotSlot {
        match self.stage {
            Some(SnapshotStage::Waiting) => SnapshotSlot {
                stage: Some(SnapshotStage::GivenUp),
                cancellation_total: bumped(self.cancellation_total),
                ..self
            },
            Some(SnapshotStage::Sampled(_)) => SnapshotSlot {
                stage: None,
                cancellation_total: bumped(self.cancellation_total),
                ..self
            },
            _ => self,
        }
    }

    /// Gives the request up.
    pub fn cancel(&mut self) -> (answer: SnapshotOutcome)
        ensures
            answer == SnapshotOutcome::Cancelled,
            *final(self) == old(self).given_up(),
    {
        match self.stage {
            Some(SnapshotStage::Waiting) => {
                self.stage = Some(SnapshotStage::GivenUp);
                self.cancellation_total = bump(self.cancellation_total);
            },
            Some(SnapshotStage::Sampled(_)) => {
                self.stage = None;
                self.cancellation_total = bump(self.cancellation_total);
            },
            _ => {},
        }
        SnapshotOutcome::Cancelled
    }

    /// The slot from which no sample can be had any more. The first end counts.
    pub open spec fn after(self, end: SnapshotEnd) -> SnapshotSlot {
        if self.ended is None {
            SnapshotSlot { ended: Some(end), ..self }
        } else {
            self
        }
    }

    /// No sample can be had any more.
    pub fn end(&mut self, end: SnapshotEnd)
        ensures
            *final(self) == old(self).after(end),
    {
        if self.ended.is_none() {
            self.ended = Some(end);
        }
    }
}

/// The sequence numbers of samples count up by one, whatever is given up in
/// between.
pub proof fn lemma_sample_sequence_is_monotonic(slot: SnapshotSlot, path: PathSnapshot)
    requires
        slot.stage == Some(SnapshotStage::Waiting),
        slot.sample_total < u64::MAX,
    ensures
        slot.sampled(path).stage == Some(
            SnapshotStage::Sampled(
                WebTransportLiveConnectionSnapshot { sample_sequence: slot.sample_total, path },
            ),
        ),
        slot.sampled(path).sample_total == slot.sample_total + 1,
{
}

/// One request is under way at most: a second one changes only the count of
/// refused requests.
pub proof fn lemma_one_request_at_a_time(slot: SnapshotSlot, lane_has_room: bool)
    requires
        slot.stage is Some,
        slot.ended is None,
    ensures
        slot.requested(lane_has_room) == (SnapshotSlot {
            saturation_total: bumped(slot.saturation_total),
            ..slot
        }),
{
}

} // verus!
