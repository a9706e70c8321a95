//! Deadheads: movements of a vehicle without passengers.

use crate::text::clone_opt;
use crate::time::{duration_between, spec_duration};
use vstd::prelude::*;
use vstd::string::*;

verus! {

/// The kind of a deadhead.
#[derive(Debug, Clone, Copy, PartialEq, Eq, Structural)]
pub enum DeadheadType {
    /// From the depot to the first revenue stop.
    PullOut,
    /// From the last revenue stop to the depot.
    PullIn,
    /// Between two revenue trips, away from the depot.
    Interlining,
}

/// A deadhead, written in the schedule or inferred.
///
/// Coordinates are whole numbers in units of 1e-7 degree, the distance is
/// in whole metres.
#[derive(Debug)]
pub struct Deadhead {
    /// The kind of deadhead.
    pub deadhead_type: DeadheadType,
    /// Where it starts.
    pub from_location: String,
    /// Where it ends.
    pub to_location: String,
    /// Start, in seconds past midnight.
    pub start_time_seconds: Option<u32>,
    /// End, in seconds past midnight.
    pub end_time_seconds: Option<u32>,
    /// The block it belongs to.
    pub block_id: Option<String>,
    /// The trip in front of it (interlining only).
    pub from_trip_id: Option<String>,
    /// The trip behind it (interlining only).
    pub to_trip_id: Option<String>,
    /// The estimated distance.
    pub distance_meters: Option<u32>,
    /// Latitude of the start.
    pub from_lat: Option<i32>,
    /// Longitude of the start.
    pub from_lon: Option<i32>,
    /// Latitude of the end.
    pub to_lat: Option<i32>,
    /// Longitude of the end.
    pub to_lon: Option<i32>,
    /// Whether it was inferred; `false` for one that the schedule holds.
    pub is_inferred: bool,
}

/// What deadhead inference found for a schedule. The four lists are kept
/// apart; a block that could not be worked on is named, not dropped.
#[derive(Debug)]
pub struct DeadheadInferenceResult {
    /// The inferred pull-outs.
    pub pull_outs: Vec<Deadhead>,
    /// The inferred pull-ins.
    pub pull_ins: Vec<Deadhead>,
    /// The inferred interlining deadheads.
    pub interlinings: Vec<Deadhead>,
    /// The blocks for which nothing could be inferred.
    pub incomplete_blocks: Vec<String>,
}

impl Default for DeadheadInferenceResult {
    fn default() -> (r: Self)
        ensures
            r.pull_outs@.len() == 0,
            r.pull_ins@.len() == 0,
            r.interlinings@.len() == 0,
            r.incomplete_blocks@.len() == 0,
    {
        DeadheadInferenceResult {
            pull_outs: Vec::new(),
            pull_ins: Vec::new(),
            interlinings: Vec::new(),
            incomplete_blocks: Vec::new(),
        }
    }
}

impl Clone for Deadhead {
    fn clone(&self) -> (r: Self)
        ensures
            r == *self,
    {
        Deadhead {
            deadhead_type: self.deadhead_type,
            from_location: self.from_location.clone(),
            to_location: self.to_location.clone(),
            start_time_seconds: self.start_time_seconds,
            end_time_seconds: self.end_time_seconds,
            block_id: clone_opt(&self.block_id),
            from_trip_id: clone_opt(&self.from_trip_id),
            to_trip_id: clone_opt(&self.to_trip_id),
            distance_meters: self.distance_meters,
            from_lat: self.from_lat,
            from_lon: self.from_lon,
            to_lat: self.to_lat,
            to_lon: self.to_lon,
            is_inferred: self.is_inferred,
        }
    }
}

impl Deadhead {
    /// A deadhead of the kind `kind` from `from` to `to` with nothing else set.
    pub open spec fn is_bare(&self, kind: DeadheadType, from: Seq<char>, to: Seq<char>) -> bool {
        &&& self.deadhead_type == kind
        &&& self.from_location@ == from
        &&& self.to_location@ == to
        &&& self.start_time_seconds is None
        &&& self.end_time_seconds is None
        &&& self.block_id is None
        &&& self.from_trip_id is None
        &&& self.to_trip_id is None
        &&& self.distance_meters is None
        &&& self.from_lat is None
        &&& self.from_lon is None
        &&& self.to_lat is None
        &&& self.to_lon is None
        &&& !self.is_inferred
    }

    /// The end minus the start, where both are known and in order.
    pub open spec fn spec_duration(&self) -> Option<u32> {
        spec_duration(self.start_time_seconds, self.end_time_seconds)
    }

    /// A deadhead of the kind `kind` from `from` to `to`.
    pub fn bare(kind: DeadheadType, from: &str, to: &str) -> (r: Self)
        ensures
            r.is_bare(kind, from@, to@),
    {
        Deadhead {
            deadhead_type: kind,
            from_location: String::from_str(from),
            to_location: String::from_str(to),
            start_time_seconds: None,
            end_time_seconds: None,
            block_id: None,
            from_trip_id: None,
            to_trip_id: None,
            distance_meters: None,
            from_lat: None,
            from_lon: None,
            to_lat: None,
            to_lon: None,
            is_inferred: false,
        }
    }

    /// A pull-out from `depot` to `first_stop`.
    pub fn pull_out(depot: &str, first_stop: &str) -> (r: Self)
        ensures
            r.is_bare(DeadheadType::PullOut, depot@, first_stop@),
    {
        Self::bare(DeadheadType::PullOut, depot, first_stop)
    }

    /// A pull-in from `last_stop` to `depot`.
    pub fn pull_in(last_stop: &str, depot: &str) -> (r: Self)
        ensures
            r.is_bare(DeadheadType::PullIn, last_stop@, depot@),
    {
        Self::bare(DeadheadType::PullIn, last_stop, depot)
    }

    /// An interlining deadhead from `from_stop` to `to_stop`.
    pub fn interlining(from_stop: &str, to_stop: &str) -> (r: Self)
        ensures
            r.is_bare(DeadheadType::Interlining, from_stop@, to_stop@),
    {
        Self::bare(DeadheadType::Interlining, from_stop, to_stop)
    }

    /// The same deadhead, in the block `block_id`.
    pub fn with_block(self, block_id: &str) -> (r: Self)
        ensures
            r.block_id is Some,
            r.block_id.unwrap()@ == block_id@,
            r == (Deadhead { block_id: r.block_id, ..self }),
    {
        let mut d = self;
        d.block_id = Some(String::from_str(block_id));
        d
    }

    /// The same deadhead, from `start` to `end`.
    pub fn with_times(self, start: u32, end: u32) -> (r: Self)
        ensures
            r == (Deadhead {
                start_time_seconds: Some(start),
                end_time_seconds: Some(end),
                ..self
            }),
    {
        let mut d = self;
        d.start_time_seconds = Some(start);
        d.end_time_seconds = Some(end);
        d
    }

    /// The same deadhead, between the trips `from_trip` and `to_trip`.
    pub fn with_trips(self, from_trip: Option<&str>, to_trip: Option<&str>) -> (r: Self)
        ensures
            r == (Deadhead { from_trip_id: r.from_trip_id, to_trip_id: r.to_trip_id, ..self }),
            from_trip is None <==> r.from_trip_id is None,
            to_trip is None <==> r.to_trip_id is None,
            from_trip is Some ==> r.from_trip_id.unwrap()@ == from_trip.unwrap()@,
            to_trip is Some ==> r.to_trip_id.unwrap()@ == to_trip.unwrap()@,
    {
        let mut d = self;
        d.from_trip_id = match from_trip {
            Some(t) => Some(String::from_str(t)),
            None => None,
        };
        d.to_trip_id = match to_trip {
            Some(t) => Some(String::from_str(t)),
            None => None,
        };
        d
    }

    /// The same deadhead, with the coordinates of both ends.
    pub fn with_coordinates(self, from_lat: i32, from_lon: i32, to_lat: i32, to_lon: i32) -> (r:
        Self)
        ensures
            r == (Deadhead {
                from_lat: Some(from_lat),
                from_lon: Some(from_lon),
                to_lat: Some(to_lat),
                to_lon: Some(to_lon),
                ..self
            }),
    {
        let mut d = self;
        d.from_lat = Some(from_lat);
        d.from_lon = Some(from_lon);
        d.to_lat = Some(to_lat);
        d.to_lon = Some(to_lon);
        d
    }

    /// The same deadhead, marked as inferred.
    pub fn inferred(self) -> (r: Self)
        ensures
            r == (Deadhead { is_inferred: true, ..self }),
    {
        let mut d = self;
        d.is_inferred = true;
        d
    }

    /// The duration in seconds.
    pub fn duration_seconds(&self) -> (r: Option<u32>)
        ensures
            r == self.spec_duration(),
    {
        duration_between(self.start_time_seconds, self.end_time_seconds)
    }

    /// Whether the deadhead starts or ends at a depot.
    pub fn is_depot_movement(&self) -> (r: bool)
        ensures
            r == (self.deadhead_type == DeadheadType::PullOut || self.deadhead_type
                == DeadheadType::PullIn),
    {
        self.deadhead_type == DeadheadType::PullOut || self.deadhead_type == DeadheadType::PullIn
    }
}

impl DeadheadInferenceResult {
    /// The deadheads of all three kinds.
    pub open spec fn spec_all(&self) -> Seq<Deadhead> {
        self.pull_outs@ + self.pull_ins@ + self.interlinings@
    }

    /// The number of inferred deadheads of all three kinds; `usize::MAX`
    /// where there are more.
    pub fn total_count(&self) -> (r: usize)
        ensures
            r == crate::text::capped_count(
                self.pull_outs@.len() + self.pull_ins@.len() + self.interlinings@.len(),
            ),
    {
        crate::text::add_counts(
            crate::text::add_counts(self.pull_outs.len(), self.pull_ins.len()),
            self.interlinings.len(),
        )
    }

    /// All inferred deadheads: the pull-outs, then the pull-ins, then the
    /// interlining ones.
    pub fn all_deadheads(&self) -> (r: Vec<&Deadhead>)
        ensures
            r@.len() == self.spec_all().len(),
            forall|i: int| 0 <= i < r@.len() ==> *(#[trigger] r@[i]) == self.spec_all()[i],
    {
        let mut out: Vec<&Deadhead> = Vec::new();
        let mut i: usize = 0;
        while i < self.pull_outs.len()
            invariant
                i <= self.pull_outs.len(),
                out@.len() == i,
                forall|k: int| 0 <= k < i ==> *(#[trigger] out@[k]) == self.pull_outs@[k],
            decreases self.pull_outs.len() - i,
        {
            out.push(&self.pull_outs[i]);
            i = i + 1;
        }
        let mut j: usize = 0;
        while j < self.pull_ins.len()
            invariant
                j <= self.pull_ins.len(),
                out@.len() == self.pull_outs@.len() + j,
                forall|k: int|
                    0 <= k < self.pull_outs@.len() ==> *(#[trigger] out@[k]) == self.pull_outs@[k],
                forall|k: int|
                    0 <= k < j ==> *(#[trigger] out@[self.pull_outs@.len() + k])
                        == self.pull_ins@[k],
            decreases self.pull_ins.len() - j,
        {
            out.push(&self.pull_ins[j]);
            j = j + 1;
        }
        let mut m: usize = 0;
        let ghost base = self.pull_outs@.len() + self.pull_ins@.len();
        while m < self.interlinings.len()
            invariant
                m <= self.interlinings.len(),
                base == self.pull_outs@.len() + self.pull_ins@.len(),
                out@.len() == base + m,
                forall|k: int|
                    0 <= k < self.pull_outs@.len() ==> *(#[trigger] out@[k]) == self.pull_outs@[k],
                forall|k: int|
                    0 <= k < self.pull_ins@.len() ==> *(#[trigger] out@[self.pull_outs@.len() + k])
                        == self.pull_ins@[k],
                forall|k: int|
                    0 <= k < m ==> *(#[trigger] out@[base + k]) == self.interlinings@[k],
            decreases self.interlinings.len() - m,
        {
            out.push(&self.interlinings[m]);
            m = m + 1;
        }
        proof {
            let all = self.spec_all();
            assert forall|i: int| 0 <= i < out@.len() implies *(#[trigger] out@[i]) == all[i] by {
                if i < self.pull_outs@.len() {
                } else if i < base {
                    let k = i - self.pull_outs@.len();
                    assert(*out@[self.pull_outs@.len() + k] == self.pull_ins@[k]);
                } else {
                    let k = i - base;
                    assert(*out@[base + k] == self.interlinings@[k]);
                }
            }
        }
        out
    }
}

} // verus!
