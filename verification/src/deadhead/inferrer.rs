//! Inference of missing pull-outs, pull-ins and interlining deadheads.
//!
//! Every block is worked on by itself. A block without a depot, of its own
//! or by default, gets no deadhead and is listed as incomplete; the other
//! blocks are not touched by that.
//!
//! How long a deadhead takes is an estimate that the caller supplies for a
//! pair of places: the great-circle distance between them divided by an
//! average speed. That is no road distance, and a time derived from it is
//! no more exact than that. Where the coordinates of a place are not known,
//! or no estimate is supplied for the pair, 900 seconds are taken.

use crate::models::block::{first_known, Block};
use crate::models::deadhead::{Deadhead, DeadheadInferenceResult, DeadheadType};
use crate::models::ids::{occurs, RowKey};
use crate::models::row_seq::{rows_in_class, select_rows, targets, RowClass};
use crate::models::schedule::{are_blocks_of, is_block_of, Schedule};
use crate::models::schedule_row::ScheduleRow;
use crate::text::{clone_opt, str_eq};
use vstd::prelude::*;
use vstd::string::*;

verus! {

/// Where a stop lies, in units of 1e-7 degree.
#[derive(Debug)]
pub struct StopCoordinate {
    pub stop_id: String,
    pub lat: i32,
    pub lon: i32,
}

/// How long the way from one place to another is estimated to take.
#[derive(Debug)]
pub struct TravelEstimate {
    pub from: String,
    pub to: String,
    pub seconds: u32,
}

/// The seconds that a deadhead is taken to last where no estimate is known.
pub const DEFAULT_DEADHEAD_SECONDS: u32 = 900;

/// How deadheads are inferred.
#[derive(Debug)]
pub struct InferenceConfig {
    /// The depots by the stops they lie at: stop and depot code. Where a
    /// stop is named twice, the later entry counts.
    pub depot_locations: Vec<(String, String)>,
    /// The depot of a block that names none.
    pub default_depot: Option<String>,
    /// The average speed of a deadhead, in millimetres per second, for
    /// whoever estimates durations from distances.
    pub average_speed_mm_per_s: u32,
    /// Two trips must lie more than this many seconds apart for a deadhead
    /// between them.
    pub min_gap_seconds: u32,
    /// Whether interlining deadheads are inferred.
    pub infer_interlining: bool,
}

/// Why nothing was inferred for a block.
#[derive(Debug, Clone, Copy, PartialEq, Eq, Structural)]
pub enum InferenceError {
    /// The schedule has no block of that identifier.
    BlockNotFound,
    /// Neither the block nor the configuration names a depot.
    NoDepot,
}

/// Infers the deadheads that a schedule leaves out.
#[derive(Debug)]
pub struct DeadheadInferrer {
    /// How to infer.
    pub config: InferenceConfig,
    /// Where the stops lie. Where a stop is named twice, the later entry counts.
    pub stop_coords: Vec<StopCoordinate>,
    /// The estimated durations. Where a pair is named twice, the later
    /// entry counts.
    pub travel_estimates: Vec<TravelEstimate>,
}

impl Default for InferenceConfig {
    fn default() -> (r: Self)
        ensures
            r.depot_locations@.len() == 0,
            r.default_depot is None,
            r.average_speed_mm_per_s == 8330,
            r.min_gap_seconds == 60,
            r.infer_interlining,
    {
        InferenceConfig {
            depot_locations: Vec::new(),
            default_depot: None,
            average_speed_mm_per_s: 8330,
            min_gap_seconds: 60,
            infer_interlining: true,
        }
    }
}

/// The depot code that `locations` gives for the stop `stop_id`.
pub open spec fn depot_at(locations: Seq<(String, String)>, stop_id: Seq<char>) -> Option<String>
    decreases locations.len(),
{
    if locations.len() == 0 {
        None
    } else if locations.last().0@ == stop_id {
        Some(locations.last().1)
    } else {
        depot_at(locations.drop_last(), stop_id)
    }
}

/// The coordinates that `stops` gives for `place`.
pub open spec fn coords_at(stops: Seq<StopCoordinate>, place: Seq<char>) -> Option<(i32, i32)>
    decreases stops.len(),
{
    if stops.len() == 0 {
        None
    } else if stops.last().stop_id@ == place {
        Some((stops.last().lat, stops.last().lon))
    } else {
        coords_at(stops.drop_last(), place)
    }
}

/// The duration that `estimates` gives for the way from `from` to `to`.
pub open spec fn estimate_at(estimates: Seq<TravelEstimate>, from: Seq<char>, to: Seq<char>) -> Option<
    u32,
>
    decreases estimates.len(),
{
    if estimates.len() == 0 {
        None
    } else if estimates.last().from@ == from && estimates.last().to@ == to {
        Some(estimates.last().seconds)
    } else {
        estimate_at(estimates.drop_last(), from, to)
    }
}

/// The latitude of a pair of coordinates.
pub open spec fn lat_of(c: Option<(i32, i32)>) -> Option<i32> {
    match c {
        Some(p) => Some(p.0),
        None => None,
    }
}

/// The longitude of a pair of coordinates.
pub open spec fn lon_of(c: Option<(i32, i32)>) -> Option<i32> {
    match c {
        Some(p) => Some(p.1),
        None => None,
    }
}

/// `a - b`, and 0 where `b` is larger.
pub open spec fn minus_or_zero(a: u32, b: u32) -> u32 {
    if a >= b {
        (a - b) as u32
    } else {
        0
    }
}

/// `a + b`, and `u32::MAX` where the sum is larger.
pub open spec fn plus_capped(a: u32, b: u32) -> u32 {
    if a + b <= u32::MAX {
        (a + b) as u32
    } else {
        u32::MAX
    }
}

/// Whether a deadhead is warranted between the revenue trips `i` and
/// `i + 1` of `rev`: the first ends at another place than the second starts
/// at, and they lie more than `min_gap` seconds apart, or a time is unknown.
pub open spec fn warrants_interlining(rev: Seq<ScheduleRow>, i: int, min_gap: u32) -> bool {
    &&& 0 <= i
    &&& i + 1 < rev.len()
    &&& rev[i].end_place is Some
    &&& rev[i + 1].start_place is Some
    &&& rev[i].end_place.unwrap()@ != rev[i + 1].start_place.unwrap()@
    &&& match (rev[i].spec_end(), rev[i + 1].spec_start()) {
        (Some(end), Some(start)) => start > end + min_gap,
        _ => true,
    }
}

/// The indices below `n` of the revenue trips behind which a deadhead is warranted.
pub open spec fn interlining_sites(rev: Seq<ScheduleRow>, min_gap: u32, n: int) -> Seq<int>
    decreases n,
{
    if n <= 0 {
        Seq::empty()
    } else if warrants_interlining(rev, n - 1, min_gap) {
        interlining_sites(rev, min_gap, n - 1).push(n - 1)
    } else {
        interlining_sites(rev, min_gap, n - 1)
    }
}

/// Whether a pull-out is to be inferred for `block`: it has a revenue trip,
/// the first one starts at a known place, and the block has no pull-out row.
pub open spec fn warrants_pull_out(block: Block) -> bool {
    let rev = rows_in_class(block.rows@, RowClass::Revenue);
    &&& rev.len() > 0
    &&& rev[0].start_place is Some
    &&& !block.has_pull_out()
}

/// Whether a pull-in is to be inferred for `block`: it has a revenue trip,
/// the last one ends at a known place, and the block has no pull-in row.
pub open spec fn warrants_pull_in(block: Block) -> bool {
    let rev = rows_in_class(block.rows@, RowClass::Revenue);
    &&& rev.len() > 0
    &&& rev.last().end_place is Some
    &&& !block.has_pull_in()
}

/// The numbers below `n` for which `pred` holds, in rising order.
pub open spec fn indices_where(n: int, pred: spec_fn(int) -> bool) -> Seq<int>
    decreases n,
{
    if n <= 0 {
        Seq::empty()
    } else if pred(n - 1) {
        indices_where(n - 1, pred).push(n - 1)
    } else {
        indices_where(n - 1, pred)
    }
}

/// `indices_where` holds exactly the numbers below `n` for which `pred` holds.
pub proof fn lemma_indices_where(n: int, pred: spec_fn(int) -> bool)
    ensures
        forall|i: int| #[trigger]
            indices_where(n, pred).contains(i) <==> 0 <= i < n && pred(i),
        forall|k: int|
            0 <= k < indices_where(n, pred).len() ==> 0 <= #[trigger] indices_where(n, pred)[k]
                < n,
    decreases n,
{
    if n > 0 {
        lemma_indices_where(n - 1, pred);
        let prev = indices_where(n - 1, pred);
        let cur = indices_where(n, pred);
        assert forall|i: int| #[trigger] cur.contains(i) <==> 0 <= i < n && pred(i) by {
            if pred(n - 1) {
                assert(cur == prev.push(n - 1));
                if cur.contains(i) {
                    let k = choose|k: int| 0 <= k < cur.len() && cur[k] == i;
                    if k < prev.len() {
                        assert(prev[k] == i);
                        assert(prev.contains(i));
                    }
                }
                if 0 <= i < n && pred(i) {
                    if i == n - 1 {
                        assert(cur[cur.len() - 1] == i);
                    } else {
                        assert(prev.contains(i));
                        let k = choose|k: int| 0 <= k < prev.len() && prev[k] == i;
                        assert(cur[k] == i);
                    }
                }
            }
        }
        assert forall|k: int| 0 <= k < cur.len() implies 0 <= #[trigger] cur[k] < n by {
            if pred(n - 1) && k < prev.len() {
                assert(cur[k] == prev[k]);
            } else if !pred(n - 1) {
                assert(cur[k] == prev[k]);
            }
        }
    }
}

impl InferenceConfig {
    /// The depot code of the stop `stop_id`.
    pub open spec fn spec_depot_for(&self, stop_id: Seq<char>) -> Option<String> {
        depot_at(self.depot_locations@, stop_id)
    }

    /// The configuration that a new inferrer starts from: no depots,
    /// 8.33 m/s, a minimum gap of 60 seconds, interlining inferred.
    pub fn new() -> (r: Self)
        ensures
            r.depot_locations@.len() == 0,
            r.default_depot is None,
            r.average_speed_mm_per_s == 8330,
            r.min_gap_seconds == 60,
            r.infer_interlining,
    {
        Self::default()
    }

    /// The same configuration, with the depot `depot_code` at the stop `stop_id`.
    pub fn add_depot(self, stop_id: &str, depot_code: &str) -> (r: Self)
        ensures
            r.spec_depot_for(stop_id@) is Some,
            r.spec_depot_for(stop_id@).unwrap()@ == depot_code@,
            forall|other: Seq<char>|
                other != stop_id@ ==> r.spec_depot_for(other) == self.spec_depot_for(other),
            r.default_depot == self.default_depot,
            r.average_speed_mm_per_s == self.average_speed_mm_per_s,
            r.min_gap_seconds == self.min_gap_seconds,
            r.infer_interlining == self.infer_interlining,
    {
        let mut c = self;
        let ghost before = c.depot_locations@;
        c.depot_locations.push((String::from_str(stop_id), String::from_str(depot_code)));
        proof {
            assert(c.depot_locations@.drop_last() =~= before);
        }
        c
    }

    /// The same configuration, with `depot` for the blocks that name none.
    pub fn with_default_depot(self, depot: &str) -> (r: Self)
        ensures
            r.default_depot is Some,
            r.default_depot.unwrap()@ == depot@,
            r.depot_locations == self.depot_locations,
            r.average_speed_mm_per_s == self.average_speed_mm_per_s,
            r.min_gap_seconds == self.min_gap_seconds,
            r.infer_interlining == self.infer_interlining,
    {
        let mut c = self;
        c.default_depot = Some(String::from_str(depot));
        c
    }

    /// The depot code of the stop `stop_id`.
    pub fn depot_for(&self, stop_id: &str) -> (r: Option<&String>)
        ensures
            r is Some <==> self.spec_depot_for(stop_id@) is Some,
            r is Some ==> *r.unwrap() == self.spec_depot_for(stop_id@).unwrap(),
    {
        let mut found: Option<&String> = None;
        let mut i: usize = 0;
        while i < self.depot_locations.len()
            invariant
                i <= self.depot_locations.len(),
                found is Some <==> depot_at(self.depot_locations@.take(i as int), stop_id@) is Some,
                found is Some ==> *found.unwrap() == depot_at(
                    self.depot_locations@.take(i as int),
                    stop_id@,
                ).unwrap(),
            decreases self.depot_locations.len() - i,
        {
            proof {
                assert(self.depot_locations@.take(i + 1).drop_last() =~= self.depot_locations@.take(
                    i as int,
                ));
            }
            if str_eq(self.depot_locations[i].0.as_str(), stop_id) {
                found = Some(&self.depot_locations[i].1);
            }
            i = i + 1;
        }
        proof {
            assert(self.depot_locations@.take(self.depot_locations.len() as int)
                =~= self.depot_locations@);
        }
        found
    }
}

impl DeadheadInferrer {
    /// The coordinates of `place`, where the stops name it.
    pub open spec fn spec_coords(&self, place: Seq<char>) -> Option<(i32, i32)> {
        coords_at(self.stop_coords@, place)
    }

    /// The seconds that the way from `from` to `to` is taken to last: the
    /// estimate for the pair, where the coordinates of both places are known
    /// and there is an estimate; else 900.
    pub open spec fn spec_estimate(&self, from: Seq<char>, to: Seq<char>) -> u32 {
        if self.spec_coords(from) is Some && self.spec_coords(to) is Some {
            match estimate_at(self.travel_estimates@, from, to) {
                Some(s) => s,
                None => DEFAULT_DEADHEAD_SECONDS,
            }
        } else {
            DEFAULT_DEADHEAD_SECONDS
        }
    }

    /// The depot of `block`: its own, else the default.
    pub open spec fn spec_depot(&self, block: Block) -> Option<String> {
        first_known(block.depot, self.config.default_depot)
    }

    /// Whether `d` is the pull-out inferred for `block`: from the depot to
    /// where the first revenue trip starts, ending as that trip starts and
    /// starting the estimated duration before, never before 0.
    pub open spec fn is_pull_out_of(&self, d: Deadhead, block: Block) -> bool {
        let depot = self.spec_depot(block).unwrap()@;
        let first = rows_in_class(block.rows@, RowClass::Revenue)[0];
        let place = first.start_place.unwrap()@;
        &&& d.deadhead_type == DeadheadType::PullOut
        &&& d.from_location@ == depot
        &&& d.to_location@ == place
        &&& d.block_id is Some
        &&& d.block_id.unwrap()@ == block.block_id@
        &&& d.from_trip_id is None
        &&& d.to_trip_id is None
        &&& d.distance_meters is None
        &&& d.from_lat is None
        &&& d.from_lon is None
        &&& d.to_lat == lat_of(self.spec_coords(place))
        &&& d.to_lon == lon_of(self.spec_coords(place))
        &&& d.is_inferred
        &&& match first.spec_start() {
            Some(t) => d.start_time_seconds == Some(
                minus_or_zero(t, self.spec_estimate(depot, place)),
            ) && d.end_time_seconds == Some(t),
            None => d.start_time_seconds is None && d.end_time_seconds is None,
        }
    }

    /// Whether `d` is the pull-in inferred for `block`: from where the last
    /// revenue trip ends to the depot, starting as that trip ends and
    /// lasting the estimated duration.
    pub open spec fn is_pull_in_of(&self, d: Deadhead, block: Block) -> bool {
        let depot = self.spec_depot(block).unwrap()@;
        let last = rows_in_class(block.rows@, RowClass::Revenue).last();
        let place = last.end_place.unwrap()@;
        &&& d.deadhead_type == DeadheadType::PullIn
        &&& d.from_location@ == place
        &&& d.to_location@ == depot
        &&& d.block_id is Some
        &&& d.block_id.unwrap()@ == block.block_id@
        &&& d.from_trip_id is None
        &&& d.to_trip_id is None
        &&& d.distance_meters is None
        &&& d.from_lat == lat_of(self.spec_coords(place))
        &&& d.from_lon == lon_of(self.spec_coords(place))
        &&& d.to_lat is None
        &&& d.to_lon is None
        &&& d.is_inferred
        &&& match last.spec_end() {
            Some(t) => d.start_time_seconds == Some(t) && d.end_time_seconds == Some(
                plus_capped(t, self.spec_estimate(place, depot)),
            ),
            None => d.start_time_seconds is None && d.end_time_seconds is None,
        }
    }

    /// Whether `d` is the interlining deadhead inferred between the revenue
    /// trips `i` and `i + 1` of `block`.
    pub open spec fn is_interlining_of(&self, d: Deadhead, block: Block, i: int) -> bool {
        let rev = rows_in_class(block.rows@, RowClass::Revenue);
        let prev = rev[i];
        let next = rev[i + 1];
        let from = prev.end_place.unwrap()@;
        let to = next.start_place.unwrap()@;
        &&& d.deadhead_type == DeadheadType::Interlining
        &&& d.from_location@ == from
        &&& d.to_location@ == to
        &&& d.block_id is Some
        &&& d.block_id.unwrap()@ == block.block_id@
        &&& d.from_trip_id == prev.trip_id
        &&& d.to_trip_id == next.trip_id
        &&& d.distance_meters is None
        &&& d.from_lat == lat_of(self.spec_coords(from))
        &&& d.from_lon == lon_of(self.spec_coords(from))
        &&& d.to_lat == lat_of(self.spec_coords(to))
        &&& d.to_lon == lon_of(self.spec_coords(to))
        &&& d.is_inferred
        &&& match (prev.spec_end(), next.spec_start()) {
            (Some(end), Some(start)) => d.start_time_seconds == Some(end) && d.end_time_seconds
                == Some(start),
            _ => d.start_time_seconds is None && d.end_time_seconds is None,
        }
    }

    /// The places between revenue trips of `block` for which an interlining
    /// deadhead is inferred: none where interlining is switched off.
    pub open spec fn spec_sites(&self, block: Block) -> Seq<int> {
        let rev = rows_in_class(block.rows@, RowClass::Revenue);
        if self.config.infer_interlining {
            interlining_sites(rev, self.config.min_gap_seconds, rev.len() - 1)
        } else {
            Seq::empty()
        }
    }

    /// Whether `list` holds the interlining deadheads inferred for `block`,
    /// in the order of the trips.
    pub open spec fn are_interlinings_of(&self, list: Seq<Deadhead>, block: Block) -> bool {
        &&& list.len() == self.spec_sites(block).len()
        &&& forall|k: int|
            0 <= k < list.len() ==> self.is_interlining_of(
                #[trigger] list[k],
                block,
                self.spec_sites(block)[k],
            )
    }

    /// Whether `r` is what is inferred for `block`, a block with a depot.
    pub open spec fn is_inference_for(&self, r: DeadheadInferenceResult, block: Block) -> bool {
        &&& r.pull_outs@.len() == (if warrants_pull_out(block) {
            1nat
        } else {
            0nat
        })
        &&& warrants_pull_out(block) ==> self.is_pull_out_of(r.pull_outs@[0], block)
        &&& r.pull_ins@.len() == (if warrants_pull_in(block) {
            1nat
        } else {
            0nat
        })
        &&& warrants_pull_in(block) ==> self.is_pull_in_of(r.pull_ins@[0], block)
        &&& self.are_interlinings_of(r.interlinings@, block)
        &&& r.incomplete_blocks@.len() == 0
    }

    /// Whether a pull-out is inferred for `block`: it has a depot to start
    /// from and no pull-out row of its own.
    pub open spec fn owes_pull_out(&self, block: Block) -> bool {
        self.spec_depot(block) is Some && warrants_pull_out(block)
    }

    /// Whether a pull-in is inferred for `block`.
    pub open spec fn owes_pull_in(&self, block: Block) -> bool {
        self.spec_depot(block) is Some && warrants_pull_in(block)
    }

    /// The first `n` of `blocks` for which a pull-out is inferred, by index.
    pub open spec fn pull_out_owners(&self, blocks: Seq<Block>, n: int) -> Seq<int> {
        indices_where(n, |i: int| self.owes_pull_out(blocks[i]))
    }

    /// The first `n` of `blocks` for which a pull-in is inferred, by index.
    pub open spec fn pull_in_owners(&self, blocks: Seq<Block>, n: int) -> Seq<int> {
        indices_where(n, |i: int| self.owes_pull_in(blocks[i]))
    }

    /// The first `n` of `blocks` that have no depot, by index.
    pub open spec fn incomplete_owners(&self, blocks: Seq<Block>, n: int) -> Seq<int> {
        indices_where(n, |i: int| self.spec_depot(blocks[i]) is None)
    }

    /// The interlining deadheads inferred for the first `n` of `blocks`:
    /// for each the index of its block and the place between trips.
    pub open spec fn interlining_owners(&self, blocks: Seq<Block>, n: int) -> Seq<(int, int)>
        decreases n,
    {
        if n <= 0 {
            Seq::empty()
        } else if self.spec_depot(blocks[n - 1]) is Some {
            let sites = self.spec_sites(blocks[n - 1]);
            self.interlining_owners(blocks, n - 1) + Seq::new(
                sites.len(),
                |k: int| (n - 1, sites[k]),
            )
        } else {
            self.interlining_owners(blocks, n - 1)
        }
    }

    /// Whether `r` is what is inferred for the first `n` of `blocks`: the
    /// deadheads of each kind in the order of the blocks, and the
    /// identifiers of the blocks without a depot.
    pub open spec fn is_inference_of(
        &self,
        r: DeadheadInferenceResult,
        blocks: Seq<Block>,
        n: int,
    ) -> bool {
        let outs = self.pull_out_owners(blocks, n);
        let ins = self.pull_in_owners(blocks, n);
        let inter = self.interlining_owners(blocks, n);
        let missing = self.incomplete_owners(blocks, n);
        &&& r.pull_outs@.len() == outs.len()
        &&& forall|k: int|
            0 <= k < outs.len() ==> self.is_pull_out_of(#[trigger] r.pull_outs@[k], blocks[outs[k]])
        &&& r.pull_ins@.len() == ins.len()
        &&& forall|k: int|
            0 <= k < ins.len() ==> self.is_pull_in_of(#[trigger] r.pull_ins@[k], blocks[ins[k]])
        &&& r.interlinings@.len() == inter.len()
        &&& forall|k: int|
            0 <= k < inter.len() ==> self.is_interlining_of(
                #[trigger] r.interlinings@[k],
                blocks[inter[k].0],
                inter[k].1,
            )
        &&& r.incomplete_blocks@.len() == missing.len()
        &&& forall|k: int|
            0 <= k < missing.len() ==> (#[trigger] r.incomplete_blocks@[k])@
                == blocks[missing[k]].block_id@
    }

    /// An inferrer that knows no stop and no estimate.
    pub fn new(config: InferenceConfig) -> (r: Self)
        ensures
            r.config == config,
            r.stop_coords@.len() == 0,
            r.travel_estimates@.len() == 0,
    {
        DeadheadInferrer { config, stop_coords: Vec::new(), travel_estimates: Vec::new() }
    }

    /// An inferrer that knows where the stops of the timetable lie.
    pub fn with_gtfs(config: InferenceConfig, stops: Vec<StopCoordinate>) -> (r: Self)
        ensures
            r.config == config,
            r.stop_coords == stops,
            r.travel_estimates@.len() == 0,
    {
        DeadheadInferrer { config, stop_coords: stops, travel_estimates: Vec::new() }
    }

    /// The same inferrer, with the estimated durations `estimates`.
    pub fn with_travel_estimates(self, estimates: Vec<TravelEstimate>) -> (r: Self)
        ensures
            r.config == self.config,
            r.stop_coords == self.stop_coords,
            r.travel_estimates == estimates,
    {
        DeadheadInferrer {
            config: self.config,
            stop_coords: self.stop_coords,
            travel_estimates: estimates,
        }
    }

    /// The coordinates of `place`.
    pub fn coordinates(&self, place: &str) -> (r: Option<(i32, i32)>)
        ensures
            r == self.spec_coords(place@),
    {
        let mut found: Option<(i32, i32)> = None;
        let mut i: usize = 0;
        while i < self.stop_coords.len()
            invariant
                i <= self.stop_coords.len(),
                found == coords_at(self.stop_coords@.take(i as int), place@),
            decreases self.stop_coords.len() - i,
        {
            proof {
                assert(self.stop_coords@.take(i + 1).drop_last() =~= self.stop_coords@.take(
                    i as int,
                ));
            }
            if str_eq(self.stop_coords[i].stop_id.as_str(), place) {
                found = Some((self.stop_coords[i].lat, self.stop_coords[i].lon));
            }
            i = i + 1;
        }
        proof {
            assert(self.stop_coords@.take(self.stop_coords.len() as int) =~= self.stop_coords@);
        }
        found
    }

    /// The seconds that the way from `from` to `to` is taken to last: the
    /// estimate for the pair, where the coordinates of both places are known
    /// and there is an estimate; else 900.
    pub fn estimate_duration(&self, from: &str, to: &str) -> (r: u32)
        ensures
            r == self.spec_estimate(from@, to@),
    {
        if self.coordinates(from).is_none() || self.coordinates(to).is_none() {
            return DEFAULT_DEADHEAD_SECONDS;
        }
        let mut found: Option<u32> = None;
        let mut i: usize = 0;
        while i < self.travel_estimates.len()
            invariant
                i <= self.travel_estimates.len(),
                found == estimate_at(self.travel_estimates@.take(i as int), from@, to@),
            decreases self.travel_estimates.len() - i,
        {
            proof {
                assert(self.travel_estimates@.take(i + 1).drop_last()
                    =~= self.travel_estimates@.take(i as int));
            }
            let e = &self.travel_estimates[i];
            if str_eq(e.from.as_str(), from) && str_eq(e.to.as_str(), to) {
                found = Some(e.seconds);
            }
            i = i + 1;
        }
        proof {
            assert(self.travel_estimates@.take(self.travel_estimates.len() as int)
                =~= self.travel_estimates@);
        }
        match found {
            Some(s) => s,
            None => DEFAULT_DEADHEAD_SECONDS,
        }
    }

    /// The interlining deadhead between the trips `prev` and `next`.
    fn make_interlining(
        &self,
        block: &Block,
        prev: &ScheduleRow,
        next: &ScheduleRow,
        Ghost(i): Ghost<int>,
    ) -> (d: Deadhead)
        requires
            0 <= i,
            i + 1 < rows_in_class(block.rows@, RowClass::Revenue).len(),
            *prev == rows_in_class(block.rows@, RowClass::Revenue)[i],
            *next == rows_in_class(block.rows@, RowClass::Revenue)[i + 1],
            prev.end_place is Some,
            next.start_place is Some,
        ensures
            self.is_interlining_of(d, *block, i),
    {
        let from = match &prev.end_place {
            Some(p) => p.as_str(),
            None => "",
        };
        let to = match &next.start_place {
            Some(p) => p.as_str(),
            None => "",
        };
        let mut d = Deadhead::interlining(from, to).with_block(block.block_id.as_str()).inferred();
        d.from_trip_id = clone_opt(&prev.trip_id);
        d.to_trip_id = clone_opt(&next.trip_id);
        match self.coordinates(from) {
            Some((lat, lon)) => {
                d.from_lat = Some(lat);
                d.from_lon = Some(lon);
            },
            None => {},
        }
        match self.coordinates(to) {
            Some((lat, lon)) => {
                d.to_lat = Some(lat);
                d.to_lon = Some(lon);
            },
            None => {},
        }
        match (prev.end_time_seconds(), next.start_time_seconds()) {
            (Some(end), Some(start)) => {
                d.start_time_seconds = Some(end);
                d.end_time_seconds = Some(start);
            },
            _ => {},
        }
        d
    }

    /// What is inferred for one block.
    ///
    /// Fails with `NoDepot` exactly where neither the block nor the
    /// configuration names a depot. A pull-out is inferred only where the
    /// block has no pull-out row, a pull-in only where it has no pull-in row.
    pub fn infer_for_block(&self, block: &Block) -> (r: Result<
        DeadheadInferenceResult,
        InferenceError,
    >)
        ensures
            self.spec_depot(*block) is None <==> r is Err,
            r is Err ==> r->Err_0 == InferenceError::NoDepot,
            r is Ok ==> self.is_inference_for(r->Ok_0, *block),
    {
        let depot_ref: &String = match &block.depot {
            Some(d) => d,
            None => match &self.config.default_depot {
                Some(d) => d,
                None => {
                    return Err(InferenceError::NoDepot);
                },
            },
        };
        let depot = depot_ref.as_str();
        let mut result = DeadheadInferenceResult::default();
        let rev = select_rows(&block.rows, RowClass::Revenue);
        let ghost revs = rows_in_class(block.rows@, RowClass::Revenue);
        proof {
            assert(targets(rev@).len() == rev@.len());
        }
        if rev.len() > 0 {
            let first = rev[0];
            assert(*first == targets(rev@)[0]);
            match &first.start_place {
                Some(place) => {
                    if block.pull_out().is_none() {
                        let mut d = Deadhead::pull_out(depot, place.as_str()).with_block(
                            block.block_id.as_str(),
                        ).inferred();
                        match self.coordinates(place.as_str()) {
                            Some((lat, lon)) => {
                                d.to_lat = Some(lat);
                                d.to_lon = Some(lon);
                            },
                            None => {},
                        }
                        match first.start_time_seconds() {
                            Some(t) => {
                                let est = self.estimate_duration(depot, place.as_str());
                                d.start_time_seconds = Some(
                                    if t >= est {
                                        t - est
                                    } else {
                                        0
                                    },
                                );
                                d.end_time_seconds = Some(t);
                            },
                            None => {},
                        }
                        result.pull_outs.push(d);
                    }
                },
                None => {},
            }
            let last = rev[rev.len() - 1];
            assert(*last == targets(rev@)[rev.len() - 1]);
            match &last.end_place {
                Some(place) => {
                    if block.pull_in().is_none() {
                        let mut d = Deadhead::pull_in(place.as_str(), depot).with_block(
                            block.block_id.as_str(),
                        ).inferred();
                        match self.coordinates(place.as_str()) {
                            Some((lat, lon)) => {
                                d.from_lat = Some(lat);
                                d.from_lon = Some(lon);
                            },
                            None => {},
                        }
                        match last.end_time_seconds() {
                            Some(t) => {
                                let est = self.estimate_duration(place.as_str(), depot);
                                d.start_time_seconds = Some(t);
                                d.end_time_seconds = Some(
                                    if t as u64 + est as u64 <= 0xffff_ffffu64 {
                                        t + est
                                    } else {
                                        0xffff_ffffu32
                                    },
                                );
                            },
                            None => {},
                        }
                        result.pull_ins.push(d);
                    }
                },
                None => {},
            }
        }
        if self.config.infer_interlining && rev.len() > 0 {
            let min_gap = self.config.min_gap_seconds;
            let last = rev.len() - 1;
            let mut i: usize = 0;
            while i < last
                invariant
                    last == rev@.len() - 1,
                    i <= last,
                    revs == rows_in_class(block.rows@, RowClass::Revenue),
                    targets(rev@) == revs,
                    min_gap == self.config.min_gap_seconds,
                    self.config.infer_interlining,
                    result.pull_outs@.len() == (if warrants_pull_out(*block) {
                        1nat
                    } else {
                        0nat
                    }),
                    warrants_pull_out(*block) ==> self.is_pull_out_of(result.pull_outs@[0], *block),
                    result.pull_ins@.len() == (if warrants_pull_in(*block) {
                        1nat
                    } else {
                        0nat
                    }),
                    warrants_pull_in(*block) ==> self.is_pull_in_of(result.pull_ins@[0], *block),
                    result.incomplete_blocks@.len() == 0,
                    result.interlinings@.len() == interlining_sites(revs, min_gap, i as int).len(),
                    forall|k: int|
                        0 <= k < result.interlinings@.len() ==> self.is_interlining_of(
                            #[trigger] result.interlinings@[k],
                            *block,
                            interlining_sites(revs, min_gap, i as int)[k],
                        ),
                decreases last - i,
            {
                let prev = rev[i];
                let next = rev[i + 1];
                assert(*prev == targets(rev@)[i as int]);
                assert(*next == targets(rev@)[i + 1]);
                let differ = match (&prev.end_place, &next.start_place) {
                    (Some(a), Some(b)) => !str_eq(a.as_str(), b.as_str()),
                    _ => false,
                };
                let needed = differ && match (prev.end_time_seconds(), next.start_time_seconds()) {
                    (Some(end), Some(start)) => start as u64 > end as u64 + min_gap as u64,
                    _ => true,
                };
                assert(needed == warrants_interlining(revs, i as int, min_gap));
                if needed {
                    let ghost before = result.interlinings@;
                    let d = self.make_interlining(block, prev, next, Ghost(i as int));
                    result.interlinings.push(d);
                    proof {
                        let sites = interlining_sites(revs, min_gap, i as int);
                        let grown = interlining_sites(revs, min_gap, i + 1);
                        assert(grown == sites.push(i as int));
                        assert forall|k: int|
                            0 <= k < result.interlinings@.len() implies self.is_interlining_of(
                            #[trigger] result.interlinings@[k],
                            *block,
                            grown[k],
                        ) by {
                            if k < before.len() {
                                assert(result.interlinings@[k] == before[k]);
                                assert(grown[k] == sites[k]);
                            }
                        }
                    }
                }
                i = i + 1;
            }
        }
        Ok(result)
    }

    /// Infers the deadheads that `schedule` leaves out.
    ///
    /// The blocks are derived from the rows and worked on one by one, in
    /// rising order of their identifiers. A block without a depot is listed
    /// in `incomplete_blocks` and gets no deadhead; the others are not
    /// touched by that.
    pub fn infer(&self, schedule: &mut Schedule) -> (r: DeadheadInferenceResult)
        ensures
            final(schedule).same_rows_as(old(schedule)),
            final(schedule).duties == old(schedule).duties,
            final(schedule).blocks is Some,
            are_blocks_of(final(schedule).blocks.unwrap().entries@, old(schedule).rows@),
            self.is_inference_of(
                r,
                final(schedule).blocks.unwrap().entries@,
                final(schedule).blocks.unwrap().entries@.len() as int,
            ),
    {
        schedule.derive_blocks();
        let map = match &schedule.blocks {
            Some(m) => m,
            None => {
                return DeadheadInferenceResult::default();
            },
        };
        let blocks = &map.entries;
        let mut result = DeadheadInferenceResult::default();
        let mut i: usize = 0;
        while i < blocks.len()
            invariant
                i <= blocks.len(),
                self.is_inference_of(result, blocks@, i as int),
            decreases blocks.len() - i,
        {
            let block = &blocks[i];
            let ghost before = result;
            let ghost outs = self.pull_out_owners(blocks@, i as int);
            let ghost ins = self.pull_in_owners(blocks@, i as int);
            let ghost inter = self.interlining_owners(blocks@, i as int);
            let ghost missing = self.incomplete_owners(blocks@, i as int);
            match self.infer_for_block(block) {
                Ok(found) => {
                    let mut found = found;
                    let ghost part = found;
                    result.pull_outs.append(&mut found.pull_outs);
                    result.pull_ins.append(&mut found.pull_ins);
                    result.interlinings.append(&mut found.interlinings);
                    proof {
                        let outs2 = self.pull_out_owners(blocks@, i + 1);
                        let ins2 = self.pull_in_owners(blocks@, i + 1);
                        let inter2 = self.interlining_owners(blocks@, i + 1);
                        let sites = self.spec_sites(*block);
                        assert(self.incomplete_owners(blocks@, i + 1) == missing);
                        assert forall|k: int| 0 <= k < outs2.len() implies self.is_pull_out_of(
                            #[trigger] result.pull_outs@[k],
                            blocks@[outs2[k]],
                        ) by {
                            if k < outs.len() {
                                assert(result.pull_outs@[k] == before.pull_outs@[k]);
                                assert(outs2[k] == outs[k]);
                            } else {
                                assert(result.pull_outs@[k] == part.pull_outs@[0]);
                            }
                        }
                        assert forall|k: int| 0 <= k < ins2.len() implies self.is_pull_in_of(
                            #[trigger] result.pull_ins@[k],
                            blocks@[ins2[k]],
                        ) by {
                            if k < ins.len() {
                                assert(result.pull_ins@[k] == before.pull_ins@[k]);
                                assert(ins2[k] == ins[k]);
                            } else {
                                assert(result.pull_ins@[k] == part.pull_ins@[0]);
                            }
                        }
                        assert(inter2 == inter + Seq::new(sites.len(), |k: int| (i as int, sites[k])));
                        assert forall|k: int| 0 <= k < inter2.len() implies self.is_interlining_of(
                            #[trigger] result.interlinings@[k],
                            blocks@[inter2[k].0],
                            inter2[k].1,
                        ) by {
                            if k < inter.len() {
                                assert(result.interlinings@[k] == before.interlinings@[k]);
                                assert(inter2[k] == inter[k]);
                            } else {
                                let j = k - inter.len();
                                assert(result.interlinings@[k] == part.interlinings@[j]);
                                assert(inter2[k] == (i as int, sites[j]));
                            }
                        }
                    }
                },
                Err(_) => {
                    result.incomplete_blocks.push(block.block_id.clone());
                    proof {
                        let missing2 = self.incomplete_owners(blocks@, i + 1);
                        assert(missing2 == missing.push(i as int));
                        assert(self.pull_out_owners(blocks@, i + 1) == outs);
                        assert(self.pull_in_owners(blocks@, i + 1) == ins);
                        assert(self.interlining_owners(blocks@, i + 1) == inter);
                        assert forall|k: int| 0 <= k < missing2.len() implies (
                        #[trigger] result.incomplete_blocks@[k])@
                            == blocks@[missing2[k]].block_id@ by {
                            if k < missing.len() {
                                assert(result.incomplete_blocks@[k] == before.incomplete_blocks@[k]);
                                assert(missing2[k] == missing[k]);
                            }
                        }
                    }
                },
            }
            i = i + 1;
        }
        result
    }

    /// What is inferred for the block `block_id` of `schedule`.
    ///
    /// Fails with `BlockNotFound` where no row names the block, and with
    /// `NoDepot` where the block has no depot and there is no default.
    pub fn infer_block_deadheads(&self, schedule: &mut Schedule, block_id: &str) -> (r: Result<
        DeadheadInferenceResult,
        InferenceError,
    >)
        ensures
            final(schedule).same_rows_as(old(schedule)),
            final(schedule).duties == old(schedule).duties,
            !occurs(old(schedule).rows@, RowKey::Block, block_id@) ==> r == Err::<
                DeadheadInferenceResult,
                InferenceError,
            >(InferenceError::BlockNotFound),
            occurs(old(schedule).rows@, RowKey::Block, block_id@) ==> exists|block: Block|
                {
                    &&& block.block_id@ == block_id@
                    &&& #[trigger] is_block_of(block, old(schedule).rows@)
                    &&& (self.spec_depot(block) is None <==> r is Err)
                    &&& (r is Err ==> r->Err_0 == InferenceError::NoDepot)
                    &&& (r is Ok ==> self.is_inference_for(r->Ok_0, block))
                },
    {
        match schedule.get_block(block_id) {
            Some(block) => {
                let r = self.infer_for_block(block);
                assert(is_block_of(*block, old(schedule).rows@));
                r
            },
            None => Err(InferenceError::BlockNotFound),
        }
    }
}

/// No pull-out is inferred for a block that has a pull-out row, and no
/// pull-in for one that has a pull-in row.
pub proof fn lemma_existing_row_is_kept(
    inferrer: DeadheadInferrer,
    r: DeadheadInferenceResult,
    block: Block,
)
    requires
        inferrer.is_inference_for(r, block),
    ensures
        block.has_pull_out() ==> r.pull_outs@.len() == 0,
        block.has_pull_in() ==> r.pull_ins@.len() == 0,
{
}

/// In the result for a whole schedule, no pull-out belongs to a block that
/// has a pull-out row, and no pull-in to a block that has a pull-in row.
pub proof fn lemma_no_inference_beside_existing_row(
    inferrer: DeadheadInferrer,
    blocks: Seq<Block>,
    i: int,
)
    requires
        0 <= i < blocks.len(),
    ensures
        blocks[i].has_pull_out() ==> !inferrer.pull_out_owners(blocks, blocks.len() as int).contains(
            i,
        ),
        blocks[i].has_pull_in() ==> !inferrer.pull_in_owners(blocks, blocks.len() as int).contains(
            i,
        ),
{
    lemma_indices_where(blocks.len() as int, |k: int| inferrer.owes_pull_out(blocks[k]));
    lemma_indices_where(blocks.len() as int, |k: int| inferrer.owes_pull_in(blocks[k]));
}

/// No interlining deadhead belongs to a block without a depot.
pub proof fn lemma_interlining_owners_have_depot(
    inferrer: DeadheadInferrer,
    blocks: Seq<Block>,
    n: int,
)
    requires
        0 <= n <= blocks.len(),
    ensures
        forall|k: int|
            0 <= k < inferrer.interlining_owners(blocks, n).len() ==> {
                let owner = (#[trigger] inferrer.interlining_owners(blocks, n)[k]).0;
                0 <= owner < n && inferrer.spec_depot(blocks[owner]) is Some
            },
    decreases n,
{
    if n > 0 {
        lemma_interlining_owners_have_depot(inferrer, blocks, n - 1);
        let prev = inferrer.interlining_owners(blocks, n - 1);
        let cur = inferrer.interlining_owners(blocks, n);
        assert forall|k: int| 0 <= k < cur.len() implies {
            let owner = (#[trigger] cur[k]).0;
            0 <= owner < n && inferrer.spec_depot(blocks[owner]) is Some
        } by {
            if k < prev.len() {
                assert(cur[k] == prev[k]);
            }
        }
    }
}

/// A block without a depot, of its own or by default, is listed as
/// incomplete, and no inferred deadhead belongs to it.
pub proof fn lemma_block_without_depot_is_incomplete(
    inferrer: DeadheadInferrer,
    r: DeadheadInferenceResult,
    blocks: Seq<Block>,
    i: int,
)
    requires
        inferrer.is_inference_of(r, blocks, blocks.len() as int),
        0 <= i < blocks.len(),
        blocks[i].depot is None,
        inferrer.config.default_depot is None,
    ensures
        exists|k: int|
            0 <= k < r.incomplete_blocks@.len() && (#[trigger] r.incomplete_blocks@[k])@
                == blocks[i].block_id@,
        !inferrer.pull_out_owners(blocks, blocks.len() as int).contains(i),
        !inferrer.pull_in_owners(blocks, blocks.len() as int).contains(i),
        forall|k: int|
            0 <= k < inferrer.interlining_owners(blocks, blocks.len() as int).len() ==> (
            #[trigger] inferrer.interlining_owners(blocks, blocks.len() as int)[k]).0 != i,
{
    let n = blocks.len() as int;
    lemma_indices_where(n, |k: int| inferrer.owes_pull_out(blocks[k]));
    lemma_indices_where(n, |k: int| inferrer.owes_pull_in(blocks[k]));
    lemma_indices_where(n, |k: int| inferrer.spec_depot(blocks[k]) is None);
    lemma_interlining_owners_have_depot(inferrer, blocks, n);
    let missing = inferrer.incomplete_owners(blocks, n);
    assert(missing.contains(i));
    let k = choose|k: int| 0 <= k < missing.len() && missing[k] == i;
    assert(r.incomplete_blocks@[k]@ == blocks[missing[k]].block_id@);
}

} // verus!
