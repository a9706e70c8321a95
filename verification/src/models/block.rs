//! A vehicle block: the rows that one vehicle works through in a day.

use crate::models::row_seq::{
    capped, clone_rows, count_in_class, count_rows, earliest_start, find_first_of_type,
    find_gaps_in, find_last_of_type, find_place_breaks_in, first_of_type, gaps_before,
    last_of_type, latest_end, max_end, min_start, place_breaks_before, rows_in_class, same_row,
    select_rows, sum_durations, targets, total_duration, RowClass,
};
use crate::models::schedule_row::{RowType, ScheduleRow};
use crate::models::time_order::{sort_by_start, sorted_by_start};
use crate::text::clone_opt;
use crate::time::{duration_between, spec_duration};
use vstd::prelude::*;

verus! {

/// The rows that share a block identifier.
///
/// Depot and vehicle are taken from the first row that names them; later
/// rows do not change them.
#[derive(Debug)]
pub struct Block {
    /// The block's identifier.
    pub block_id: String,
    /// The rows of the block.
    pub rows: Vec<ScheduleRow>,
    /// The depot of the block.
    pub depot: Option<String>,
    /// The class of vehicle that the block needs.
    pub vehicle_class: Option<String>,
    /// The type of vehicle.
    pub vehicle_type: Option<String>,
}

/// Figures that sum up a block.
#[derive(Debug)]
pub struct BlockSummary {
    pub block_id: String,
    pub total_rows: usize,
    pub revenue_trips: usize,
    pub duration_seconds: Option<u32>,
    pub revenue_time_seconds: u32,
    pub deadhead_time_seconds: u32,
    pub depot: Option<String>,
}

/// The first of two optional values that is present.
pub open spec fn first_known(a: Option<String>, b: Option<String>) -> Option<String> {
    if a is Some {
        a
    } else {
        b
    }
}

impl Clone for Block {
    fn clone(&self) -> (r: Self)
        ensures
            r.block_id == self.block_id,
            r.rows@ == self.rows@,
            r.depot == self.depot,
            r.vehicle_class == self.vehicle_class,
            r.vehicle_type == self.vehicle_type,
    {
        Block {
            block_id: self.block_id.clone(),
            rows: clone_rows(&self.rows),
            depot: clone_opt(&self.depot),
            vehicle_class: clone_opt(&self.vehicle_class),
            vehicle_type: clone_opt(&self.vehicle_type),
        }
    }
}

impl Block {
    /// The earliest known start of a row.
    pub open spec fn spec_start(&self) -> Option<u32> {
        earliest_start(self.rows@)
    }

    /// The latest known end of a row.
    pub open spec fn spec_end(&self) -> Option<u32> {
        latest_end(self.rows@)
    }

    /// From the earliest start to the latest end.
    pub open spec fn spec_duration(&self) -> Option<u32> {
        spec_duration(self.spec_start(), self.spec_end())
    }

    /// Whether the block has a pull-out row.
    pub open spec fn has_pull_out(&self) -> bool {
        first_of_type(self.rows@, RowType::PullOut) is Some
    }

    /// Whether the block has a pull-in row.
    pub open spec fn has_pull_in(&self) -> bool {
        last_of_type(self.rows@, RowType::PullIn) is Some
    }

    /// A block without rows.
    pub fn new(block_id: String) -> (r: Self)
        ensures
            r.block_id == block_id,
            r.rows@.len() == 0,
            r.depot is None,
            r.vehicle_class is None,
            r.vehicle_type is None,
    {
        Block { block_id, rows: Vec::new(), depot: None, vehicle_class: None, vehicle_type: None }
    }

    /// Adds a row behind the others. Depot, vehicle class and vehicle type
    /// are taken from the row where the block has none yet.
    pub fn add_row(&mut self, row: ScheduleRow)
        ensures
            final(self).block_id == old(self).block_id,
            final(self).rows@ == old(self).rows@.push(row),
            final(self).depot == first_known(old(self).depot, row.depot),
            final(self).vehicle_class == first_known(old(self).vehicle_class, row.vehicle_class),
            final(self).vehicle_type == first_known(old(self).vehicle_type, row.vehicle_type),
    {
        if self.depot.is_none() {
            self.depot = clone_opt(&row.depot);
        }
        if self.vehicle_class.is_none() {
            self.vehicle_class = clone_opt(&row.vehicle_class);
        }
        if self.vehicle_type.is_none() {
            self.vehicle_type = clone_opt(&row.vehicle_type);
        }
        self.rows.push(row);
    }

    /// Puts the rows in the order of their start times. Rows with the same
    /// start keep their order; a row without a known start counts as
    /// starting at 0.
    pub fn sort_rows_by_time(&mut self)
        ensures
            final(self).rows@ == sorted_by_start(old(self).rows@),
            final(self).block_id == old(self).block_id,
            final(self).depot == old(self).depot,
            final(self).vehicle_class == old(self).vehicle_class,
            final(self).vehicle_type == old(self).vehicle_type,
    {
        sort_by_start(&mut self.rows);
    }

    /// The number of rows.
    pub fn len(&self) -> (r: usize)
        ensures
            r == self.rows@.len(),
    {
        self.rows.len()
    }

    /// Whether the block has no rows.
    pub fn is_empty(&self) -> (r: bool)
        ensures
            r == (self.rows@.len() == 0),
    {
        self.rows.len() == 0
    }

    /// The revenue trips, in their order.
    pub fn revenue_trips(&self) -> (r: Vec<&ScheduleRow>)
        ensures
            targets(r@) == rows_in_class(self.rows@, RowClass::Revenue),
    {
        select_rows(&self.rows, RowClass::Revenue)
    }

    /// The number of revenue trips.
    pub fn revenue_trip_count(&self) -> (r: usize)
        ensures
            r == count_in_class(self.rows@, RowClass::Revenue),
    {
        count_rows(&self.rows, RowClass::Revenue)
    }

    /// The first pull-out row.
    pub fn pull_out(&self) -> (r: Option<&ScheduleRow>)
        ensures
            same_row(r, first_of_type(self.rows@, RowType::PullOut)),
    {
        find_first_of_type(&self.rows, RowType::PullOut)
    }

    /// The last pull-in row.
    pub fn pull_in(&self) -> (r: Option<&ScheduleRow>)
        ensures
            same_row(r, last_of_type(self.rows@, RowType::PullIn)),
    {
        find_last_of_type(&self.rows, RowType::PullIn)
    }

    /// The first row.
    pub fn first_row(&self) -> (r: Option<&ScheduleRow>)
        ensures
            self.rows@.len() == 0 ==> r is None,
            self.rows@.len() > 0 ==> r is Some && *r.unwrap() == self.rows@[0],
    {
        if self.rows.len() == 0 {
            None
        } else {
            Some(&self.rows[0])
        }
    }

    /// The last row.
    pub fn last_row(&self) -> (r: Option<&ScheduleRow>)
        ensures
            self.rows@.len() == 0 ==> r is None,
            self.rows@.len() > 0 ==> r is Some && *r.unwrap() == self.rows@.last(),
    {
        if self.rows.len() == 0 {
            None
        } else {
            Some(&self.rows[self.rows.len() - 1])
        }
    }

    /// When the block starts: the earliest known start of a row, whatever
    /// the order of the rows.
    pub fn start_time_seconds(&self) -> (r: Option<u32>)
        ensures
            r == self.spec_start(),
    {
        min_start(&self.rows)
    }

    /// When the block ends: the latest known end of a row.
    pub fn end_time_seconds(&self) -> (r: Option<u32>)
        ensures
            r == self.spec_end(),
    {
        max_end(&self.rows)
    }

    /// From the start of the block to its end, in seconds.
    pub fn duration_seconds(&self) -> (r: Option<u32>)
        ensures
            r == self.spec_duration(),
    {
        duration_between(self.start_time_seconds(), self.end_time_seconds())
    }

    /// The time in passenger service: the durations of the revenue trips,
    /// added up and capped at `u32::MAX`.
    pub fn revenue_time_seconds(&self) -> (r: u32)
        ensures
            r == capped(total_duration(self.rows@, RowClass::Revenue)),
    {
        sum_durations(&self.rows, RowClass::Revenue)
    }

    /// The time spent on deadheads, capped at `u32::MAX`.
    pub fn deadhead_time_seconds(&self) -> (r: u32)
        ensures
            r == capped(total_duration(self.rows@, RowClass::Deadhead)),
    {
        sum_durations(&self.rows, RowClass::Deadhead)
    }

    /// The gaps between successive rows: the index of the row in front and
    /// the seconds until the next row starts, wherever that start is later
    /// than this end.
    pub fn find_gaps(&self) -> (r: Vec<(usize, u32)>)
        ensures
            r@ == gaps_before(self.rows@, self.rows@.len() - 1),
    {
        find_gaps_in(&self.rows)
    }

    /// The indices of the rows that end at another place than the next row
    /// starts at, where both places are known.
    pub fn find_location_discontinuities(&self) -> (r: Vec<usize>)
        ensures
            r@ == place_breaks_before(self.rows@, self.rows@.len() - 1),
    {
        find_place_breaks_in(&self.rows)
    }

    /// The figures that sum up the block.
    pub fn summary(&self) -> (r: BlockSummary)
        ensures
            r.block_id == self.block_id,
            r.total_rows == self.rows@.len(),
            r.revenue_trips == count_in_class(self.rows@, RowClass::Revenue),
            r.duration_seconds == self.spec_duration(),
            r.revenue_time_seconds == capped(total_duration(self.rows@, RowClass::Revenue)),
            r.deadhead_time_seconds == capped(total_duration(self.rows@, RowClass::Deadhead)),
            r.depot == self.depot,
    {
        BlockSummary {
            block_id: self.block_id.clone(),
            total_rows: self.rows.len(),
            revenue_trips: self.revenue_trip_count(),
            duration_seconds: self.duration_seconds(),
            revenue_time_seconds: self.revenue_time_seconds(),
            deadhead_time_seconds: self.deadhead_time_seconds(),
            depot: clone_opt(&self.depot),
        }
    }
}

} // verus!
