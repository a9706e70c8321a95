//! One row of a schedule: a single movement or activity.

pub use crate::time::{parse_time_to_seconds, seconds_to_time_string};

use crate::text::clone_opt;
use crate::time::{duration_between, parse_opt_time, spec_duration, spec_parse_opt_time};
use vstd::prelude::*;

verus! {

/// What kind of movement or activity a row stands for.
#[derive(Debug, Clone, Copy, PartialEq, Eq, Structural)]
pub enum RowType {
    /// A trip in passenger service.
    Revenue,
    /// From the depot to the first stop.
    PullOut,
    /// From the last stop back to the depot.
    PullIn,
    /// An empty run between two trips.
    Deadhead,
    /// A driver's break.
    Break,
    /// A change of driver.
    Relief,
    /// Waiting at a stop.
    Layover,
}

impl Default for RowType {
    fn default() -> (r: Self)
        ensures
            r == RowType::Revenue,
    {
        RowType::Revenue
    }
}

/// One row of a schedule.
///
/// Coordinates are whole numbers in units of 1e-7 degree.
#[derive(Debug)]
pub struct ScheduleRow {
    /// The driver's run.
    pub run_number: Option<String>,
    /// The vehicle's block.
    pub block: Option<String>,
    /// Where the row starts: a stop, a depot, or free text.
    pub start_place: Option<String>,
    /// Where the row ends.
    pub end_place: Option<String>,
    /// Start time, as text.
    pub start_time: Option<String>,
    /// End time, as text.
    pub end_time: Option<String>,
    /// The trip of the reference timetable; absent on rows that carry no passengers.
    pub trip_id: Option<String>,
    /// The depot's code.
    pub depot: Option<String>,
    /// The class of vehicle.
    pub vehicle_class: Option<String>,
    /// The type of vehicle.
    pub vehicle_type: Option<String>,
    /// Latitude of the start.
    pub start_lat: Option<i32>,
    /// Longitude of the start.
    pub start_lon: Option<i32>,
    /// Latitude of the end.
    pub end_lat: Option<i32>,
    /// Longitude of the end.
    pub end_lon: Option<i32>,
    /// The shape of the route in the reference timetable.
    pub route_shape_id: Option<String>,
    /// The kind of row.
    pub row_type: RowType,
    /// The driver's duty.
    pub duty_id: Option<String>,
    /// The driver's shift.
    pub shift_id: Option<String>,
    /// The route's short name.
    pub route_short_name: Option<String>,
    /// The destination shown.
    pub headsign: Option<String>,
}

impl Clone for ScheduleRow {
    fn clone(&self) -> (r: Self)
        ensures
            r == *self,
    {
        ScheduleRow {
            run_number: clone_opt(&self.run_number),
            block: clone_opt(&self.block),
            start_place: clone_opt(&self.start_place),
            end_place: clone_opt(&self.end_place),
            start_time: clone_opt(&self.start_time),
            end_time: clone_opt(&self.end_time),
            trip_id: clone_opt(&self.trip_id),
            depot: clone_opt(&self.depot),
            vehicle_class: clone_opt(&self.vehicle_class),
            vehicle_type: clone_opt(&self.vehicle_type),
            start_lat: self.start_lat,
            start_lon: self.start_lon,
            end_lat: self.end_lat,
            end_lon: self.end_lon,
            route_shape_id: clone_opt(&self.route_shape_id),
            row_type: self.row_type,
            duty_id: clone_opt(&self.duty_id),
            shift_id: clone_opt(&self.shift_id),
            route_short_name: clone_opt(&self.route_short_name),
            headsign: clone_opt(&self.headsign),
        }
    }
}

impl Default for ScheduleRow {
    fn default() -> (r: Self)
        ensures
            r.is_blank(),
    {
        ScheduleRow {
            run_number: None,
            block: None,
            start_place: None,
            end_place: None,
            start_time: None,
            end_time: None,
            trip_id: None,
            depot: None,
            vehicle_class: None,
            vehicle_type: None,
            start_lat: None,
            start_lon: None,
            end_lat: None,
            end_lon: None,
            route_shape_id: None,
            row_type: RowType::Revenue,
            duty_id: None,
            shift_id: None,
            route_short_name: None,
            headsign: None,
        }
    }
}

impl ScheduleRow {
    /// A row of kind `Revenue` with every other field absent.
    pub open spec fn is_blank(&self) -> bool {
        &&& self.run_number is None
        &&& self.block is None
        &&& self.start_place is None
        &&& self.end_place is None
        &&& self.start_time is None
        &&& self.end_time is None
        &&& self.trip_id is None
        &&& self.depot is None
        &&& self.vehicle_class is None
        &&& self.vehicle_type is None
        &&& self.start_lat is None
        &&& self.start_lon is None
        &&& self.end_lat is None
        &&& self.end_lon is None
        &&& self.route_shape_id is None
        &&& self.row_type == RowType::Revenue
        &&& self.duty_id is None
        &&& self.shift_id is None
        &&& self.route_short_name is None
        &&& self.headsign is None
    }

    /// A trip in passenger service: of kind `Revenue` and with a trip reference.
    pub open spec fn spec_is_revenue(&self) -> bool {
        self.row_type == RowType::Revenue && self.trip_id is Some
    }

    /// A pull-out, a pull-in or an empty run between trips.
    pub open spec fn spec_is_deadhead(&self) -> bool {
        self.row_type == RowType::PullOut || self.row_type == RowType::PullIn || self.row_type
            == RowType::Deadhead
    }

    /// A break or a relief.
    pub open spec fn spec_is_break_or_relief(&self) -> bool {
        self.row_type == RowType::Break || self.row_type == RowType::Relief
    }

    /// The start in seconds past midnight, where the text denotes a time.
    pub open spec fn spec_start(&self) -> Option<u32> {
        spec_parse_opt_time(self.start_time)
    }

    /// The end in seconds past midnight, where the text denotes a time.
    pub open spec fn spec_end(&self) -> Option<u32> {
        spec_parse_opt_time(self.end_time)
    }

    /// The end minus the start, where both are known and the end is not earlier.
    pub open spec fn spec_duration(&self) -> Option<u32> {
        spec_duration(self.spec_start(), self.spec_end())
    }

    /// The start time by which rows are ordered: an unknown start counts as 0.
    pub open spec fn start_or_zero_spec(&self) -> u32 {
        match self.spec_start() {
            Some(t) => t,
            None => 0,
        }
    }

    /// A blank row.
    pub fn new() -> (r: Self)
        ensures
            r.is_blank(),
    {
        Self::default()
    }

    /// Whether this is a trip in passenger service. A row of kind `Revenue`
    /// without a trip reference is not.
    pub fn is_revenue(&self) -> (r: bool)
        ensures
            r == self.spec_is_revenue(),
    {
        self.row_type == RowType::Revenue && self.trip_id.is_some()
    }

    /// Whether this is a pull-out, a pull-in or an empty run between trips.
    pub fn is_deadhead(&self) -> (r: bool)
        ensures
            r == self.spec_is_deadhead(),
    {
        self.row_type == RowType::PullOut || self.row_type == RowType::PullIn || self.row_type
            == RowType::Deadhead
    }

    /// Whether this is a break or a relief.
    pub fn is_break_or_relief(&self) -> (r: bool)
        ensures
            r == self.spec_is_break_or_relief(),
    {
        self.row_type == RowType::Break || self.row_type == RowType::Relief
    }

    /// The start in seconds past midnight.
    pub fn start_time_seconds(&self) -> (r: Option<u32>)
        ensures
            r == self.spec_start(),
    {
        parse_opt_time(&self.start_time)
    }

    /// The end in seconds past midnight.
    pub fn end_time_seconds(&self) -> (r: Option<u32>)
        ensures
            r == self.spec_end(),
    {
        parse_opt_time(&self.end_time)
    }

    /// The duration in seconds: absent where a time is unknown or the end
    /// lies before the start.
    pub fn duration_seconds(&self) -> (r: Option<u32>)
        ensures
            r == self.spec_duration(),
    {
        duration_between(self.start_time_seconds(), self.end_time_seconds())
    }

    /// The start time by which rows are ordered.
    pub fn start_or_zero(&self) -> (r: u32)
        ensures
            r == self.start_or_zero_spec(),
    {
        match self.start_time_seconds() {
            Some(t) => t,
            None => 0,
        }
    }
}

} // verus!
