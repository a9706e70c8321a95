//! Ready-made exports.

use crate::formats::generic_csv::{
    column, column_views, default_column_views, plain_column, ColumnConfig, ColumnView,
    ExportConfig, TimeFormat,
};
use vstd::prelude::*;
use vstd::string::*;

verus! {

/// A ready-made export.
#[derive(Debug, Clone, Copy, PartialEq, Eq, Structural)]
pub enum ExportPreset {
    /// The default export.
    Default,
    /// The columns that no export can do without.
    Minimal,
    /// Every column there is.
    Extended,
    /// Columns named as in Optibus, as far as that is known.
    OptibusLike,
    /// Columns named as in Hastus, as far as that is known.
    HastusLike,
    /// Blocks in the style of GTFS.
    GtfsBlock,
}

/// The columns of the minimal export.
pub open spec fn minimal_columns() -> Seq<ColumnView> {
    seq![
        plain_column("run_number"@),
        plain_column("block"@),
        plain_column("trip_id"@),
        plain_column("start_time"@),
        plain_column("end_time"@),
    ]
}

/// The columns of the extended export.
pub open spec fn extended_columns() -> Seq<ColumnView> {
    seq![
        plain_column("run_number"@),
        plain_column("duty_id"@),
        plain_column("shift_id"@),
        plain_column("block"@),
        plain_column("start_place"@),
        plain_column("end_place"@),
        plain_column("start_time"@),
        plain_column("end_time"@),
        plain_column("trip_id"@),
        plain_column("route_short_name"@),
        plain_column("headsign"@),
        plain_column("depot"@),
        plain_column("vehicle_class"@),
        plain_column("vehicle_type"@),
        plain_column("start_lat"@),
        plain_column("start_lon"@),
        plain_column("end_lat"@),
        plain_column("end_lon"@),
        plain_column("route_shape_id"@),
        plain_column("row_type"@),
    ]
}

/// The columns of the Optibus-like export.
pub open spec fn optibus_like_columns() -> Seq<ColumnView> {
    seq![
        column("run_number"@, "Run"@),
        column("block"@, "Block"@),
        column("row_type"@, "Activity"@),
        column("start_place"@, "StartStop"@),
        column("end_place"@, "EndStop"@),
        column("start_time"@, "StartTime"@),
        column("end_time"@, "EndTime"@),
        column("trip_id"@, "TripID"@),
        column("route_short_name"@, "Route"@),
        column("headsign"@, "Direction"@),
        column("depot"@, "Depot"@),
        column("vehicle_type"@, "VehicleType"@),
    ]
}

/// The columns of the Hastus-like export.
pub open spec fn hastus_like_columns() -> Seq<ColumnView> {
    seq![
        column("duty_id"@, "DUTY_NO"@),
        column("block"@, "BLOCK_NO"@),
        column("run_number"@, "RUN_NO"@),
        column("trip_id"@, "TRIP_NO"@),
        column("route_short_name"@, "ROUTE"@),
        column("start_place"@, "FROM_STOP"@),
        column("end_place"@, "TO_STOP"@),
        column("start_time"@, "START"@),
        column("end_time"@, "END"@),
        column("row_type"@, "TYPE"@),
        column("depot"@, "GARAGE"@),
        column("vehicle_class"@, "VEH_TYPE"@),
    ]
}

/// The columns of the GTFS block export.
pub open spec fn gtfs_block_columns() -> Seq<ColumnView> {
    seq![
        column("block"@, "block_id"@),
        column("trip_id"@, "trip_id"@),
        column("start_time"@, "start_time"@),
        column("end_time"@, "end_time"@),
        column("start_place"@, "start_stop_id"@),
        column("end_place"@, "end_stop_id"@),
        column("route_shape_id"@, "shape_id"@),
    ]
}

/// The columns and the time format of a ready-made export.
pub open spec fn preset_layout(preset: ExportPreset) -> (Seq<ColumnView>, TimeFormat) {
    match preset {
        ExportPreset::Default => (default_column_views(), TimeFormat::HhMmSs),
        ExportPreset::Minimal => (minimal_columns(), TimeFormat::HhMmSs),
        ExportPreset::Extended => (extended_columns(), TimeFormat::HhMmSs),
        ExportPreset::OptibusLike => (optibus_like_columns(), TimeFormat::HhMmSs),
        ExportPreset::HastusLike => (hastus_like_columns(), TimeFormat::HhMm),
        ExportPreset::GtfsBlock => (gtfs_block_columns(), TimeFormat::HhMmSs),
    }
}

/// Whether `config` is the export with the columns `columns` and the time
/// format `format`, and is like the default export in everything else.
pub open spec fn is_layout(config: ExportConfig, columns: Seq<ColumnView>, format: TimeFormat) -> bool {
    &&& column_views(config.columns@) == columns
    &&& config.time_format == format
    &&& config.delimiter == 44u8
    &&& config.include_header
    &&& config.null_value@ == Seq::<char>::empty()
}

/// An export of `columns` in the time format `format`.
fn layout(columns: Vec<ColumnConfig>, format: TimeFormat) -> (r: ExportConfig)
    ensures
        is_layout(r, column_views(columns@), format),
{
    ExportConfig {
        columns,
        time_format: format,
        delimiter: 44u8,
        include_header: true,
        null_value: String::new(),
    }
}

impl ExportPreset {
    /// The export that the preset stands for.
    pub fn to_config(self) -> (r: ExportConfig)
        ensures
            is_layout(r, preset_layout(self).0, preset_layout(self).1),
    {
        match self {
            ExportPreset::Default => ExportConfig::default(),
            ExportPreset::Minimal => Self::minimal_config(),
            ExportPreset::Extended => Self::extended_config(),
            ExportPreset::OptibusLike => Self::optibus_like_config(),
            ExportPreset::HastusLike => Self::hastus_like_config(),
            ExportPreset::GtfsBlock => Self::gtfs_block_config(),
        }
    }

    /// The minimal export.
    pub fn minimal_config() -> (r: ExportConfig)
        ensures
            is_layout(r, minimal_columns(), TimeFormat::HhMmSs),
    {
        let mut cols: Vec<ColumnConfig> = Vec::new();
        cols.push(ColumnConfig::new("run_number", "run_number"));
        cols.push(ColumnConfig::new("block", "block"));
        cols.push(ColumnConfig::new("trip_id", "trip_id"));
        cols.push(ColumnConfig::new("start_time", "start_time"));
        cols.push(ColumnConfig::new("end_time", "end_time"));
        proof {
            assert(column_views(cols@) =~= minimal_columns());
        }
        layout(cols, TimeFormat::HhMmSs)
    }

    /// The extended export.
    pub fn extended_config() -> (r: ExportConfig)
        ensures
            is_layout(r, extended_columns(), TimeFormat::HhMmSs),
    {
        let mut cols: Vec<ColumnConfig> = Vec::new();
        cols.push(ColumnConfig::new("run_number", "run_number"));
        cols.push(ColumnConfig::new("duty_id", "duty_id"));
        cols.push(ColumnConfig::new("shift_id", "shift_id"));
        cols.push(ColumnConfig::new("block", "block"));
        cols.push(ColumnConfig::new("start_place", "start_place"));
        cols.push(ColumnConfig::new("end_place", "end_place"));
        cols.push(ColumnConfig::new("start_time", "start_time"));
        cols.push(ColumnConfig::new("end_time", "end_time"));
        cols.push(ColumnConfig::new("trip_id", "trip_id"));
        cols.push(ColumnConfig::new("route_short_name", "route_short_name"));
        cols.push(ColumnConfig::new("headsign", "headsign"));
        cols.push(ColumnConfig::new("depot", "depot"));
        cols.push(ColumnConfig::new("vehicle_class", "vehicle_class"));
        cols.push(ColumnConfig::new("vehicle_type", "vehicle_type"));
        cols.push(ColumnConfig::new("start_lat", "start_lat"));
        cols.push(ColumnConfig::new("start_lon", "start_lon"));
        cols.push(ColumnConfig::new("end_lat", "end_lat"));
        cols.push(ColumnConfig::new("end_lon", "end_lon"));
        cols.push(ColumnConfig::new("route_shape_id", "route_shape_id"));
        cols.push(ColumnConfig::new("row_type", "row_type"));
        proof {
            assert(column_views(cols@) =~= extended_columns());
        }
        layout(cols, TimeFormat::HhMmSs)
    }

    /// The Optibus-like export.
    pub fn optibus_like_config() -> (r: ExportConfig)
        ensures
            is_layout(r, optibus_like_columns(), TimeFormat::HhMmSs),
    {
        let mut cols: Vec<ColumnConfig> = Vec::new();
        cols.push(ColumnConfig::new("run_number", "Run"));
        cols.push(ColumnConfig::new("block", "Block"));
        cols.push(ColumnConfig::new("row_type", "Activity"));
        cols.push(ColumnConfig::new("start_place", "StartStop"));
        cols.push(ColumnConfig::new("end_place", "EndStop"));
        cols.push(ColumnConfig::new("start_time", "StartTime"));
        cols.push(ColumnConfig::new("end_time", "EndTime"));
        cols.push(ColumnConfig::new("trip_id", "TripID"));
        cols.push(ColumnConfig::new("route_short_name", "Route"));
        cols.push(ColumnConfig::new("headsign", "Direction"));
        cols.push(ColumnConfig::new("depot", "Depot"));
        cols.push(ColumnConfig::new("vehicle_type", "VehicleType"));
        proof {
            assert(column_views(cols@) =~= optibus_like_columns());
        }
        layout(cols, TimeFormat::HhMmSs)
    }

    /// The Hastus-like export.
    pub fn hastus_like_config() -> (r: ExportConfig)
        ensures
            is_layout(r, hastus_like_columns(), TimeFormat::HhMm),
    {
        let mut cols: Vec<ColumnConfig> = Vec::new();
        cols.push(ColumnConfig::new("duty_id", "DUTY_NO"));
        cols.push(ColumnConfig::new("block", "BLOCK_NO"));
        cols.push(ColumnConfig::new("run_number", "RUN_NO"));
        cols.push(ColumnConfig::new("trip_id", "TRIP_NO"));
        cols.push(ColumnConfig::new("route_short_name", "ROUTE"));
        cols.push(ColumnConfig::new("start_place", "FROM_STOP"));
        cols.push(ColumnConfig::new("end_place", "TO_STOP"));
        cols.push(ColumnConfig::new("start_time", "START"));
        cols.push(ColumnConfig::new("end_time", "END"));
        cols.push(ColumnConfig::new("row_type", "TYPE"));
        cols.push(ColumnConfig::new("depot", "GARAGE"));
        cols.push(ColumnConfig::new("vehicle_class", "VEH_TYPE"));
        proof {
            assert(column_views(cols@) =~= hastus_like_columns());
        }
        layout(cols, TimeFormat::HhMm)
    }

    /// The GTFS block export.
    pub fn gtfs_block_config() -> (r: ExportConfig)
        ensures
            is_layout(r, gtfs_block_columns(), TimeFormat::HhMmSs),
    {
        let mut cols: Vec<ColumnConfig> = Vec::new();
        cols.push(ColumnConfig::new("block", "block_id"));
        cols.push(ColumnConfig::new("trip_id", "trip_id"));
        cols.push(ColumnConfig::new("start_time", "start_time"));
        cols.push(ColumnConfig::new("end_time", "end_time"));
        cols.push(ColumnConfig::new("start_place", "start_stop_id"));
        cols.push(ColumnConfig::new("end_place", "end_stop_id"));
        cols.push(ColumnConfig::new("route_shape_id", "shape_id"));
        proof {
            assert(column_views(cols@) =~= gtfs_block_columns());
        }
        layout(cols, TimeFormat::HhMmSs)
    }
}

} // verus!
