//! What a validation checks, and how strictly.

use vstd::prelude::*;

verus! {

/// How a reference that the timetable does not hold is treated.
#[derive(Debug, Clone, Copy, PartialEq, Eq, Structural)]
pub enum GtfsComplianceLevel {
    /// It is an error.
    Strict,
    /// It is a warning.
    Standard,
    /// It is passed over.
    Lenient,
}

impl Default for GtfsComplianceLevel {
    fn default() -> (r: Self)
        ensures
            r == GtfsComplianceLevel::Standard,
    {
        GtfsComplianceLevel::Standard
    }
}

/// The limits that a schedule is held to. Times are in seconds.
#[derive(Debug, Clone, Copy, PartialEq, Eq, Structural)]
pub struct BusinessRules {
    /// The shortest layover between two trips.
    pub min_layover_seconds: u32,
    /// The longest single trip.
    pub max_trip_duration_seconds: u32,
    /// The longest duty.
    pub max_duty_length_seconds: u32,
    /// The longest driving without a break.
    pub max_continuous_driving_seconds: u32,
    /// The shortest break.
    pub min_break_duration_seconds: u32,
    /// How far a time may lie from the timetable's.
    pub time_tolerance_seconds: u32,
    /// The shortest block; 0 for none.
    pub min_block_duration_seconds: u32,
    /// The longest block.
    pub max_block_duration_seconds: u32,
    /// Whether revenue trips without a block are reported.
    pub flag_orphan_trips: bool,
    /// Whether revenue trips without coordinates are reported.
    pub flag_missing_coordinates: bool,
    /// From how many tenths of a standard deviation on a headway counts as unusual.
    pub headway_deviation_tenths: Option<u32>,
}

/// The whole configuration of a validation.
#[derive(Debug, Clone, Copy, PartialEq, Eq, Structural)]
pub struct ValidationConfig {
    /// How missing references are treated.
    pub gtfs_compliance: GtfsComplianceLevel,
    /// The limits.
    pub business_rules: BusinessRules,
    /// Whether the blocks are checked for continuity.
    pub validate_block_continuity: bool,
    /// Whether the duties are checked.
    pub validate_duty_constraints: bool,
    /// Whether warnings are collected, all of them or none.
    pub generate_warnings: bool,
    /// The error budget: after how many errors the validation stops. It
    /// stops at an error, so a budget of 0 stops it at the first one.
    pub max_errors: Option<usize>,
}

/// The rules that apply where nothing else is said.
pub open spec fn default_rules() -> BusinessRules {
    BusinessRules {
        min_layover_seconds: 300,
        max_trip_duration_seconds: 14400,
        max_duty_length_seconds: 32400,
        max_continuous_driving_seconds: 16200,
        min_break_duration_seconds: 1800,
        time_tolerance_seconds: 60,
        min_block_duration_seconds: 0,
        max_block_duration_seconds: 57600,
        flag_orphan_trips: true,
        flag_missing_coordinates: false,
        headway_deviation_tenths: Some(20u32),
    }
}

/// The tighter rules.
pub open spec fn strict_rules() -> BusinessRules {
    BusinessRules {
        min_layover_seconds: 600,
        max_trip_duration_seconds: 10800,
        max_duty_length_seconds: 28800,
        max_continuous_driving_seconds: 14400,
        min_break_duration_seconds: 2700,
        time_tolerance_seconds: 30,
        min_block_duration_seconds: 3600,
        max_block_duration_seconds: 43200,
        flag_orphan_trips: true,
        flag_missing_coordinates: true,
        headway_deviation_tenths: Some(15u32),
    }
}

/// The looser rules.
pub open spec fn lenient_rules() -> BusinessRules {
    BusinessRules {
        min_layover_seconds: 60,
        max_trip_duration_seconds: 21600,
        max_duty_length_seconds: 43200,
        max_continuous_driving_seconds: 21600,
        min_break_duration_seconds: 900,
        time_tolerance_seconds: 300,
        min_block_duration_seconds: 0,
        max_block_duration_seconds: 86400,
        flag_orphan_trips: false,
        flag_missing_coordinates: false,
        headway_deviation_tenths: None,
    }
}

impl Default for BusinessRules {
    fn default() -> (r: Self)
        ensures
            r == default_rules(),
    {
        BusinessRules {
            min_layover_seconds: 300,
            max_trip_duration_seconds: 14400,
            max_duty_length_seconds: 32400,
            max_continuous_driving_seconds: 16200,
            min_break_duration_seconds: 1800,
            time_tolerance_seconds: 60,
            min_block_duration_seconds: 0,
            max_block_duration_seconds: 57600,
            flag_orphan_trips: true,
            flag_missing_coordinates: false,
            headway_deviation_tenths: Some(20),
        }
    }
}

impl BusinessRules {
    /// The tighter rules.
    pub fn strict() -> (r: Self)
        ensures
            r == strict_rules(),
    {
        BusinessRules {
            min_layover_seconds: 600,
            max_trip_duration_seconds: 10800,
            max_duty_length_seconds: 28800,
            max_continuous_driving_seconds: 14400,
            min_break_duration_seconds: 2700,
            time_tolerance_seconds: 30,
            min_block_duration_seconds: 3600,
            max_block_duration_seconds: 43200,
            flag_orphan_trips: true,
            flag_missing_coordinates: true,
            headway_deviation_tenths: Some(15),
        }
    }

    /// The looser rules.
    pub fn lenient() -> (r: Self)
        ensures
            r == lenient_rules(),
    {
        BusinessRules {
            min_layover_seconds: 60,
            max_trip_duration_seconds: 21600,
            max_duty_length_seconds: 43200,
            max_continuous_driving_seconds: 21600,
            min_break_duration_seconds: 900,
            time_tolerance_seconds: 300,
            min_block_duration_seconds: 0,
            max_block_duration_seconds: 86400,
            flag_orphan_trips: false,
            flag_missing_coordinates: false,
            headway_deviation_tenths: None,
        }
    }
}

impl Default for ValidationConfig {
    fn default() -> (r: Self)
        ensures
            r == (ValidationConfig {
                gtfs_compliance: GtfsComplianceLevel::Standard,
                business_rules: default_rules(),
                validate_block_continuity: false,
                validate_duty_constraints: false,
                generate_warnings: false,
                max_errors: None,
            }),
    {
        ValidationConfig {
            gtfs_compliance: GtfsComplianceLevel::Standard,
            business_rules: BusinessRules::default(),
            validate_block_continuity: false,
            validate_duty_constraints: false,
            generate_warnings: false,
            max_errors: None,
        }
    }
}

impl ValidationConfig {
    /// The standard configuration: missing references are warnings, the
    /// default rules apply, everything is checked, warnings are collected,
    /// and there is no error budget.
    pub fn new() -> (r: Self)
        ensures
            r == (ValidationConfig {
                gtfs_compliance: GtfsComplianceLevel::Standard,
                business_rules: default_rules(),
                validate_block_continuity: true,
                validate_duty_constraints: true,
                generate_warnings: true,
                max_errors: None,
            }),
    {
        ValidationConfig {
            gtfs_compliance: GtfsComplianceLevel::Standard,
            business_rules: BusinessRules::default(),
            validate_block_continuity: true,
            validate_duty_constraints: true,
            generate_warnings: true,
            max_errors: None,
        }
    }

    /// The strict configuration: missing references are errors and the
    /// tighter rules apply.
    pub fn strict() -> (r: Self)
        ensures
            r == (ValidationConfig {
                gtfs_compliance: GtfsComplianceLevel::Strict,
                business_rules: strict_rules(),
                validate_block_continuity: true,
                validate_duty_constraints: true,
                generate_warnings: true,
                max_errors: None,
            }),
    {
        ValidationConfig {
            gtfs_compliance: GtfsComplianceLevel::Strict,
            business_rules: BusinessRules::strict(),
            validate_block_continuity: true,
            validate_duty_constraints: true,
            generate_warnings: true,
            max_errors: None,
        }
    }

    /// The lenient configuration: missing references are passed over, the
    /// looser rules apply, blocks and duties are not checked, and no
    /// warnings are collected.
    pub fn lenient() -> (r: Self)
        ensures
            r == (ValidationConfig {
                gtfs_compliance: GtfsComplianceLevel::Lenient,
                business_rules: lenient_rules(),
                validate_block_continuity: false,
                validate_duty_constraints: false,
                generate_warnings: false,
                max_errors: None,
            }),
    {
        ValidationConfig {
            gtfs_compliance: GtfsComplianceLevel::Lenient,
            business_rules: BusinessRules::lenient(),
            validate_block_continuity: false,
            validate_duty_constraints: false,
            generate_warnings: false,
            max_errors: None,
        }
    }

    /// The same configuration, with the compliance level `level`.
    pub fn with_gtfs_compliance(self, level: GtfsComplianceLevel) -> (r: Self)
        ensures
            r == (ValidationConfig { gtfs_compliance: level, ..self }),
    {
        ValidationConfig { gtfs_compliance: level, ..self }
    }

    /// The same configuration, with the rules `rules`.
    pub fn with_business_rules(self, rules: BusinessRules) -> (r: Self)
        ensures
            r == (ValidationConfig { business_rules: rules, ..self }),
    {
        ValidationConfig { business_rules: rules, ..self }
    }

    /// The same configuration, with an error budget of `max`.
    pub fn with_max_errors(self, max: usize) -> (r: Self)
        ensures
            r == (ValidationConfig { max_errors: Some(max), ..self }),
    {
        ValidationConfig { max_errors: Some(max), ..self }
    }

    /// Whether `count` errors use up the error budget. The budget is
    /// looked at when an error was found, so it is never used up without an
    /// error: a budget of 0 is used up by the first error.
    pub open spec fn budget_reached(&self, count: int) -> bool {
        self.max_errors is Some && count >= 1 && count >= self.max_errors.unwrap()
    }

    /// Whether `count` errors use up the error budget.
    pub fn is_budget_reached(&self, count: usize) -> (r: bool)
        ensures
            r == self.budget_reached(count as int),
    {
        match self.max_errors {
            Some(max) => count >= 1 && count >= max,
            None => false,
        }
    }
}

} // verus!
