//! Validation of a schedule: against the reference timetable, for the
//! continuity of its blocks, and against the business rules.

pub mod config;
pub mod rules;
pub mod validator;

pub use config::{BusinessRules, GtfsComplianceLevel, ValidationConfig};
pub use validator::{
    ErrorCategory, ValidationError, ValidationResult, ValidationWarning, Validator,
    WarningCategory,
};
