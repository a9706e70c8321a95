//! The three checkers.

pub mod block_continuity;
pub mod business_rules;
pub mod gtfs_integrity;

pub use block_continuity::BlockContinuityChecker;
pub use business_rules::BusinessRuleChecker;
pub use gtfs_integrity::GtfsIntegrityChecker;
