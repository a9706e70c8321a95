//! Transit schedule rostering: rows, blocks, duties, deadhead inference and
//! validation, with every function's behaviour stated as a contract.

pub mod coordinate;
pub mod deadhead;
pub mod formats;
pub mod models;
pub mod reader;
pub mod text;
pub mod time;
pub mod validation;

pub use deadhead::{DeadheadInferrer, InferenceConfig};
pub use formats::{CsvExporter, ExportConfig, ExportPreset};
pub use models::{
    Block, BlockSummary, Break, Deadhead, DeadheadInferenceResult, DeadheadType, Duty,
    DutySummary, PieceOfWork, RowType, Schedule, ScheduleMetadata, ScheduleRow, ScheduleSummary,
    Shift, ShiftSummary,
};
pub use reader::{ColumnMapping, ReadOptions, ScheduleReader};
pub use validation::{
    BusinessRules, GtfsComplianceLevel, ValidationConfig, ValidationResult, Validator,
};
