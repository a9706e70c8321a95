//! The schedule's data model: rows and what is derived from them.

pub mod block;
pub mod deadhead;
pub mod duty;
pub mod ids;
pub mod row_seq;
pub mod schedule;
pub mod schedule_row;
pub mod shift;
pub mod time_order;

pub use block::{Block, BlockSummary};
pub use deadhead::{Deadhead, DeadheadInferenceResult, DeadheadType};
pub use duty::{Duty, DutySummary, PieceOfWork};
pub use schedule::{BlockMap, DutyMap, Schedule, ScheduleMetadata, ScheduleSummary};
pub use schedule_row::{parse_time_to_seconds, seconds_to_time_string, RowType, ScheduleRow};
pub use shift::{Break, Shift, ShiftSummary};
