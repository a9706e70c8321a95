//! Inference of the deadheads that a schedule leaves out.

pub mod inferrer;

pub use inferrer::{DeadheadInferrer, InferenceConfig, InferenceError, StopCoordinate, TravelEstimate};
