use vstd::prelude::*;

pub mod bench;
pub mod context;
pub mod control;
pub mod decision;
pub mod frame;
pub mod kvcache;
pub mod plan;
pub mod predictor;
pub mod profiler;
pub mod replay;
pub mod scheduler;
pub mod sim;
pub mod telemetry;
pub mod traits;

verus! {
}
