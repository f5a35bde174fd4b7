//! A cycle-accurate simulator core for a 16-bit load/store machine with eight
//! registers: the assembly decoder, the unified program/data memory, the
//! instruction semantics and the five-stage in-order pipeline.
//!
//! Every executable function carries a contract over the mathematical views
//! declared next to the types, and the modules `reachable` and `termination`
//! state what holds of every run of the pipeline.

pub mod text;
pub mod instruction;
pub mod registers;
pub mod status;
pub mod program;
pub mod execute;
pub mod latency;
pub mod pipeline;
pub mod reachable;
pub mod termination;
