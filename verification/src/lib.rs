//! Shows the load of a host on an RGB indicator: memory, processor and disk
//! each drive one channel.
//!
//! The library holds every rule and does no input or output. A pipeline
//! takes the text of a kernel source, reads the counters out of it, turns
//! them into a metric, maps the metric to a brightness level, and plans the
//! writes that set its channel to that level. What is read, written and
//! slept is asked of the caller, step by step.

pub mod decimal;
pub mod driver;
pub mod error;
pub mod level;
pub mod metric;
pub mod pipeline;
pub mod reader;
pub mod sample;
pub mod scheduler;
pub mod text;
