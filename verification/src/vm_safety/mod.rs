//! The safety, limits and observability layer of the virtual machine.
pub mod limit_errors;
pub mod memory_limits;
pub mod step_limits;
pub mod sandbox;
pub mod security;
pub mod perf_monitor;
