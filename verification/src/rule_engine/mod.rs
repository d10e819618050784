//! The rule engine: recursion guarding, priorities, scheduling, conflict
//! resolution and pattern matching.
pub mod recursion_guard;
pub mod types;
pub mod priority_manager;
pub mod value_match;
pub mod pattern_matcher;
pub mod graph;
pub mod engine;
pub mod graph_exec;
pub mod condition;
pub mod conflict_resolver;
pub mod scheduler;
