//! Job processing queue with priority-based execution.
pub mod processor;
pub mod repository;
pub mod types;
