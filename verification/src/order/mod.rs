//! Order execution.
pub mod paper_executor;
pub mod paper_laws;
