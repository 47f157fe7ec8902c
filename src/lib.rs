//! Content budgeting and chained summarisation: trimming long text to a size
//! budget, sharing one budget among several sources, choosing a model
//! profile from the input size, and driving a two-stage chat exchange.

pub mod text;
pub mod squeeze;
pub mod patch;
pub mod budget;
pub mod model;
pub mod chain;
pub mod batch;
pub mod memory;
pub mod issue;
pub mod correlate;
