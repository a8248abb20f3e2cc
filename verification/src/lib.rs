//! A lightweight error-context library: a failing result gathers a linear,
//! immutable chain of (location, message) nodes as it propagates upward, and
//! the whole chain renders as a deterministic multi-line report, outermost
//! context first, root cause last.

pub mod clock;
pub mod err;
pub mod maps;
pub mod render;
pub mod text;
