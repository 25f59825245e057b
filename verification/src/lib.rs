//! A small query pipeline: a high-level query is compiled to SQL, run against
//! a one-shot JSON snapshot of a job queue inside a sandboxed analytical
//! engine, and the result is rendered as an escaped HTML table fragment.

pub mod ansi;
pub mod compiler;
pub mod engine;
pub mod errors;
pub mod escape;
pub mod pipeline;
pub mod render;
pub mod text;
