//! Side-by-side view of a single file's unified diff: a parser that turns the
//! diff text into two aligned columns, the queries the renderer needs, and the
//! navigation state that moves a cursor through both columns in lockstep.

pub mod app;
pub mod cli;
pub mod config;
pub mod diff;
pub mod keys;
pub mod laws;
pub mod message;
pub mod navigation;
pub mod parser;
pub mod text;
