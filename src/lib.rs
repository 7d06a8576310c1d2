//! Runs a set of static-analysis tools, normalises their output into one
//! finding model and renders unified reports.
//!
//! The library holds the logic: argument templating, the per-tool output
//! grammars, the aggregation of runs and the report renderers. Launching
//! processes and writing files is left to the caller.
pub mod cli;
pub mod config;
pub mod json;
pub mod model;
pub mod output;
pub mod runner;
pub mod text;
pub mod tools;
