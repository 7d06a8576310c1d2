//! The command-line request, as plain values.
use vstd::prelude::*;

verus! {

/// What the command line asks for: the project to analyse and, each where
/// given, the report format, the output folder, the tools to run and a
/// configuration file.
#[derive(Debug)]
pub struct Cli {
    pub path: String,
    pub format: Option<String>,
    pub output: Option<String>,
    pub tools: Option<Vec<String>>,
    pub config: Option<String>,
}

} // verus!
