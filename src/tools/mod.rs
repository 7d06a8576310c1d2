//! Per-tool output parsers and the dispatch among them.
pub mod cppcheck;
pub mod generic;
pub mod scan_build;
pub mod semgrep;

use vstd::prelude::*;
use crate::json::str_equal;
use crate::model::{Finding, FindingView, ParseError, ToolRun};

verus! {

/// The findings of a run, read by the parser registered under `name`, or
/// by the generic one where no parser is registered under it.
pub open spec fn output_findings(name: Seq<char>, run: ToolRun) -> Result<Seq<FindingView>, ParseError> {
    if name == "cppcheck"@ {
        Ok(cppcheck::run_findings(run.stderr@, run.stdout@))
    } else if name == "semgrep"@ {
        semgrep::run_findings(run.stdout@)
    } else if name == "scan-build"@ {
        Ok(scan_build::run_findings(run.stderr@))
    } else {
        Ok(generic::run_findings(run.tool_name@, run.stdout@, run.stderr@))
    }
}

/// Normalises a run's output into findings with the parser registered
/// under `tool_name`.
pub fn parse_output(tool_name: &str, run: &ToolRun) -> (r: Result<Vec<Finding>, ParseError>)
    ensures
        semgrep::result_matches(r, output_findings(tool_name@, *run)),
{
    if str_equal(tool_name, "cppcheck") {
        cppcheck::parse(run)
    } else if str_equal(tool_name, "semgrep") {
        semgrep::parse(run)
    } else if str_equal(tool_name, "scan-build") {
        scan_build::parse(run)
    } else {
        generic::parse(run)
    }
}

} // verus!
