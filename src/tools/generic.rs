//! The fallback for tools without a parser of their own: the whole output
//! becomes one informational finding.
use vstd::prelude::*;
use crate::model::{Finding, FindingView, Location, ParseError, Severity, ToolRun, findings_view};
use crate::text::{chars_of, decode_lossy, string_of, trim_bounds, trimmed, utf8_lossy};

verus! {

/// The finding of a tool's output: stdout where it is not empty, else
/// stderr, trimmed; none where that is empty.
pub open spec fn run_findings(tool: Seq<char>, stdout: Seq<u8>, stderr: Seq<u8>) -> Seq<FindingView> {
    let text = if stdout.len() > 0 {
        utf8_lossy(stdout)
    } else {
        utf8_lossy(stderr)
    };
    let m = trimmed(text);
    if m.len() == 0 {
        seq![]
    } else {
        seq![
            FindingView {
                tool,
                rule_id: None,
                severity: Severity::Info,
                message: m,
                file: seq!['.'],
                line: None,
                column: None,
            },
        ]
    }
}

/// Wraps a run's whole output as one finding; this never fails.
pub fn parse(run: &ToolRun) -> (r: Result<Vec<Finding>, ParseError>)
    ensures
        r is Ok,
        findings_view(r->Ok_0@) == run_findings(run.tool_name@, run.stdout@, run.stderr@),
{
    let text = if run.stdout.len() > 0 {
        decode_lossy(&run.stdout)
    } else {
        decode_lossy(&run.stderr)
    };
    let cs = chars_of(text.as_str());
    let (a, b) = trim_bounds(&cs);
    if a == b {
        return Ok(Vec::new());
    }
    proof {
        reveal_strlit(".");
    }
    let f = Finding {
        tool: run.tool_name.clone(),
        rule_id: None,
        severity: Severity::Info,
        message: string_of(&cs, a, b),
        location: Location { file: String::from_str("."), line: None, column: None },
    };
    assert(f.location.file@ =~= seq!['.']);
    let mut out: Vec<Finding> = Vec::new();
    out.push(f);
    proof {
        assert(findings_view(out@) =~= run_findings(run.tool_name@, run.stdout@, run.stderr@));
    }
    Ok(out)
}

} // verus!
