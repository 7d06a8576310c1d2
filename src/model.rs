//! The canonical finding model and the raw outcome of one tool run.
use vstd::prelude::*;

verus! {

/// Canonical severity of a finding.
#[derive(Debug, Clone, Copy, PartialEq, Eq, Structural)]
pub enum Severity {
    Error,
    Warning,
    Info,
    Style,
    Note,
}

/// Lower-case name of a severity, as used in reports.
pub open spec fn severity_name(s: Severity) -> Seq<char> {
    match s {
        Severity::Error => seq!['e', 'r', 'r', 'o', 'r'],
        Severity::Warning => seq!['w', 'a', 'r', 'n', 'i', 'n', 'g'],
        Severity::Info => seq!['i', 'n', 'f', 'o'],
        Severity::Style => seq!['s', 't', 'y', 'l', 'e'],
        Severity::Note => seq!['n', 'o', 't', 'e'],
    }
}

impl Severity {
    /// The lower-case name of the severity.
    pub fn to_string(&self) -> (r: String)
        ensures
            r@ == severity_name(*self),
    {
        let s = match self {
            Severity::Error => "error",
            Severity::Warning => "warning",
            Severity::Info => "info",
            Severity::Style => "style",
            Severity::Note => "note",
        };
        proof {
            reveal_strlit("error");
            reveal_strlit("warning");
            reveal_strlit("info");
            reveal_strlit("style");
            reveal_strlit("note");
        }
        String::from_str(s)
    }
}

/// Where in the analysed project a finding points.
#[derive(Debug, Clone)]
pub struct Location {
    pub file: String,
    pub line: Option<u32>,
    pub column: Option<u32>,
}

/// One normalised analysis result.
#[derive(Debug, Clone)]
pub struct Finding {
    pub tool: String,
    pub rule_id: Option<String>,
    pub severity: Severity,
    pub message: String,
    pub location: Location,
}

/// The mathematical content of a [`Finding`].
pub struct FindingView {
    pub tool: Seq<char>,
    pub rule_id: Option<Seq<char>>,
    pub severity: Severity,
    pub message: Seq<char>,
    pub file: Seq<char>,
    pub line: Option<u32>,
    pub column: Option<u32>,
}

pub open spec fn opt_str_view(o: Option<String>) -> Option<Seq<char>> {
    match o {
        Some(s) => Some(s@),
        None => None,
    }
}

impl View for Finding {
    type V = FindingView;

    open spec fn view(&self) -> FindingView {
        FindingView {
            tool: self.tool@,
            rule_id: opt_str_view(self.rule_id),
            severity: self.severity,
            message: self.message@,
            file: self.location.file@,
            line: self.location.line,
            column: self.location.column,
        }
    }
}

/// The views of a sequence of findings, in order.
pub open spec fn findings_view(fs: Seq<Finding>) -> Seq<FindingView> {
    fs.map_values(|f: Finding| f@)
}

/// The raw captured outcome of one external tool invocation.
#[derive(Debug, Clone)]
pub struct ToolRun {
    pub tool_name: String,
    pub exit_code: i32,
    pub stdout: Vec<u8>,
    pub stderr: Vec<u8>,
}


pub open spec fn opt_finding_view(o: Option<Finding>) -> Option<FindingView> {
    match o {
        Some(f) => Some(f@),
        None => None,
    }
}


/// Why a tool's output could not be read.
#[derive(Debug, Clone, Copy, PartialEq, Eq, Structural)]
pub enum ParseError {
    /// The output is not a JSON document.
    InvalidJson,
    /// The document has no `results` array.
    MissingResults,
}

} // verus!
