//! The semgrep output: one JSON document whose `results` array holds one
//! entry per finding.
use vstd::prelude::*;
use crate::json::{
    JsonValue,
    as_text,
    as_unsigned,
    get_member,
    json_document,
    member,
    opt_deref,
    parse_json,
    str_equal,
};
use crate::model::{
    Finding,
    FindingView,
    Location,
    ParseError,
    Severity,
    ToolRun,
    findings_view,
    opt_str_view,
};
use crate::text::{decode_lossy, utf8_lossy};

verus! {

pub open spec fn semgrep_name() -> Seq<char> {
    seq!['s', 'e', 'm', 'g', 'r', 'e', 'p']
}

/// semgrep's severity vocabulary; an unknown or missing token is a warning.
pub open spec fn semgrep_severity(tok: Option<Seq<char>>) -> Severity {
    match tok {
        Some(t) => if t == "ERROR"@ {
            Severity::Error
        } else if t == "WARNING"@ {
            Severity::Warning
        } else if t == "INFO"@ {
            Severity::Info
        } else {
            Severity::Warning
        },
        None => Severity::Warning,
    }
}

pub open spec fn nested(r: JsonValue, outer: Seq<char>, inner: Seq<char>) -> Option<JsonValue> {
    member(member(Some(r), outer), inner)
}

pub open spec fn truncated(n: Option<u64>) -> Option<u32> {
    match n {
        Some(x) => Some(x as u32),
        None => None,
    }
}

/// The finding of one entry of `results`.
pub open spec fn result_finding(r: JsonValue) -> FindingView {
    FindingView {
        tool: semgrep_name(),
        rule_id: as_text(member(Some(r), "check_id"@)),
        severity: semgrep_severity(as_text(nested(r, "extra"@, "severity"@))),
        message: match as_text(nested(r, "extra"@, "message"@)) {
            Some(m) => m,
            None => "No message"@,
        },
        file: match as_text(member(Some(r), "path"@)) {
            Some(p) => p,
            None => "unknown"@,
        },
        line: truncated(as_unsigned(nested(r, "start"@, "line"@))),
        column: truncated(as_unsigned(nested(r, "start"@, "col"@))),
    }
}

/// The findings of a semgrep document: one per entry of its `results` array.
pub open spec fn document_findings(doc: JsonValue) -> Result<Seq<FindingView>, ParseError> {
    match member(Some(doc), "results"@) {
        Some(JsonValue::Array(rs)) => Ok(rs@.map_values(|r: JsonValue| result_finding(r))),
        _ => Err(ParseError::MissingResults),
    }
}

/// The findings of a semgrep run, read from its stdout.
pub open spec fn run_findings(stdout: Seq<u8>) -> Result<Seq<FindingView>, ParseError> {
    match json_document(utf8_lossy(stdout)) {
        Some(doc) => document_findings(doc),
        None => Err(ParseError::InvalidJson),
    }
}

pub open spec fn result_matches(r: Result<Vec<Finding>, ParseError>, s: Result<Seq<FindingView>, ParseError>) -> bool {
    match r {
        Ok(v) => s == Ok::<Seq<FindingView>, ParseError>(findings_view(v@)),
        Err(e) => s == Err::<Seq<FindingView>, ParseError>(e),
    }
}

fn text_of(v: Option<&JsonValue>) -> (r: Option<String>)
    ensures
        opt_str_view(r) == as_text(opt_deref(v)),
{
    match v {
        Some(JsonValue::Str(s)) => Some(s.clone()),
        _ => None,
    }
}

fn nested_member<'a>(r: &'a JsonValue, outer: &str, inner: &str) -> (x: Option<&'a JsonValue>)
    ensures
        opt_deref(x) == nested(*r, outer@, inner@),
{
    match get_member(r, outer) {
        Some(o) => get_member(o, inner),
        None => None,
    }
}

fn unsigned_of(v: Option<&JsonValue>) -> (r: Option<u32>)
    ensures
        r == truncated(as_unsigned(opt_deref(v))),
{
    match v {
        Some(JsonValue::UInt(n)) => Some(*n as u32),
        _ => None,
    }
}

fn text_or(v: Option<&JsonValue>, default: &str) -> (r: String)
    ensures
        r@ == (match as_text(opt_deref(v)) {
            Some(m) => m,
            None => default@,
        }),
{
    match text_of(v) {
        Some(s) => s,
        None => String::from_str(default),
    }
}

/// Maps a semgrep severity token to the canonical severity.
pub fn map_severity(tok: Option<&str>) -> (r: Severity)
    ensures
        r == semgrep_severity(match tok {
            Some(t) => Some(t@),
            None => None,
        }),
{
    match tok {
        Some(t) => if str_equal(t, "ERROR") {
            Severity::Error
        } else if str_equal(t, "WARNING") {
            Severity::Warning
        } else if str_equal(t, "INFO") {
            Severity::Info
        } else {
            Severity::Warning
        },
        None => Severity::Warning,
    }
}

/// The finding of one entry of `results`.
pub fn result_to_finding(r: &JsonValue) -> (f: Finding)
    ensures
        f@ == result_finding(*r),
{
    let severity = match text_of(nested_member(r, "extra", "severity")) {
        Some(t) => map_severity(Some(t.as_str())),
        None => map_severity(None),
    };
    proof {
        reveal_strlit("semgrep");
        assert("semgrep"@ =~= semgrep_name());
    }
    Finding {
        tool: String::from_str("semgrep"),
        rule_id: text_of(get_member(r, "check_id")),
        severity,
        message: text_or(nested_member(r, "extra", "message"), "No message"),
        location: Location {
            file: text_or(get_member(r, "path"), "unknown"),
            line: unsigned_of(nested_member(r, "start", "line")),
            column: unsigned_of(nested_member(r, "start", "col")),
        },
    }
}

/// The findings of a semgrep document, in the order of its `results`.
pub fn document_to_findings(doc: &JsonValue) -> (r: Result<Vec<Finding>, ParseError>)
    ensures
        result_matches(r, document_findings(*doc)),
{
    match get_member(doc, "results") {
        Some(JsonValue::Array(rs)) => {
            let mut out: Vec<Finding> = Vec::new();
            let mut i: usize = 0;
            while i < rs.len()
                invariant
                    i <= rs.len(),
                    findings_view(out@) =~= rs@.subrange(0, i as int).map_values(
                        |r: JsonValue| result_finding(r),
                    ),
                decreases rs.len() - i,
            {
                let f = result_to_finding(&rs[i]);
                let ghost before = findings_view(out@);
                out.push(f);
                proof {
                    assert(findings_view(out@) =~= before.push(f@));
                    assert(rs@.subrange(0, i + 1) =~= rs@.subrange(0, i as int).push(rs@[i as int]));
                }
                i = i + 1;
            }
            assert(rs@.subrange(0, rs@.len() as int) =~= rs@);
            Ok(out)
        },
        _ => Err(ParseError::MissingResults),
    }
}

/// Parses a semgrep run; fails where stdout is not a JSON document or has
/// no `results` array.
pub fn parse(run: &ToolRun) -> (r: Result<Vec<Finding>, ParseError>)
    ensures
        result_matches(r, run_findings(run.stdout@)),
{
    let text = decode_lossy(&run.stdout);
    match parse_json(text.as_str()) {
        Some(doc) => document_to_findings(&doc),
        None => Err(ParseError::InvalidJson),
    }
}

} // verus!
