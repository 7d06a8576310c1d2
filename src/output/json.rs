//! The JSON report: the findings as an array of objects, one per finding,
//! and the reading of such a report back into findings.
use vstd::prelude::*;
use crate::json::{
    JsonValue,
    as_text,
    field,
    get_member,
    json_document,
    json_text,
    member,
    parse_json,
    str_equal,
    to_json_text,
};
use crate::model::{Finding, FindingView, Location, Severity, findings_view, severity_name};

verus! {

pub open spec fn text_is(v: JsonValue, s: Seq<char>) -> bool {
    v matches JsonValue::Str(t) && t@ == s
}

pub open spec fn opt_text_is(v: JsonValue, o: Option<Seq<char>>) -> bool {
    match o {
        Some(s) => text_is(v, s),
        None => v == JsonValue::Null,
    }
}

pub open spec fn opt_number_is(v: JsonValue, o: Option<u32>) -> bool {
    match o {
        Some(n) => v == JsonValue::UInt(n as u64),
        None => v == JsonValue::Null,
    }
}

/// `v` is the object of finding `f`: its fields `tool`, `rule_id`,
/// `severity`, `message` and `location` (with `file`, `line`, `column`), in
/// that order; an absent value is `null`.
pub open spec fn encodes(v: JsonValue, f: FindingView) -> bool {
    &&& v matches JsonValue::Object(es)
    &&& es@.len() == 5
    &&& es@[0].0@ == "tool"@ && text_is(es@[0].1, f.tool)
    &&& es@[1].0@ == "rule_id"@ && opt_text_is(es@[1].1, f.rule_id)
    &&& es@[2].0@ == "severity"@ && text_is(es@[2].1, severity_name(f.severity))
    &&& es@[3].0@ == "message"@ && text_is(es@[3].1, f.message)
    &&& es@[4].0@ == "location"@
    &&& es@[4].1 matches JsonValue::Object(ls)
    &&& ls@.len() == 3
    &&& ls@[0].0@ == "file"@ && text_is(ls@[0].1, f.file)
    &&& ls@[1].0@ == "line"@ && opt_number_is(ls@[1].1, f.line)
    &&& ls@[2].0@ == "column"@ && opt_number_is(ls@[2].1, f.column)
}

/// `v` is the array of the findings `fs`, in order.
pub open spec fn encodes_all(v: JsonValue, fs: Seq<FindingView>) -> bool {
    &&& v matches JsonValue::Array(items)
    &&& items@.len() == fs.len()
    &&& forall|i: int| 0 <= i < fs.len() ==> encodes(#[trigger] items@[i], fs[i])
}

/// The severity with the lower-case name `t`.
pub open spec fn severity_named(t: Seq<char>) -> Option<Severity> {
    if t == severity_name(Severity::Error) {
        Some(Severity::Error)
    } else if t == severity_name(Severity::Warning) {
        Some(Severity::Warning)
    } else if t == severity_name(Severity::Info) {
        Some(Severity::Info)
    } else if t == severity_name(Severity::Style) {
        Some(Severity::Style)
    } else if t == severity_name(Severity::Note) {
        Some(Severity::Note)
    } else {
        None
    }
}

/// A text or `null`; `None` for anything else.
pub open spec fn read_opt_text(v: Option<JsonValue>) -> Option<Option<Seq<char>>> {
    match v {
        Some(JsonValue::Str(s)) => Some(Some(s@)),
        Some(JsonValue::Null) => Some(None),
        _ => None,
    }
}

/// A number that fits a `u32`, or `null`; `None` for anything else.
pub open spec fn read_opt_number(v: Option<JsonValue>) -> Option<Option<u32>> {
    match v {
        Some(JsonValue::UInt(n)) => if n <= u32::MAX {
            Some(Some(n as u32))
        } else {
            None
        },
        Some(JsonValue::Null) => Some(None),
        _ => None,
    }
}

/// The finding that the object `v` describes, if it describes one.
pub open spec fn decoded(v: JsonValue) -> Option<FindingView> {
    let loc = member(Some(v), "location"@);
    let tool = as_text(member(Some(v), "tool"@));
    let rule = read_opt_text(member(Some(v), "rule_id"@));
    let sev = as_text(member(Some(v), "severity"@));
    let msg = as_text(member(Some(v), "message"@));
    let file = as_text(member(loc, "file"@));
    let line = read_opt_number(member(loc, "line"@));
    let col = read_opt_number(member(loc, "column"@));
    if tool is Some && rule is Some && sev is Some && severity_named(sev->0) is Some && msg is Some
        && file is Some && line is Some && col is Some {
        Some(
            FindingView {
                tool: tool->0,
                rule_id: rule->0,
                severity: severity_named(sev->0)->0,
                message: msg->0,
                file: file->0,
                line: line->0,
                column: col->0,
            },
        )
    } else {
        None
    }
}

/// The findings that the items describe, if each describes one.
pub open spec fn decoded_items(items: Seq<JsonValue>) -> Option<Seq<FindingView>>
    decreases items.len(),
{
    if items.len() == 0 {
        Some(seq![])
    } else {
        match (decoded_items(items.drop_last()), decoded(items.last())) {
            (Some(fs), Some(f)) => Some(fs.push(f)),
            _ => None,
        }
    }
}

/// The findings of a report document, if it is an array of findings.
pub open spec fn decoded_report(v: JsonValue) -> Option<Seq<FindingView>> {
    match v {
        JsonValue::Array(items) => decoded_items(items@),
        _ => None,
    }
}

proof fn lemma_keys_differ()
    ensures
        "tool"@ != "rule_id"@,
        "tool"@ != "severity"@,
        "tool"@ != "message"@,
        "tool"@ != "location"@,
        "rule_id"@ != "severity"@,
        "rule_id"@ != "message"@,
        "rule_id"@ != "location"@,
        "severity"@ != "message"@,
        "severity"@ != "location"@,
        "message"@ != "location"@,
        "file"@ != "line"@,
        "file"@ != "column"@,
        "line"@ != "column"@,
{
    reveal_strlit("tool");
    reveal_strlit("rule_id");
    reveal_strlit("severity");
    reveal_strlit("message");
    reveal_strlit("location");
    reveal_strlit("file");
    reveal_strlit("line");
    reveal_strlit("column");
    assert("tool"@.len() != "rule_id"@.len());
    assert("tool"@.len() != "severity"@.len());
    assert("tool"@.len() != "message"@.len());
    assert("tool"@.len() != "location"@.len());
    assert("rule_id"@[0] != "severity"@[0]);
    assert("rule_id"@.len() != "message"@.len() || "rule_id"@[0] != "message"@[0]);
    assert("rule_id"@.len() != "location"@.len());
    assert("severity"@.len() != "message"@.len());
    assert("severity"@[0] != "location"@[0]);
    assert("message"@.len() != "location"@.len());
    assert("file"@[0] != "line"@[0]);
    assert("file"@.len() != "column"@.len());
    assert("line"@.len() != "column"@.len());
}

proof fn lemma_severity_names(s: Severity)
    ensures
        severity_named(severity_name(s)) == Some(s),
{
    let e = severity_name(Severity::Error);
    let w = severity_name(Severity::Warning);
    let i = severity_name(Severity::Info);
    let st = severity_name(Severity::Style);
    let n = severity_name(Severity::Note);
    assert(e.len() != w.len() && e[0] != i[0] && e[0] != st[0] && e[0] != n[0]);
    assert(w.len() != i.len() && w.len() != st.len() && w.len() != n.len());
    assert(i[0] != st[0] && i[0] != n[0] && st[0] != n[0]);
}

/// Reading back the object of a finding gives that finding.
pub proof fn lemma_decode_encoded(v: JsonValue, f: FindingView)
    requires
        encodes(v, f),
    ensures
        decoded(v) == Some(f),
{
    lemma_keys_differ();
    lemma_severity_names(f.severity);
    let es = match v {
        JsonValue::Object(es) => es@,
        _ => arbitrary(),
    };
    let e1 = es.subrange(1, 5);
    let e2 = e1.subrange(1, 4);
    let e3 = e2.subrange(1, 3);
    let e4 = e3.subrange(1, 2);
    assert(e1[0] == es[1] && e2[0] == es[2] && e3[0] == es[3] && e4[0] == es[4]);
    assert(field(es, "tool"@) == Some(es[0].1));
    assert(field(e1, "rule_id"@) == Some(es[1].1));
    assert(field(es, "rule_id"@) == Some(es[1].1));
    assert(field(e2, "severity"@) == Some(es[2].1));
    assert(field(e1, "severity"@) == Some(es[2].1));
    assert(field(es, "severity"@) == Some(es[2].1));
    assert(field(e3, "message"@) == Some(es[3].1));
    assert(field(e2, "message"@) == Some(es[3].1));
    assert(field(e1, "message"@) == Some(es[3].1));
    assert(field(es, "message"@) == Some(es[3].1));
    assert(field(e4, "location"@) == Some(es[4].1));
    assert(field(e3, "location"@) == Some(es[4].1));
    assert(field(e2, "location"@) == Some(es[4].1));
    assert(field(e1, "location"@) == Some(es[4].1));
    assert(field(es, "location"@) == Some(es[4].1));
    let ls = match es[4].1 {
        JsonValue::Object(ls) => ls@,
        _ => arbitrary(),
    };
    let l1 = ls.subrange(1, 3);
    let l2 = l1.subrange(1, 2);
    assert(l1[0] == ls[1] && l2[0] == ls[2]);
    assert(field(ls, "file"@) == Some(ls[0].1));
    assert(field(l1, "line"@) == Some(ls[1].1));
    assert(field(ls, "line"@) == Some(ls[1].1));
    assert(field(l2, "column"@) == Some(ls[2].1));
    assert(field(l1, "column"@) == Some(ls[2].1));
    assert(field(ls, "column"@) == Some(ls[2].1));
}

/// Writing findings to a JSON report and reading it back gives the same
/// findings, as many as there were, with the same field values.
pub proof fn lemma_json_round_trip(v: JsonValue, fs: Seq<FindingView>)
    requires
        encodes_all(v, fs),
    ensures
        decoded_report(v) == Some(fs),
{
    let items = match v {
        JsonValue::Array(items) => items@,
        _ => arbitrary(),
    };
    lemma_items_round_trip(items, fs);
}

proof fn lemma_items_round_trip(items: Seq<JsonValue>, fs: Seq<FindingView>)
    requires
        items.len() == fs.len(),
        forall|i: int| 0 <= i < fs.len() ==> encodes(#[trigger] items[i], fs[i]),
    ensures
        decoded_items(items) == Some(fs),
    decreases items.len(),
{
    if items.len() > 0 {
        let d = items.drop_last();
        let g = fs.drop_last();
        assert forall|i: int| 0 <= i < g.len() implies encodes(#[trigger] d[i], g[i]) by {
            assert(d[i] == items[i] && g[i] == fs[i]);
        }
        lemma_items_round_trip(d, g);
        lemma_decode_encoded(items.last(), fs.last());
        assert(g.push(fs.last()) =~= fs);
    }
}

fn key(k: &str) -> (r: String)
    ensures
        r@ == k@,
{
    String::from_str(k)
}

fn opt_text_value(o: &Option<String>) -> (r: JsonValue)
    ensures
        opt_text_is(r, crate::model::opt_str_view(*o)),
{
    match o {
        Some(s) => JsonValue::Str(s.clone()),
        None => JsonValue::Null,
    }
}

fn opt_number_value(o: Option<u32>) -> (r: JsonValue)
    ensures
        opt_number_is(r, o),
{
    match o {
        Some(n) => JsonValue::UInt(n as u64),
        None => JsonValue::Null,
    }
}

/// The object of one finding.
pub fn finding_to_json(f: &Finding) -> (r: JsonValue)
    ensures
        encodes(r, f@),
{
    let mut loc: Vec<(String, JsonValue)> = Vec::new();
    loc.push((key("file"), JsonValue::Str(f.location.file.clone())));
    loc.push((key("line"), opt_number_value(f.location.line)));
    loc.push((key("column"), opt_number_value(f.location.column)));
    let mut es: Vec<(String, JsonValue)> = Vec::new();
    es.push((key("tool"), JsonValue::Str(f.tool.clone())));
    es.push((key("rule_id"), opt_text_value(&f.rule_id)));
    es.push((key("severity"), JsonValue::Str(f.severity.to_string())));
    es.push((key("message"), JsonValue::Str(f.message.clone())));
    es.push((key("location"), JsonValue::Object(loc)));
    JsonValue::Object(es)
}

/// The array of the findings, in order.
pub fn findings_to_json(fs: &Vec<Finding>) -> (r: JsonValue)
    ensures
        encodes_all(r, findings_view(fs@)),
{
    let mut items: Vec<JsonValue> = Vec::new();
    let mut i: usize = 0;
    while i < fs.len()
        invariant
            i <= fs@.len(),
            items@.len() == i,
            forall|j: int| 0 <= j < i ==> encodes(#[trigger] items@[j], fs@[j]@),
        decreases fs.len() - i,
    {
        items.push(finding_to_json(&fs[i]));
        i = i + 1;
    }
    JsonValue::Array(items)
}

fn read_text(v: Option<&JsonValue>) -> (r: Option<String>)
    ensures
        crate::model::opt_str_view(r) == as_text(crate::json::opt_deref(v)),
{
    match v {
        Some(JsonValue::Str(s)) => Some(s.clone()),
        _ => None,
    }
}

fn read_severity(t: &str) -> (r: Option<Severity>)
    ensures
        r == severity_named(t@),
{
    proof {
        reveal_strlit("error");
        reveal_strlit("warning");
        reveal_strlit("info");
        reveal_strlit("style");
        reveal_strlit("note");
        assert("error"@ =~= severity_name(Severity::Error));
        assert("warning"@ =~= severity_name(Severity::Warning));
        assert("info"@ =~= severity_name(Severity::Info));
        assert("style"@ =~= severity_name(Severity::Style));
        assert("note"@ =~= severity_name(Severity::Note));
    }
    if str_equal(t, "error") {
        Some(Severity::Error)
    } else if str_equal(t, "warning") {
        Some(Severity::Warning)
    } else if str_equal(t, "info") {
        Some(Severity::Info)
    } else if str_equal(t, "style") {
        Some(Severity::Style)
    } else if str_equal(t, "note") {
        Some(Severity::Note)
    } else {
        None
    }
}

fn read_opt_text_exec(v: Option<&JsonValue>) -> (r: Option<Option<String>>)
    ensures
        match r {
            Some(o) => read_opt_text(crate::json::opt_deref(v)) == Some(
                crate::model::opt_str_view(o),
            ),
            None => read_opt_text(crate::json::opt_deref(v)) is None,
        },
{
    match v {
        Some(JsonValue::Str(s)) => Some(Some(s.clone())),
        Some(JsonValue::Null) => Some(None),
        _ => None,
    }
}

fn read_opt_number_exec(v: Option<&JsonValue>) -> (r: Option<Option<u32>>)
    ensures
        r == read_opt_number(crate::json::opt_deref(v)),
{
    match v {
        Some(JsonValue::UInt(n)) => if *n <= 4294967295 {
            Some(Some(*n as u32))
        } else {
            None
        },
        Some(JsonValue::Null) => Some(None),
        _ => None,
    }
}

/// The finding that the object `v` describes, if it describes one.
pub fn finding_from_json(v: &JsonValue) -> (r: Option<Finding>)
    ensures
        crate::model::opt_finding_view(r) == decoded(*v),
{
    let loc = get_member(v, "location");
    let tool = read_text(get_member(v, "tool"));
    let rule = read_opt_text_exec(get_member(v, "rule_id"));
    let sev = read_text(get_member(v, "severity"));
    let msg = read_text(get_member(v, "message"));
    let (file, line, col) = match loc {
        Some(l) => (
            read_text(get_member(l, "file")),
            read_opt_number_exec(get_member(l, "line")),
            read_opt_number_exec(get_member(l, "column")),
        ),
        None => (None, None, None),
    };
    match (tool, rule, sev, msg, file, line, col) {
        (Some(tool), Some(rule_id), Some(s), Some(message), Some(file), Some(line), Some(column)) => {
            match read_severity(s.as_str()) {
                Some(severity) => Some(
                    Finding {
                        tool,
                        rule_id,
                        severity,
                        message,
                        location: Location { file, line, column },
                    },
                ),
                None => None,
            }
        },
        _ => None,
    }
}

/// The findings of a report document, if it is an array of findings.
pub fn findings_from_json(v: &JsonValue) -> (r: Option<Vec<Finding>>)
    ensures
        match r {
            Some(fs) => decoded_report(*v) == Some(findings_view(fs@)),
            None => decoded_report(*v) is None,
        },
{
    match v {
        JsonValue::Array(items) => {
            let mut out: Vec<Finding> = Vec::new();
            let mut i: usize = 0;
            while i < items.len()
                invariant
                    i <= items@.len(),
                    *v == JsonValue::Array(*items),
                    decoded_items(items@.subrange(0, i as int)) == Some(findings_view(out@)),
                decreases items.len() - i,
            {
                let ghost p = items@.subrange(0, i + 1);
                proof {
                    assert(p.drop_last() =~= items@.subrange(0, i as int));
                    assert(p.last() == items@[i as int]);
                }
                match finding_from_json(&items[i]) {
                    Some(f) => {
                        let ghost before = findings_view(out@);
                        out.push(f);
                        assert(findings_view(out@) =~= before.push(f@));
                    },
                    None => {
                        proof {
                            lemma_decoded_prefix_fails(items@, i as int);
                        }
                        return None;
                    },
                }
                i = i + 1;
            }
            assert(items@.subrange(0, i as int) =~= items@);
            Some(out)
        },
        _ => None,
    }
}

proof fn lemma_decoded_prefix_fails(items: Seq<JsonValue>, i: int)
    requires
        0 <= i < items.len(),
        decoded(items[i]) is None,
    ensures
        decoded_items(items) is None,
    decreases items.len(),
{
    if i < items.len() - 1 {
        assert(items.drop_last()[i] == items[i]);
        lemma_decoded_prefix_fails(items.drop_last(), i);
    }
}

/// The text of the JSON report of the findings.
pub fn render(fs: &Vec<Finding>) -> (r: String)
    ensures
        exists|v: JsonValue| encodes_all(v, findings_view(fs@)) && r@ == json_text(v),
{
    let v = findings_to_json(fs);
    to_json_text(&v)
}

/// Reads the findings back from the text of a JSON report.
pub fn read(text: &str) -> (r: Option<Vec<Finding>>)
    ensures
        match r {
            Some(fs) => exists|v: JsonValue| json_document(text@) == Some(v) && decoded_report(v)
                == Some(findings_view(fs@)),
            None => json_document(text@) is None || decoded_report(json_document(text@)->0) is None,
        },
{
    match parse_json(text) {
        Some(v) => findings_from_json(&v),
        None => None,
    }
}

} // verus!
