//! The SARIF 2.1.0 report: one run per tool, in the order in which the
//! tools first appear among the findings.
use vstd::prelude::*;
use crate::json::{JsonValue, json_text, str_equal, to_json_text};
use crate::model::{Finding, FindingView, Severity, findings_view};
use crate::output::json::text_is;
use crate::text::{push_str, string_of};

verus! {

/// The tools of the findings, each once, in order of first appearance.
pub open spec fn distinct_tools(fs: Seq<FindingView>) -> Seq<Seq<char>>
    decreases fs.len(),
{
    if fs.len() == 0 {
        seq![]
    } else {
        let d = distinct_tools(fs.drop_last());
        if d.contains(fs.last().tool) {
            d
        } else {
            d.push(fs.last().tool)
        }
    }
}

/// The findings of tool `t`, in order.
pub open spec fn of_tool(fs: Seq<FindingView>, t: Seq<char>) -> Seq<FindingView>
    decreases fs.len(),
{
    if fs.len() == 0 {
        seq![]
    } else {
        let p = of_tool(fs.drop_last(), t);
        if fs.last().tool == t {
            p.push(fs.last())
        } else {
            p
        }
    }
}

/// The SARIF level of a severity.
pub open spec fn level_name(s: Severity) -> Seq<char> {
    match s {
        Severity::Error => seq!['e', 'r', 'r', 'o', 'r'],
        Severity::Warning => seq!['w', 'a', 'r', 'n', 'i', 'n', 'g'],
        _ => seq!['n', 'o', 't', 'e'],
    }
}

/// `r` holds `startLine` where a line is given and `startColumn` where a
/// column is given, in that order, and nothing else.
pub open spec fn region_is(r: Seq<(String, JsonValue)>, line: Option<u32>, column: Option<u32>) -> bool {
    let n: int = (if line is Some { 1int } else { 0int }) + (if column is Some { 1int } else { 0int });
    &&& r.len() == n
    &&& line is Some ==> r[0].0@ == "startLine"@ && r[0].1 == JsonValue::UInt(line->0 as u64)
    &&& column is Some ==> r[n - 1].0@ == "startColumn"@ && r[n - 1].1 == JsonValue::UInt(
        column->0 as u64,
    )
}

/// `v` is the location object of finding `f`.
pub open spec fn location_is(v: JsonValue, f: FindingView) -> bool {
    &&& v matches JsonValue::Object(p)
    &&& p@.len() == 1
    &&& p@[0].0@ == "physicalLocation"@
    &&& p@[0].1 matches JsonValue::Object(q)
    &&& q@.len() == if f.line is Some || f.column is Some { 2int } else { 1int }
    &&& q@[0].0@ == "artifactLocation"@
    &&& q@[0].1 matches JsonValue::Object(a)
    &&& a@.len() == 1 && a@[0].0@ == "uri"@ && text_is(a@[0].1, f.file)
    &&& (f.line is Some || f.column is Some) ==> q@[1].0@ == "region"@ && (q@[1].1 matches JsonValue::Object(
        r,
    ) && region_is(r@, f.line, f.column))
}

/// `v` is the result object of finding `f`: its level, message, location
/// and, where the finding has one, its rule.
pub open spec fn result_is(v: JsonValue, f: FindingView) -> bool {
    &&& v matches JsonValue::Object(es)
    &&& es@.len() == if f.rule_id is Some { 4int } else { 3int }
    &&& es@[0].0@ == "level"@ && text_is(es@[0].1, level_name(f.severity))
    &&& es@[1].0@ == "message"@
    &&& es@[1].1 matches JsonValue::Object(m)
    &&& m@.len() == 1 && m@[0].0@ == "text"@ && text_is(m@[0].1, f.message)
    &&& es@[2].0@ == "locations"@
    &&& es@[2].1 matches JsonValue::Array(ls)
    &&& ls@.len() == 1 && location_is(ls@[0], f)
    &&& f.rule_id is Some ==> es@[3].0@ == "ruleId"@ && text_is(es@[3].1, f.rule_id->0)
}

/// `v` is the run object of tool `t` with the findings `fs`.
pub open spec fn run_is(v: JsonValue, t: Seq<char>, fs: Seq<FindingView>) -> bool {
    &&& v matches JsonValue::Object(es)
    &&& es@.len() == 2
    &&& es@[0].0@ == "tool"@
    &&& es@[0].1 matches JsonValue::Object(tl)
    &&& tl@.len() == 1 && tl@[0].0@ == "driver"@
    &&& tl@[0].1 matches JsonValue::Object(d)
    &&& d@.len() == 2
    &&& d@[0].0@ == "name"@ && text_is(d@[0].1, t)
    &&& d@[1].0@ == "informationUri"@ && text_is(
        d@[1].1,
        "https://github.com/search?q="@ + t,
    )
    &&& es@[1].0@ == "results"@
    &&& es@[1].1 matches JsonValue::Array(rs)
    &&& rs@.len() == fs.len()
    &&& forall|k: int| 0 <= k < fs.len() ==> result_is(#[trigger] rs@[k], fs[k])
}

/// `runs` holds one run per tool of `fs`, in order of first appearance.
pub open spec fn runs_are(runs: Seq<JsonValue>, fs: Seq<FindingView>) -> bool {
    &&& runs.len() == distinct_tools(fs).len()
    &&& forall|j: int| 0 <= j < runs.len() ==> run_is(
        #[trigger] runs[j],
        distinct_tools(fs)[j],
        of_tool(fs, distinct_tools(fs)[j]),
    )
}

/// `v` is the SARIF document of the findings `fs`.
pub open spec fn sarif_is(v: JsonValue, fs: Seq<FindingView>) -> bool {
    &&& v matches JsonValue::Object(es)
    &&& es@.len() == 3
    &&& es@[0].0@ == "$schema"@ && text_is(
        es@[0].1,
        "https://raw.githubusercontent.com/oasis-tcs/sarif-spec/main/sarif-2.1/schema/sarif-schema-2.1.0.json"@,
    )
    &&& es@[1].0@ == "version"@ && text_is(es@[1].1, "2.1.0"@)
    &&& es@[2].0@ == "runs"@
    &&& es@[2].1 matches JsonValue::Array(runs)
    &&& runs_are(runs@, fs)
}

/// The tools of the findings, each once and none other.
pub proof fn lemma_distinct_tools(fs: Seq<FindingView>)
    ensures
        distinct_tools(fs).no_duplicates(),
        forall|t: Seq<char>| #[trigger]
            distinct_tools(fs).contains(t) <==> exists|i: int| 0 <= i < fs.len() && fs[i].tool == t,
    decreases fs.len(),
{
    if fs.len() > 0 {
        let d = fs.drop_last();
        lemma_distinct_tools(d);
        let dd = distinct_tools(d);
        let x = fs.last().tool;
        assert(fs[fs.len() - 1].tool == x);
        assert forall|t: Seq<char>| #[trigger]
            distinct_tools(fs).contains(t) <==> exists|i: int| 0 <= i < fs.len() && fs[i].tool == t by {
            let in_d = exists|i: int| 0 <= i < d.len() && d[i].tool == t;
            if in_d {
                let i = choose|i: int| 0 <= i < d.len() && d[i].tool == t;
                assert(fs[i] == d[i]);
            }
            if exists|i: int| 0 <= i < fs.len() && fs[i].tool == t {
                let i = choose|i: int| 0 <= i < fs.len() && fs[i].tool == t;
                if i < d.len() {
                    assert(d[i] == fs[i]);
                }
            }
            if !dd.contains(x) {
                let e = dd.push(x);
                assert(distinct_tools(fs) == e);
                if e.contains(t) {
                    let k = choose|k: int| 0 <= k < e.len() && e[k] == t;
                    if k < dd.len() {
                        assert(dd[k] == t);
                    }
                }
                if dd.contains(t) {
                    let k = choose|k: int| 0 <= k < dd.len() && dd[k] == t;
                    assert(e[k] == t);
                }
                if t == x {
                    assert(e[dd.len() as int] == t);
                }
            }
        }
        if !dd.contains(x) {
            let e = dd.push(x);
            assert forall|i: int, j: int| 0 <= i < e.len() && 0 <= j < e.len() && i != j implies e[i] != e[j] by {
                if i < dd.len() && j == dd.len() {
                    assert(dd.contains(dd[i]));
                } else if j < dd.len() && i == dd.len() {
                    assert(dd.contains(dd[j]));
                }
            }
        }
    }
}

/// Every SARIF document says version 2.1.0 and holds an array of runs, one
/// for each tool present among the findings: no tool twice, none missing,
/// none that has no finding.
pub proof fn lemma_sarif_shape(v: JsonValue, fs: Seq<FindingView>)
    requires
        sarif_is(v, fs),
    ensures
        v matches JsonValue::Object(es) && es@[1].0@ == "version"@ && text_is(es@[1].1, "2.1.0"@) && (
        es@[2].1 matches JsonValue::Array(runs) && runs@.len() == distinct_tools(fs).len()),
        distinct_tools(fs).no_duplicates(),
        forall|t: Seq<char>| #[trigger]
            distinct_tools(fs).contains(t) <==> exists|i: int| 0 <= i < fs.len() && fs[i].tool == t,
{
    lemma_distinct_tools(fs);
}

fn key(k: &str) -> (r: String)
    ensures
        r@ == k@,
{
    String::from_str(k)
}

fn uint(n: u32) -> (r: JsonValue)
    ensures
        r == JsonValue::UInt(n as u64),
{
    JsonValue::UInt(n as u64)
}

fn location_json(f: &Finding) -> (r: JsonValue)
    ensures
        location_is(r, f@),
{
    let mut a: Vec<(String, JsonValue)> = Vec::new();
    a.push((key("uri"), JsonValue::Str(f.location.file.clone())));
    let mut q: Vec<(String, JsonValue)> = Vec::new();
    q.push((key("artifactLocation"), JsonValue::Object(a)));
    if f.location.line.is_some() || f.location.column.is_some() {
        let mut region: Vec<(String, JsonValue)> = Vec::new();
        match f.location.line {
            Some(l) => region.push((key("startLine"), uint(l))),
            None => {},
        }
        match f.location.column {
            Some(c) => region.push((key("startColumn"), uint(c))),
            None => {},
        }
        q.push((key("region"), JsonValue::Object(region)));
    }
    let mut p: Vec<(String, JsonValue)> = Vec::new();
    p.push((key("physicalLocation"), JsonValue::Object(q)));
    JsonValue::Object(p)
}

fn level(s: Severity) -> (r: String)
    ensures
        r@ == level_name(s),
{
    proof {
        reveal_strlit("error");
        reveal_strlit("warning");
        reveal_strlit("note");
    }
    let t = match s {
        Severity::Error => "error",
        Severity::Warning => "warning",
        _ => "note",
    };
    assert(t@ =~= level_name(s));
    String::from_str(t)
}

/// The result object of one finding.
pub fn result_json(f: &Finding) -> (r: JsonValue)
    ensures
        result_is(r, f@),
{
    let mut m: Vec<(String, JsonValue)> = Vec::new();
    m.push((key("text"), JsonValue::Str(f.message.clone())));
    let mut ls: Vec<JsonValue> = Vec::new();
    ls.push(location_json(f));
    let mut es: Vec<(String, JsonValue)> = Vec::new();
    es.push((key("level"), JsonValue::Str(level(f.severity))));
    es.push((key("message"), JsonValue::Object(m)));
    es.push((key("locations"), JsonValue::Array(ls)));
    match &f.rule_id {
        Some(r) => es.push((key("ruleId"), JsonValue::Str(r.clone()))),
        None => {},
    }
    JsonValue::Object(es)
}

fn contains_text(v: &Vec<String>, t: &str) -> (r: bool)
    ensures
        r == crate::text::texts(v@).contains(t@),
{
    let mut i: usize = 0;
    while i < v.len()
        invariant
            i <= v@.len(),
            forall|j: int| 0 <= j < i ==> #[trigger] v@[j]@ != t@,
        decreases v.len() - i,
    {
        if str_equal(v[i].as_str(), t) {
            assert(crate::text::texts(v@)[i as int] == t@);
            return true;
        }
        i = i + 1;
    }
    assert forall|j: int| 0 <= j < v@.len() implies #[trigger] crate::text::texts(v@)[j] != t@ by {
        assert(v@[j]@ != t@);
    }
    false
}

/// The tools of the findings, each once, in order of first appearance.
pub fn tools_of(fs: &Vec<Finding>) -> (r: Vec<String>)
    ensures
        crate::text::texts(r@) == distinct_tools(findings_view(fs@)),
{
    let ghost all = findings_view(fs@);
    let mut out: Vec<String> = Vec::new();
    let mut i: usize = 0;
    while i < fs.len()
        invariant
            i <= fs@.len(),
            all == findings_view(fs@),
            crate::text::texts(out@) == distinct_tools(all.subrange(0, i as int)),
        decreases fs.len() - i,
    {
        let ghost p = all.subrange(0, i + 1);
        proof {
            assert(p.drop_last() =~= all.subrange(0, i as int));
            assert(p.last() == fs@[i as int]@);
        }
        if !contains_text(&out, fs[i].tool.as_str()) {
            let ghost before = crate::text::texts(out@);
            out.push(fs[i].tool.clone());
            assert(crate::text::texts(out@) =~= before.push(fs@[i as int].tool@));
        }
        i = i + 1;
    }
    assert(all.subrange(0, i as int) =~= all);
    out
}

/// The run object of tool `t`, with the results of its findings.
pub fn run_json(fs: &Vec<Finding>, t: &str) -> (r: JsonValue)
    ensures
        run_is(r, t@, of_tool(findings_view(fs@), t@)),
{
    let ghost all = findings_view(fs@);
    let mut results: Vec<JsonValue> = Vec::new();
    let mut i: usize = 0;
    while i < fs.len()
        invariant
            i <= fs@.len(),
            all == findings_view(fs@),
            results@.len() == of_tool(all.subrange(0, i as int), t@).len(),
            forall|k: int| 0 <= k < results@.len() ==> result_is(
                #[trigger] results@[k],
                of_tool(all.subrange(0, i as int), t@)[k],
            ),
        decreases fs.len() - i,
    {
        let ghost p = all.subrange(0, i + 1);
        proof {
            assert(p.drop_last() =~= all.subrange(0, i as int));
            assert(p.last() == fs@[i as int]@);
        }
        if str_equal(fs[i].tool.as_str(), t) {
            results.push(result_json(&fs[i]));
        }
        i = i + 1;
    }
    assert(all.subrange(0, i as int) =~= all);
    let mut uri: Vec<char> = Vec::new();
    push_str(&mut uri, "https://github.com/search?q=");
    push_str(&mut uri, t);
    let n = uri.len();
    assert(uri@ =~= "https://github.com/search?q="@ + t@);
    assert(uri@.subrange(0, n as int) =~= uri@);
    let mut d: Vec<(String, JsonValue)> = Vec::new();
    d.push((key("name"), JsonValue::Str(String::from_str(t))));
    d.push((key("informationUri"), JsonValue::Str(string_of(&uri, 0, n))));
    let mut tl: Vec<(String, JsonValue)> = Vec::new();
    tl.push((key("driver"), JsonValue::Object(d)));
    let mut es: Vec<(String, JsonValue)> = Vec::new();
    es.push((key("tool"), JsonValue::Object(tl)));
    es.push((key("results"), JsonValue::Array(results)));
    JsonValue::Object(es)
}

/// The SARIF document of the findings.
pub fn sarif_json(fs: &Vec<Finding>) -> (r: JsonValue)
    ensures
        sarif_is(r, findings_view(fs@)),
{
    let tools = tools_of(fs);
    let ghost d = distinct_tools(findings_view(fs@));
    let mut runs: Vec<JsonValue> = Vec::new();
    let mut j: usize = 0;
    while j < tools.len()
        invariant
            j <= tools@.len(),
            crate::text::texts(tools@) == d,
            d == distinct_tools(findings_view(fs@)),
            runs@.len() == j,
            forall|k: int| 0 <= k < j ==> run_is(
                #[trigger] runs@[k],
                d[k],
                of_tool(findings_view(fs@), d[k]),
            ),
        decreases tools.len() - j,
    {
        assert(d[j as int] == tools@[j as int]@);
        runs.push(run_json(fs, tools[j].as_str()));
        j = j + 1;
    }
    let mut es: Vec<(String, JsonValue)> = Vec::new();
    es.push(
        (
            key("$schema"),
            JsonValue::Str(
                String::from_str(
                    "https://raw.githubusercontent.com/oasis-tcs/sarif-spec/main/sarif-2.1/schema/sarif-schema-2.1.0.json",
                ),
            ),
        ),
    );
    es.push((key("version"), JsonValue::Str(String::from_str("2.1.0"))));
    es.push((key("runs"), JsonValue::Array(runs)));
    JsonValue::Object(es)
}

/// The text of the SARIF report of the findings.
pub fn render(fs: &Vec<Finding>) -> (r: String)
    ensures
        exists|v: JsonValue| sarif_is(v, findings_view(fs@)) && r@ == json_text(v),
{
    let v = sarif_json(fs);
    to_json_text(&v)
}

} // verus!
