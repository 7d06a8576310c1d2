//! The HTML report: one self-contained page with a summary and a table of
//! findings, every text that came from a tool escaped.
use vstd::prelude::*;
use crate::model::{Finding, FindingView, Severity, findings_view, severity_name};
use crate::text::{chars_of, decimal, push_decimal, push_str, string_of};

verus! {

/// The escape of one character.
pub open spec fn escaped_char(c: char) -> Seq<char> {
    if c == '&' {
        seq!['&', 'a', 'm', 'p', ';']
    } else if c == '<' {
        seq!['&', 'l', 't', ';']
    } else if c == '>' {
        seq!['&', 'g', 't', ';']
    } else if c == '"' {
        seq!['&', 'q', 'u', 'o', 't', ';']
    } else {
        seq![c]
    }
}

/// `s` with `&`, `<`, `>` and `"` replaced by their entities.
pub open spec fn escaped(s: Seq<char>) -> Seq<char>
    decreases s.len(),
{
    if s.len() == 0 {
        seq![]
    } else {
        escaped(s.drop_last()) + escaped_char(s.last())
    }
}

/// Appends the escape of `s` to `out`.
pub fn push_escaped(out: &mut Vec<char>, s: &str)
    ensures
        final(out)@ == old(out)@ + escaped(s@),
{
    proof {
        reveal_strlit("&amp;");
        reveal_strlit("&lt;");
        reveal_strlit("&gt;");
        reveal_strlit("&quot;");
    }
    let cs = chars_of(s);
    let mut i: usize = 0;
    while i < cs.len()
        invariant
            i <= cs.len(),
            cs@ == s@,
            out@ == old(out)@ + escaped(cs@.subrange(0, i as int)),
        decreases cs.len() - i,
    {
        let c = cs[i];
        let ghost before = out@;
        if c == '&' {
            proof {
                reveal_strlit("&amp;");
            }
            assert("&amp;"@ =~= escaped_char(c));
            push_str(out, "&amp;");
        } else if c == '<' {
            proof {
                reveal_strlit("&lt;");
            }
            assert("&lt;"@ =~= escaped_char(c));
            push_str(out, "&lt;");
        } else if c == '>' {
            proof {
                reveal_strlit("&gt;");
            }
            assert("&gt;"@ =~= escaped_char(c));
            push_str(out, "&gt;");
        } else if c == '"' {
            proof {
                reveal_strlit("&quot;");
            }
            assert("&quot;"@ =~= escaped_char(c));
            push_str(out, "&quot;");
        } else {
            out.push(c);
        }
        proof {
            let p = cs@.subrange(0, i + 1);
            assert(p.drop_last() =~= cs@.subrange(0, i as int));
            assert(out@ =~= before + escaped_char(c));
        }
        i = i + 1;
    }
    assert(cs@.subrange(0, i as int) =~= s@);
}

/// Escapes `&`, `<`, `>` and `"` in `s`.
pub fn html_escape(s: &str) -> (r: String)
    ensures
        r@ == escaped(s@),
{
    let mut out: Vec<char> = Vec::new();
    push_escaped(&mut out, s);
    let n = out.len();
    assert(out@.subrange(0, n as int) =~= out@);
    string_of(&out, 0, n)
}

/// Escaped text holds no `<`, `>` or `"`, so no markup can come of it.
pub proof fn lemma_escaped_is_inert(s: Seq<char>)
    ensures
        forall|i: int| 0 <= i < escaped(s).len() ==> {
            let c = #[trigger] escaped(s)[i];
            c != '<' && c != '>' && c != '"'
        },
    decreases s.len(),
{
    if s.len() > 0 {
        lemma_escaped_is_inert(s.drop_last());
        let a = escaped(s.drop_last());
        let b = escaped_char(s.last());
        assert forall|i: int| 0 <= i < escaped(s).len() implies {
            let c = #[trigger] escaped(s)[i];
            c != '<' && c != '>' && c != '"'
        } by {
            if i >= a.len() {
                assert(escaped(s)[i] == b[i - a.len()]);
            } else {
                assert(escaped(s)[i] == a[i]);
            }
        }
    }
}

/// A text that holds `<` never comes out of the escape unchanged, so a
/// `<script>` in a finding cannot reach the page as markup.
pub proof fn lemma_markup_never_survives(s: Seq<char>, i: int)
    requires
        0 <= i < s.len(),
        s[i] == '<',
    ensures
        escaped(s) != s,
{
    lemma_escaped_is_inert(s);
    if escaped(s) == s {
        assert(escaped(s)[i] == '<');
    }
}

/// The number of findings of severity `sev`.
pub open spec fn count_severity(fs: Seq<FindingView>, sev: Severity) -> nat
    decreases fs.len(),
{
    if fs.len() == 0 {
        0
    } else {
        count_severity(fs.drop_last(), sev) + if fs.last().severity == sev {
            1nat
        } else {
            0nat
        }
    }
}

/// The table row of one finding.
pub open spec fn row(f: FindingView) -> Seq<char> {
    "<tr class=\"severity-"@ + severity_name(f.severity) + "\">\n  <td>"@ + escaped(f.tool)
        + "</td>\n  <td>"@ + severity_name(f.severity) + "</td>\n  <td>"@ + escaped(f.file)
        + "</td>\n  <td>"@ + match f.line {
        Some(n) => decimal(n as nat),
        None => "-"@,
    } + "</td>\n  <td>"@ + match f.rule_id {
        Some(r) => escaped(r),
        None => "-"@,
    } + "</td>\n  <td>"@ + escaped(f.message) + "</td>\n</tr>\n"@
}

/// The rows of the findings, in order.
pub open spec fn rows(fs: Seq<FindingView>) -> Seq<char>
    decreases fs.len(),
{
    if fs.len() == 0 {
        seq![]
    } else {
        rows(fs.drop_last()) + row(fs.last())
    }
}

pub open spec fn page_start() -> Seq<char> {
    "<!DOCTYPE html>\n<html lang=\"en\">\n<head>\n<meta charset=\"UTF-8\">\n<meta name=\"viewport\" content=\"width=device-width, initial-scale=1.0\">\n<title>SAST Report - "@
}

pub open spec fn page_style() -> Seq<char> {
    "</title>\n<style>\n  body { font-family: -apple-system, BlinkMacSystemFont, 'Segoe UI', sans-serif; margin: 2rem; background: #f5f5f5; }\n  h1 { color: #333; }\n  .summary { margin: 1rem 0; padding: 1rem; background: #fff; border-radius: 8px; box-shadow: 0 1px 3px rgba(0,0,0,0.1); }\n  table { border-collapse: collapse; width: 100%; background: #fff; border-radius: 8px; overflow: hidden; box-shadow: 0 1px 3px rgba(0,0,0,0.1); }\n  th { background: #2c3e50; color: #fff; padding: 12px; text-align: left; }\n  td { padding: 10px 12px; border-bottom: 1px solid #eee; }\n  tr:hover { background: #f8f9fa; }\n  .severity-error td:nth-child(2) { color: #e74c3c; font-weight: bold; }\n  .severity-warning td:nth-child(2) { color: #f39c12; font-weight: bold; }\n  .severity-info td:nth-child(2) { color: #3498db; }\n  .severity-style td:nth-child(2) { color: #9b59b6; }\n  .severity-note td:nth-child(2) { color: #7f8c8d; }\n  .count { display: inline-block; padding: 4px 12px; border-radius: 12px; margin: 0 4px; font-weight: bold; }\n  .count-error { background: #fde8e8; color: #e74c3c; }\n  .count-warning { background: #fef3e2; color: #f39c12; }\n  .count-total { background: #e8f4fd; color: #2980b9; }\n</style>\n</head>\n<body>\n<h1>SAST Report: "@
}

pub open spec fn page_summary() -> Seq<char> {
    "</h1>\n<div class=\"summary\">\n  <span class=\"count count-total\">"@
}

pub open spec fn page_table() -> Seq<char> {
    " warnings</span>\n</div>\n<table>\n<thead>\n<tr><th>Tool</th><th>Severity</th><th>File</th><th>Line</th><th>Rule</th><th>Message</th></tr>\n</thead>\n<tbody>\n"@
}

/// The whole page for the findings of project `project`.
pub open spec fn html_page(fs: Seq<FindingView>, project: Seq<char>) -> Seq<char> {
    page_start() + escaped(project) + page_style() + escaped(project) + page_summary() + decimal(
        fs.len(),
    ) + " findings</span>\n  <span class=\"count count-error\">"@ + decimal(
        count_severity(fs, Severity::Error),
    ) + " errors</span>\n  <span class=\"count count-warning\">"@ + decimal(
        count_severity(fs, Severity::Warning),
    ) + page_table() + rows(fs) + "\n</tbody>\n</table>\n</body>\n</html>"@
}

fn push_row(out: &mut Vec<char>, f: &Finding)
    ensures
        final(out)@ == old(out)@ + row(f@),
{
    let sev = f.severity.to_string();
    let mut r = chars_of("<tr class=\"severity-");
    push_str(&mut r, sev.as_str());
    push_str(&mut r, "\">\n  <td>");
    push_escaped(&mut r, f.tool.as_str());
    push_str(&mut r, "</td>\n  <td>");
    push_str(&mut r, sev.as_str());
    push_str(&mut r, "</td>\n  <td>");
    push_escaped(&mut r, f.location.file.as_str());
    push_str(&mut r, "</td>\n  <td>");
    match f.location.line {
        Some(n) => push_decimal(n as u64, &mut r),
        None => push_str(&mut r, "-"),
    }
    push_str(&mut r, "</td>\n  <td>");
    match &f.rule_id {
        Some(x) => push_escaped(&mut r, x.as_str()),
        None => push_str(&mut r, "-"),
    }
    push_str(&mut r, "</td>\n  <td>");
    push_escaped(&mut r, f.message.as_str());
    push_str(&mut r, "</td>\n</tr>\n");
    out.append(&mut r);
}

/// Renders the HTML report of the findings of project `project_name`.
pub fn render(findings: &Vec<Finding>, project_name: &str) -> (r: String)
    ensures
        r@ == html_page(findings_view(findings@), project_name@),
{
    let ghost fs = findings_view(findings@);
    let mut body: Vec<char> = Vec::new();
    let mut errors: usize = 0;
    let mut warnings: usize = 0;
    let mut i: usize = 0;
    while i < findings.len()
        invariant
            i <= findings@.len(),
            fs == findings_view(findings@),
            body@ == rows(fs.subrange(0, i as int)),
            errors == count_severity(fs.subrange(0, i as int), Severity::Error),
            warnings == count_severity(fs.subrange(0, i as int), Severity::Warning),
            errors <= i,
            warnings <= i,
        decreases findings.len() - i,
    {
        let ghost p = fs.subrange(0, i + 1);
        proof {
            assert(p.drop_last() =~= fs.subrange(0, i as int));
            assert(p.last() == findings@[i as int]@);
        }
        push_row(&mut body, &findings[i]);
        match findings[i].severity {
            Severity::Error => {
                errors = errors + 1;
            },
            Severity::Warning => {
                warnings = warnings + 1;
            },
            _ => {},
        }
        i = i + 1;
    }
    assert(fs.subrange(0, i as int) =~= fs);
    let mut out = chars_of("<!DOCTYPE html>\n<html lang=\"en\">\n<head>\n<meta charset=\"UTF-8\">\n<meta name=\"viewport\" content=\"width=device-width, initial-scale=1.0\">\n<title>SAST Report - ");
    push_escaped(&mut out, project_name);
    push_str(&mut out, "</title>\n<style>\n  body { font-family: -apple-system, BlinkMacSystemFont, 'Segoe UI', sans-serif; margin: 2rem; background: #f5f5f5; }\n  h1 { color: #333; }\n  .summary { margin: 1rem 0; padding: 1rem; background: #fff; border-radius: 8px; box-shadow: 0 1px 3px rgba(0,0,0,0.1); }\n  table { border-collapse: collapse; width: 100%; background: #fff; border-radius: 8px; overflow: hidden; box-shadow: 0 1px 3px rgba(0,0,0,0.1); }\n  th { background: #2c3e50; color: #fff; padding: 12px; text-align: left; }\n  td { padding: 10px 12px; border-bottom: 1px solid #eee; }\n  tr:hover { background: #f8f9fa; }\n  .severity-error td:nth-child(2) { color: #e74c3c; font-weight: bold; }\n  .severity-warning td:nth-child(2) { color: #f39c12; font-weight: bold; }\n  .severity-info td:nth-child(2) { color: #3498db; }\n  .severity-style td:nth-child(2) { color: #9b59b6; }\n  .severity-note td:nth-child(2) { color: #7f8c8d; }\n  .count { display: inline-block; padding: 4px 12px; border-radius: 12px; margin: 0 4px; font-weight: bold; }\n  .count-error { background: #fde8e8; color: #e74c3c; }\n  .count-warning { background: #fef3e2; color: #f39c12; }\n  .count-total { background: #e8f4fd; color: #2980b9; }\n</style>\n</head>\n<body>\n<h1>SAST Report: ");
    push_escaped(&mut out, project_name);
    push_str(&mut out, "</h1>\n<div class=\"summary\">\n  <span class=\"count count-total\">");
    push_decimal(findings.len() as u64, &mut out);
    push_str(&mut out, " findings</span>\n  <span class=\"count count-error\">");
    push_decimal(errors as u64, &mut out);
    push_str(&mut out, " errors</span>\n  <span class=\"count count-warning\">");
    push_decimal(warnings as u64, &mut out);
    push_str(&mut out, " warnings</span>\n</div>\n<table>\n<thead>\n<tr><th>Tool</th><th>Severity</th><th>File</th><th>Line</th><th>Rule</th><th>Message</th></tr>\n</thead>\n<tbody>\n");
    out.append(&mut body);
    push_str(&mut out, "\n</tbody>\n</table>\n</body>\n</html>");
    let n = out.len();
    assert(out@.subrange(0, n as int) =~= out@);
    string_of(&out, 0, n)
}

} // verus!
