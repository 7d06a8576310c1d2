//! The cppcheck output grammar.
//!
//! Each line of the form `<file>:<line>:<col>: <severity>: <message> [<rule>]`
//! (the rule suffix is optional) yields one finding. The file is the shortest
//! prefix after which the rest of the line matches; the message is the
//! shortest text after which only an optional `[rule]` and white space
//! remain. The column is matched but not kept.
use vstd::prelude::*;
use crate::model::{Finding, FindingView, Location, ParseError, Severity, ToolRun, opt_finding_view, findings_view};
use crate::text::{CharClass, chars_of, decode_lossy, utf8_lossy, lemma_run_end, read_u32, run_end, scan_run, string_of, sub_eq, sub_vec, u32_or_zero};

verus! {

pub open spec fn cppcheck_name() -> Seq<char> {
    seq!['c', 'p', 'p', 'c', 'h', 'e', 'c', 'k']
}

/// cppcheck's severity vocabulary; unknown tokens are notes.
pub open spec fn cppcheck_severity(tok: Seq<char>) -> Severity {
    if tok == "error"@ {
        Severity::Error
    } else if tok == "warning"@ {
        Severity::Warning
    } else if tok == "style"@ {
        Severity::Style
    } else if tok == "information"@ {
        Severity::Info
    } else if tok == "performance"@ {
        Severity::Warning
    } else if tok == "portability"@ {
        Severity::Warning
    } else if tok == "note"@ {
        Severity::Note
    } else {
        Severity::Note
    }
}

/// cppcheck's severity vocabulary is mapped in full: each of its seven
/// words to the canonical severity it stands for, and every other token to
/// a note, never to nothing.
pub proof fn lemma_cppcheck_vocabulary(tok: Seq<char>)
    ensures
        tok == "error"@ ==> cppcheck_severity(tok) == Severity::Error,
        tok == "warning"@ ==> cppcheck_severity(tok) == Severity::Warning,
        tok == "style"@ ==> cppcheck_severity(tok) == Severity::Style,
        tok == "information"@ ==> cppcheck_severity(tok) == Severity::Info,
        tok == "performance"@ ==> cppcheck_severity(tok) == Severity::Warning,
        tok == "portability"@ ==> cppcheck_severity(tok) == Severity::Warning,
        tok == "note"@ ==> cppcheck_severity(tok) == Severity::Note,
        tok != "error"@ && tok != "warning"@ && tok != "style"@ && tok != "information"@ && tok
            != "performance"@ && tok != "portability"@ ==> cppcheck_severity(tok) == Severity::Note,
{
    reveal_strlit("error");
    reveal_strlit("warning");
    reveal_strlit("style");
    reveal_strlit("information");
    reveal_strlit("performance");
    reveal_strlit("portability");
    reveal_strlit("note");
    assert("error"@[0] != "warning"@[0] && "error"@[0] != "style"@[0] && "error"@[0] != "information"@[0]);
    assert("error"@[0] != "performance"@[0] && "error"@[0] != "portability"@[0] && "error"@[0] != "note"@[0]);
    assert("warning"@[0] != "style"@[0] && "warning"@[0] != "information"@[0] && "warning"@[0] != "performance"@[0]);
    assert("warning"@[0] != "portability"@[0] && "warning"@[0] != "note"@[0]);
    assert("style"@[0] != "information"@[0] && "style"@[0] != "performance"@[0] && "style"@[0] != "portability"@[0]);
    assert("style"@[0] != "note"@[0] && "information"@[0] != "performance"@[0] && "information"@[0] != "portability"@[0]);
    assert("information"@[0] != "note"@[0] && "performance"@[1] != "portability"@[1] && "performance"@[0] != "note"@[0]);
    assert("portability"@[0] != "note"@[0]);
}

/// Whether the text from `e` on is an optional `[rule]` followed by white
/// space; `Some(rule)` where it is.
pub open spec fn rule_tail(s: Seq<char>, e: int) -> Option<Option<Seq<char>>> {
    let a = run_end(s, e, CharClass::Space);
    let b = run_end(s, a + 1, CharClass::Word);
    if a == s.len() {
        Some(None)
    } else if s[a] == '[' && b > a + 1 && b < s.len() && s[b] == ']' && run_end(
        s,
        b + 1,
        CharClass::Space,
    ) == s.len() {
        Some(Some(s.subrange(a + 1, b)))
    } else {
        None
    }
}

/// The shortest message end at or after `e`, with the rule found behind it.
pub open spec fn message_end(s: Seq<char>, e: int) -> (int, Option<Seq<char>>)
    decreases s.len() - e,
{
    if e >= s.len() {
        (s.len() as int, None)
    } else if rule_tail(s, e) is Some {
        (e, rule_tail(s, e)->0)
    } else {
        message_end(s, e + 1)
    }
}

/// The finding for line `s` when its file name ends at `p`.
pub open spec fn match_at(s: Seq<char>, p: int) -> Option<FindingView> {
    let d1 = run_end(s, p + 1, CharClass::Digit);
    let d2 = run_end(s, d1 + 1, CharClass::Digit);
    let w = run_end(s, d2 + 1, CharClass::Space);
    let se = run_end(s, w, CharClass::Word);
    let ms = run_end(s, se + 1, CharClass::Space);
    let mstart = if ms < s.len() { ms } else { ms - 1 };
    let (mend, rule) = message_end(s, mstart + 1);
    if 1 <= p < s.len() && s[p] == ':' && d1 > p + 1 && d1 < s.len() && s[d1] == ':' && d2 > d1
        + 1 && d2 < s.len() && s[d2] == ':' && se > w && se < s.len() && s[se] == ':' && (ms
        < s.len() || ms > se + 1) {
        Some(
            FindingView {
                tool: cppcheck_name(),
                rule_id: rule,
                severity: cppcheck_severity(s.subrange(w, se)),
                message: s.subrange(mstart, mend),
                file: s.subrange(0, p),
                line: Some(u32_or_zero(s.subrange(p + 1, d1))),
                column: None,
            },
        )
    } else {
        None
    }
}

/// The match with the shortest file name ending at or after `p`.
pub open spec fn first_match(s: Seq<char>, p: int) -> Option<FindingView>
    decreases s.len() - p,
{
    if p >= s.len() {
        None
    } else if match_at(s, p) is Some {
        match_at(s, p)
    } else {
        first_match(s, p + 1)
    }
}

/// The finding of one line, if the line matches.
pub open spec fn line_finding(line: Seq<char>) -> Option<FindingView> {
    first_match(line, 1)
}

/// End of the line that starts at `i`, without a carriage return that
/// precedes its line feed.
pub open spec fn line_content_end(t: Seq<char>, i: int) -> int {
    let nl = run_end(t, i, CharClass::LineChar);
    if nl < t.len() && nl > i && t[nl - 1] == '\r' {
        nl - 1
    } else {
        nl
    }
}

/// The findings of the lines of `t` from position `i` on.
pub open spec fn findings_from(t: Seq<char>, i: int) -> Seq<FindingView>
    decreases t.len() - i,
{
    if i < 0 || i >= t.len() {
        seq![]
    } else {
        let nl = run_end(t, i, CharClass::LineChar);
        let here = match line_finding(t.subrange(i, line_content_end(t, i))) {
            Some(f) => seq![f],
            None => seq![],
        };
        if i <= nl < t.len() {
            here + findings_from(t, nl + 1)
        } else {
            here
        }
    }
}

/// The findings of a whole text, line by line.
pub open spec fn text_findings(t: Seq<char>) -> Seq<FindingView> {
    findings_from(t, 0)
}

/// Maps a cppcheck severity token `v[from..to]` to the canonical severity.
pub fn map_severity(v: &Vec<char>, from: usize, to: usize) -> (r: Severity)
    requires
        from <= to <= v.len(),
    ensures
        r == cppcheck_severity(v@.subrange(from as int, to as int)),
{
    if sub_eq(v, from, to, "error") {
        Severity::Error
    } else if sub_eq(v, from, to, "warning") {
        Severity::Warning
    } else if sub_eq(v, from, to, "style") {
        Severity::Style
    } else if sub_eq(v, from, to, "information") {
        Severity::Info
    } else if sub_eq(v, from, to, "performance") {
        Severity::Warning
    } else if sub_eq(v, from, to, "portability") {
        Severity::Warning
    } else {
        Severity::Note
    }
}

fn rule_tail_exec(s: &Vec<char>, e: usize) -> (r: Option<Option<(usize, usize)>>)
    requires
        e <= s.len(),
    ensures
        match r {
            None => rule_tail(s@, e as int) is None,
            Some(None) => rule_tail(s@, e as int) == Some(None::<Seq<char>>),
            Some(Some((a, b))) => a <= b <= s.len() && rule_tail(s@, e as int) == Some(
                Some(s@.subrange(a as int, b as int)),
            ),
        },
{
    let a = scan_run(s, e, CharClass::Space);
    if a == s.len() {
        return Some(None);
    }
    let b = scan_run(s, a + 1, CharClass::Word);
    if s[a] == '[' && b > a + 1 && b < s.len() && s[b] == ']' && scan_run(
        s,
        b + 1,
        CharClass::Space,
    ) == s.len() {
        Some(Some((a + 1, b)))
    } else {
        None
    }
}

fn message_end_exec(s: &Vec<char>, e: usize) -> (r: (usize, Option<(usize, usize)>))
    requires
        e <= s.len(),
    ensures
        e <= r.0 <= s.len(),
        message_end(s@, e as int).0 == r.0,
        match r.1 {
            None => message_end(s@, e as int).1 == None::<Seq<char>>,
            Some((a, b)) => a <= b <= s.len() && message_end(s@, e as int).1 == Some(
                s@.subrange(a as int, b as int),
            ),
        },
{
    let mut i: usize = e;
    while i < s.len()
        invariant
            e <= i <= s.len(),
            message_end(s@, i as int) == message_end(s@, e as int),
        decreases s.len() - i,
    {
        match rule_tail_exec(s, i) {
            Some(rule) => {
                return (i, rule);
            },
            None => {},
        }
        i = i + 1;
    }
    (s.len(), None)
}

fn string_lit(s: &str) -> (r: String)
    ensures
        r@ == s@,
{
    String::from_str(s)
}

/// The finding for `line` when its file name ends at `p`.
fn match_at_exec(s: &Vec<char>, p: usize) -> (r: Option<Finding>)
    requires
        1 <= p < s.len(),
    ensures
        opt_finding_view(r) == match_at(s@, p as int),
{
    if s[p] != ':' {
        return None;
    }
    let d1 = scan_run(s, p + 1, CharClass::Digit);
    if !(d1 > p + 1 && d1 < s.len() && s[d1] == ':') {
        return None;
    }
    let d2 = scan_run(s, d1 + 1, CharClass::Digit);
    if !(d2 > d1 + 1 && d2 < s.len() && s[d2] == ':') {
        return None;
    }
    let w = scan_run(s, d2 + 1, CharClass::Space);
    let se = scan_run(s, w, CharClass::Word);
    if !(se > w && se < s.len() && s[se] == ':') {
        return None;
    }
    let ms = scan_run(s, se + 1, CharClass::Space);
    if !(ms < s.len() || ms > se + 1) {
        return None;
    }
    let mstart = if ms < s.len() {
        ms
    } else {
        ms - 1
    };
    let (mend, rule) = message_end_exec(s, mstart + 1);
    let rule_id = match rule {
        Some((a, b)) => Some(string_of(s, a, b)),
        None => None,
    };
    proof {
        lemma_run_end(s@, p + 1, CharClass::Digit);
        reveal_strlit("cppcheck");
        assert("cppcheck"@ =~= cppcheck_name());
    }
    let line = read_u32(s, p + 1, d1);
    let severity = map_severity(s, w, se);
    Some(
        Finding {
            tool: string_lit("cppcheck"),
            rule_id,
            severity,
            message: string_of(s, mstart, mend),
            location: Location { file: string_of(s, 0, p), line: Some(line), column: None },
        },
    )
}

/// The finding of one line, if the line matches the grammar.
pub fn parse_line(s: &Vec<char>) -> (r: Option<Finding>)
    ensures
        opt_finding_view(r) == line_finding(s@),
{
    let mut p: usize = 1;
    while p < s.len()
        invariant
            1 <= p,
            first_match(s@, p as int) == first_match(s@, 1),
        decreases s.len() - p,
    {
        let m = match_at_exec(s, p);
        if m.is_some() {
            return m;
        }
        p = p + 1;
    }
    None
}

/// The findings of every matching line of `t`, in order.
pub fn parse_text(t: &Vec<char>) -> (r: Vec<Finding>)
    ensures
        findings_view(r@) == text_findings(t@),
{
    let mut out: Vec<Finding> = Vec::new();
    let mut i: usize = 0;
    while i < t.len()
        invariant
            i <= t.len(),
            findings_view(out@) + findings_from(t@, i as int) == text_findings(t@),
        decreases t.len() - i,
    {
        let nl = scan_run(t, i, CharClass::LineChar);
        proof {
            lemma_run_end(t@, i as int, CharClass::LineChar);
        }
        let le = if nl < t.len() && nl > i && t[nl - 1] == '\r' {
            nl - 1
        } else {
            nl
        };
        let line = sub_vec(t, i, le);
        let ghost before = findings_view(out@);
        match parse_line(&line) {
            Some(f) => {
                out.push(f);
                proof {
                    assert(findings_view(out@) =~= before.push(f@));
                }
            },
            None => {},
        }
        proof {
            assert(findings_view(out@) + findings_from(t@, nl + 1) =~= before + findings_from(
                t@,
                i as int,
            ));
        }
        if nl >= t.len() {
            proof {
                assert(findings_from(t@, nl + 1) == Seq::<FindingView>::empty());
                assert(findings_view(out@) + findings_from(t@, nl + 1) =~= findings_view(out@));
            }
            return out;
        }
        i = nl + 1;
    }
    proof {
        assert(findings_view(out@) + findings_from(t@, i as int) =~= findings_view(out@));
    }
    out
}


/// The findings of a cppcheck run: those of stderr where stderr is not
/// empty, else those of stdout.
pub open spec fn run_findings(stderr: Seq<u8>, stdout: Seq<u8>) -> Seq<FindingView> {
    if stderr.len() > 0 {
        text_findings(utf8_lossy(stderr))
    } else {
        text_findings(utf8_lossy(stdout))
    }
}

/// Parses a cppcheck run; this never fails.
pub fn parse(run: &ToolRun) -> (r: Result<Vec<Finding>, ParseError>)
    ensures
        r is Ok,
        findings_view(r->Ok_0@) == run_findings(run.stderr@, run.stdout@),
{
    if run.stderr.len() > 0 {
        Ok(parse_text(&chars_of(decode_lossy(&run.stderr).as_str())))
    } else {
        Ok(parse_text(&chars_of(decode_lossy(&run.stdout).as_str())))
    }
}

} // verus!
