//! The scan-build (clang) diagnostic grammar.
//!
//! Every occurrence of `<file>.<ext>:<line>:<col>: <kind>: <message>` in the
//! text yields a finding, where the file holds no colon or white space and
//! the kind is `warning`, `error` or `note`. The text is searched from left
//! to right; each search resumes where the previous occurrence ended, and the
//! message runs to the end of its line.
use vstd::prelude::*;
use crate::model::{Finding, FindingView, Location, ParseError, Severity, ToolRun, findings_view};
use crate::text::{
    CharClass,
    chars_of,
    decode_lossy,
    lemma_run_end,
    read_u32,
    run_end,
    scan_run,
    string_of,
    sub_eq,
    u32_or_zero,
    utf8_lossy,
    run_start,
    scan_run_back,
};

verus! {

pub open spec fn scan_build_name() -> Seq<char> {
    seq!['s', 'c', 'a', 'n', '-', 'b', 'u', 'i', 'l', 'd']
}

/// Position of the last character in `t[lo..hi]` that is not a line feed,
/// or -1.
pub open spec fn last_non_newline(t: Seq<char>, lo: int, hi: int) -> int
    decreases hi - lo,
{
    if hi <= lo {
        -1
    } else if t[hi - 1] != '\n' {
        hi - 1
    } else {
        last_non_newline(t, lo, hi - 1)
    }
}

/// The diagnostic kind that starts at `w`, with the position after it.
pub open spec fn kind_at(t: Seq<char>, w: int) -> Option<(Severity, int)> {
    if w + 7 <= t.len() && t.subrange(w, w + 7) == "warning"@ {
        Some((Severity::Warning, w + 7))
    } else if w + 5 <= t.len() && t.subrange(w, w + 5) == "error"@ {
        Some((Severity::Error, w + 5))
    } else if w + 4 <= t.len() && t.subrange(w, w + 4) == "note"@ {
        Some((Severity::Note, w + 4))
    } else {
        None
    }
}

/// scan-build's vocabulary is mapped in full: a diagnostic kind is one of
/// `error`, `warning` and `note`, and each stands for exactly one canonical
/// severity.
pub proof fn lemma_scan_build_vocabulary(t: Seq<char>, w: int)
    ensures
        kind_at(t, w) matches Some((s, e)) ==> ((s == Severity::Error && t.subrange(w, e) == "error"@)
            || (s == Severity::Warning && t.subrange(w, e) == "warning"@) || (s == Severity::Note
            && t.subrange(w, e) == "note"@)),
{
}

/// Every diagnostic found in a text is an error, a warning or a note.
pub proof fn lemma_scan_build_severities(t: Seq<char>, st: int)
    ensures
        forall|i: int| 0 <= i < diagnostics_from(t, st).len() ==> {
            let s = #[trigger] diagnostics_from(t, st)[i].severity;
            s == Severity::Error || s == Severity::Warning || s == Severity::Note
        },
    decreases t.len() - st,
{
    if 0 <= st < t.len() {
        if diagnostic_at(t, st) is Some {
            let (f, e) = diagnostic_at(t, st)->0;
            if st < e <= t.len() {
                lemma_scan_build_severities(t, e);
                let rest = diagnostics_from(t, e);
                assert forall|i: int| 0 <= i < diagnostics_from(t, st).len() implies {
                    let s = #[trigger] diagnostics_from(t, st)[i].severity;
                    s == Severity::Error || s == Severity::Warning || s == Severity::Note
                } by {
                    if i > 0 {
                        assert(diagnostics_from(t, st)[i] == rest[i - 1]);
                    }
                }
            }
        } else {
            lemma_scan_build_severities(t, st + 1);
        }
    }
}

/// The occurrence that starts at `st`, with the position where it ends.
pub open spec fn diagnostic_at(t: Seq<char>, st: int) -> Option<(FindingView, int)> {
    let fe = run_end(t, st, CharClass::PathChar);
    let ws = run_start(t, st, fe, CharClass::Word);
    let d1 = run_end(t, fe + 1, CharClass::Digit);
    let d2 = run_end(t, d1 + 1, CharClass::Digit);
    let w = run_end(t, d2 + 1, CharClass::Space);
    if fe < t.len() && t[fe] == ':' && ws < fe && ws - 1 > st && t[ws - 1] == '.' && d1 > fe + 1
        && d1 < t.len() && t[d1] == ':' && d2 > d1 + 1 && d2 < t.len() && t[d2] == ':' && kind_at(
        t,
        w,
    ) is Some {
        let (sev, ke) = kind_at(t, w)->0;
        let q = run_end(t, ke + 1, CharClass::Space);
        let m = if q < t.len() {
            q
        } else {
            last_non_newline(t, ke + 1, t.len() as int)
        };
        let me = run_end(t, m, CharClass::LineChar);
        if ke < t.len() && t[ke] == ':' && m >= ke + 1 {
            Some(
                (
                    FindingView {
                        tool: scan_build_name(),
                        rule_id: None,
                        severity: sev,
                        message: t.subrange(m, me),
                        file: t.subrange(st, fe),
                        line: Some(u32_or_zero(t.subrange(fe + 1, d1))),
                        column: Some(u32_or_zero(t.subrange(d1 + 1, d2))),
                    },
                    me,
                ),
            )
        } else {
            None
        }
    } else {
        None
    }
}

/// The occurrences in `t` from position `st` on.
pub open spec fn diagnostics_from(t: Seq<char>, st: int) -> Seq<FindingView>
    decreases t.len() - st,
{
    if st < 0 || st >= t.len() {
        seq![]
    } else if diagnostic_at(t, st) is Some {
        let (f, e) = diagnostic_at(t, st)->0;
        if st < e <= t.len() {
            seq![f] + diagnostics_from(t, e)
        } else {
            seq![f]
        }
    } else {
        diagnostics_from(t, st + 1)
    }
}

/// The occurrences in a whole text.
pub open spec fn text_diagnostics(t: Seq<char>) -> Seq<FindingView> {
    diagnostics_from(t, 0)
}

/// The findings of a scan-build run, read from its stderr.
pub open spec fn run_findings(stderr: Seq<u8>) -> Seq<FindingView> {
    text_diagnostics(utf8_lossy(stderr))
}

fn last_non_newline_exec(t: &Vec<char>, lo: usize, hi: usize) -> (r: Option<usize>)
    requires
        lo <= hi <= t.len(),
    ensures
        match r {
            Some(m) => m as int == last_non_newline(t@, lo as int, hi as int) && lo <= m < hi && t@[m as int] != '\n',
            None => last_non_newline(t@, lo as int, hi as int) == -1,
        },
{
    let mut j: usize = hi;
    while lo < j
        invariant
            lo <= j <= hi <= t.len(),
            last_non_newline(t@, lo as int, j as int) == last_non_newline(t@, lo as int, hi as int),
        decreases j,
    {
        if t[j - 1] != '\n' {
            return Some(j - 1);
        }
        j = j - 1;
    }
    None
}

fn kind_at_exec(t: &Vec<char>, w: usize) -> (r: Option<(Severity, usize)>)
    requires
        w <= t.len(),
    ensures
        match r {
            Some((s, e)) => kind_at(t@, w as int) == Some((s, e as int)) && e <= t.len(),
            None => kind_at(t@, w as int) is None,
        },
{
    let n = t.len();
    if n - w >= 7 && sub_eq(t, w, w + 7, "warning") {
        Some((Severity::Warning, w + 7))
    } else if n - w >= 5 && sub_eq(t, w, w + 5, "error") {
        Some((Severity::Error, w + 5))
    } else if n - w >= 4 && sub_eq(t, w, w + 4, "note") {
        Some((Severity::Note, w + 4))
    } else {
        None
    }
}

fn diagnostic_at_exec(t: &Vec<char>, st: usize) -> (r: Option<(Finding, usize)>)
    requires
        st < t.len(),
    ensures
        match r {
            Some((f, e)) => diagnostic_at(t@, st as int) == Some((f@, e as int)) && st < e
                <= t.len(),
            None => diagnostic_at(t@, st as int) is None,
        },
{
    let n = t.len();
    let fe = scan_run(t, st, CharClass::PathChar);
    if !(fe < n && t[fe] == ':') {
        return None;
    }
    let ws = scan_run_back(t, st, fe, CharClass::Word);
    if !(ws < fe && ws > st + 1 && t[ws - 1] == '.') {
        return None;
    }
    let d1 = scan_run(t, fe + 1, CharClass::Digit);
    if !(d1 > fe + 1 && d1 < n && t[d1] == ':') {
        return None;
    }
    let d2 = scan_run(t, d1 + 1, CharClass::Digit);
    if !(d2 > d1 + 1 && d2 < n && t[d2] == ':') {
        return None;
    }
    let w = scan_run(t, d2 + 1, CharClass::Space);
    let (sev, ke) = match kind_at_exec(t, w) {
        Some(k) => k,
        None => {
            return None;
        },
    };
    if !(ke < n && t[ke] == ':') {
        return None;
    }
    let q = scan_run(t, ke + 1, CharClass::Space);
    let m = if q < n {
        q
    } else {
        match last_non_newline_exec(t, ke + 1, n) {
            Some(m) => m,
            None => {
                return None;
            },
        }
    };
    let me = scan_run(t, m, CharClass::LineChar);
    proof {
        lemma_run_end(t@, ke + 1, CharClass::Space);
        lemma_run_end(t@, fe + 1, CharClass::Digit);
        lemma_run_end(t@, d1 + 1, CharClass::Digit);
        lemma_run_end(t@, m as int, CharClass::LineChar);
        reveal_strlit("scan-build");
        assert("scan-build"@ =~= scan_build_name());
    }
    if me <= m {
        // The message holds at least the character at `m`.
        proof {
            assert(t@[m as int] != '\n');
        }
        return None;
    }
    let line = read_u32(t, fe + 1, d1);
    let column = read_u32(t, d1 + 1, d2);
    let f = Finding {
        tool: String::from_str("scan-build"),
        rule_id: None,
        severity: sev,
        message: string_of(t, m, me),
        location: Location { file: string_of(t, st, fe), line: Some(line), column: Some(column) },
    };
    Some((f, me))
}

/// The findings of every diagnostic in `t`, in order.
pub fn parse_text(t: &Vec<char>) -> (r: Vec<Finding>)
    ensures
        findings_view(r@) == text_diagnostics(t@),
{
    let mut out: Vec<Finding> = Vec::new();
    let mut st: usize = 0;
    while st < t.len()
        invariant
            st <= t.len(),
            findings_view(out@) + diagnostics_from(t@, st as int) == text_diagnostics(t@),
        decreases t.len() - st,
    {
        match diagnostic_at_exec(t, st) {
            Some((f, e)) => {
                let ghost before = findings_view(out@);
                out.push(f);
                proof {
                    assert(findings_view(out@) =~= before.push(f@));
                    assert(findings_view(out@) + diagnostics_from(t@, e as int) =~= before
                        + diagnostics_from(t@, st as int));
                }
                st = e;
            },
            None => {
                st = st + 1;
            },
        }
    }
    proof {
        assert(findings_view(out@) + diagnostics_from(t@, st as int) =~= findings_view(out@));
    }
    out
}

/// Parses a scan-build run; this never fails.
pub fn parse(run: &ToolRun) -> (r: Result<Vec<Finding>, ParseError>)
    ensures
        r is Ok,
        findings_view(r->Ok_0@) == run_findings(run.stderr@),
{
    Ok(parse_text(&chars_of(decode_lossy(&run.stderr).as_str())))
}

} // verus!
