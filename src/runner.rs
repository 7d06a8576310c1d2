//! What happens around the launch of the tools: the argument list of each
//! launch, the partition of launch outcomes, the validation of the requested
//! tools and the normalisation of every successful run.
use vstd::prelude::*;
use crate::config::{Config, OutputStream, ToolConfig, ToolConfigView, tool_lookup};
use crate::text::texts;
use crate::model::{Finding, FindingView, ToolRun, findings_view};
use crate::text::{chars_of, push_str, sort_texts, sorted, string_of, sub_eq};
use crate::tools::{output_findings, parse_output};

verus! {

/// `s` with every occurrence of `pat` replaced by `rep`, occurrences being
/// taken from left to right without overlap.
pub open spec fn replaced(s: Seq<char>, pat: Seq<char>, rep: Seq<char>) -> Seq<char>
    decreases s.len(),
{
    if pat.len() == 0 || s.len() < pat.len() {
        s
    } else if s.subrange(0, pat.len() as int) == pat {
        rep + replaced(s.subrange(pat.len() as int, s.len() as int), pat, rep)
    } else {
        seq![s[0]] + replaced(s.subrange(1, s.len() as int), pat, rep)
    }
}

/// Replaces every occurrence of `pat` in `s` by `rep`.
pub fn replace_all(s: &str, pat: &str, rep: &str) -> (r: String)
    requires
        pat@.len() > 0,
    ensures
        r@ == replaced(s@, pat@, rep@),
{
    let cs = chars_of(s);
    let pn = chars_of(pat).len();
    let mut out: Vec<char> = Vec::new();
    let mut i: usize = 0;
    assert(cs@.subrange(0, cs@.len() as int) =~= cs@);
    assert(out@ + replaced(cs@, pat@, rep@) =~= replaced(cs@, pat@, rep@));
    while i < cs.len()
        invariant
            i <= cs.len(),
            pn == pat@.len(),
            pn > 0,
            out@ + replaced(cs@.subrange(i as int, cs@.len() as int), pat@, rep@) == replaced(
                s@,
                pat@,
                rep@,
            ),
            cs@ == s@,
        decreases cs.len() - i,
    {
        let ghost rest = cs@.subrange(i as int, cs@.len() as int);
        if cs.len() - i >= pn && sub_eq(&cs, i, i + pn, pat) {
            assert(rest.subrange(0, pn as int) =~= cs@.subrange(i as int, i + pn));
            assert(rest.subrange(pn as int, rest.len() as int) =~= cs@.subrange(
                i + pn,
                cs@.len() as int,
            ));
            let ghost before = out@;
            push_str(&mut out, rep);
            assert(out@ + replaced(cs@.subrange(i + pn, cs@.len() as int), pat@, rep@) =~= before
                + replaced(rest, pat@, rep@));
            i = i + pn;
        } else {
            if cs.len() - i >= pn {
                assert(rest.subrange(0, pn as int) =~= cs@.subrange(i as int, i + pn));
            }
            assert(rest.subrange(1, rest.len() as int) =~= cs@.subrange(i + 1, cs@.len() as int));
            let ghost before = out@;
            out.push(cs[i]);
            assert(out@ + replaced(cs@.subrange(i + 1, cs@.len() as int), pat@, rep@) =~= before
                + replaced(rest, pat@, rep@));
            i = i + 1;
        }
    }
    assert(cs@.subrange(i as int, cs@.len() as int) =~= Seq::<char>::empty());
    assert(out@ =~= replaced(s@, pat@, rep@));
    let n = out.len();
    assert(out@.subrange(0, n as int) =~= out@);
    string_of(&out, 0, n)
}

/// One argument template with both placeholders filled in.
pub open spec fn interpolated(arg: Seq<char>, project_path: Seq<char>, output_dir: Seq<char>) -> Seq<char> {
    replaced(
        replaced(arg, "{output_dir}"@, output_dir),
        "{project_path}"@,
        project_path,
    )
}

/// Fills the placeholders of each argument template, in order.
pub fn interpolate_args(args: &Vec<String>, project_path: &str, output_dir: &str) -> (r: Vec<String>)
    ensures
        r@.len() == args@.len(),
        forall|i: int| 0 <= i < args@.len() ==> #[trigger] r@[i]@ == interpolated(
            args@[i]@,
            project_path@,
            output_dir@,
        ),
{
    proof {
        reveal_strlit("{output_dir}");
        reveal_strlit("{project_path}");
    }
    let mut r: Vec<String> = Vec::new();
    let mut i: usize = 0;
    while i < args.len()
        invariant
            i <= args@.len(),
            r@.len() == i,
            "{output_dir}"@.len() > 0,
            "{project_path}"@.len() > 0,
            forall|j: int| 0 <= j < i ==> #[trigger] r@[j]@ == interpolated(
                args@[j]@,
                project_path@,
                output_dir@,
            ),
        decreases args.len() - i,
    {
        let a = replace_all(args[i].as_str(), "{output_dir}", output_dir);
        let b = replace_all(a.as_str(), "{project_path}", project_path);
        r.push(b);
        i = i + 1;
    }
    r
}

/// The argument list of one launch, given the paths that the tool's source
/// pattern matched: the filled-in templates, then the project path for a
/// tool that writes to a stream, then the matched paths.
pub open spec fn launch_args(
    tool: ToolConfigView,
    project_path: Seq<char>,
    output_dir: Seq<char>,
    sources: Seq<Seq<char>>,
) -> Seq<Seq<char>> {
    let templated = tool.args.map_values(|a: Seq<char>| interpolated(a, project_path, output_dir));
    let positional = if tool.output_stream == OutputStream::Filesystem {
        seq![]
    } else {
        seq![project_path]
    };
    let appended = if tool.append_sources is Some {
        sources
    } else {
        seq![]
    };
    templated + positional + appended
}

/// Builds the argument list of one launch from the paths that the tool's
/// source pattern matched.
pub fn build_args(tool: &ToolConfig, project_path: &str, output_dir: &str, sources: &Vec<String>) -> (r: Vec<String>)
    ensures
        texts(r@) == launch_args(tool@, project_path@, output_dir@, texts(sources@)),
{
    let mut r = interpolate_args(&tool.args, project_path, output_dir);
    assert(texts(r@) =~= tool@.args.map_values(
        |a: Seq<char>| interpolated(a, project_path@, output_dir@),
    ));
    let ghost templated = texts(r@);
    match tool.output_stream {
        OutputStream::Filesystem => {},
        _ => {
            r.push(String::from_str(project_path));
        },
    }
    let ghost with_positional = texts(r@);
    assert(with_positional =~= templated + if tool.output_stream == OutputStream::Filesystem {
        seq![]
    } else {
        seq![project_path@]
    });
    if tool.append_sources.is_some() {
        let mut i: usize = 0;
        while i < sources.len()
            invariant
                i <= sources@.len(),
                texts(r@) =~= with_positional + texts(sources@).subrange(0, i as int),
            decreases sources.len() - i,
        {
            let ghost before = texts(r@);
            let c = sources[i].clone();
            r.push(c);
            assert(texts(r@) =~= before.push(sources@[i as int]@));
            assert(texts(sources@).subrange(0, i + 1) =~= texts(sources@).subrange(0, i as int).push(
                sources@[i as int]@,
            ));
            i = i + 1;
        }
        assert(texts(sources@).subrange(0, i as int) =~= texts(sources@));
    }
    assert(texts(r@) =~= launch_args(tool@, project_path@, output_dir@, texts(sources@)));
    r
}

/// Relies on `glob::glob`: the paths that match `pattern` on the file
/// system, converted to text; none where the pattern is invalid. What the
/// file system holds is not known here, so nothing is stated of them.
#[verifier::external_body]
fn glob_paths(pattern: &str) -> (r: Vec<String>) {
    match glob::glob(pattern) {
        Ok(paths) => paths.flatten().map(|p| p.to_string_lossy().into_owned()).collect(),
        Err(_) => Vec::new(),
    }
}

/// The full pattern of a tool's sources: the project path, a slash, and the
/// tool's pattern.
pub open spec fn source_pattern(project_path: Seq<char>, pattern: Seq<char>) -> Seq<char> {
    project_path + seq!['/'] + pattern
}

/// Builds the glob pattern of a tool's sources under the project path.
pub fn source_pattern_text(project_path: &str, pattern: &str) -> (r: String)
    ensures
        r@ == source_pattern(project_path@, pattern@),
{
    proof {
        reveal_strlit("/");
    }
    let mut full: Vec<char> = Vec::new();
    push_str(&mut full, project_path);
    push_str(&mut full, "/");
    push_str(&mut full, pattern);
    let n = full.len();
    assert(full@.subrange(0, n as int) =~= source_pattern(project_path@, pattern@));
    string_of(&full, 0, n)
}

/// Puts the paths that a source pattern matched in lexicographic order: the
/// result is a sorted permutation of `matches`.
pub fn order_sources(matches: Vec<String>) -> (r: Vec<String>)
    ensures
        texts(r@).to_multiset() == texts(matches@).to_multiset(),
        sorted(texts(r@)),
{
    sort_texts(matches)
}

/// The argument list of one launch, given the paths that the tool's source
/// pattern matched, in any order: they are appended sorted.
pub fn arguments_with_matches(
    tool: &ToolConfig,
    project_path: &str,
    output_dir: &str,
    matches: Vec<String>,
) -> (r: Vec<String>)
    ensures
        exists|sources: Seq<Seq<char>>| #[trigger]
            launch_args(tool@, project_path@, output_dir@, sources) == texts(r@) && sorted(sources)
                && sources.to_multiset() == texts(matches@).to_multiset(),
{
    let sources = order_sources(matches);
    let r = build_args(tool, project_path, output_dir, &sources);
    assert(launch_args(tool@, project_path@, output_dir@, texts(sources@)) == texts(r@));
    r
}

/// The argument list of one launch, with the tool's source pattern,
/// `project_path/pattern`, expanded on the file system. What the file
/// system holds is not known here: whatever the expansion matched is
/// appended as [`arguments_with_matches`] says, sorted; a tool without a
/// pattern gets no sources.
pub fn tool_arguments(tool: &ToolConfig, project_path: &str, output_dir: &str) -> (r: Vec<String>)
    ensures
        exists|sources: Seq<Seq<char>>| #[trigger]
            launch_args(tool@, project_path@, output_dir@, sources) == texts(r@) && sorted(sources),
        tool.append_sources is None ==> texts(r@) == launch_args(
            tool@,
            project_path@,
            output_dir@,
            seq![],
        ),
{
    let matches = match &tool.append_sources {
        Some(pattern) => {
            let full = source_pattern_text(project_path, pattern.as_str());
            glob_paths(full.as_str())
        },
        None => Vec::new(),
    };
    arguments_with_matches(tool, project_path, output_dir, matches)
}


/// A tool whose process could not be launched.
#[derive(Debug)]
pub struct RunError {
    pub tool: String,
    pub cause: String,
}

/// The launch outcomes of a set of requested tools, partitioned.
#[derive(Debug)]
pub struct RunSet {
    /// The runs of the tools that launched, in request order.
    pub runs: Vec<ToolRun>,
    /// The tools that did not launch, in request order.
    pub failures: Vec<RunError>,
}

/// The runs among the outcomes, in order.
pub open spec fn successes(rs: Seq<Result<ToolRun, RunError>>) -> Seq<ToolRun>
    decreases rs.len(),
{
    if rs.len() == 0 {
        seq![]
    } else {
        match rs.last() {
            Ok(r) => successes(rs.drop_last()).push(r),
            Err(_) => successes(rs.drop_last()),
        }
    }
}

/// The launch failures among the outcomes, in order.
pub open spec fn failures(rs: Seq<Result<ToolRun, RunError>>) -> Seq<RunError>
    decreases rs.len(),
{
    if rs.len() == 0 {
        seq![]
    } else {
        match rs.last() {
            Ok(_) => failures(rs.drop_last()),
            Err(e) => failures(rs.drop_last()).push(e),
        }
    }
}

/// Whether no requested tool launched; the operation then has nothing to
/// report and fails.
pub open spec fn all_failed(rs: Seq<Result<ToolRun, RunError>>) -> bool {
    successes(rs).len() == 0
}

/// Partitions launch outcomes into runs and failures; fails, with every
/// failure, where no tool launched.
pub fn partition_runs(results: Vec<Result<ToolRun, RunError>>) -> (r: Result<RunSet, Vec<RunError>>)
    ensures
        r is Err <==> all_failed(results@),
        r matches Ok(s) ==> s.runs@ == successes(results@) && s.failures@ == failures(results@),
        r matches Err(f) ==> f@ == failures(results@),
{
    let ghost all = results@;
    let mut rest = results;
    let mut runs: Vec<ToolRun> = Vec::new();
    let mut failed: Vec<RunError> = Vec::new();
    let mut taken: usize = 0;
    assert(all.len() == rest.len());
    while rest.len() > 0
        invariant
            all.len() <= usize::MAX,
            taken + rest@.len() == all.len(),
            rest@ == all.subrange(taken as int, all.len() as int),
            runs@ == successes(all.subrange(0, taken as int)),
            failed@ == failures(all.subrange(0, taken as int)),
        decreases rest@.len(),
    {
        let x = rest.remove(0);
        proof {
            let p = all.subrange(0, taken + 1);
            assert(p.drop_last() =~= all.subrange(0, taken as int));
            assert(p.last() == all[taken as int]);
            assert(rest@ =~= all.subrange(taken + 1, all.len() as int));
        }
        match x {
            Ok(run) => runs.push(run),
            Err(e) => failed.push(e),
        }
        taken = taken + 1;
    }
    assert(all.subrange(0, taken as int) =~= all);
    if runs.len() == 0 {
        Err(failed)
    } else {
        Ok(RunSet { runs, failures: failed })
    }
}

/// Every outcome is either a run or a failure.
pub proof fn lemma_partition_sizes(rs: Seq<Result<ToolRun, RunError>>)
    ensures
        successes(rs).len() + failures(rs).len() == rs.len(),
    decreases rs.len(),
{
    if rs.len() > 0 {
        lemma_partition_sizes(rs.drop_last());
    }
}

proof fn lemma_no_failures(rs: Seq<Result<ToolRun, RunError>>)
    requires
        forall|j: int| 0 <= j < rs.len() ==> #[trigger] rs[j] is Ok,
    ensures
        failures(rs).len() == 0,
    decreases rs.len(),
{
    if rs.len() > 0 {
        let d = rs.drop_last();
        assert forall|j: int| 0 <= j < d.len() implies #[trigger] d[j] is Ok by {
            assert(d[j] == rs[j]);
        }
        lemma_no_failures(d);
        assert(rs.last() == rs[rs.len() - 1]);
    }
}

/// Where exactly one of at least two requested tools fails to launch, the
/// other runs all remain, the operation goes on, and the one failure, which
/// names that tool, is the only one reported.
pub proof fn lemma_one_launch_failure(rs: Seq<Result<ToolRun, RunError>>, k: int)
    requires
        rs.len() >= 2,
        0 <= k < rs.len(),
        rs[k] is Err,
        forall|j: int| 0 <= j < rs.len() && j != k ==> #[trigger] rs[j] is Ok,
    ensures
        successes(rs).len() == rs.len() - 1,
        !all_failed(rs),
        failures(rs) == seq![rs[k]->Err_0],
    decreases rs.len(),
{
    lemma_partition_sizes(rs);
    let d = rs.drop_last();
    if k == rs.len() - 1 {
        assert forall|j: int| 0 <= j < d.len() implies #[trigger] d[j] is Ok by {
            assert(d[j] == rs[j]);
        }
        lemma_no_failures(d);
        assert(failures(d) =~= Seq::<RunError>::empty());
        assert(failures(rs) =~= seq![rs[k]->Err_0]);
    } else {
        assert(rs.last() == rs[rs.len() - 1]);
        if d.len() >= 2 {
            assert forall|j: int| 0 <= j < d.len() && j != k implies #[trigger] d[j] is Ok by {
                assert(d[j] == rs[j]);
            }
            assert(d[k] == rs[k]);
            lemma_one_launch_failure(d, k);
        } else {
            assert(d.len() == 1 && k == 0);
            assert(d.drop_last().len() == 0);
            assert(d.last() == rs[0]);
            assert(failures(d) =~= seq![rs[k]->Err_0]);
        }
    }
}

/// Where every requested tool fails to launch, the operation fails and
/// every failure is reported.
pub proof fn lemma_all_launches_fail(rs: Seq<Result<ToolRun, RunError>>)
    requires
        forall|j: int| 0 <= j < rs.len() ==> #[trigger] rs[j] is Err,
    ensures
        all_failed(rs),
        failures(rs).len() == rs.len(),
    decreases rs.len(),
{
    lemma_partition_sizes(rs);
    if rs.len() > 0 {
        let d = rs.drop_last();
        assert forall|j: int| 0 <= j < d.len() implies #[trigger] d[j] is Err by {
            assert(d[j] == rs[j]);
        }
        lemma_all_launches_fail(d);
        assert(rs.last() == rs[rs.len() - 1]);
    }
}

/// The findings of every run, in run order, leaving out the runs whose
/// output could not be read.
pub open spec fn normalized(runs: Seq<ToolRun>) -> Seq<FindingView>
    decreases runs.len(),
{
    if runs.len() == 0 {
        seq![]
    } else {
        let r = runs.last();
        match output_findings(r.tool_name@, r) {
            Ok(fs) => normalized(runs.drop_last()) + fs,
            Err(_) => normalized(runs.drop_last()),
        }
    }
}

/// The names of the runs whose output could not be read, in run order.
pub open spec fn unreadable(runs: Seq<ToolRun>) -> Seq<Seq<char>>
    decreases runs.len(),
{
    if runs.len() == 0 {
        seq![]
    } else {
        let r = runs.last();
        match output_findings(r.tool_name@, r) {
            Ok(_) => unreadable(runs.drop_last()),
            Err(_) => unreadable(runs.drop_last()).push(r.tool_name@),
        }
    }
}

/// Normalises every run; a run whose output cannot be read contributes no
/// findings and is named in the second list.
pub fn normalize_runs(runs: &Vec<ToolRun>) -> (r: (Vec<Finding>, Vec<String>))
    ensures
        findings_view(r.0@) == normalized(runs@),
        texts(r.1@) == unreadable(runs@),
{
    let mut all: Vec<Finding> = Vec::new();
    let mut bad: Vec<String> = Vec::new();
    let mut i: usize = 0;
    while i < runs.len()
        invariant
            i <= runs@.len(),
            findings_view(all@) == normalized(runs@.subrange(0, i as int)),
            texts(bad@) == unreadable(runs@.subrange(0, i as int)),
        decreases runs.len() - i,
    {
        let ghost p = runs@.subrange(0, i + 1);
        proof {
            assert(p.drop_last() =~= runs@.subrange(0, i as int));
            assert(p.last() == runs@[i as int]);
        }
        let ghost before = findings_view(all@);
        let ghost bad_before = texts(bad@);
        match parse_output(runs[i].tool_name.as_str(), &runs[i]) {
            Ok(mut fs) => {
                let ghost added = findings_view(fs@);
                all.append(&mut fs);
                assert(findings_view(all@) =~= before + added);
                assert(texts(bad@) =~= bad_before);
            },
            Err(_) => {
                bad.push(runs[i].tool_name.clone());
                assert(texts(bad@) =~= bad_before.push(runs@[i as int].tool_name@));
            },
        }
        i = i + 1;
    }
    assert(runs@.subrange(0, i as int) =~= runs@);
    (all, bad)
}

} // verus!
