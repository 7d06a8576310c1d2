use sast::config::{Config, Defaults, OutputStream, ToolConfig};
use sast::model::ToolRun;
use sast::runner::{
    arguments_with_matches, build_args, interpolate_args, normalize_runs, partition_runs, replace_all, source_pattern_text,
    tool_arguments, RunError,
};

fn run(name: &str, out: &str, err: &str) -> ToolRun {
    ToolRun { tool_name: name.into(), exit_code: 0, stdout: out.as_bytes().to_vec(), stderr: err.as_bytes().to_vec() }
}

fn failure(name: &str) -> RunError {
    RunError { tool: name.into(), cause: "not found".into() }
}

fn tool(stream: OutputStream, args: &[&str], sources: Option<&str>) -> ToolConfig {
    ToolConfig {
        command: "x".into(),
        args: args.iter().map(|a| a.to_string()).collect(),
        output_stream: stream,
        native_extension: None,
        append_sources: sources.map(|s| s.to_string()),
    }
}

#[test]
fn placeholders_are_replaced_everywhere() {
    let args = vec![
        "-o".to_string(),
        "{output_dir}/scan_build".to_string(),
        "{project_path}:{project_path}".to_string(),
        "{output_dir".to_string(),
    ];
    let r = interpolate_args(&args, "/p", "/out");
    assert_eq!(r, vec!["-o", "/out/scan_build", "/p:/p", "{output_dir"]);
    assert_eq!(replace_all("aaa", "aa", "b"), "ba");
    assert_eq!(replace_all("", "x", "y"), "");
}

#[test]
fn stream_tools_get_the_project_path() {
    let t = tool(OutputStream::Stderr, &["--enable=all"], None);
    assert_eq!(build_args(&t, "/p", "/o", &vec![]), vec!["--enable=all", "/p"]);
    let t = tool(OutputStream::Filesystem, &["-o", "{output_dir}/x"], None);
    assert_eq!(build_args(&t, "/p", "/o", &vec![]), vec!["-o", "/o/x"]);
}

#[test]
fn glob_matches_are_appended() {
    let t = tool(OutputStream::Filesystem, &["-c"], Some("*.cpp"));
    let sources = vec!["/p/a.cpp".to_string(), "/p/b.cpp".to_string()];
    assert_eq!(build_args(&t, "/p", "/o", &sources), vec!["-c", "/p/a.cpp", "/p/b.cpp"]);
    let t = tool(OutputStream::Filesystem, &["-c"], None);
    assert_eq!(build_args(&t, "/p", "/o", &sources), vec!["-c"]);
}

#[test]
fn non_matching_glob_appends_nothing() {
    let t = tool(OutputStream::Stdout, &["--json"], Some("*.does-not-exist"));
    assert_eq!(tool_arguments(&t, "/nonexistent/dir", "/o"), vec!["--json", "/nonexistent/dir"]);
}

#[test]
fn one_launch_failure_is_isolated() {
    let results = vec![Ok(run("cppcheck", "", "")), Err(failure("semgrep")), Ok(run("scan-build", "", ""))];
    let set = partition_runs(results).unwrap();
    assert_eq!(set.runs.len(), 2);
    assert_eq!(set.failures.len(), 1);
    assert_eq!(set.failures[0].tool, "semgrep");
    assert_eq!(set.runs[0].tool_name, "cppcheck");
    assert_eq!(set.runs[1].tool_name, "scan-build");
}

#[test]
fn all_launch_failures_are_fatal() {
    let errs = partition_runs(vec![Err(failure("a")), Err(failure("b"))]).unwrap_err();
    assert_eq!(errs.len(), 2);
    assert_eq!(errs[1].tool, "b");
    assert!(partition_runs(Vec::new()).is_err());
}

#[test]
fn unreadable_output_drops_only_that_tool() {
    let runs = vec![
        run("cppcheck", "", "a.c:1:1: error: first\n"),
        run("semgrep", "garbage", ""),
        run("other", "text", ""),
    ];
    let (fs, bad) = normalize_runs(&runs);
    assert_eq!(fs.len(), 2);
    assert_eq!(fs[0].tool, "cppcheck");
    assert_eq!(fs[1].tool, "other");
    assert_eq!(bad, vec!["semgrep"]);
}

#[test]
fn builtin_configuration() {
    let c = Config::builtin_defaults();
    let cpp = c.tool("cppcheck").unwrap();
    assert_eq!(cpp.command, "cppcheck");
    assert_eq!(cpp.args, vec!["--enable=all", "--inconclusive", "--std=c++17", "--force"]);
    assert_eq!(cpp.output_stream, OutputStream::Stderr);
    let sb = c.tool("scan-build").unwrap();
    assert_eq!(sb.append_sources.as_deref(), Some("*.cpp"));
    assert_eq!(sb.output_stream, OutputStream::Filesystem);
    assert_eq!(c.tool("semgrep").unwrap().native_extension.as_deref(), Some("json"));
    assert!(c.tool("nonexistent_tool").is_none());
    assert_eq!(c.defaults.format.as_deref(), Some("native"));
    assert_eq!(c.defaults.tools.clone().unwrap(), vec!["cppcheck", "scan-build", "semgrep"]);
}

#[test]
fn merge_overrides_what_the_layer_sets() {
    let mut c = Config::builtin_defaults();
    let mut layer = Config::default();
    layer.defaults = Defaults { tools: Some(vec!["cppcheck".into()]), format: Some("json".into()), output: None };
    layer.insert_tool("cppcheck".into(), tool(OutputStream::Stdout, &["--quiet"], None));
    layer.insert_tool("clang-tidy".into(), tool(OutputStream::Stdout, &[], None));
    c.merge(layer);
    assert_eq!(c.defaults.tools.clone().unwrap(), vec!["cppcheck"]);
    assert_eq!(c.defaults.format.as_deref(), Some("json"));
    assert_eq!(c.defaults.output, None);
    assert_eq!(c.tool("cppcheck").unwrap().args, vec!["--quiet"]);
    assert!(c.tool("clang-tidy").is_some());
    assert!(c.tool("semgrep").is_some());
    assert_eq!(c.tools.len(), 4);
}

#[test]
fn requested_tools_are_validated() {
    let c = Config::builtin_defaults();
    assert!(c.validate_tools(&vec!["cppcheck".into(), "semgrep".into()]).is_ok());
    assert_eq!(c.validate_tools(&vec!["cppcheck".into(), "nonexistent_tool".into()]).unwrap_err(), "nonexistent_tool");
}

#[test]
fn settings_resolution() {
    let c = Config::default();
    assert_eq!(c.resolve_tools(None), vec!["cppcheck", "scan-build", "semgrep"]);
    assert_eq!(c.resolve_tools(Some(vec!["semgrep".into()])), vec!["semgrep"]);
    assert_eq!(c.resolve_format(None).unwrap(), sast::output::OutputFormat::Native);
    assert!(c.resolve_format(Some("xml".into())).is_err());
}

#[test]
fn matched_sources_are_sorted() {
    let v = vec!["/p/b.cpp".to_string(), "/p/a.cpp".to_string(), "/p/B.cpp".to_string(), "/p/a.cpp".to_string()];
    assert_eq!(sast::text::sort_texts(v), vec!["/p/B.cpp", "/p/a.cpp", "/p/a.cpp", "/p/b.cpp"]);
    assert!(sast::text::text_le("ab", "abc"));
    assert!(!sast::text::text_le("abc", "ab"));
    assert!(sast::text::sort_texts(Vec::new()).is_empty());
}

#[test]
fn glob_matches_in_any_order_are_appended_sorted() {
    let t = tool(OutputStream::Filesystem, &["-c"], Some("*.cpp"));
    let matches = vec!["/proj/b.cpp".to_string(), "/proj/a.cpp".to_string()];
    assert_eq!(arguments_with_matches(&t, "/proj", "/o", matches), vec!["-c", "/proj/a.cpp", "/proj/b.cpp"]);
}

#[test]
fn source_pattern_joins_with_a_slash() {
    assert_eq!(source_pattern_text("/proj", "*.cpp"), "/proj/*.cpp");
    assert_eq!(source_pattern_text("", "src/*.c"), "/src/*.c");
}
