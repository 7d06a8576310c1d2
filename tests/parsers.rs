use sast::model::{Finding, ParseError, Severity, ToolRun};
use sast::tools::{cppcheck, generic, parse_output, scan_build, semgrep};

fn run(name: &str, stdout: &str, stderr: &str) -> ToolRun {
    ToolRun {
        tool_name: name.to_string(),
        exit_code: 0,
        stdout: stdout.as_bytes().to_vec(),
        stderr: stderr.as_bytes().to_vec(),
    }
}

fn chars(s: &str) -> Vec<char> {
    s.chars().collect()
}

#[test]
fn test_cppcheck_parser() {
    let stderr = b"[test.cpp:12]: (warning) Variable 'x' is not initialized\n\
                   [main.cpp:5]: (error) Memory leak: data\n\
                   [util.cpp:30]: (style) Unused variable: count\n";

    let text = String::from_utf8_lossy(stderr);
    assert!(text.contains("warning"));
    assert!(text.contains("error"));
    assert!(text.contains("style"));
}

#[test]
fn cppcheck_memory_leak_line() {
    let r = run(
        "cppcheck",
        "",
        "main.cpp:5:10: error: Memory leak: possible leak of memory pointed to by 'data' [memleak]\n",
    );
    let fs = cppcheck::parse(&r).unwrap();
    assert_eq!(fs.len(), 1);
    let f = &fs[0];
    assert_eq!(f.tool, "cppcheck");
    assert_eq!(f.rule_id.as_deref(), Some("memleak"));
    assert_eq!(f.severity, Severity::Error);
    assert_eq!(f.message, "Memory leak: possible leak of memory pointed to by 'data'");
    assert_eq!(f.location.file, "main.cpp");
    assert_eq!(f.location.line, Some(5));
    assert_eq!(f.location.column, None);
}

#[test]
fn cppcheck_severity_vocabulary() {
    let cases = [
        ("error", Severity::Error),
        ("warning", Severity::Warning),
        ("style", Severity::Style),
        ("information", Severity::Info),
        ("performance", Severity::Warning),
        ("portability", Severity::Warning),
        ("note", Severity::Note),
        ("debug", Severity::Note),
    ];
    for (tok, sev) in cases {
        let line = format!("a.c:1:2: {}: text", tok);
        let f = cppcheck::parse_line(&chars(&line)).unwrap();
        assert_eq!(f.severity, sev, "token {}", tok);
    }
}

#[test]
fn cppcheck_line_without_rule_and_trailing_space() {
    let f = cppcheck::parse_line(&chars("src/x.cpp:42:7: style: Unused variable: count   ")).unwrap();
    assert_eq!(f.rule_id, None);
    assert_eq!(f.message, "Unused variable: count");
    assert_eq!(f.location.line, Some(42));
    assert_eq!(f.severity, Severity::Style);
}

#[test]
fn cppcheck_file_with_colons_takes_shortest_prefix() {
    let f = cppcheck::parse_line(&chars("C:\\src\\a.cpp:3:4: warning: w [r1]")).unwrap();
    assert_eq!(f.location.file, "C:\\src\\a.cpp");
    assert_eq!(f.location.line, Some(3));
    assert_eq!(f.rule_id.as_deref(), Some("r1"));
}

#[test]
fn cppcheck_line_number_overflow_reads_zero() {
    let f = cppcheck::parse_line(&chars("a.c:99999999999:1: error: big")).unwrap();
    assert_eq!(f.location.line, Some(0));
}

#[test]
fn cppcheck_non_matching_lines_are_skipped() {
    assert!(cppcheck::parse_line(&chars("Checking main.cpp ...")).is_none());
    assert!(cppcheck::parse_line(&chars("")).is_none());
    assert!(cppcheck::parse_line(&chars("a.c:x:1: error: m")).is_none());
}

#[test]
fn cppcheck_reads_stdout_only_when_stderr_is_empty() {
    let r = run("cppcheck", "a.c:1:1: warning: from stdout\r\nb.c:2:2: note: second\n", "");
    let fs = cppcheck::parse(&r).unwrap();
    assert_eq!(fs.len(), 2);
    assert_eq!(fs[0].message, "from stdout");
    assert_eq!(fs[1].location.file, "b.c");
    assert_eq!(fs[1].severity, Severity::Note);
}

#[test]
fn cppcheck_non_empty_stderr_wins_even_without_findings() {
    let r = run("cppcheck", "a.c:1:1: warning: from stdout\n", "noise only\n");
    assert!(cppcheck::parse(&r).unwrap().is_empty());
}

#[test]
fn cppcheck_grammar_agrees_with_regex() {
    let re = regex::Regex::new(r"^(.+?):(\d+):\d+:\s*(\w+):\s*(.+?)(?:\s*\[(\w+)\])?\s*$").unwrap();
    let lines = [
        "main.cpp:5:10: error: Memory leak [memleak]",
        "a:b.c:1:2: warning: x [y] [z]",
        "f.c:1:2:error:   spaced message   ",
        "f.c:1:2: error: ",
        "f.c:1:2: error:",
        "f.c:1:2: error: msg [bad rule]",
        "f.c:12:3: information: [only]",
        "::1:2: style: s",
        "x.cpp:007:1: portability: p[q]",
    ];
    for line in lines {
        let got = cppcheck::parse_line(&chars(line));
        match re.captures(line) {
            Some(cap) => {
                let f = got.expect(line);
                assert_eq!(f.location.file, &cap[1], "{}", line);
                assert_eq!(f.location.line, Some(cap[2].parse().unwrap_or(0)), "{}", line);
                assert_eq!(f.message, &cap[4], "{}", line);
                assert_eq!(f.rule_id.as_deref(), cap.get(5).map(|m| m.as_str()), "{}", line);
            },
            None => assert!(got.is_none(), "{}", line),
        }
    }
}

#[test]
fn scan_build_dereference_warning() {
    let r = run("scan-build", "", "/proj/file.cpp:12:5: warning: Dereference of null pointer\n");
    let fs = scan_build::parse(&r).unwrap();
    assert_eq!(fs.len(), 1);
    let f = &fs[0];
    assert_eq!(f.tool, "scan-build");
    assert_eq!(f.rule_id, None);
    assert_eq!(f.severity, Severity::Warning);
    assert_eq!(f.message, "Dereference of null pointer");
    assert_eq!(f.location.file, "/proj/file.cpp");
    assert_eq!(f.location.line, Some(12));
    assert_eq!(f.location.column, Some(5));
}

#[test]
fn scan_build_finds_every_occurrence() {
    let text = "scan-build: Using clang\nIn file a.cpp:1:2: error: bad thing\nx b.h:3:4: note: see here\nnothing:1:2: warning: no extension\n";
    let fs = scan_build::parse_text(&chars(text));
    assert_eq!(fs.len(), 2);
    assert_eq!(fs[0].severity, Severity::Error);
    assert_eq!(fs[0].location.file, "a.cpp");
    assert_eq!(fs[1].severity, Severity::Note);
    assert_eq!(fs[1].message, "see here");
}

#[test]
fn scan_build_grammar_agrees_with_regex() {
    let re = regex::Regex::new(r"([^:\s]+\.\w+):(\d+):(\d+):\s*(warning|error|note):\s*(.+)").unwrap();
    let texts = [
        "/proj/file.cpp:12:5: warning: Dereference of null pointer\n",
        "a.c:1:1: error: one a.c:2:2: note: two\nb.cc:3:3: warning:\n  next line\n",
        "x.y.z:1:1:note: tight\n",
        "p.c:1:1: warning: \n",
        "junk a.c:1: error: short\n.c:1:1: error: no stem\n",
    ];
    for text in texts {
        let got = scan_build::parse_text(&chars(text));
        let want: Vec<(String, String)> = re
            .captures_iter(text)
            .map(|c| (c[1].to_string(), c[5].to_string()))
            .collect();
        let have: Vec<(String, String)> =
            got.iter().map(|f| (f.location.file.clone(), f.message.clone())).collect();
        assert_eq!(have, want, "{:?}", text);
    }
}

#[test]
fn semgrep_result_document() {
    let doc = r#"{"results":[{"path":"src/a.c","start":{"line":10,"col":3},"check_id":"rule.bad-call","extra":{"message":"Bad call","severity":"ERROR"}}]}"#;
    let fs = semgrep::parse(&run("semgrep", doc, "")).unwrap();
    assert_eq!(fs.len(), 1);
    let f = &fs[0];
    assert_eq!(f.tool, "semgrep");
    assert_eq!(f.rule_id.as_deref(), Some("rule.bad-call"));
    assert_eq!(f.severity, Severity::Error);
    assert_eq!(f.message, "Bad call");
    assert_eq!(f.location.file, "src/a.c");
    assert_eq!(f.location.line, Some(10));
    assert_eq!(f.location.column, Some(3));
}

#[test]
fn semgrep_defaults_and_severities() {
    let doc = r#"{"results":[
        {"extra":{"severity":"WARNING"}},
        {"extra":{"severity":"INFO"}},
        {"extra":{"severity":"LOW"}},
        {}
    ]}"#;
    let fs = semgrep::parse(&run("semgrep", doc, "")).unwrap();
    let sev: Vec<Severity> = fs.iter().map(|f| f.severity).collect();
    assert_eq!(sev, vec![Severity::Warning, Severity::Info, Severity::Warning, Severity::Warning]);
    assert_eq!(fs[3].message, "No message");
    assert_eq!(fs[3].location.file, "unknown");
    assert_eq!(fs[3].location.line, None);
    assert_eq!(fs[3].rule_id, None);
}

#[test]
fn semgrep_parse_failures() {
    assert_eq!(semgrep::parse(&run("semgrep", "not json", "")).unwrap_err(), ParseError::InvalidJson);
    assert_eq!(semgrep::parse(&run("semgrep", "{\"errors\":[]}", "")).unwrap_err(), ParseError::MissingResults);
    assert_eq!(semgrep::parse(&run("semgrep", "{\"results\":{}}", "")).unwrap_err(), ParseError::MissingResults);
}

#[test]
fn generic_wraps_trimmed_output() {
    let fs = generic::parse(&run("mytool", "  \n all of it \n", "ignored")).unwrap();
    assert_eq!(fs.len(), 1);
    assert_eq!(fs[0].tool, "mytool");
    assert_eq!(fs[0].message, "all of it");
    assert_eq!(fs[0].severity, Severity::Info);
    assert_eq!(fs[0].location.file, ".");
    assert_eq!(fs[0].location.line, None);
    let fs = generic::parse(&run("mytool", "", "\u{3000}from stderr\t")).unwrap();
    assert_eq!(fs[0].message, "from stderr");
    assert!(generic::parse(&run("mytool", "", " \n ")).unwrap().is_empty());
}

#[test]
fn dispatch_by_tool_name() {
    let fs: Vec<Finding> = parse_output("cppcheck", &run("cppcheck", "", "a.c:1:1: error: e\n")).unwrap();
    assert_eq!(fs[0].tool, "cppcheck");
    let fs = parse_output("other", &run("other", "a.c:1:1: error: e", "")).unwrap();
    assert_eq!(fs[0].tool, "other");
    assert_eq!(fs[0].message, "a.c:1:1: error: e");
    assert!(parse_output("semgrep", &run("semgrep", "", "")).is_err());
}

#[test]
fn invalid_utf8_is_replaced() {
    let r = ToolRun { tool_name: "t".into(), exit_code: 1, stdout: vec![b'a', 0xff, b'b'], stderr: vec![] };
    let fs = generic::parse(&r).unwrap();
    assert_eq!(fs[0].message, "a\u{fffd}b");
}

#[test]
fn semgrep_severity_vocabulary() {
    assert_eq!(semgrep::map_severity(Some("ERROR")), Severity::Error);
    assert_eq!(semgrep::map_severity(Some("WARNING")), Severity::Warning);
    assert_eq!(semgrep::map_severity(Some("INFO")), Severity::Info);
    assert_eq!(semgrep::map_severity(Some("error")), Severity::Warning);
    assert_eq!(semgrep::map_severity(None), Severity::Warning);
}

#[test]
fn scan_build_kinds() {
    let fs = scan_build::parse_text(&chars("a.c:1:1: error: e\na.c:2:2: warning: w\na.c:3:3: note: n\na.c:4:4: remark: r\n"));
    let sev: Vec<Severity> = fs.iter().map(|f| f.severity).collect();
    assert_eq!(sev, vec![Severity::Error, Severity::Warning, Severity::Note]);
}
