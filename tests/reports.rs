use sast::config::{Config, OutputStream, ToolConfig};
use sast::model::{Finding, Location, Severity, ToolRun};
use sast::output::{html, json, native, render_report, sarif, OutputFormat};

fn finding(tool: &str, sev: Severity, msg: &str, rule: Option<&str>, line: Option<u32>, col: Option<u32>) -> Finding {
    Finding {
        tool: tool.to_string(),
        rule_id: rule.map(|r| r.to_string()),
        severity: sev,
        message: msg.to_string(),
        location: Location { file: "src/main.cpp".to_string(), line, column: col },
    }
}

fn sample() -> Vec<Finding> {
    vec![
        finding("cppcheck", Severity::Error, "Memory leak", Some("memleak"), Some(5), None),
        finding("semgrep", Severity::Warning, "Bad \"call\"", None, Some(10), Some(3)),
        finding("cppcheck", Severity::Style, "Unused", None, None, None),
        finding("scan-build", Severity::Note, "note <b>", None, None, Some(7)),
    ]
}

#[test]
fn json_report_round_trip() {
    let fs = sample();
    let text = json::render(&fs);
    let back = json::read(&text).unwrap();
    assert_eq!(back.len(), fs.len());
    for (a, b) in fs.iter().zip(back.iter()) {
        assert_eq!(a.tool, b.tool);
        assert_eq!(a.rule_id, b.rule_id);
        assert_eq!(a.severity, b.severity);
        assert_eq!(a.message, b.message);
        assert_eq!(a.location.file, b.location.file);
        assert_eq!(a.location.line, b.location.line);
        assert_eq!(a.location.column, b.location.column);
    }
}

#[test]
fn json_report_is_an_array_of_objects() {
    let text = json::render(&sample());
    let v: serde_json::Value = serde_json::from_str(&text).unwrap();
    let items = v.as_array().unwrap();
    assert_eq!(items.len(), 4);
    assert_eq!(items[0]["severity"], "error");
    assert_eq!(items[0]["rule_id"], "memleak");
    assert_eq!(items[0]["location"]["line"], 5);
    assert!(items[0]["location"]["column"].is_null());
    assert!(text.contains('\n'));
    assert_eq!(json::render(&Vec::new()).trim(), "[]");
    assert!(json::read("[{\"tool\":\"x\"}]").is_none());
    assert!(json::read("nope").is_none());
}

#[test]
fn sarif_version_and_runs_per_tool() {
    let text = sarif::render(&sample());
    let v: serde_json::Value = serde_json::from_str(&text).unwrap();
    assert_eq!(v["version"], "2.1.0");
    let runs = v["runs"].as_array().unwrap();
    assert_eq!(runs.len(), 3);
    assert_eq!(runs[0]["tool"]["driver"]["name"], "cppcheck");
    assert_eq!(runs[1]["tool"]["driver"]["name"], "semgrep");
    assert_eq!(runs[2]["tool"]["driver"]["name"], "scan-build");
    let cpp = runs[0]["results"].as_array().unwrap();
    assert_eq!(cpp.len(), 2);
    assert_eq!(cpp[0]["level"], "error");
    assert_eq!(cpp[0]["ruleId"], "memleak");
    assert_eq!(cpp[0]["message"]["text"], "Memory leak");
    let loc = &cpp[0]["locations"][0]["physicalLocation"];
    assert_eq!(loc["artifactLocation"]["uri"], "src/main.cpp");
    assert_eq!(loc["region"]["startLine"], 5);
    assert!(loc["region"].get("startColumn").is_none());
    assert_eq!(cpp[1]["level"], "note");
    assert!(cpp[1]["locations"][0]["physicalLocation"].get("region").is_none());
    assert!(cpp[1].get("ruleId").is_none());
    let sb = &runs[2]["results"][0]["locations"][0]["physicalLocation"]["region"];
    assert!(sb.get("startLine").is_none());
    assert_eq!(sb["startColumn"], 7);
    assert_eq!(runs[1]["results"][0]["level"], "warning");
}

#[test]
fn sarif_without_findings_has_empty_runs() {
    let v: serde_json::Value = serde_json::from_str(&sarif::render(&Vec::new())).unwrap();
    assert_eq!(v["version"], "2.1.0");
    assert_eq!(v["runs"].as_array().unwrap().len(), 0);
}

#[test]
fn html_escapes_every_text_field() {
    let fs = vec![Finding {
        tool: "t<&>".to_string(),
        rule_id: Some("r\"1".to_string()),
        severity: Severity::Error,
        message: "<script>alert(1)</script>".to_string(),
        location: Location { file: "a&b.c".to_string(), line: Some(3), column: None },
    }];
    let page = html::render(&fs, "proj<x>");
    assert!(!page.contains("<script>"));
    assert!(page.contains("&lt;script&gt;alert(1)&lt;/script&gt;"));
    assert!(page.contains("<td>t&lt;&amp;&gt;</td>"));
    assert!(page.contains("<td>r&quot;1</td>"));
    assert!(page.contains("<td>a&amp;b.c</td>"));
    assert!(page.contains("<td>3</td>"));
    assert!(page.contains("SAST Report: proj&lt;x&gt;"));
    assert!(page.starts_with("<!DOCTYPE html>"));
}

#[test]
fn html_summary_counts() {
    let page = html::render(&sample(), "demo");
    assert!(page.contains("4 findings</span>"));
    assert!(page.contains("1 errors</span>"));
    assert!(page.contains("1 warnings</span>"));
    assert!(page.contains("<tr class=\"severity-style\">"));
    assert!(page.contains("<td>-</td>"));
    assert!(page.contains("<title>SAST Report - demo</title>"));
}

#[test]
fn html_escape_of_plain_text_is_identity() {
    assert_eq!(html::html_escape("abc 123"), "abc 123");
    assert_eq!(html::html_escape("&<>\""), "&amp;&lt;&gt;&quot;");
    assert_eq!(html::html_escape(""), "");
}

#[test]
fn report_dispatch_by_format() {
    let fs = sample();
    assert!(render_report(OutputFormat::Native, &fs, "p").is_none());
    assert_eq!(render_report(OutputFormat::Html, &fs, "p").unwrap().file_name, "report.html");
    assert_eq!(render_report(OutputFormat::Json, &fs, "p").unwrap().file_name, "report.json");
    assert_eq!(render_report(OutputFormat::Sarif, &fs, "p").unwrap().file_name, "report.sarif");
}

#[test]
fn format_names_in_any_case() {
    assert_eq!(OutputFormat::from_str("native").unwrap(), OutputFormat::Native);
    assert_eq!(OutputFormat::from_str("SARIF").unwrap(), OutputFormat::Sarif);
    assert_eq!(OutputFormat::from_str("Html").unwrap(), OutputFormat::Html);
    assert_eq!(OutputFormat::from_str("json").unwrap(), OutputFormat::Json);
    assert_eq!(OutputFormat::from_str("xml").unwrap_err().name, "xml");
    assert!(OutputFormat::from_lowercase("JSON", "JSON").is_err());
    assert!(!OutputFormat::Native.needs_findings());
    assert!(OutputFormat::Json.needs_findings());
}

fn run(name: &str, out: &str, err: &str) -> ToolRun {
    ToolRun { tool_name: name.into(), exit_code: 0, stdout: out.as_bytes().to_vec(), stderr: err.as_bytes().to_vec() }
}

#[test]
fn native_files_follow_output_streams() {
    let config = Config::builtin_defaults();
    let runs = vec![
        run("cppcheck", "from stdout", "from stderr"),
        run("scan-build", "x", "y"),
        run("semgrep", "{}", "progress"),
        run("cppcheck", "only stdout", ""),
        run("unknown", "u", "v"),
    ];
    let files = native::files(&runs, &config);
    let got: Vec<(String, Vec<u8>)> = files.into_iter().map(|f| (f.name, f.data)).collect();
    assert_eq!(
        got,
        vec![
            ("cppcheck.txt".to_string(), b"from stderr".to_vec()),
            ("semgrep.json".to_string(), b"{}".to_vec()),
            ("cppcheck.txt".to_string(), b"only stdout".to_vec()),
            ("unknown.txt".to_string(), b"u".to_vec()),
        ]
    );
}

#[test]
fn native_extension_defaults_to_txt() {
    let mut config = Config::default();
    config.insert_tool(
        "lint".to_string(),
        ToolConfig {
            command: "lint".into(),
            args: vec![],
            output_stream: OutputStream::Stderr,
            native_extension: None,
            append_sources: None,
        },
    );
    let files = native::files(&vec![run("lint", "out", "")], &config);
    assert_eq!(files[0].name, "lint.txt");
    assert_eq!(files[0].data, b"out".to_vec());
}
