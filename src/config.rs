//! The resolved configuration: how each tool is invoked, and the defaults
//! for which tools run, in which format and where.
use vstd::prelude::*;
use crate::model::opt_str_view;
use crate::text::texts;

verus! {

/// Where a tool leaves its output.
#[derive(Debug, Clone, Copy, PartialEq, Eq, Structural)]
pub enum OutputStream {
    Stdout,
    Stderr,
    /// The tool writes its own artifacts into the output directory.
    Filesystem,
}

impl Default for OutputStream {
    fn default() -> (r: OutputStream)
        ensures
            r == OutputStream::Stdout,
    {
        OutputStream::Stdout
    }
}

/// How one tool is invoked.
#[derive(Debug)]
pub struct ToolConfig {
    pub command: String,
    /// Argument templates; `{output_dir}` and `{project_path}` are replaced.
    pub args: Vec<String>,
    pub output_stream: OutputStream,
    pub native_extension: Option<String>,
    /// A glob pattern, relative to the project, whose matches are appended.
    pub append_sources: Option<String>,
}

pub open spec fn opt_texts(o: Option<Vec<String>>) -> Option<Seq<Seq<char>>> {
    match o {
        Some(v) => Some(texts(v@)),
        None => None,
    }
}

/// The mathematical content of a [`ToolConfig`].
pub struct ToolConfigView {
    pub command: Seq<char>,
    pub args: Seq<Seq<char>>,
    pub output_stream: OutputStream,
    pub native_extension: Option<Seq<char>>,
    pub append_sources: Option<Seq<char>>,
}

impl View for ToolConfig {
    type V = ToolConfigView;

    open spec fn view(&self) -> ToolConfigView {
        ToolConfigView {
            command: self.command@,
            args: texts(self.args@),
            output_stream: self.output_stream,
            native_extension: opt_str_view(self.native_extension),
            append_sources: opt_str_view(self.append_sources),
        }
    }
}

/// Defaults that apply where the command line names none.
#[derive(Debug)]
pub struct Defaults {
    pub tools: Option<Vec<String>>,
    pub format: Option<String>,
    pub output: Option<String>,
}

impl Default for Defaults {
    fn default() -> (r: Defaults)
        ensures
            r.tools is None,
            r.format is None,
            r.output is None,
    {
        Defaults { tools: None, format: None, output: None }
    }
}

/// The configuration: defaults, and the invocation of each known tool.
///
/// `tools` is read as a map from tool name to invocation, where a later
/// entry for a name takes the place of an earlier one.
#[derive(Debug)]
pub struct Config {
    pub defaults: Defaults,
    pub tools: Vec<(String, ToolConfig)>,
}

/// The invocation that `tools` holds for `name`: its last entry.
pub open spec fn tool_lookup(tools: Seq<(String, ToolConfig)>, name: Seq<char>) -> Option<ToolConfig>
    decreases tools.len(),
{
    if tools.len() == 0 {
        None
    } else if tools.last().0@ == name {
        Some(tools.last().1)
    } else {
        tool_lookup(tools.drop_last(), name)
    }
}

pub open spec fn config_view(o: Option<ToolConfig>) -> Option<ToolConfigView> {
    match o {
        Some(c) => Some(c@),
        None => None,
    }
}

impl Default for Config {
    fn default() -> (r: Config)
        ensures
            r.defaults.tools is None,
            r.defaults.format is None,
            r.defaults.output is None,
            r.tools@.len() == 0,
    {
        Config { defaults: Defaults::default(), tools: Vec::new() }
    }
}

fn strings(items: &[&str]) -> (r: Vec<String>)
    ensures
        r@.len() == items@.len(),
        forall|i: int| 0 <= i < items@.len() ==> #[trigger] r@[i]@ == items@[i]@,
{
    let mut r: Vec<String> = Vec::new();
    let mut i: usize = 0;
    while i < items.len()
        invariant
            i <= items@.len(),
            r@.len() == i,
            forall|j: int| 0 <= j < i ==> #[trigger] r@[j]@ == items@[j]@,
        decreases items@.len() - i,
    {
        r.push(String::from_str(items[i]));
        i = i + 1;
    }
    r
}

/// The last position of an entry for `name`, if any.
fn last_index(tools: &Vec<(String, ToolConfig)>, name: &str) -> (r: Option<usize>)
    ensures
        match r {
            Some(i) => i < tools@.len() && tools@[i as int].0@ == name@ && forall|j: int|
                i < j < tools@.len() ==> #[trigger] tools@[j].0@ != name@,
            None => forall|j: int| 0 <= j < tools@.len() ==> #[trigger] tools@[j].0@ != name@,
        },
{
    let mut i: usize = tools.len();
    while i > 0
        invariant
            i <= tools@.len(),
            forall|j: int| i <= j < tools@.len() ==> #[trigger] tools@[j].0@ != name@,
        decreases i,
    {
        if crate::json::str_equal(tools[i - 1].0.as_str(), name) {
            return Some(i - 1);
        }
        i = i - 1;
    }
    None
}

proof fn lemma_lookup_absent(tools: Seq<(String, ToolConfig)>, name: Seq<char>)
    requires
        forall|j: int| 0 <= j < tools.len() ==> #[trigger] tools[j].0@ != name,
    ensures
        tool_lookup(tools, name) is None,
    decreases tools.len(),
{
    if tools.len() > 0 {
        assert(tools.last().0@ != name);
        let d = tools.drop_last();
        assert forall|j: int| 0 <= j < d.len() implies #[trigger] d[j].0@ != name by {
            assert(d[j] == tools[j]);
        }
        lemma_lookup_absent(d, name);
    }
}

proof fn lemma_lookup_update(
    tools: Seq<(String, ToolConfig)>,
    i: int,
    entry: (String, ToolConfig),
    k: Seq<char>,
)
    requires
        0 <= i < tools.len(),
        tools[i].0@ == entry.0@,
        forall|j: int| i < j < tools.len() ==> #[trigger] tools[j].0@ != entry.0@,
    ensures
        tool_lookup(tools.update(i, entry), k) == if k == entry.0@ {
            Some(entry.1)
        } else {
            tool_lookup(tools, k)
        },
    decreases tools.len(),
{
    let u = tools.update(i, entry);
    if i == tools.len() - 1 {
        assert(u.drop_last() =~= tools.drop_last());
    } else {
        assert(u.drop_last() =~= tools.drop_last().update(i, entry));
        assert(tools.last().0@ != entry.0@);
        lemma_lookup_update(tools.drop_last(), i, entry, k);
    }
}

impl Config {
    /// Adds or replaces the invocation of tool `name`.
    pub fn insert_tool(&mut self, name: String, tool: ToolConfig)
        ensures
            final(self).defaults == old(self).defaults,
            forall|k: Seq<char>| #[trigger]
                tool_lookup(final(self).tools@, k) == if k == name@ {
                    Some(tool)
                } else {
                    tool_lookup(old(self).tools@, k)
                },
    {
        match last_index(&self.tools, name.as_str()) {
            Some(i) => {
                let ghost entry = (name, tool);
                proof {
                    assert forall|k: Seq<char>| #[trigger]
                        tool_lookup(self.tools@.update(i as int, entry), k) == if k == name@ {
                            Some(tool)
                        } else {
                            tool_lookup(self.tools@, k)
                        } by {
                        lemma_lookup_update(self.tools@, i as int, entry, k);
                    }
                }
                self.tools.set(i, (name, tool));
            },
            None => {
                proof {
                    lemma_lookup_absent(self.tools@, name@);
                }
                self.tools.push((name, tool));
                proof {
                    assert(self.tools@.drop_last() =~= old(self).tools@);
                }
            },
        }
    }

    /// Layers `other` over this configuration: each default that `other`
    /// sets, and each tool that it names, takes the place of this one's.
    pub fn merge(&mut self, other: Config)
        ensures
            final(self).defaults.tools == if other.defaults.tools is Some {
                other.defaults.tools
            } else {
                old(self).defaults.tools
            },
            final(self).defaults.format == if other.defaults.format is Some {
                other.defaults.format
            } else {
                old(self).defaults.format
            },
            final(self).defaults.output == if other.defaults.output is Some {
                other.defaults.output
            } else {
                old(self).defaults.output
            },
            forall|k: Seq<char>| #[trigger]
                tool_lookup(final(self).tools@, k) == if tool_lookup(other.tools@, k) is Some {
                    tool_lookup(other.tools@, k)
                } else {
                    tool_lookup(old(self).tools@, k)
                },
    {
        let Config { defaults, tools: other_tools } = other;
        if defaults.tools.is_some() {
            self.defaults.tools = defaults.tools;
        }
        if defaults.format.is_some() {
            self.defaults.format = defaults.format;
        }
        if defaults.output.is_some() {
            self.defaults.output = defaults.output;
        }
        let ghost all = other_tools@;
        assert(all.len() == other_tools.len());
        let mut rest = other_tools;
        let mut taken: usize = 0;
        while rest.len() > 0
            invariant
                all.len() <= usize::MAX,
                taken + rest@.len() == all.len(),
                rest@ == all.subrange(taken as int, all.len() as int),
                self.defaults.tools == if other.defaults.tools is Some {
                    other.defaults.tools
                } else {
                    old(self).defaults.tools
                },
                self.defaults.format == if other.defaults.format is Some {
                    other.defaults.format
                } else {
                    old(self).defaults.format
                },
                self.defaults.output == if other.defaults.output is Some {
                    other.defaults.output
                } else {
                    old(self).defaults.output
                },
                forall|k: Seq<char>| #[trigger]
                    tool_lookup(self.tools@, k) == if tool_lookup(
                        all.subrange(0, taken as int),
                        k,
                    ) is Some {
                        tool_lookup(all.subrange(0, taken as int), k)
                    } else {
                        tool_lookup(old(self).tools@, k)
                    },
            decreases rest@.len(),
        {
            let (name, tool) = rest.remove(0);
            let ghost before = self.tools@;
            self.insert_tool(name, tool);
            proof {
                let p = all.subrange(0, taken + 1);
                assert(p.drop_last() =~= all.subrange(0, taken as int));
                assert(p.last() == all[taken as int]);
                assert(rest@ =~= all.subrange(taken + 1, all.len() as int));
            }
            taken = taken + 1;
        }
        proof {
            assert(all.subrange(0, taken as int) =~= other.tools@);
        }
    }
}


/// The built-in invocation of each known tool.
pub open spec fn builtin_tool(name: Seq<char>) -> Option<ToolConfigView> {
    if name == "cppcheck"@ {
        Some(
            ToolConfigView {
                command: "cppcheck"@,
                args: seq!["--enable=all"@, "--inconclusive"@, "--std=c++17"@, "--force"@],
                output_stream: OutputStream::Stderr,
                native_extension: Some("txt"@),
                append_sources: None,
            },
        )
    } else if name == "scan-build"@ {
        Some(
            ToolConfigView {
                command: "scan-build"@,
                args: seq![
                    "-o"@,
                    "{output_dir}/scan_build"@,
                    "clang++"@,
                    "-std=c++17"@,
                    "-Wall"@,
                    "-Wextra"@,
                    "-c"@,
                ],
                output_stream: OutputStream::Filesystem,
                native_extension: Some("html"@),
                append_sources: Some("*.cpp"@),
            },
        )
    } else if name == "semgrep"@ {
        Some(
            ToolConfigView {
                command: "semgrep"@,
                args: seq!["--config=auto"@, "--config=rules/semgrep/"@, "--json"@],
                output_stream: OutputStream::Stdout,
                native_extension: Some("json"@),
                append_sources: None,
            },
        )
    } else {
        None
    }
}

impl Config {
    /// The built-in configuration: cppcheck, scan-build and semgrep, all of
    /// them run by default, in the native format.
    pub fn builtin_defaults() -> (r: Config)
        ensures
            forall|k: Seq<char>| #[trigger] config_view(tool_lookup(r.tools@, k)) == builtin_tool(k),
            texts(r.tools@.map_values(|e: (String, ToolConfig)| e.0)) == seq![
                "cppcheck"@,
                "scan-build"@,
                "semgrep"@,
            ],
            opt_texts(r.defaults.tools) == Some(seq!["cppcheck"@, "scan-build"@, "semgrep"@]),
            opt_str_view(r.defaults.format) == Some("native"@),
            r.defaults.output is None,
    {
        proof {
            reveal_strlit("cppcheck");
            reveal_strlit("scan-build");
            reveal_strlit("semgrep");
        }
        let cppcheck = ToolConfig {
            command: String::from_str("cppcheck"),
            args: strings(&["--enable=all", "--inconclusive", "--std=c++17", "--force"]),
            output_stream: OutputStream::Stderr,
            native_extension: Some(String::from_str("txt")),
            append_sources: None,
        };
        let scan_build = ToolConfig {
            command: String::from_str("scan-build"),
            args: strings(
                &["-o", "{output_dir}/scan_build", "clang++", "-std=c++17", "-Wall", "-Wextra", "-c"],
            ),
            output_stream: OutputStream::Filesystem,
            native_extension: Some(String::from_str("html")),
            append_sources: Some(String::from_str("*.cpp")),
        };
        let semgrep = ToolConfig {
            command: String::from_str("semgrep"),
            args: strings(&["--config=auto", "--config=rules/semgrep/", "--json"]),
            output_stream: OutputStream::Stdout,
            native_extension: Some(String::from_str("json")),
            append_sources: None,
        };
        assert(cppcheck@.args =~= builtin_tool("cppcheck"@)->0.args);
        assert("scan-build"@.len() == 10);
        assert("cppcheck"@.len() == 8);
        assert("semgrep"@.len() == 7);
        assert(scan_build@.args =~= builtin_tool("scan-build"@)->0.args);
        assert(semgrep@.args =~= builtin_tool("semgrep"@)->0.args);
        let mut tools: Vec<(String, ToolConfig)> = Vec::new();
        tools.push((String::from_str("cppcheck"), cppcheck));
        tools.push((String::from_str("scan-build"), scan_build));
        tools.push((String::from_str("semgrep"), semgrep));
        let names = strings(&["cppcheck", "scan-build", "semgrep"]);
        proof {
            let t = tools@;
            assert(t.drop_last().drop_last().drop_last().len() == 0);
            assert forall|k: Seq<char>| #[trigger] config_view(tool_lookup(t, k)) == builtin_tool(
                k,
            ) by {
                let t2 = t.drop_last();
                let t1 = t2.drop_last();
                assert(t1.last() == t[0]);
                assert(t2.last() == t[1]);
                assert(t.last() == t[2]);
                assert(tool_lookup(t1.drop_last(), k) is None);
                if k == "semgrep"@ {
                    assert(tool_lookup(t, k) == Some(t[2].1));
                } else if k == "scan-build"@ {
                    assert(tool_lookup(t, k) == tool_lookup(t2, k));
                    assert(tool_lookup(t2, k) == Some(t[1].1));
                } else if k == "cppcheck"@ {
                    assert(tool_lookup(t, k) == tool_lookup(t1, k));
                    assert(tool_lookup(t1, k) == Some(t[0].1));
                } else {
                    assert(tool_lookup(t, k) == tool_lookup(t1, k));
                }
            }
            assert(texts(t.map_values(|e: (String, ToolConfig)| e.0)) =~= seq![
                "cppcheck"@,
                "scan-build"@,
                "semgrep"@,
            ]);
            assert(texts(names@) =~= seq!["cppcheck"@, "scan-build"@, "semgrep"@]);
        }
        Config {
            defaults: Defaults {
                tools: Some(names),
                format: Some(String::from_str("native")),
                output: None,
            },
            tools,
        }
    }
}


impl Config {
    /// The invocation of tool `name`, if the configuration knows the tool.
    pub fn tool(&self, name: &str) -> (r: Option<&ToolConfig>)
        ensures
            match r {
                Some(t) => tool_lookup(self.tools@, name@) == Some(*t),
                None => tool_lookup(self.tools@, name@) is None,
            },
    {
        match last_index(&self.tools, name) {
            Some(i) => {
                proof {
                    lemma_lookup_last(self.tools@, i as int, name@);
                }
                Some(&self.tools[i].1)
            },
            None => {
                proof {
                    lemma_lookup_absent(self.tools@, name@);
                }
                None
            },
        }
    }

    /// Checks that every requested tool is configured; the first one that is
    /// not is the error.
    pub fn validate_tools(&self, requested: &Vec<String>) -> (r: Result<(), String>)
        ensures
            r is Ok <==> forall|i: int| 0 <= i < requested@.len() ==> #[trigger] tool_lookup(
                self.tools@,
                requested@[i]@,
            ) is Some,
            r matches Err(n) ==> exists|i: int| 0 <= i < requested@.len() && #[trigger] requested@[i]@ == n@
                && tool_lookup(self.tools@, n@) is None,
    {
        let mut i: usize = 0;
        while i < requested.len()
            invariant
                i <= requested@.len(),
                forall|j: int| 0 <= j < i ==> #[trigger] tool_lookup(self.tools@, requested@[j]@) is Some,
            decreases requested.len() - i,
        {
            if self.tool(requested[i].as_str()).is_none() {
                return Err(requested[i].clone());
            }
            i = i + 1;
        }
        Ok(())
    }
}

proof fn lemma_lookup_last(tools: Seq<(String, ToolConfig)>, i: int, name: Seq<char>)
    requires
        0 <= i < tools.len(),
        tools[i].0@ == name,
        forall|j: int| i < j < tools.len() ==> #[trigger] tools[j].0@ != name,
    ensures
        tool_lookup(tools, name) == Some(tools[i].1),
    decreases tools.len(),
{
    if i < tools.len() - 1 {
        let d = tools.drop_last();
        assert(tools.last().0@ != name);
        assert forall|j: int| i < j < d.len() implies #[trigger] d[j].0@ != name by {
            assert(d[j] == tools[j]);
        }
        lemma_lookup_last(d, i, name);
    }
}


fn copy_strings(v: &Vec<String>) -> (r: Vec<String>)
    ensures
        texts(r@) == texts(v@),
{
    let mut r: Vec<String> = Vec::new();
    let mut i: usize = 0;
    while i < v.len()
        invariant
            i <= v@.len(),
            texts(r@) == texts(v@).subrange(0, i as int),
        decreases v.len() - i,
    {
        let ghost before = texts(r@);
        r.push(v[i].clone());
        assert(texts(r@) =~= before.push(v@[i as int]@));
        assert(texts(v@).subrange(0, i + 1) =~= texts(v@).subrange(0, i as int).push(v@[i as int]@));
        i = i + 1;
    }
    assert(texts(v@).subrange(0, i as int) =~= texts(v@));
    r
}

impl Config {
    /// The tools to run: those requested, else the configured default, else
    /// cppcheck, scan-build and semgrep.
    pub fn resolve_tools(&self, requested: Option<Vec<String>>) -> (r: Vec<String>)
        ensures
            texts(r@) == match requested {
                Some(v) => texts(v@),
                None => match self.defaults.tools {
                    Some(d) => texts(d@),
                    None => seq!["cppcheck"@, "scan-build"@, "semgrep"@],
                },
            },
    {
        match requested {
            Some(v) => v,
            None => match &self.defaults.tools {
                Some(d) => copy_strings(d),
                None => {
                    let r = strings(&["cppcheck", "scan-build", "semgrep"]);
                    assert(texts(r@) =~= seq!["cppcheck"@, "scan-build"@, "semgrep"@]);
                    r
                },
            },
        }
    }

    /// The report format: the one requested, else the configured default,
    /// else native.
    pub fn resolve_format(&self, requested: Option<String>) -> (r: Result<
        crate::output::OutputFormat,
        crate::output::UnknownFormat,
    >)
        ensures
            ({
                let name = match requested {
                    Some(s) => s@,
                    None => match self.defaults.format {
                        Some(f) => f@,
                        None => "native"@,
                    },
                };
                match r {
                    Ok(f) => crate::output::format_named(crate::output::lower_of(name)) == Some(f),
                    Err(e) => crate::output::format_named(crate::output::lower_of(name)) is None
                        && e.name@ == name,
                }
            }),
    {
        match requested {
            Some(s) => crate::output::OutputFormat::from_str(s.as_str()),
            None => match &self.defaults.format {
                Some(f) => crate::output::OutputFormat::from_str(f.as_str()),
                None => crate::output::OutputFormat::from_str("native"),
            },
        }
    }
}

} // verus!
