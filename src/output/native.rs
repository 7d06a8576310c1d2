//! The native report: each tool's raw output, saved as it came.
use vstd::prelude::*;
use crate::config::{Config, OutputStream, ToolConfig, tool_lookup};
use crate::model::ToolRun;
use crate::text::{push_str, string_of};

verus! {

/// One file of the native report, to be written into the output directory.
#[derive(Debug)]
pub struct NativeFile {
    pub name: String,
    pub data: Vec<u8>,
}

/// The file that the native report holds for `run`, whose invocation is
/// `tool`: none for a tool that writes its own artifacts; else
/// `<tool>.<extension>` (`txt` by default) holding stderr where the tool
/// writes to stderr and stderr is not empty, and stdout otherwise.
pub open spec fn native_file(run: ToolRun, tool: Option<ToolConfig>) -> Option<(Seq<char>, Seq<u8>)> {
    match tool {
        Some(c) if c.output_stream == OutputStream::Filesystem => None,
        _ => {
            let ext = match tool {
                Some(c) => match c.native_extension {
                    Some(e) => e@,
                    None => "txt"@,
                },
                None => "txt"@,
            };
            let data = match tool {
                Some(c) => if c.output_stream == OutputStream::Stderr && run.stderr@.len() > 0 {
                    run.stderr@
                } else {
                    run.stdout@
                },
                None => run.stdout@,
            };
            Some((run.tool_name@ + seq!['.'] + ext, data))
        },
    }
}

/// The files of the native report, in run order.
pub open spec fn native_files(runs: Seq<ToolRun>, tools: Seq<(String, ToolConfig)>) -> Seq<(Seq<char>, Seq<u8>)>
    decreases runs.len(),
{
    if runs.len() == 0 {
        seq![]
    } else {
        let p = native_files(runs.drop_last(), tools);
        match native_file(runs.last(), tool_lookup(tools, runs.last().tool_name@)) {
            Some(f) => p.push(f),
            None => p,
        }
    }
}

pub open spec fn opt_config(o: Option<&ToolConfig>) -> Option<ToolConfig> {
    match o {
        Some(c) => Some(*c),
        None => None,
    }
}

pub open spec fn file_view(f: NativeFile) -> (Seq<char>, Seq<u8>) {
    (f.name@, f.data@)
}

fn copy_bytes(b: &Vec<u8>) -> (r: Vec<u8>)
    ensures
        r@ == b@,
{
    let mut r: Vec<u8> = Vec::new();
    let mut i: usize = 0;
    while i < b.len()
        invariant
            i <= b@.len(),
            r@ == b@.subrange(0, i as int),
        decreases b.len() - i,
    {
        r.push(b[i]);
        i = i + 1;
    }
    r
}

/// The native-report file of one run.
pub fn file_for(run: &ToolRun, tool: Option<&ToolConfig>) -> (r: Option<NativeFile>)
    ensures
        match r {
            Some(f) => native_file(*run, opt_config(tool)) == Some(
                file_view(f),
            ),
            None => native_file(*run, opt_config(tool)) is None,
        },
{
    if let Some(c) = tool {
        if c.output_stream == OutputStream::Filesystem {
            return None;
        }
    }
    let mut name: Vec<char> = Vec::new();
    push_str(&mut name, run.tool_name.as_str());
    push_str(&mut name, ".");
    proof {
        reveal_strlit(".");
    }
    match tool {
        Some(c) => match &c.native_extension {
            Some(e) => push_str(&mut name, e.as_str()),
            None => push_str(&mut name, "txt"),
        },
        None => push_str(&mut name, "txt"),
    }
    let use_stderr = match tool {
        Some(c) => c.output_stream == OutputStream::Stderr && run.stderr.len() > 0,
        None => false,
    };
    let data = if use_stderr {
        copy_bytes(&run.stderr)
    } else {
        copy_bytes(&run.stdout)
    };
    let n = name.len();
    assert(name@.subrange(0, n as int) =~= name@);
    let f = NativeFile { name: string_of(&name, 0, n), data };
    let ghost expected = native_file(*run, opt_config(tool))->0;
    assert(f.name@ =~= expected.0);
    Some(f)
}

/// The files of the native report of the runs, in run order.
pub fn files(runs: &Vec<ToolRun>, config: &Config) -> (r: Vec<NativeFile>)
    ensures
        r@.map_values(|f: NativeFile| file_view(f)) == native_files(runs@, config.tools@),
{
    let mut out: Vec<NativeFile> = Vec::new();
    let mut i: usize = 0;
    while i < runs.len()
        invariant
            i <= runs@.len(),
            out@.map_values(|f: NativeFile| file_view(f)) == native_files(
                runs@.subrange(0, i as int),
                config.tools@,
            ),
        decreases runs.len() - i,
    {
        let ghost p = runs@.subrange(0, i + 1);
        proof {
            assert(p.drop_last() =~= runs@.subrange(0, i as int));
            assert(p.last() == runs@[i as int]);
        }
        let tool = config.tool(runs[i].tool_name.as_str());
        let ghost before = out@.map_values(|f: NativeFile| file_view(f));
        match file_for(&runs[i], tool) {
            Some(f) => {
                out.push(f);
                assert(out@.map_values(|f: NativeFile| file_view(f)) =~= before.push(file_view(f)));
            },
            None => {},
        }
        i = i + 1;
    }
    assert(runs@.subrange(0, i as int) =~= runs@);
    out
}

} // verus!
