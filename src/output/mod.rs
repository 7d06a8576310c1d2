//! The report formats and their renderers.
pub mod html;
pub mod json;
pub mod native;
pub mod sarif;

use vstd::prelude::*;
use crate::json::str_equal;

verus! {

/// The format of the report.
#[derive(Debug, Clone, Copy, PartialEq, Eq, Structural)]
pub enum OutputFormat {
    /// Each tool's raw output, unparsed.
    Native,
    Sarif,
    Html,
    Json,
}

/// A format name that is none of the four.
#[derive(Debug)]
pub struct UnknownFormat {
    pub name: String,
}

/// What `str::to_lowercase` makes of a text.
pub uninterp spec fn lower_of(s: Seq<char>) -> Seq<char>;

/// Relies on `str::to_lowercase`: the lower-case form of the text.
#[verifier::external_body]
fn lowercase(s: &str) -> (r: String)
    ensures
        r@ == lower_of(s@),
{
    s.to_lowercase()
}

/// The format with the lower-case name `t`.
pub open spec fn format_named(t: Seq<char>) -> Option<OutputFormat> {
    if t == "native"@ {
        Some(OutputFormat::Native)
    } else if t == "sarif"@ {
        Some(OutputFormat::Sarif)
    } else if t == "html"@ {
        Some(OutputFormat::Html)
    } else if t == "json"@ {
        Some(OutputFormat::Json)
    } else {
        None
    }
}

impl OutputFormat {
    /// The format whose name is `t`, matched exactly; `name` is what the
    /// error reports.
    pub fn from_lowercase(t: &str, name: &str) -> (r: Result<OutputFormat, UnknownFormat>)
        ensures
            match r {
                Ok(f) => format_named(t@) == Some(f),
                Err(e) => format_named(t@) is None && e.name@ == name@,
            },
    {
        if str_equal(t, "native") {
            Ok(OutputFormat::Native)
        } else if str_equal(t, "sarif") {
            Ok(OutputFormat::Sarif)
        } else if str_equal(t, "html") {
            Ok(OutputFormat::Html)
        } else if str_equal(t, "json") {
            Ok(OutputFormat::Json)
        } else {
            Err(UnknownFormat { name: String::from_str(name) })
        }
    }

    /// The format named `s`, in any letter case.
    pub fn from_str(s: &str) -> (r: Result<OutputFormat, UnknownFormat>)
        ensures
            match r {
                Ok(f) => format_named(lower_of(s@)) == Some(f),
                Err(e) => format_named(lower_of(s@)) is None && e.name@ == s@,
            },
    {
        let t = lowercase(s);
        OutputFormat::from_lowercase(t.as_str(), s)
    }

    /// Whether the format reports normalised findings rather than raw
    /// output.
    pub fn needs_findings(&self) -> (r: bool)
        ensures
            r == (*self != OutputFormat::Native),
    {
        !matches!(self, OutputFormat::Native)
    }
}


/// A report file: its name within the output directory and its text.
#[derive(Debug)]
pub struct Report {
    pub file_name: String,
    pub text: String,
}

/// Renders the report of the findings in `format`; the native format has
/// no report of its own (see [`native::files`]).
pub fn render_report(format: OutputFormat, findings: &Vec<crate::model::Finding>, project_name: &str) -> (r: Option<Report>)
    ensures
        r is None <==> format == OutputFormat::Native,
        format == OutputFormat::Html ==> r->0.file_name@ == "report.html"@ && r->0.text@
            == html::html_page(crate::model::findings_view(findings@), project_name@),
        format == OutputFormat::Json ==> r->0.file_name@ == "report.json"@ && exists|v: crate::json::JsonValue|
            json::encodes_all(v, crate::model::findings_view(findings@)) && r->0.text@
                == crate::json::json_text(v),
        format == OutputFormat::Sarif ==> r->0.file_name@ == "report.sarif"@ && exists|v: crate::json::JsonValue|
            sarif::sarif_is(v, crate::model::findings_view(findings@)) && r->0.text@
                == crate::json::json_text(v),
{
    match format {
        OutputFormat::Native => None,
        OutputFormat::Html => Some(
            Report {
                file_name: String::from_str("report.html"),
                text: html::render(findings, project_name),
            },
        ),
        OutputFormat::Json => Some(
            Report { file_name: String::from_str("report.json"), text: json::render(findings) },
        ),
        OutputFormat::Sarif => Some(
            Report { file_name: String::from_str("report.sarif"), text: sarif::render(findings) },
        ),
    }
}

} // verus!
