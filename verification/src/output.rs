//! What headless runs print about the notes they created or found.
use vstd::prelude::*;

use crate::text::push_str;

verus! {

/// Output format for headless mode.
#[derive(Clone, Copy, Debug, PartialEq, Eq, Structural)]
pub enum OutputFormat {
    Text,
    Json,
    Silent,
}

impl Default for OutputFormat {
    fn default() -> (r: OutputFormat)
        ensures
            r == OutputFormat::Text,
    {
        OutputFormat::Text
    }
}

/// Result of creating or finding a note file.
#[derive(Clone, Debug, PartialEq)]
pub struct FileResult {
    pub created: bool,
    pub path: String,
    pub date: String,
}

/// The plain values of a result: created, path and date.
pub open spec fn result_view(r: FileResult) -> (bool, Seq<char>, Seq<char>) {
    (r.created, r.path@, r.date@)
}

/// The plain values of each result.
pub open spec fn results_view(rs: Seq<FileResult>) -> Seq<(bool, Seq<char>, Seq<char>)> {
    rs.map_values(|r: FileResult| result_view(r))
}

/// The text line reporting one result: `Created: <path>` or `Found: <path>`.
pub open spec fn text_line(r: FileResult) -> Seq<char> {
    (if r.created {
        "Created"@
    } else {
        "Found"@
    }) + ": "@ + r.path@
}

/// The text lines of all results, joined by line breaks.
pub open spec fn text_report(rs: Seq<FileResult>) -> Seq<char>
    decreases rs.len(),
{
    if rs.len() == 0 {
        Seq::empty()
    } else if rs.len() == 1 {
        text_line(rs[0])
    } else {
        text_report(rs.drop_last()) + "\n"@ + text_line(rs.last())
    }
}

/// What `serde_json::to_string_pretty` writes for a list of results, each an
/// object with the fields `created`, `path` and `date` in that order.
pub uninterp spec fn pretty_json_of_results(rs: Seq<(bool, Seq<char>, Seq<char>)>) -> Seq<char>;

/// What is printed for `results` in `format`: nothing when silent.
pub open spec fn report(rs: Seq<FileResult>, format: OutputFormat) -> Option<Seq<char>> {
    match format {
        OutputFormat::Json => Some(pretty_json_of_results(results_view(rs))),
        OutputFormat::Text => Some(text_report(rs)),
        OutputFormat::Silent => None,
    }
}

/// Formats file results for output: one `Created: <path>` or `Found: <path>`
/// line per result as text, a pretty-printed JSON list, or nothing.
pub fn format_output(results: &[FileResult], format: OutputFormat) -> (r: Option<String>)
    ensures
        match report(results@, format) {
            Some(t) => r matches Some(s) && s@ == t,
            None => r is None,
        },
{
    match format {
        OutputFormat::Json => Some(results_to_pretty_json(results)),
        OutputFormat::Text => Some(text_output(results)),
        OutputFormat::Silent => None,
    }
}

fn text_output(results: &[FileResult]) -> (r: String)
    ensures
        r@ == text_report(results@),
{
    let mut out = String::new();
    let mut i: usize = 0;
    while i < results.len()
        invariant
            i <= results@.len(),
            out@ == text_report(results@.take(i as int)),
        decreases results@.len() - i,
    {
        let ghost before = out@;
        if i > 0 {
            push_str(&mut out, "\n");
        }
        let r = &results[i];
        if r.created {
            push_str(&mut out, "Created");
        } else {
            push_str(&mut out, "Found");
        }
        push_str(&mut out, ": ");
        push_str(&mut out, r.path.as_str());
        proof {
            let t = results@.take(i + 1);
            assert(t.drop_last() =~= results@.take(i as int));
            assert(t.last() == results@[i as int]);
            if i == 0 {
                assert(before =~= Seq::<char>::empty());
                assert(out@ =~= text_line(results@[0]));
            } else {
                assert(out@ =~= before + "\n"@ + text_line(results@[i as int]));
            }
        }
        i = i + 1;
    }
    proof {
        assert(results@.take(results@.len() as int) =~= results@);
    }
    out
}

/// `serde_json::to_string_pretty` on the results, each written as an object
/// with the fields `created`, `path` and `date` in that order; the result is
/// named, not stated.
#[verifier::external_body]
fn results_to_pretty_json(results: &[FileResult]) -> (r: String)
    ensures
        r@ == pretty_json_of_results(results_view(results@)),
{
    let items: Vec<serde_json::Value> = results.iter().map(|r| {
        let mut m = serde_json::Map::new();
        m.insert("created".to_string(), serde_json::Value::Bool(r.created));
        m.insert("path".to_string(), serde_json::Value::String(r.path.clone()));
        m.insert("date".to_string(), serde_json::Value::String(r.date.clone()));
        serde_json::Value::Object(m)
    }).collect();
    serde_json::to_string_pretty(&items).unwrap_or_default()
}

} // verus!
