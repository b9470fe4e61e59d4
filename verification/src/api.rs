//! The local HTTP interface: the transcript it keeps and the checks and texts
//! of its requests.

use vstd::prelude::*;
use crate::paths::{components_view, lies_under, path_lies_under};
use crate::text::{chars_of, concat, string_from_chars, trim, trim_bounds};

verus! {

broadcast use vstd::string::group_string_axioms;

/// Address the local interface listens on.
pub const API_ADDR: &'static str = "127.0.0.1:17373";

/// One line of the conversation transcript.
#[derive(Clone, Debug)]
pub struct TranscriptEntry {
    pub role: String,
    pub text: String,
    pub kind: String,
    pub timestamp: String,
}

/// A transcript line, stamped with the given time.
pub fn transcript_entry(role: &str, text: &str, kind: &str, timestamp: String) -> (r: TranscriptEntry)
    ensures
        r.role@ == role@,
        r.text@ == text@,
        r.kind@ == kind@,
        r.timestamp == timestamp,
{
    TranscriptEntry {
        role: role.to_owned(),
        text: text.to_owned(),
        kind: kind.to_owned(),
        timestamp,
    }
}

fn trimmed(s: &str) -> (r: String)
    ensures
        r@ == trim(s@),
{
    let v = chars_of(s);
    let (a, b) = trim_bounds(v.as_slice());
    string_from_chars(&v[a..b])
}

/// A required text field: trimmed, refused when blank with `"<what> is required"`.
pub open spec fn spec_required(s: Seq<char>, what: Seq<char>) -> Result<Seq<char>, Seq<char>> {
    if trim(s).len() == 0 {
        Err(what + " is required"@)
    } else {
        Ok(trim(s))
    }
}

pub open spec fn string_result_view(r: Result<String, String>) -> Result<Seq<char>, Seq<char>> {
    match r {
        Ok(s) => Ok(s@),
        Err(e) => Err(e@),
    }
}

/// A required text field (see `spec_required`).
pub fn required_field(s: &str, what: &str) -> (r: Result<String, String>)
    ensures
        string_result_view(r) == spec_required(s@, what@),
{
    let t = trimmed(s);
    if t.as_str().unicode_len() == 0 {
        Err(concat(what, " is required"))
    } else {
        Ok(t)
    }
}

/// What the transcript records for an edit request.
pub open spec fn spec_write_label(instruction: Seq<char>) -> Seq<char> {
    if trim(instruction).len() == 0 {
        "Infer and apply the best edit."@
    } else {
        trim(instruction)
    }
}

/// What the transcript records for an edit request.
pub fn write_label(instruction: &str) -> (r: String)
    ensures
        r@ == spec_write_label(instruction@),
{
    let t = trimmed(instruction);
    if t.as_str().unicode_len() == 0 {
        "Infer and apply the best edit.".to_owned()
    } else {
        t
    }
}

/// The text a code search reports: its output, else its error output, else
/// `"no matches"` when it failed silently.
pub open spec fn spec_rg_output(stdout: Seq<char>, stderr: Seq<char>, success: bool) -> Seq<char> {
    if stdout.len() > 0 {
        stdout
    } else if stderr.len() > 0 {
        stderr
    } else if !success {
        "no matches"@
    } else {
        seq![]
    }
}

/// The text a code search reports (see `spec_rg_output`).
pub fn rg_output(stdout: String, stderr: String, success: bool) -> (r: String)
    ensures
        r@ == spec_rg_output(stdout@, stderr@, success),
{
    if stdout.as_str().unicode_len() > 0 {
        stdout
    } else if stderr.as_str().unicode_len() > 0 {
        stderr
    } else if !success {
        "no matches".to_owned()
    } else {
        String::new()
    }
}

/// The command line a code search reports having run.
pub fn rg_command_line(query: &str, search_path: &str) -> (r: String)
    ensures
        r@ == "rg --line-number --color never "@ + query@ + " "@ + search_path@,
{
    let mut r = concat("rg --line-number --color never ", query);
    r.append(" ");
    r.append(search_path);
    r
}

/// The error for a path outside the places the interface may read.
pub const OUTSIDE_ERROR: &'static str = "path is outside workspace/wiki";

/// Whether a resolved path may be read: it must lie under the workspace or
/// under the wiki, component by component; otherwise the request is refused.
pub fn check_path_allowed(path: &Vec<String>, workspace: &Vec<String>, wiki: &Vec<String>) -> (r: Result<
    (),
    String,
>)
    ensures
        r is Ok <==> lies_under(components_view(path@), components_view(workspace@)) || lies_under(
            components_view(path@),
            components_view(wiki@),
        ),
        r matches Err(e) ==> e@ == OUTSIDE_ERROR@,
{
    if path_lies_under(path, workspace) || path_lies_under(path, wiki) {
        Ok(())
    } else {
        Err(OUTSIDE_ERROR.to_owned())
    }
}

} // verus!
