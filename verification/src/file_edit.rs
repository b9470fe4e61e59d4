//! Applying a proposed code edit: which requests are refused, and what text a
//! file holds after the edit.

use vstd::prelude::*;
use crate::paths::{components_view, lies_under, path_lies_under};
use crate::text::{
    chars_of, contains, contains_exec, find, find_from_exec, lemma_find_from_some, occurs_at,
    push_all, string_from_chars, trim, trim_bounds,
};

verus! {

broadcast use vstd::string::group_string_axioms;

/// A request to replace the selected text of a file.
#[derive(Clone, Debug)]
pub struct ApplyCodeActionRequest {
    pub target_file: String,
    pub old_text: String,
    pub replacement: String,
}

/// The outcome of an applied (or unneeded) edit.
#[derive(Clone, Debug)]
pub struct ApplyCodeActionResult {
    pub target_file: String,
    pub changed: bool,
    pub message: String,
}

/// Why a request is refused before any file is touched, if it is.
pub open spec fn spec_request_error(target_file: Seq<char>, old_text: Seq<char>) -> Option<Seq<char>> {
    if trim(target_file).len() == 0 {
        Some("No target file for this action"@)
    } else if old_text.len() == 0 {
        Some("Cannot apply an empty selection"@)
    } else {
        None
    }
}

pub open spec fn unit_result_view(r: Result<(), String>) -> Option<Seq<char>> {
    match r {
        Ok(()) => None,
        Err(e) => Some(e@),
    }
}

/// Refuses a request without a target file or with an empty selection.
pub fn check_request(req: &ApplyCodeActionRequest) -> (r: Result<(), String>)
    ensures
        unit_result_view(r) == spec_request_error(req.target_file@, req.old_text@),
{
    let t = chars_of(req.target_file.as_str());
    let (a, b) = trim_bounds(t.as_slice());
    if a == b {
        return Err("No target file for this action".to_owned());
    }
    if req.old_text.as_str().unicode_len() == 0 {
        return Err("Cannot apply an empty selection".to_owned());
    }
    Ok(())
}

/// The error for a target outside the workspace.
pub const OUTSIDE_WORKSPACE_ERROR: &'static str = "Refusing to edit a file outside this workspace";

/// Refuses to edit a file (taken as its resolved path's components) that does
/// not lie under the workspace.
pub fn check_in_workspace(target: &Vec<String>, workspace: &Vec<String>) -> (r: Result<(), String>)
    ensures
        r is Ok <==> lies_under(components_view(target@), components_view(workspace@)),
        r matches Err(e) ==> e@ == OUTSIDE_WORKSPACE_ERROR@,
{
    if path_lies_under(target, workspace) {
        Ok(())
    } else {
        Err(OUTSIDE_WORKSPACE_ERROR.to_owned())
    }
}

/// `s` with its first occurrence (at `i`) of `old` replaced by `new`.
pub open spec fn replace_at(s: Seq<char>, old: Seq<char>, new: Seq<char>, i: int) -> Seq<char> {
    s.take(i) + new + s.skip(i + old.len())
}

/// `str::replacen(old, new, 1)`: the first occurrence of `old` replaced.
pub open spec fn replace_first(s: Seq<char>, old: Seq<char>, new: Seq<char>) -> Seq<char> {
    match find(s, old) {
        Some(i) => replace_at(s, old, new, i),
        None => s,
    }
}

/// What an edit does to a file's text: refused when the selection is no longer
/// in the file, no change when the replacement equals the selection, else the
/// text with the selection's first occurrence replaced.
pub open spec fn spec_plan_edit(original: Seq<char>, old_text: Seq<char>, replacement: Seq<char>) -> Result<
    Option<Seq<char>>,
    Seq<char>,
> {
    if !contains(original, old_text) {
        Err("Selected text no longer matches the file"@)
    } else if old_text == replacement {
        Ok(None)
    } else {
        Ok(Some(replace_first(original, old_text, replacement)))
    }
}

pub open spec fn plan_view(r: Result<Option<String>, String>) -> Result<Option<Seq<char>>, Seq<char>> {
    match r {
        Ok(Some(s)) => Ok(Some(s@)),
        Ok(None) => Ok(None),
        Err(e) => Err(e@),
    }
}

/// The text a file holds after an edit (see `spec_plan_edit`).
pub fn plan_edit(original: &str, old_text: &str, replacement: &str) -> (r: Result<
    Option<String>,
    String,
>)
    ensures
        plan_view(r) == spec_plan_edit(original@, old_text@, replacement@),
{
    let s = chars_of(original);
    let old = chars_of(old_text);
    let new = chars_of(replacement);
    if !contains_exec(s.as_slice(), old.as_slice()) {
        return Err("Selected text no longer matches the file".to_owned());
    }
    if old.len() == new.len() && contains_exec(new.as_slice(), old.as_slice()) {
        // equal lengths and containment: the two texts are equal
        proof {
            let i = choose|i: int| occurs_at(new@, old@, i);
            assert(i == 0);
            assert(new@.subrange(0, old@.len() as int) =~= new@);
        }
        return Ok(None);
    }
    proof {
        if old@ == new@ {
            assert(occurs_at(new@, old@, 0)) by {
                assert(new@.subrange(0, new@.len() as int) =~= new@);
            }
        }
    }
    let i = match find_from_exec(s.as_slice(), old.as_slice(), 0) {
        Some(i) => i,
        None => {
            proof {
                lemma_find_from_some(s@, old@, 0);
                let k = choose|k: int| occurs_at(s@, old@, k);
                assert(occurs_at(s@, old@, k));
            }
            return Err("Selected text no longer matches the file".to_owned());
        },
    };
    proof {
        lemma_find_from_some(s@, old@, 0);
        assert(occurs_at(s@, old@, i as int));
    }
    let n = s.len();
    let m = old.len();
    assert(i + m <= n);
    let mut out: Vec<char> = Vec::new();
    push_all(&mut out, &s[0..i]);
    push_all(&mut out, new.as_slice());
    push_all(&mut out, &s[i + old.len()..s.len()]);
    assert(out@ =~= replace_at(s@, old@, new@, i as int));
    Ok(Some(string_from_chars(out.as_slice())))
}

/// The outcome reported for an edit of `target_file`.
pub fn edit_result(target_file: String, changed: bool) -> (r: ApplyCodeActionResult)
    ensures
        r.target_file == target_file,
        r.changed == changed,
        r.message@ == (if changed {
            "Applied change"@
        } else {
            "No change needed"@
        }),
{
    ApplyCodeActionResult {
        target_file,
        changed,
        message: if changed {
            "Applied change".to_owned()
        } else {
            "No change needed".to_owned()
        },
    }
}

/// An edit is planned exactly as asked: refused when the selection no longer
/// occurs in the file; no change only when the replacement equals the
/// selection; otherwise the file's text with the first occurrence of the
/// selection (at `i`, with no occurrence before it) replaced.
pub proof fn law_edit_plan(original: Seq<char>, old_text: Seq<char>, replacement: Seq<char>)
    ensures
        spec_plan_edit(original, old_text, replacement) is Err <==> !(exists|i: int|
            occurs_at(original, old_text, i)),
        spec_plan_edit(original, old_text, replacement) == Ok::<Option<Seq<char>>, Seq<char>>(None) <==> (exists|i: int|
            occurs_at(original, old_text, i)) && old_text == replacement,
        (exists|i: int| occurs_at(original, old_text, i)) && old_text != replacement ==> exists|i: int|
            {
                &&& occurs_at(original, old_text, i)
                &&& forall|j: int| 0 <= j < i ==> !occurs_at(original, old_text, j)
                &&& spec_plan_edit(original, old_text, replacement) == Ok::<
                    Option<Seq<char>>,
                    Seq<char>,
                >(Some(original.take(i) + replacement + original.skip(i + old_text.len())))
            },
{
    if exists|i: int| occurs_at(original, old_text, i) {
        lemma_find_from_some(original, old_text, 0);
        if find(original, old_text) is None {
            let k = choose|k: int| occurs_at(original, old_text, k);
            assert(occurs_at(original, old_text, k));
        }
        let i = find(original, old_text)->Some_0;
        assert(occurs_at(original, old_text, i));
    }
}

/// An applied edit leaves the replacement in the file, just where the
/// selection first stood, with everything before and after it unchanged.
pub proof fn law_applied_edit_holds_replacement(
    original: Seq<char>,
    old_text: Seq<char>,
    replacement: Seq<char>,
)
    requires
        spec_plan_edit(original, old_text, replacement) is Ok,
        spec_plan_edit(original, old_text, replacement)->Ok_0 is Some,
    ensures
        ({
            let edited = spec_plan_edit(original, old_text, replacement)->Ok_0->Some_0;
            let i = find(original, old_text)->Some_0;
            &&& find(original, old_text) is Some
            &&& edited.take(i) == original.take(i)
            &&& occurs_at(edited, replacement, i)
            &&& edited.skip(i + replacement.len()) == original.skip(i + old_text.len())
            &&& contains(edited, replacement)
        }),
{
    lemma_find_from_some(original, old_text, 0);
    if find(original, old_text) is None {
        let k = choose|k: int| occurs_at(original, old_text, k);
        assert(occurs_at(original, old_text, k));
    }
    let i = find(original, old_text)->Some_0;
    let edited = replace_at(original, old_text, replacement, i);
    assert(edited.take(i) =~= original.take(i));
    assert(edited.subrange(i, i + replacement.len()) =~= replacement);
    assert(edited.skip(i + replacement.len()) =~= original.skip(i + old_text.len()));
    assert(occurs_at(edited, replacement, i));
}

} // verus!
