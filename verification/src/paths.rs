//! Paths taken as their components: which lie under which, and where the
//! workspace is.

use vstd::prelude::*;

verus! {

broadcast use vstd::string::group_string_axioms;

pub open spec fn components_view(v: Seq<String>) -> Seq<Seq<char>> {
    v.map_values(|c: String| c@)
}

/// A path lies under `root` when it begins with all of `root`'s components
/// (a path lies under itself).
pub open spec fn lies_under(path: Seq<Seq<char>>, root: Seq<Seq<char>>) -> bool {
    root.len() <= path.len() && path.take(root.len() as int) == root
}

/// Whether `path` lies under `root` (see `lies_under`).
pub fn path_lies_under(path: &Vec<String>, root: &Vec<String>) -> (r: bool)
    ensures
        r == lies_under(components_view(path@), components_view(root@)),
{
    if root.len() > path.len() {
        return false;
    }
    let ghost p = components_view(path@);
    let ghost q = components_view(root@);
    let mut i: usize = 0;
    while i < root.len()
        invariant
            root@.len() <= path@.len(),
            i <= root@.len(),
            p == components_view(path@),
            q == components_view(root@),
            forall|j: int| 0 <= j < i ==> p[j] == q[j],
        decreases root.len() - i,
    {
        if path[i] != root[i] {
            assert(p.take(q.len() as int)[i as int] != q[i as int]);
            return false;
        }
        i = i + 1;
    }
    assert(p.take(q.len() as int) =~= q);
    true
}

/// The directory the assistant works in: the current directory, or its
/// parent when the current directory is the `src-tauri` build directory.
pub open spec fn spec_workspace_root(cwd: Seq<Seq<char>>) -> Seq<Seq<char>> {
    if cwd.len() > 0 && cwd.last() == "src-tauri"@ {
        cwd.drop_last()
    } else {
        cwd
    }
}

/// The directory the assistant works in (see `spec_workspace_root`).
pub fn workspace_root(cwd: Vec<String>) -> (r: Vec<String>)
    ensures
        components_view(r@) == spec_workspace_root(components_view(cwd@)),
{
    let ghost before = components_view(cwd@);
    let mut cwd = cwd;
    let n = cwd.len();
    if n > 0 && cwd[n - 1] == "src-tauri".to_owned() {
        cwd.pop();
        assert(components_view(cwd@) =~= before.drop_last());
    }
    cwd
}

} // verus!
