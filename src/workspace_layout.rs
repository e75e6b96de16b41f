//! Where a workspace is and where its files live.

use vstd::prelude::*;
use crate::paths::{join_path, join_path_spec};
use crate::text::{chars_of, string_of, push_str, views, replace_all, replace_str};

verus! {

/// The files whose presence marks a workspace root.
pub open spec fn workspace_markers() -> Seq<Seq<char>> {
    seq!["WORKSPACE.bazel"@, "WORKSPACE"@]
}

/// The names of the marker files, to be looked for in a candidate directory.
pub fn workspace_marker_names() -> (r: Vec<&'static str>)
    ensures
        r@.map_values(|s: &'static str| s@) == workspace_markers(),
{
    let r = vec!["WORKSPACE.bazel", "WORKSPACE"];
    assert(r@.map_values(|s: &'static str| s@) =~= workspace_markers());
    r
}

/// The root under which output trees are kept by default.
pub fn get_output_root() -> (r: String)
    ensures
        r@ == "/var/tmp"@,
{
    String::from_str("/var/tmp")
}

/// The index of the last '/' in `s`, if any.
pub open spec fn last_slash(s: Seq<char>) -> Option<int> {
    if exists|i: int| 0 <= i < s.len() && s[i] == '/' && forall|j: int| i < j < s.len() ==> s[j] != '/' {
        Some(choose|i: int| 0 <= i < s.len() && s[i] == '/' && forall|j: int| i < j < s.len() ==> s[j] != '/')
    } else {
        None
    }
}

fn find_last_slash(v: &Vec<char>) -> (r: Option<usize>)
    ensures
        match r {
            Some(i) => i < v@.len() && v@[i as int] == '/' && (forall|j: int| i < j < v@.len() ==> v@[j] != '/')
                && last_slash(v@) == Some(i as int),
            None => (forall|j: int| 0 <= j < v@.len() ==> v@[j] != '/') && last_slash(v@) is None,
        },
{
    let mut i: usize = v.len();
    while i > 0
        invariant
            i <= v@.len(),
            forall|j: int| i <= j < v@.len() ==> v@[j] != '/',
        decreases i,
    {
        if v[i - 1] == '/' {
            let k = (i - 1) as usize;
            let ghost c = choose|c: int|
                0 <= c < v@.len() && v@[c] == '/' && forall|j: int| c < j < v@.len() ==> v@[j] != '/';
            assert(0 <= k < v@.len() && v@[k as int] == '/' && forall|j: int| k < j < v@.len() ==> v@[j] != '/');
            assert(c == k as int) by {
                if c < k as int {
                    assert(v@[k as int] != '/');
                } else if c > k as int {
                    assert(v@[c] != '/');
                }
            }
            return Some(k);
        }
        i = i - 1;
    }
    None
}

/// The directory that holds `path`: everything before its last '/', the
/// root for a child of the root, the empty string for a bare name; none for
/// the root or the empty string.
pub open spec fn parent_spec(path: Seq<char>) -> Option<Seq<char>> {
    if path.len() == 0 || path == "/"@ {
        None
    } else {
        match last_slash(path) {
            None => Some(Seq::empty()),
            Some(k) => if k == 0 {
                Some("/"@)
            } else {
                Some(path.subrange(0, k))
            },
        }
    }
}

/// The directory that holds `path`.
pub fn parent_path(path: &str) -> (r: Option<String>)
    ensures
        match r {
            Some(p) => parent_spec(path@) == Some(p@),
            None => parent_spec(path@) is None,
        },
{
    let v = chars_of(path);
    if v.len() == 0 {
        return None;
    }
    proof {
        reveal_strlit("/");
    }
    if v.len() == 1 && v[0] == '/' {
        assert(path@ =~= "/"@);
        return None;
    }
    proof {
        if path@ == "/"@ {
            assert(path@[0] == '/');
        }
    }
    match find_last_slash(&v) {
        None => Some(String::new()),
        Some(k) => {
            if k == 0 {
                Some(String::from_str("/"))
            } else {
                Some(string_of(&v, 0, k))
            }
        },
    }
}

/// The part of `path` after its last '/': how a workspace is named to the
/// user.
pub open spec fn pretty_name_spec(path: Seq<char>) -> Seq<char> {
    match last_slash(path) {
        Some(k) => path.subrange(k + 1, path.len() as int),
        None => path,
    }
}

/// The last component of a workspace path.
pub fn pretty_workspace_name(workspace: &str) -> (r: String)
    ensures
        r@ == pretty_name_spec(workspace@),
{
    let v = chars_of(workspace);
    let last = find_last_slash(&v);
    match last {
        Some(k) => {
            assert(k < v.len());
            string_of(&v, k + 1, v.len())
        },
        None => String::from_str(workspace),
    }
}

/// The first candidate directory that holds a workspace marker.
pub open spec fn first_marked(candidates: Seq<Seq<char>>, marked: Seq<bool>) -> Option<Seq<char>>
    decreases candidates.len(),
{
    if candidates.len() == 0 || marked.len() == 0 {
        None
    } else if marked[0] {
        Some(candidates[0])
    } else {
        first_marked(candidates.drop_first(), marked.drop_first())
    }
}

/// Whether a directory is a workspace root, from which of its marker files
/// exist as regular files.
pub fn in_workspace(marker_is_file: &Vec<bool>) -> (r: bool)
    ensures
        r == exists|i: int| 0 <= i < marker_is_file@.len() && marker_is_file@[i],
{
    let mut i: usize = 0;
    while i < marker_is_file.len()
        invariant
            i <= marker_is_file@.len(),
            forall|j: int| 0 <= j < i ==> !marker_is_file@[j],
        decreases marker_is_file@.len() - i,
    {
        if marker_is_file[i] {
            return true;
        }
        i = i + 1;
    }
    false
}

/// The directories where a workspace may start, nearest first: `cwd` and
/// each directory above it, up to the root.
pub fn workspace_candidates(cwd: &str) -> (r: Vec<String>)
    ensures
        r@.len() >= 1,
        r@[0]@ == cwd@,
        forall|i: int| 0 <= i < r@.len() - 1 ==> parent_spec(#[trigger] r@[i]@) == Some(r@[i + 1]@),
        parent_spec(r@[r@.len() - 1]@) is None || parent_spec(r@[r@.len() - 1]@) == Some(Seq::<char>::empty()),
{
    let mut r: Vec<String> = Vec::new();
    r.push(String::from_str(cwd));
    let mut cur = String::from_str(cwd);
    loop
        invariant
            r@.len() >= 1,
            r@[0]@ == cwd@,
            r@[r@.len() - 1]@ == cur@,
            cur@.len() <= cwd@.len(),
            forall|i: int| 0 <= i < r@.len() - 1 ==> parent_spec(#[trigger] r@[i]@) == Some(r@[i + 1]@),
        decreases cur@.len(),
    {
        match parent_path(cur.as_str()) {
            None => {
                return r;
            },
            Some(p) => {
                if p.as_str().unicode_len() == 0 {
                    return r;
                }
                proof {
                    lemma_parent_shorter(cur@);
                }
                let ghost old_r = r@;
                r.push(p.clone());
                proof {
                    assert forall|i: int| 0 <= i < r@.len() - 1 implies parent_spec(#[trigger] r@[i]@)
                        == Some(r@[i + 1]@) by {
                        if i < old_r.len() - 1 {
                            assert(r@[i] == old_r[i]);
                            assert(r@[i + 1] == old_r[i + 1]);
                        }
                    }
                }
                cur = p;
            },
        }
    }
}

proof fn lemma_parent_shorter(path: Seq<char>)
    requires
        parent_spec(path) matches Some(p) && p.len() > 0,
    ensures
        parent_spec(path).unwrap().len() < path.len(),
{
    reveal_strlit("/");
    match last_slash(path) {
        None => {},
        Some(k) => {
            assert(0 <= k < path.len());
            if k == 0 {
                assert(path != "/"@);
                if path.len() == 1 {
                    assert(path[0] == '/');
                    assert(path =~= "/"@);
                }
            }
        },
    }
}

/// Finds the workspace: the first candidate (nearest first) that holds a
/// marker, told which candidates do.
pub fn find_workspace(candidates: &Vec<String>, marked: &Vec<bool>) -> (r: Result<String, String>)
    requires
        candidates@.len() == marked@.len(),
    ensures
        match first_marked(views(candidates@), marked@) {
            Some(w) => r matches Ok(x) && x@ == w,
            None => r matches Err(e) && e@ == "could not find workspace"@,
        },
{
    let ghost all = views(candidates@);
    let mut i: usize = 0;
    assert(all.subrange(0, all.len() as int) == all);
    assert(marked@.subrange(0, marked@.len() as int) == marked@);
    while i < candidates.len()
        invariant
            i <= candidates@.len(),
            candidates@.len() == marked@.len(),
            all == views(candidates@),
            first_marked(all, marked@) == first_marked(
                all.subrange(i as int, all.len() as int),
                marked@.subrange(i as int, marked@.len() as int),
            ),
        decreases candidates@.len() - i,
    {
        let ghost c = all.subrange(i as int, all.len() as int);
        let ghost m = marked@.subrange(i as int, marked@.len() as int);
        assert(c[0] == candidates@[i as int]@);
        assert(c.drop_first() =~= all.subrange(i + 1, all.len() as int));
        assert(m.drop_first() =~= marked@.subrange(i + 1, marked@.len() as int));
        if marked[i] {
            return Ok(candidates[i].clone());
        }
        i = i + 1;
    }
    Err(String::from_str("could not find workspace"))
}

/// The workspace's own rc file.
pub fn workspace_rc_path(workspace: &str) -> (r: String)
    ensures
        r@ == join_path_spec(workspace@, "tools/bazel.rc"@),
{
    join_path(workspace, "tools/bazel.rc")
}

/// Replaces the `%workspace%/` prefix marker in an rc-file path with the
/// workspace directory and a '/'.
pub fn workspace_relativize_rc_file_path(workspace: &str, path_fragment: &str) -> (r: String)
    ensures
        r@ == replace_all(path_fragment@, "%workspace%/"@, workspace@ + "/"@),
{
    proof {
        reveal_strlit("%workspace%/");
    }
    let mut rep = String::from_str(workspace);
    push_str(&mut rep, "/");
    replace_str(path_fragment, "%workspace%/", rep.as_str())
}

} // verus!
