//! Paths, held as text: where the manifest is looked for, and the default
//! workspace name taken from a project directory.
use vstd::prelude::*;

verus! {

/// The name of the manifest file.
pub const MANIFEST_FILE_NAME: &'static str = "devc.toml";

/// What `Path::join` gives for `base` and `rel`.
pub uninterp spec fn joined_path(base: Seq<char>, rel: Seq<char>) -> Seq<char>;

/// What `Path::parent` gives for `p`.
pub uninterp spec fn parent_path(p: Seq<char>) -> Option<Seq<char>>;

/// What `Path::file_name` gives for `p`.
pub uninterp spec fn final_component(p: Seq<char>) -> Option<Seq<char>>;

/// Calls `std::path::Path::join`: `base` with `rel` adjoined. The result is
/// named, not described: how separators are placed is left to std.
#[verifier::external_body]
pub(crate) fn path_join(base: &str, rel: &str) -> (r: String)
    ensures
        r@ == joined_path(base@, rel@),
{
    std::path::Path::new(base).join(rel).to_string_lossy().into_owned()
}

/// Calls `std::path::Path::parent`: `p` without its final component, or
/// `None` when `p` ends in a root or is empty. What is left is shorter than `p`.
#[verifier::external_body]
fn path_parent(p: &str) -> (r: Option<String>)
    ensures
        match r {
            Some(q) => parent_path(p@) == Some(q@) && q@.len() < p@.len(),
            None => parent_path(p@) is None,
        },
{
    std::path::Path::new(p).parent().map(|q| q.to_string_lossy().into_owned())
}

/// Calls `std::path::Path::file_name`: the final component of `p`, or `None`
/// when `p` ends in `..` or has no final component.
#[verifier::external_body]
fn path_file_name(p: &str) -> (r: Option<String>)
    ensures
        match r {
            Some(n) => final_component(p@) == Some(n@),
            None => final_component(p@) is None,
        },
{
    std::path::Path::new(p).file_name().map(|n| n.to_string_lossy().into_owned())
}

pub open spec fn views(v: Seq<String>) -> Seq<Seq<char>> {
    v.map_values(|s: String| s@)
}

/// `dirs` is `start` followed by its parent, that one's parent, and so on
/// until there is none: `Path::ancestors`.
pub open spec fn is_ancestor_chain(start: Seq<char>, dirs: Seq<Seq<char>>) -> bool {
    &&& dirs.len() > 0
    &&& dirs[0] == start
    &&& forall|i: int| 0 <= i < dirs.len() - 1 ==> parent_path(#[trigger] dirs[i]) == Some(dirs[i + 1])
    &&& parent_path(dirs.last()) is None
}

/// The manifest path in each directory of `dirs`.
pub open spec fn manifest_paths(dirs: Seq<Seq<char>>) -> Seq<Seq<char>> {
    dirs.map_values(|d: Seq<char>| joined_path(d, MANIFEST_FILE_NAME@))
}

/// `start_dir` and each of its ancestors, nearest first.
pub fn ancestors(start_dir: &str) -> (r: Vec<String>)
    ensures
        is_ancestor_chain(start_dir@, views(r@)),
{
    let mut dirs: Vec<String> = Vec::new();
    let mut cur = start_dir.to_owned();
    loop
        invariant
            forall|i: int| 0 <= i < dirs.len() - 1 ==> parent_path(#[trigger] views(dirs@)[i])
                == Some(views(dirs@)[i + 1]),
            dirs.len() == 0 ==> cur@ == start_dir@,
            dirs.len() > 0 ==> views(dirs@)[0] == start_dir@,
            dirs.len() > 0 ==> parent_path(views(dirs@).last()) == Some(cur@),
        decreases cur@.len(),
    {
        let next = path_parent(cur.as_str());
        let ghost before = views(dirs@);
        dirs.push(cur.clone());
        assert(views(dirs@) =~= before.push(cur@));
        match next {
            Some(p) => {
                cur = p;
            },
            None => {
                return dirs;
            },
        }
    }
}

/// The path the manifest would have in `start_dir` and in each of its
/// ancestors, nearest first.
pub fn manifest_candidates(start_dir: &str) -> (r: Vec<String>)
    ensures
        exists|dirs: Seq<Seq<char>>|
            is_ancestor_chain(start_dir@, dirs) && views(r@) == manifest_paths(dirs),
{
    let dirs = ancestors(start_dir);
    let mut out: Vec<String> = Vec::new();
    let mut i: usize = 0;
    while i < dirs.len()
        invariant
            i <= dirs.len(),
            views(out@) =~= manifest_paths(views(dirs@)).take(i as int),
        decreases dirs.len() - i,
    {
        let p = path_join(dirs[i].as_str(), MANIFEST_FILE_NAME);
        let ghost before = views(out@);
        let ghost all = manifest_paths(views(dirs@));
        assert(all[i as int] == joined_path(dirs@[i as int]@, MANIFEST_FILE_NAME@));
        out.push(p);
        assert(views(out@) =~= before.push(p@));
        assert(all.take(i + 1) =~= all.take(i as int).push(all[i as int]));
        i = i + 1;
    }
    assert(manifest_paths(views(dirs@)).take(i as int) =~= manifest_paths(views(dirs@)));
    out
}

/// The first of `candidates` that is a file, where `is_file[i]` says whether
/// `candidates[i]` is one: the manifest nearest to the start directory.
pub fn find_manifest_path(candidates: &Vec<String>, is_file: &Vec<bool>) -> (r: Option<String>)
    requires
        candidates.len() == is_file.len(),
    ensures
        r is Some <==> exists|i: int| 0 <= i < is_file.len() && is_file[i],
        r matches Some(p) ==> exists|i: int|
            0 <= i < is_file.len() && is_file[i] && p@ == candidates[i]@ && forall|j: int|
                0 <= j < i ==> !is_file[j],
{
    let mut i: usize = 0;
    while i < candidates.len()
        invariant
            i <= candidates.len() == is_file.len(),
            forall|j: int| 0 <= j < i ==> !is_file[j],
        decreases candidates.len() - i,
    {
        if is_file[i] {
            return Some(candidates[i].clone());
        }
        i = i + 1;
    }
    None
}

/// The workspace name that a directory's final component gives: that
/// component, or `workspace` when there is none or it is empty.
pub fn workspace_name_from(file_name: Option<String>) -> (r: String)
    ensures
        r@ == (match file_name {
            Some(n) => if n@.len() > 0 {
                n@
            } else {
                "workspace"@
            },
            None => "workspace"@,
        }),
{
    match file_name {
        Some(n) => {
            if n.as_str().is_empty() {
                "workspace".to_owned()
            } else {
                n
            }
        },
        None => "workspace".to_owned(),
    }
}

/// The final component of `dir`, or `workspace` when it has none or it is empty.
pub open spec fn default_workspace_name_of(dir: Seq<char>) -> Seq<char> {
    match final_component(dir) {
        Some(n) => if n.len() > 0 {
            n
        } else {
            "workspace"@
        },
        None => "workspace"@,
    }
}

/// The default workspace name: the final component of `project_dir`, or
/// `workspace` when it has none.
pub fn default_workspace_name(project_dir: &str) -> (r: String)
    ensures
        r@ == default_workspace_name_of(project_dir@),
{
    workspace_name_from(path_file_name(project_dir))
}

} // verus!
