//! What follows from a change in the file system.

use vstd::prelude::*;

use super::asset::is_important_asset;
#[allow(unused_imports)]
use super::asset::important_asset;
#[allow(unused_imports)]
use super::utils::{drive_upper, inside, native_path, unix_path};
use super::utils::{normalize_for, normalize_to_unix, path_starts_with, watched_drive};
use crate::paths::lower_extension_of;
#[allow(unused_imports)]
use crate::paths::lower_extension;
use crate::text::{byte_count, chars_of, is_str};
#[allow(unused_imports)]
use crate::text::{byte_len, texts};
use crate::types::{InputFile, ParseResult};

verus! {

// ---------------------------------------------------------------------------
// Projects
// ---------------------------------------------------------------------------
/// A project that the server knows: its directory and its database.
#[derive(Debug, Clone)]
pub struct ProjectEntry {
    pub root: String,
    pub db_path: String,
}

/// The project that a file belongs to.
#[derive(Debug, Clone)]
pub struct MatchedProject {
    pub root_key: String,
    pub db_path_unix: String,
}

/// The path of a change, with slashes only and the drive in upper case.
pub fn normalize_watched_path(path: &str, windows: bool) -> (r: String)
    ensures
        r@ == drive_upper(unix_path(path@), windows),
{
    let unix = normalize_to_unix(path);
    watched_drive(unix.as_str(), windows)
}

/// The path lies in the directory of the project, case aside.
pub open spec fn within(p: ProjectEntry, path: Seq<char>) -> bool {
    inside(path, p.root@)
}

/// The project with the longest directory among the first `n` that the path lies
/// in; of equally long ones the last.
pub open spec fn project_at(ps: Seq<ProjectEntry>, path: Seq<char>, n: int) -> Option<int>
    decreases n,
{
    if n <= 0 {
        None
    } else {
        let before = project_at(ps, path, n - 1);
        if !within(ps[n - 1], path) {
            before
        } else {
            match before {
                Some(b) if byte_len(ps[b].root@) > byte_len(ps[n - 1].root@) => before,
                _ => Some(n - 1),
            }
        }
    }
}

/// The project that is found holds the path, and no other that does has a longer
/// directory; none is found only where none holds it.
pub proof fn law_project_at(ps: Seq<ProjectEntry>, path: Seq<char>, n: int)
    requires
        0 <= n <= ps.len(),
    ensures
        match project_at(ps, path, n) {
            Some(k) => 0 <= k < n && within(ps[k], path) && (forall|i: int|
                0 <= i < n && within(#[trigger] ps[i], path) ==> byte_len(ps[i].root@) <= byte_len(
                    ps[k].root@,
                )),
            None => forall|i: int| 0 <= i < n ==> !within(#[trigger] ps[i], path),
        },
    decreases n,
{
    if n > 0 {
        law_project_at(ps, path, n - 1);
    }
}

/// The project that a path belongs to: of several the one with the longest
/// directory.
pub fn find_project_for_path(projects: &Vec<ProjectEntry>, path: &str) -> (r: Option<
    MatchedProject,
>)
    ensures
        match r {
            Some(p) => project_at(projects@, path@, projects@.len() as int) matches Some(k)
                && p.root_key@ == projects@[k].root@ && p.db_path_unix@ == projects@[k].db_path@,
            None => project_at(projects@, path@, projects@.len() as int) is None,
        },
{
    let mut best: Option<usize> = None;
    let mut best_len: u128 = 0;
    let mut i: usize = 0;
    while i < projects.len()
        invariant
            i <= projects@.len(),
            match best {
                Some(b) => b < i && project_at(projects@, path@, i as int) == Some(b as int)
                    && best_len == byte_len(projects@[b as int].root@),
                None => project_at(projects@, path@, i as int) is None,
            },
        decreases projects.len() - i,
    {
        let chars = chars_of(projects[i].root.as_str());
        let len: u128 = byte_count(chars.as_slice());
        if path_starts_with(path, projects[i].root.as_str()) && (best.is_none() || best_len <= len) {
            best = Some(i);
            best_len = len;
        }
        i = i + 1;
    }
    match best {
        Some(b) => Some(
            MatchedProject {
                root_key: projects[b].root.clone(),
                db_path_unix: projects[b].db_path.clone(),
            },
        ),
        None => None,
    }
}

// ---------------------------------------------------------------------------
// Changes
// ---------------------------------------------------------------------------
/// What a change of a file calls for.
#[derive(Debug, Clone, Copy, PartialEq, Eq, Structural)]
pub enum ChangeKind {
    /// The configuration has to be read anew.
    Config,
    /// The asset has to be read anew.
    Asset,
    /// The source has to be read anew.
    Source,
    /// Nothing.
    Nothing,
}

/// What a change of the file calls for.
pub open spec fn change_of(path: Seq<char>, windows: bool) -> ChangeKind {
    match lower_extension(path, windows) {
        None => ChangeKind::Nothing,
        Some(e) => if e == "ini"@ {
            ChangeKind::Config
        } else if e == "uasset"@ || e == "umap"@ {
            if important_asset(path, windows) {
                ChangeKind::Asset
            } else {
                ChangeKind::Nothing
            }
        } else if e == "h"@ || e == "hh"@ || e == "hpp"@ || e == "cpp"@ || e == "cc"@ || e == "cxx"@
            || e == "inl"@ || e == "cs"@ {
            ChangeKind::Source
        } else {
            ChangeKind::Nothing
        },
    }
}

/// What a change of the file calls for.
pub fn classify_change(path: &str, windows: bool) -> (r: ChangeKind)
    ensures
        r == change_of(path@, windows),
{
    let v = chars_of(path);
    match lower_extension_of(v.as_slice(), windows) {
        None => ChangeKind::Nothing,
        Some(ext) => {
            let e = ext.as_slice();
            if is_str(e, "ini") {
                ChangeKind::Config
            } else if is_str(e, "uasset") || is_str(e, "umap") {
                if is_important_asset(path, windows) {
                    ChangeKind::Asset
                } else {
                    ChangeKind::Nothing
                }
            } else if is_str(e, "h") || is_str(e, "hh") || is_str(e, "hpp") || is_str(e, "cpp")
                || is_str(e, "cc") || is_str(e, "cxx") || is_str(e, "inl") || is_str(e, "cs") {
                ChangeKind::Source
            } else {
                ChangeKind::Nothing
            }
        },
    }
}

/// What follows from a change: what it calls for, the path, and the project.
#[derive(Debug, Clone)]
pub struct FileChange {
    pub kind: ChangeKind,
    pub path: String,
    pub project: MatchedProject,
}

/// What follows from a change of the file at the path: nothing where it is not a
/// file any more, belongs to no project, or is of no kind that matters.
pub fn handle_file_change(
    projects: &Vec<ProjectEntry>,
    path: &str,
    is_file: bool,
    windows: bool,
) -> (r: Option<FileChange>)
    ensures
        ({
            let p = drive_upper(unix_path(path@), windows);
            let at = project_at(projects@, p, projects@.len() as int);
            match r {
                Some(c) => is_file && at is Some && c.kind == change_of(path@, windows) && c.kind
                    != ChangeKind::Nothing && c.path@ == p && c.project.root_key@
                    == projects@[at.unwrap()].root@ && c.project.db_path_unix@
                    == projects@[at.unwrap()].db_path@,
                None => !is_file || at is None || change_of(path@, windows) == ChangeKind::Nothing,
            }
        }),
{
    if !is_file {
        return None;
    }
    let normalized = normalize_watched_path(path, windows);
    let project = match find_project_for_path(projects, normalized.as_str()) {
        Some(p) => p,
        None => {
            return None;
        },
    };
    let kind = classify_change(path, windows);
    match kind {
        ChangeKind::Nothing => None,
        _ => Some(FileChange { kind, path: normalized, project }),
    }
}

/// The source that has to be read anew.
pub fn rescan_input(change: &FileChange, mtime: u64, module_id: i64, windows: bool) -> (r:
    InputFile)
    ensures
        r.path@ == change.path@,
        r.mtime == mtime,
        r.old_hash is None,
        r.module_id == Some(module_id),
        r.db_path matches Some(d) && d@ == native_path(change.project.db_path_unix@, windows),
{
    InputFile {
        path: change.path.clone(),
        mtime,
        old_hash: None,
        module_id: Some(module_id),
        db_path: Some(normalize_for(change.project.db_path_unix.as_str(), windows)),
    }
}

/// The names of the classes that were read.
pub open spec fn class_names(r: ParseResult) -> Seq<Seq<char>> {
    match r.data {
        Some(d) => Seq::new(d.classes@.len(), |i: int| d.classes@[i].class_name@),
        None => seq![],
    }
}

/// The classes whose completions are out of date.
pub fn classes_to_invalidate(result: &ParseResult) -> (r: Vec<String>)
    ensures
        texts(r@) == class_names(*result),
{
    let ghost goal = class_names(*result);
    let mut out: Vec<String> = Vec::new();
    match &result.data {
        Some(d) => {
            let mut i: usize = 0;
            assert(texts(out@) =~= goal.take(0));
            while i < d.classes.len()
                invariant
                    i <= d.classes@.len(),
                    goal == Seq::new(d.classes@.len(), |k: int| d.classes@[k].class_name@),
                    texts(out@) == goal.take(i as int),
                decreases d.classes.len() - i,
            {
                let ghost before = texts(out@);
                out.push(d.classes[i].class_name.clone());
                assert(texts(out@) =~= before.push(d.classes@[i as int].class_name@));
                assert(texts(out@) =~= goal.take(i + 1));
                i = i + 1;
            }
            assert(goal.take(goal.len() as int) =~= goal);
        },
        None => {
            assert(texts(out@) =~= goal);
        },
    }
    out
}

} // verus!
