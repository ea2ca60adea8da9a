//! What a refresh does with the files that it finds, and what it records.

use std::collections::HashMap;
use vstd::hash_map::StringHashMap;
use vstd::hash_set::StringHashSet;
use vstd::prelude::*;

use super::project::normalize_path;
use crate::db::project_path::get_full_path;
#[allow(unused_imports)]
use crate::db::project_path::{absolute, absolute_parts, full_path, law_file_comes_back, plain, restored};
use crate::text::{chars_of, starts_with, str_eq};
#[allow(unused_imports)]
use crate::text::{opt_text, starts, swap_char, texts, views};
use crate::types::InputFile;

verus! {

// ---------------------------------------------------------------------------
// Recorded files
// ---------------------------------------------------------------------------
/// A recorded directory: its name, and the directory that it lies in.
#[derive(Debug, Clone)]
pub struct DirectoryRow {
    pub id: i64,
    pub parent: Option<i64>,
    pub name: String,
}

/// A recorded file.
#[derive(Debug, Clone)]
pub struct FileRow {
    pub directory: i64,
    pub filename: String,
    pub mtime: i64,
}

/// The path of a recorded file, and when it was last changed.
#[derive(Debug, Clone)]
pub struct KnownFile {
    pub path: String,
    pub mtime: i64,
}

/// The last of the first `n` directories with the given number.
pub open spec fn directory_at(ds: Seq<DirectoryRow>, id: i64, n: int) -> Option<int>
    decreases n,
{
    if n <= 0 {
        None
    } else if ds[n - 1].id == id {
        Some(n - 1)
    } else {
        directory_at(ds, id, n - 1)
    }
}

/// The names of the directories on the way down to the one with the given
/// number, at most `fuel` of them.
pub open spec fn names_down_to(ds: Seq<DirectoryRow>, id: i64, fuel: nat) -> Seq<Seq<char>>
    decreases fuel,
{
    if fuel == 0 {
        seq![]
    } else {
        match directory_at(ds, id, ds.len() as int) {
            None => seq![],
            Some(k) => match ds[k].parent {
                None => seq![ds[k].name@],
                Some(p) => names_down_to(ds, p, (fuel - 1) as nat).push(ds[k].name@),
            },
        }
    }
}

/// The path of a file in the directory with the given number.
pub open spec fn recorded_path(ds: Seq<DirectoryRow>, id: i64, filename: Seq<char>) -> Seq<char> {
    full_path(restored(names_down_to(ds, id, ds.len())), filename)
}

/// The directory that lies `k` levels above the one with the given number.
pub open spec fn ancestor(ds: Seq<DirectoryRow>, id: i64, k: nat) -> Option<int>
    decreases k,
{
    if k == 0 {
        directory_at(ds, id, ds.len() as int)
    } else {
        match ancestor(ds, id, (k - 1) as nat) {
            Some(d) => match ds[d].parent {
                Some(p) => directory_at(ds, p, ds.len() as int),
                None => None,
            },
            None => None,
        }
    }
}

proof fn lemma_directory_at(ds: Seq<DirectoryRow>, id: i64, n: int)
    requires
        n <= ds.len(),
    ensures
        match directory_at(ds, id, n) {
            Some(k) => 0 <= k < n && ds[k].id == id,
            None => true,
        },
    decreases n,
{
    if n > 0 && ds[n - 1].id != id {
        lemma_directory_at(ds, id, n - 1);
    }
}

proof fn lemma_ancestor(ds: Seq<DirectoryRow>, id: i64, k: nat)
    ensures
        match ancestor(ds, id, k) {
            Some(d) => 0 <= d < ds.len(),
            None => true,
        },
    decreases k,
{
    if k == 0 {
        lemma_directory_at(ds, id, ds.len() as int);
    } else {
        lemma_ancestor(ds, id, (k - 1) as nat);
        match ancestor(ds, id, (k - 1) as nat) {
            Some(d) => match ds[d].parent {
                Some(p) => lemma_directory_at(ds, p, ds.len() as int),
                None => {},
            },
            None => {},
        }
    }
}

proof fn lemma_ancestor_gone(ds: Seq<DirectoryRow>, id: i64, a: nat, b: nat)
    requires
        a <= b,
        ancestor(ds, id, a) is None,
    ensures
        ancestor(ds, id, b) is None,
    decreases b,
{
    if a < b {
        lemma_ancestor_gone(ds, id, a, (b - 1) as nat);
    }
}

proof fn lemma_ancestor_repeats(ds: Seq<DirectoryRow>, id: i64, i: nat, j: nat, k: nat)
    requires
        ancestor(ds, id, i) == ancestor(ds, id, j),
    ensures
        ancestor(ds, id, i + k) == ancestor(ds, id, j + k),
    decreases k,
{
    if k > 0 {
        lemma_ancestor_repeats(ds, id, i, j, (k - 1) as nat);
        assert((i + k - 1) as nat == (i + (k - 1)) as nat);
        assert((j + k - 1) as nat == (j + (k - 1)) as nat);
    }
}

proof fn lemma_some_repeat(s: Seq<int>, n: nat)
    requires
        s.len() > n,
        forall|i: int| 0 <= i < s.len() ==> 0 <= #[trigger] s[i] < n,
    ensures
        exists|i: int, j: int| 0 <= i < j < s.len() && #[trigger] s[i] == #[trigger] s[j],
{
    if forall|i: int, j: int| 0 <= i < j < s.len() ==> #[trigger] s[i] != #[trigger] s[j] {
        assert(s.no_duplicates());
        s.unique_seq_to_set();
        vstd::set_lib::lemma_int_range(0, n as int);
        assert(s.to_set().subset_of(vstd::set_lib::set_int_range(0, n as int)));
        vstd::set_lib::lemma_len_subset(s.to_set(), vstd::set_lib::set_int_range(0, n as int));
    }
}

proof fn lemma_way_is_short(ds: Seq<DirectoryRow>, id: i64, n: nat)
    requires
        ancestor(ds, id, n) is None,
    ensures
        ancestor(ds, id, ds.len()) is None,
    decreases n,
{
    let len = ds.len();
    if n <= len {
        lemma_ancestor_gone(ds, id, n, len);
    } else if ancestor(ds, id, len) is Some {
        let s = Seq::new(len + 1, |i: int| ancestor(ds, id, i as nat).unwrap());
        assert forall|i: int| 0 <= i < s.len() implies 0 <= #[trigger] s[i] < len by {
            if ancestor(ds, id, i as nat) is None {
                lemma_ancestor_gone(ds, id, i as nat, len);
            }
            lemma_ancestor(ds, id, i as nat);
        }
        lemma_some_repeat(s, len);
        let (i, j) = choose|i: int, j: int|
            0 <= i < j < s.len() && #[trigger] s[i] == #[trigger] s[j];
        if ancestor(ds, id, i as nat) is None {
            lemma_ancestor_gone(ds, id, i as nat, len);
        }
        if ancestor(ds, id, j as nat) is None {
            lemma_ancestor_gone(ds, id, j as nat, len);
        }
        assert(ancestor(ds, id, i as nat) == ancestor(ds, id, j as nat));
        let k = (n - j) as nat;
        lemma_ancestor_repeats(ds, id, i as nat, j as nat, k);
        assert((j as nat + k) as nat == n);
        lemma_way_is_short(ds, id, (i + k) as nat);
    }
}

proof fn lemma_ancestor_step(ds: Seq<DirectoryRow>, id: i64, p: i64, k: nat)
    requires
        match directory_at(ds, id, ds.len() as int) {
            Some(d) => ds[d].parent == Some(p),
            None => false,
        },
    ensures
        ancestor(ds, id, k + 1) == ancestor(ds, p, k),
    decreases k,
{
    if k > 0 {
        lemma_ancestor_step(ds, id, p, (k - 1) as nat);
        assert((k + 1 - 1) as nat == ((k - 1) + 1) as nat);
    } else {
        assert(ancestor(ds, id, 0) == directory_at(ds, id, ds.len() as int));
        assert((0 + 1 - 1) as nat == 0nat);
    }
}

proof fn lemma_names_whole(ds: Seq<DirectoryRow>, id: i64, a: nat, b: nat)
    requires
        a <= b,
        ancestor(ds, id, a) is None,
    ensures
        names_down_to(ds, id, a) == names_down_to(ds, id, b),
    decreases a,
{
    match directory_at(ds, id, ds.len() as int) {
        None => {},
        Some(k) => {
            assert(a > 0) by {
                if a == 0 {
                    assert(ancestor(ds, id, 0) == Some(k));
                }
            }
            match ds[k].parent {
                None => {},
                Some(p) => {
                    lemma_ancestor_step(ds, id, p, (a - 1) as nat);
                    assert(((a - 1) + 1) as nat == a);
                    lemma_names_whole(ds, p, (a - 1) as nat, (b - 1) as nat);
                },
            }
        },
    }
}

/// Where the way up from a directory ends at all, the recorded path names every
/// directory on it.
pub proof fn law_recorded_path_is_whole(ds: Seq<DirectoryRow>, id: i64, n: nat, fuel: nat)
    requires
        ancestor(ds, id, n) is None,
        fuel >= ds.len(),
    ensures
        names_down_to(ds, id, fuel) == names_down_to(ds, id, ds.len()),
{
    lemma_way_is_short(ds, id, n);
    lemma_names_whole(ds, id, ds.len(), fuel);
}

/// A file is read back under the path under which it was stored: where the rows
/// hold the parts of an absolute directory, the recorded path is that directory
/// and the name of the file.
pub proof fn law_recorded_path_comes_back(
    ds: Seq<DirectoryRow>,
    id: i64,
    head: Seq<char>,
    names: Seq<Seq<char>>,
    filename: Seq<char>,
)
    requires
        head.len() == 0 || plain(head),
        forall|i: int| 0 <= i < names.len() ==> plain(#[trigger] names[i]),
        plain(filename),
        names_down_to(ds, id, ds.len()) == absolute_parts(head, names),
    ensures
        recorded_path(ds, id, filename) == absolute(
            head,
            names.push(filename),
            names.len() as int + 1,
        ),
{
    law_file_comes_back(head, names, filename);
}

/// The table gives the place of each directory.
spec fn indexes(m: Map<i64, usize>, ds: Seq<DirectoryRow>, n: int) -> bool {
    forall|id: i64|
        match directory_at(ds, id, n) {
            Some(k) => #[trigger] m.contains_key(id) && m[id] == k,
            None => !m.contains_key(id),
        }
}

/// The table of the directories.
fn index_directories(ds: &Vec<DirectoryRow>) -> (m: HashMap<i64, usize>)
    ensures
        indexes(m@, ds@, ds@.len() as int),
{
    broadcast use vstd::std_specs::hash::group_hash_axioms;

    let mut m: HashMap<i64, usize> = HashMap::new();
    let mut i: usize = 0;
    while i < ds.len()
        invariant
            i <= ds@.len(),
            indexes(m@, ds@, i as int),
        decreases ds.len() - i,
    {
        let ghost before = m@;
        m.insert(ds[i].id, i);
        assert(m@ == before.insert(ds@[i as int].id, i));
        assert forall|id: i64|
            match directory_at(ds@, id, i + 1) {
                Some(k) => #[trigger] m@.contains_key(id) && m@[id] == k,
                None => !m@.contains_key(id),
            } by {
            assert(before.contains_key(id) || !before.contains_key(id));
        }
        i = i + 1;
    }
    m
}

/// The path of a file in the directory with the given number.
fn reconstruct_path(
    ds: &Vec<DirectoryRow>,
    index: &HashMap<i64, usize>,
    directory: i64,
    filename: &str,
) -> (r: String)
    requires
        indexes(index@, ds@, ds@.len() as int),
    ensures
        r@ == recorded_path(ds@, directory, filename@),
{
    broadcast use vstd::std_specs::hash::group_hash_axioms;

    let mut up: Vec<String> = Vec::new();
    let mut fuel: usize = ds.len();
    let mut at: Option<i64> = Some(directory);
    let ghost whole = names_down_to(ds@, directory, ds@.len());
    assert(whole + texts(up@).reverse() =~= whole);
    while fuel > 0 && at.is_some()
        invariant
            indexes(index@, ds@, ds@.len() as int),
            whole == (match at {
                Some(id) => names_down_to(ds@, id, fuel as nat),
                None => seq![],
            }) + texts(up@).reverse(),
        decreases fuel,
    {
        let id: i64 = match at {
            Some(id) => id,
            None => directory,
        };
        assert(index@.contains_key(id) || !index@.contains_key(id));
        let ghost before = up@;
        proof {
            lemma_directory_at(ds@, id, ds@.len() as int);
        }
        match index.get(&id) {
            Some(k) => {
                let row = &ds[*k];
                up.push(row.name.clone());
                assert(texts(up@) =~= texts(before).push(row.name@));
                assert(texts(up@).reverse() =~= seq![row.name@] + texts(before).reverse());
                at = row.parent;
                assert(whole =~= (match at {
                    Some(id) => names_down_to(ds@, id, (fuel - 1) as nat),
                    None => seq![],
                }) + texts(up@).reverse());
            },
            None => {
                at = None;
            },
        }
        fuel = fuel - 1;
    }
    assert(whole =~= texts(up@).reverse());
    let mut parts: Vec<String> = Vec::new();
    let mut i: usize = up.len();
    assert(texts(parts@) =~= texts(up@).reverse().take(0));
    while i > 0
        invariant
            i <= up@.len(),
            texts(parts@) == texts(up@).reverse().take(up@.len() - i),
        decreases i,
    {
        i = i - 1;
        let ghost before = texts(parts@);
        parts.push(up[i].clone());
        assert(texts(parts@) =~= before.push(up@[i as int]@));
        assert(texts(parts@) =~= texts(up@).reverse().take(up@.len() - i));
    }
    assert(texts(parts@) =~= whole);
    get_full_path(&parts, filename)
}

/// The recorded files with their paths.
pub fn load_existing_files(directories: &Vec<DirectoryRow>, files: &Vec<FileRow>) -> (r: Vec<
    KnownFile,
>)
    ensures
        r@.len() == files@.len(),
        forall|i: int|
            0 <= i < files@.len() ==> (#[trigger] r@[i]).mtime == files@[i].mtime && r@[i].path@
                == recorded_path(directories@, files@[i].directory, files@[i].filename@),
{
    let index = index_directories(directories);
    let mut out: Vec<KnownFile> = Vec::new();
    let mut i: usize = 0;
    while i < files.len()
        invariant
            i <= files@.len(),
            out@.len() == i,
            indexes(index@, directories@, directories@.len() as int),
            forall|j: int|
                0 <= j < i ==> (#[trigger] out@[j]).mtime == files@[j].mtime && out@[j].path@
                    == recorded_path(directories@, files@[j].directory, files@[j].filename@),
        decreases files.len() - i,
    {
        let path = reconstruct_path(
            directories,
            &index,
            files[i].directory,
            files[i].filename.as_str(),
        );
        out.push(KnownFile { path, mtime: files[i].mtime });
        i = i + 1;
    }
    out
}

// ---------------------------------------------------------------------------
// The plan
// ---------------------------------------------------------------------------
/// What a source file ends with.
pub open spec fn source_ext(e: Seq<char>) -> bool {
    e == "h"@ || e == "hh"@ || e == "hpp"@ || e == "cpp"@ || e == "cc"@ || e == "c"@ || e == "cxx"@
        || e == "inl"@
}

/// Whether it is the extension of a source file.
pub fn is_source_extension(e: &str) -> (r: bool)
    ensures
        r == source_ext(e@),
{
    str_eq(e, "h") || str_eq(e, "hh") || str_eq(e, "hpp") || str_eq(e, "cpp") || str_eq(e, "cc")
        || str_eq(e, "c") || str_eq(e, "cxx") || str_eq(e, "inl")
}

/// A file that was found, and when it was last changed.
#[derive(Debug, Clone)]
pub struct FoundFile {
    pub path: String,
    pub extension: String,
    pub mtime: i64,
}

/// The directory of a module, and the number of the module.
#[derive(Debug, Clone)]
pub struct ModuleEntry {
    pub root: String,
    pub id: i64,
}

/// A file that is recorded without being read.
#[derive(Debug, Clone)]
pub struct FileUpsert {
    pub path: String,
    pub extension: String,
    pub mtime: i64,
    pub module_id: i64,
}

/// What a refresh does with the files.
#[derive(Debug, Clone)]
pub struct RefreshFilePlan {
    pub sources_to_parse: Vec<InputFile>,
    pub other_files: Vec<FileUpsert>,
    pub deleted: Vec<String>,
}

/// A source file that is read.
pub struct SourceView {
    pub path: Seq<char>,
    pub mtime: u64,
    pub old_hash: Option<Seq<char>>,
    pub module_id: Option<i64>,
    pub db_path: Option<Seq<char>>,
}

impl View for InputFile {
    type V = SourceView;

    open spec fn view(&self) -> SourceView {
        SourceView {
            path: self.path@,
            mtime: self.mtime,
            old_hash: opt_text(self.old_hash),
            module_id: self.module_id,
            db_path: opt_text(self.db_path),
        }
    }
}

/// A file that is recorded without being read.
pub struct UpsertView {
    pub path: Seq<char>,
    pub extension: Seq<char>,
    pub mtime: i64,
    pub module_id: i64,
}

impl View for FileUpsert {
    type V = UpsertView;

    open spec fn view(&self) -> UpsertView {
        UpsertView {
            path: self.path@,
            extension: self.extension@,
            mtime: self.mtime,
            module_id: self.module_id,
        }
    }
}

/// When the first `n` recorded files were last changed, by their paths.
pub open spec fn known_times(ks: Seq<KnownFile>, n: int) -> Map<Seq<char>, i64>
    decreases n,
{
    if n <= 0 {
        Map::empty()
    } else {
        known_times(ks, n - 1).insert(ks[n - 1].path@, ks[n - 1].mtime)
    }
}

/// The file is not recorded as it is.
pub open spec fn changed(f: FoundFile, known: Map<Seq<char>, i64>) -> bool {
    !(known.contains_key(f.path@) && known[f.path@] == f.mtime)
}

/// The longest of the first `n` module directories that the path begins with; of
/// equal ones the last.
pub open spec fn holding_module(ms: Seq<ModuleEntry>, path: Seq<char>, n: int) -> Option<int>
    decreases n,
{
    if n <= 0 {
        None
    } else {
        let before = holding_module(ms, path, n - 1);
        if !starts(path, ms[n - 1].root@) {
            before
        } else {
            match before {
                Some(b) if ms[b].root@.len() > ms[n - 1].root@.len() => before,
                _ => Some(n - 1),
            }
        }
    }
}

/// The last of the first `n` modules with the given directory.
pub open spec fn module_rooted(ms: Seq<ModuleEntry>, root: Seq<char>, n: int) -> Option<int>
    decreases n,
{
    if n <= 0 {
        None
    } else if ms[n - 1].root@ == root {
        Some(n - 1)
    } else {
        module_rooted(ms, root, n - 1)
    }
}

/// The module that files outside every other one belong to.
pub open spec fn global_module(ms: Seq<ModuleEntry>, project_root: Seq<char>) -> i64 {
    match module_rooted(ms, swap_char(project_root, '\\', '/'), ms.len() as int) {
        Some(k) => ms[k].id,
        None => 0,
    }
}

/// The module of a file.
pub open spec fn module_of_file(
    ms: Seq<ModuleEntry>,
    project_root: Seq<char>,
    path: Seq<char>,
) -> i64 {
    match holding_module(ms, path, ms.len() as int) {
        Some(k) => ms[k].id,
        None => global_module(ms, project_root),
    }
}

/// The source files among the first `n` files that have changed.
pub open spec fn to_parse(
    fs: Seq<FoundFile>,
    known: Map<Seq<char>, i64>,
    ms: Seq<ModuleEntry>,
    project_root: Seq<char>,
    n: int,
) -> Seq<SourceView>
    decreases n,
{
    if n <= 0 {
        seq![]
    } else {
        let before = to_parse(fs, known, ms, project_root, n - 1);
        let f = fs[n - 1];
        if changed(f, known) && source_ext(f.extension@) {
            before.push(
                SourceView {
                    path: f.path@,
                    mtime: f.mtime as u64,
                    old_hash: None,
                    module_id: Some(module_of_file(ms, project_root, f.path@)),
                    db_path: None,
                },
            )
        } else {
            before
        }
    }
}

/// The others among the first `n` files.
pub open spec fn to_record(
    fs: Seq<FoundFile>,
    known: Map<Seq<char>, i64>,
    ms: Seq<ModuleEntry>,
    project_root: Seq<char>,
    n: int,
) -> Seq<UpsertView>
    decreases n,
{
    if n <= 0 {
        seq![]
    } else {
        let before = to_record(fs, known, ms, project_root, n - 1);
        let f = fs[n - 1];
        if changed(f, known) && source_ext(f.extension@) {
            before
        } else {
            before.push(
                UpsertView {
                    path: f.path@,
                    extension: f.extension@,
                    mtime: f.mtime,
                    module_id: module_of_file(ms, project_root, f.path@),
                },
            )
        }
    }
}

/// The file is among the first `n` that were found.
pub open spec fn found_among(fs: Seq<FoundFile>, path: Seq<char>, n: int) -> bool {
    exists|i: int| 0 <= i < n && (#[trigger] fs[i]).path@ == path
}

/// The recorded files, of the first `n`, that were not found, each once.
pub open spec fn gone(ks: Seq<KnownFile>, fs: Seq<FoundFile>, n: int) -> Seq<Seq<char>>
    decreases n,
{
    if n <= 0 {
        seq![]
    } else {
        let before = gone(ks, fs, n - 1);
        let path = ks[n - 1].path@;
        if found_among(fs, path, fs.len() as int) || before.contains(path) {
            before
        } else {
            before.push(path)
        }
    }
}

/// Every file that was found is either read or recorded, and not both.
pub proof fn law_every_file_is_planned(
    fs: Seq<FoundFile>,
    known: Map<Seq<char>, i64>,
    ms: Seq<ModuleEntry>,
    root: Seq<char>,
    n: int,
)
    requires
        0 <= n <= fs.len(),
    ensures
        to_parse(fs, known, ms, root, n).len() + to_record(fs, known, ms, root, n).len() == n,
    decreases n,
{
    if n > 0 {
        law_every_file_is_planned(fs, known, ms, root, n - 1);
    }
}

/// Only source files that have changed are read, and all of them are.
pub proof fn law_only_changes_are_parsed(
    fs: Seq<FoundFile>,
    known: Map<Seq<char>, i64>,
    ms: Seq<ModuleEntry>,
    root: Seq<char>,
    n: int,
)
    requires
        0 <= n <= fs.len(),
    ensures
        forall|j: int|
            0 <= j < to_parse(fs, known, ms, root, n).len() ==> exists|i: int|
                0 <= i < n && (#[trigger] fs[i]).path@ == (#[trigger] to_parse(
                    fs,
                    known,
                    ms,
                    root,
                    n,
                )[j]).path && changed(fs[i], known) && source_ext(fs[i].extension@),
        forall|i: int|
            0 <= i < n && changed(fs[i], known) && source_ext(fs[i].extension@) ==> exists|j: int|
                0 <= j < to_parse(fs, known, ms, root, n).len() && (#[trigger] to_parse(
                    fs,
                    known,
                    ms,
                    root,
                    n,
                )[j]).path == (#[trigger] fs[i]).path@,
    decreases n,
{
    if n > 0 {
        law_only_changes_are_parsed(fs, known, ms, root, n - 1);
        let before = to_parse(fs, known, ms, root, n - 1);
        let after = to_parse(fs, known, ms, root, n);
        assert forall|j: int| 0 <= j < after.len() implies exists|i: int|
            0 <= i < n && (#[trigger] fs[i]).path@ == (#[trigger] after[j]).path && changed(
                fs[i],
                known,
            ) && source_ext(fs[i].extension@) by {
            if j < before.len() {
                let i = choose|i: int|
                    0 <= i < n - 1 && (#[trigger] fs[i]).path@ == before[j].path && changed(
                        fs[i],
                        known,
                    ) && source_ext(fs[i].extension@);
                assert(before[j] == after[j]);
                assert(fs[i].path@ == after[j].path);
            } else {
                assert(fs[n - 1].path@ == after[j].path);
            }
        }
        assert forall|i: int|
            0 <= i < n && changed(fs[i], known) && source_ext(
                fs[i].extension@,
            ) implies exists|j: int|
            0 <= j < after.len() && (#[trigger] after[j]).path == (#[trigger] fs[i]).path@ by {
            if i < n - 1 {
                let j = choose|j: int|
                    0 <= j < before.len() && (#[trigger] before[j]).path == fs[i].path@;
                assert(after[j] == before[j]);
            } else {
                assert(after[after.len() - 1].path == fs[i].path@);
            }
        }
    }
}

/// A recorded file is removed exactly where it was not found.
pub proof fn law_gone(ks: Seq<KnownFile>, fs: Seq<FoundFile>, n: int)
    requires
        0 <= n <= ks.len(),
    ensures
        gone(ks, fs, n).no_duplicates(),
        forall|p: Seq<char>| #[trigger]
            gone(ks, fs, n).contains(p) ==> !found_among(fs, p, fs.len() as int),
        forall|i: int|
            0 <= i < n ==> gone(ks, fs, n).contains((#[trigger] ks[i]).path@) || found_among(
                fs,
                ks[i].path@,
                fs.len() as int,
            ),
    decreases n,
{
    if n > 0 {
        law_gone(ks, fs, n - 1);
        let before = gone(ks, fs, n - 1);
        let after = gone(ks, fs, n);
        let path = ks[n - 1].path@;
        if after != before {
            assert forall|p: Seq<char>| #[trigger] after.contains(p) implies !found_among(
                fs,
                p,
                fs.len() as int,
            ) by {
                let k = choose|k: int| 0 <= k < after.len() && after[k] == p;
                if k < before.len() {
                    assert(before[k] == p);
                    assert(before.contains(p));
                }
            }
            assert forall|p: Seq<char>| before.contains(p) implies #[trigger] after.contains(p) by {
                let k = choose|k: int| 0 <= k < before.len() && before[k] == p;
                assert(after[k] == p);
            }
            assert(after[after.len() - 1] == path);
            assert(after.contains(path));
        }
    }
}

/// The module of a file is one whose directory the path begins with, and no other
/// such directory is longer.
pub proof fn law_holding_module(ms: Seq<ModuleEntry>, path: Seq<char>, n: int)
    requires
        0 <= n <= ms.len(),
    ensures
        match holding_module(ms, path, n) {
            Some(k) => 0 <= k < n && starts(path, ms[k].root@) && (forall|i: int|
                0 <= i < n && starts(path, (#[trigger] ms[i]).root@) ==> ms[i].root@.len()
                    <= ms[k].root@.len()),
            None => forall|i: int| 0 <= i < n ==> !starts(path, (#[trigger] ms[i]).root@),
        },
    decreases n,
{
    if n > 0 {
        law_holding_module(ms, path, n - 1);
    }
}

/// The module of a file.
fn find_module(ms: &Vec<ModuleEntry>, path: &str, global: i64) -> (r: i64)
    ensures
        r == (match holding_module(ms@, path@, ms@.len() as int) {
            Some(k) => ms@[k].id,
            None => global,
        }),
{
    let p = chars_of(path);
    let mut best: Option<usize> = None;
    let mut best_len: usize = 0;
    let mut i: usize = 0;
    while i < ms.len()
        invariant
            i <= ms@.len(),
            p@ == path@,
            match best {
                Some(b) => b < i && holding_module(ms@, path@, i as int) == Some(b as int)
                    && best_len == ms@[b as int].root@.len(),
                None => holding_module(ms@, path@, i as int) is None,
            },
        decreases ms.len() - i,
    {
        let root = chars_of(ms[i].root.as_str());
        if starts_with(p.as_slice(), root.as_slice()) && (best.is_none() || best_len
            <= root.len()) {
            best = Some(i);
            best_len = root.len();
        }
        i = i + 1;
    }
    match best {
        Some(b) => ms[b].id,
        None => global,
    }
}

/// The module that files outside every other one belong to.
fn find_global(ms: &Vec<ModuleEntry>, project_root: &str) -> (r: i64)
    ensures
        r == global_module(ms@, project_root@),
{
    let root = normalize_path(project_root);
    let mut i: usize = ms.len();
    while i > 0
        invariant
            i <= ms@.len(),
            root@ == swap_char(project_root@, '\\', '/'),
            module_rooted(ms@, root@, ms@.len() as int) == module_rooted(ms@, root@, i as int),
        decreases i,
    {
        if str_eq(ms[i - 1].root.as_str(), root.as_str()) {
            return ms[i - 1].id;
        }
        i = i - 1;
    }
    0
}

/// The recorded times by path.
fn times_of(existing: &Vec<KnownFile>) -> (m: StringHashMap<i64>)
    ensures
        m@ == known_times(existing@, existing@.len() as int),
{
    let mut m: StringHashMap<i64> = StringHashMap::new();
    let mut i: usize = 0;
    while i < existing.len()
        invariant
            i <= existing@.len(),
            m@ == known_times(existing@, i as int),
        decreases existing.len() - i,
    {
        m.insert(existing[i].path.clone(), existing[i].mtime);
        i = i + 1;
    }
    m
}

/// The paths of the files that were found.
fn paths_of(files: &Vec<FoundFile>) -> (s: StringHashSet)
    ensures
        forall|p: Seq<char>| #[trigger]
            s@.contains(p) == found_among(files@, p, files@.len() as int),
{
    let mut s = StringHashSet::new();
    let mut i: usize = 0;
    while i < files.len()
        invariant
            i <= files@.len(),
            forall|p: Seq<char>| #[trigger]
                s@.contains(p) == found_among(files@, p, i as int),
        decreases files.len() - i,
    {
        let ghost before = s@;
        s.insert(files[i].path.clone());
        assert forall|p: Seq<char>| #[trigger]
            s@.contains(p) == found_among(files@, p, i + 1) by {
            assert(before.contains(p) == found_among(files@, p, i as int));
            if p == files@[i as int].path@ {
                assert(files@[i as int].path@ == p);
            } else if found_among(files@, p, i + 1) {
                let k = choose|k: int| 0 <= k < i + 1 && (#[trigger] files@[k]).path@ == p;
                assert(k < i);
            } else if found_among(files@, p, i as int) {
                let k = choose|k: int| 0 <= k < i && (#[trigger] files@[k]).path@ == p;
                assert(files@[k].path@ == p);
            }
        }
        i = i + 1;
    }
    s
}

/// The recorded files that were not found.
fn find_gone(existing: &Vec<KnownFile>, files: &Vec<FoundFile>) -> (r: Vec<String>)
    ensures
        texts(r@) == gone(existing@, files@, existing@.len() as int),
{
    let on_disk = paths_of(files);
    let mut seen = StringHashSet::new();
    let mut out: Vec<String> = Vec::new();
    let mut i: usize = 0;
    assert(texts(out@) =~= seq![]);
    while i < existing.len()
        invariant
            i <= existing@.len(),
            texts(out@) == gone(existing@, files@, i as int),
            forall|p: Seq<char>| #[trigger]
                on_disk@.contains(p) == found_among(files@, p, files@.len() as int),
            forall|p: Seq<char>| #[trigger] seen@.contains(p) == texts(out@).contains(p),
        decreases existing.len() - i,
    {
        let path = &existing[i].path;
        let ghost before = texts(out@);
        assert(seen@.contains(path@) == before.contains(path@));
        assert(on_disk@.contains(path@) == found_among(files@, path@, files@.len() as int));
        if !on_disk.contains(path.as_str()) && !seen.contains(path.as_str()) {
            seen.insert(path.clone());
            out.push(path.clone());
            assert(texts(out@) =~= before.push(path@));
            assert forall|p: Seq<char>| #[trigger] seen@.contains(p) == texts(out@).contains(p) by {
                if texts(out@).contains(p) {
                    let k = choose|k: int| 0 <= k < texts(out@).len() && texts(out@)[k] == p;
                    if k < before.len() {
                        assert(before[k] == p);
                        assert(before.contains(p));
                    }
                } else {
                    if before.contains(p) {
                        let k = choose|k: int| 0 <= k < before.len() && before[k] == p;
                        assert(texts(out@)[k] == p);
                    }
                    if p == path@ {
                        assert(texts(out@)[before.len() as int] == p);
                    }
                }
            }
        }
        i = i + 1;
    }
    out
}

/// What a refresh does with the files: source files that have changed are read,
/// the others recorded, and those that are gone removed.
pub fn build_file_plan(
    files: &Vec<FoundFile>,
    existing: &Vec<KnownFile>,
    modules: &Vec<ModuleEntry>,
    project_root: &str,
) -> (r: RefreshFilePlan)
    ensures
        ({
            let known = known_times(existing@, existing@.len() as int);
            let n = files@.len() as int;
            &&& views(r.sources_to_parse@) == to_parse(
                files@,
                known,
                modules@,
                project_root@,
                n,
            )
            &&& views(r.other_files@) == to_record(files@, known, modules@, project_root@, n)
            &&& texts(r.deleted@) == gone(existing@, files@, existing@.len() as int)
        }),
{
    let global: i64 = find_global(modules, project_root);
    let times = times_of(existing);
    let ghost known = times@;
    let ghost root = project_root@;
    let mut sources: Vec<InputFile> = Vec::new();
    let mut others: Vec<FileUpsert> = Vec::new();
    let mut i: usize = 0;
    assert(views(sources@) =~= seq![]);
    assert(views(others@) =~= seq![]);
    while i < files.len()
        invariant
            i <= files@.len(),
            known == times@,
            root == project_root@,
            global == global_module(modules@, root),
            views(sources@) == to_parse(files@, known, modules@, root, i as int),
            views(others@) == to_record(files@, known, modules@, root, i as int),
        decreases files.len() - i,
    {
        let f = &files[i];
        let module_id: i64 = find_module(modules, f.path.as_str(), global);
        assert(module_id == module_of_file(modules@, root, f.path@));
        let same: bool = match times.get(f.path.as_str()) {
            Some(t) => *t == f.mtime,
            None => false,
        };
        assert(same == !changed(*f, known));
        if !same && is_source_extension(f.extension.as_str()) {
            let ghost before = views(sources@);
            let s = InputFile {
                path: f.path.clone(),
                mtime: #[verifier::truncate]
                (f.mtime as u64),
                old_hash: None,
                module_id: Some(module_id),
                db_path: None,
            };
            sources.push(s);
            assert(views(sources@) =~= before.push(s@));
        } else {
            let ghost before = views(others@);
            let u = FileUpsert {
                path: f.path.clone(),
                extension: f.extension.clone(),
                mtime: f.mtime,
                module_id,
            };
            others.push(u);
            assert(views(others@) =~= before.push(u@));
        }
        i = i + 1;
    }
    let deleted = find_gone(existing, files);
    RefreshFilePlan { sources_to_parse: sources, other_files: others, deleted }
}

} // verus!
