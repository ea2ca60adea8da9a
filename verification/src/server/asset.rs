//! The assets of a project, and what refers to what.

use vstd::hash_set::StringHashSet;
use vstd::prelude::*;
use vstd::slice::slice_subrange;

use crate::paths::{file_name_of, lower_extension_of};
#[allow(unused_imports)]
use crate::paths::{file_name, lower_extension};
use crate::text::{chars_of, concat, find_str, is_str, replace_char, replace_str, rfind_char, same,
    starts_with_str, string_of, to_lower};
#[allow(unused_imports)]
use crate::text::{find, last_index_of, lower, opt_text, replace_all, starts, swap_char, texts};
use crate::uasset::{AssetError, UAssetParser};
#[allow(unused_imports)]
use crate::uasset::{lists_references, package_of, parent_class_of, PackageView};

verus! {

// ---------------------------------------------------------------------------
// Paths
// ---------------------------------------------------------------------------
/// The path with single slashes.
pub open spec fn single_slashed(s: Seq<char>) -> Seq<char> {
    replace_all(swap_char(s, '\\', '/'), "//"@, "/"@)
}

/// The path with single slashes, as characters.
fn normalize_path(path: &str) -> (r: Vec<char>)
    ensures
        r@ == single_slashed(path@),
{
    let v = chars_of(path);
    let v = replace_char(v.as_slice(), '\\', '/');
    proof {
        reveal_strlit("//");
    }
    replace_str(v.as_slice(), "//", "/")
}

/// The text up to its last dot.
pub open spec fn without_extension(s: Seq<char>) -> Seq<char> {
    match last_index_of(s, '.') {
        Some(i) => s.take(i),
        None => s,
    }
}

/// The path under which the engine knows the asset.
pub open spec fn asset_path(path: Seq<char>) -> Seq<char> {
    let s = single_slashed(path);
    match find(s, "/Content/"@) {
        Some(i) => "/Game/"@ + without_extension(s.skip(i + 9)),
        None => s,
    }
}

/// The path under which the engine knows the asset.
pub fn to_asset_path(path: &str) -> (r: String)
    ensures
        r@ == asset_path(path@),
{
    let s = normalize_path(path);
    proof {
        reveal_strlit("/Content/");
    }
    match find_str(s.as_slice(), "/Content/") {
        Some(i) => {
            let sub = slice_subrange(s.as_slice(), i + 9, s.len());
            assert(sub@ =~= s@.skip(i + 9));
            let base = match rfind_char(sub, '.') {
                Some(k) => {
                    assert(sub@.subrange(0, k as int) =~= sub@.take(k as int));
                    string_of(slice_subrange(sub, 0, k))
                },
                None => string_of(sub),
            };
            concat("/Game/", base.as_str())
        },
        None => string_of(s.as_slice()),
    }
}

/// The directory is left out of a scan.
pub open spec fn ignored_dir(path: Seq<char>, windows: bool) -> bool {
    match file_name(path, windows) {
        Some(n) => n == "Intermediate"@ || n == "Binaries"@ || n == "Build"@ || n == "Saved"@ || n
            == ".git"@ || n == ".vs"@ || n == "DerivedDataCache"@,
        None => false,
    }
}

/// Whether the directory is left out of a scan.
pub fn is_ignored_dir(path: &str, windows: bool) -> (r: bool)
    ensures
        r == ignored_dir(path@, windows),
{
    let v = chars_of(path);
    match file_name_of(v.as_slice(), windows) {
        Some(n) => is_str(n, "Intermediate") || is_str(n, "Binaries") || is_str(n, "Build")
            || is_str(n, "Saved") || is_str(n, ".git") || is_str(n, ".vs") || is_str(
            n,
            "DerivedDataCache",
        ),
        None => false,
    }
}

/// The path ends as an asset or a map does.
pub open spec fn asset_file(path: Seq<char>, windows: bool) -> bool {
    lower_extension(path, windows) == Some("uasset"@) || lower_extension(path, windows) == Some(
        "umap"@,
    )
}

/// Whether the path ends as an asset or a map does.
pub fn is_unreal_asset_file(path: &str, windows: bool) -> (r: bool)
    ensures
        r == asset_file(path@, windows),
{
    let v = chars_of(path);
    match lower_extension_of(v.as_slice(), windows) {
        Some(e) => is_str(e.as_slice(), "uasset") || is_str(e.as_slice(), "umap"),
        None => false,
    }
}

/// The name of an asset that is worth reading.
pub open spec fn telling_name(n: Seq<char>) -> bool {
    starts(n, "BP_"@) || starts(n, "ABP_"@) || starts(n, "WBP_"@) || starts(n, "AM_"@) || starts(
        n,
        "DA_"@,
    ) || starts(n, "DT_"@)
}

/// The asset is worth reading: a map, or one with a telling name.
pub open spec fn important_asset(path: Seq<char>, windows: bool) -> bool {
    lower_extension(path, windows) == Some("umap"@) || (match file_name(path, windows) {
        Some(n) => telling_name(n),
        None => false,
    })
}

/// Whether the asset is worth reading.
pub fn is_important_asset(path: &str, windows: bool) -> (r: bool)
    ensures
        r == important_asset(path@, windows),
{
    let v = chars_of(path);
    match lower_extension_of(v.as_slice(), windows) {
        Some(e) => {
            if is_str(e.as_slice(), "umap") {
                return true;
            }
        },
        None => {},
    }
    match file_name_of(v.as_slice(), windows) {
        Some(n) => starts_with_str(n, "BP_") || starts_with_str(n, "ABP_") || starts_with_str(
            n,
            "WBP_",
        ) || starts_with_str(n, "AM_") || starts_with_str(n, "DA_") || starts_with_str(n, "DT_"),
        None => false,
    }
}

/// Whether a directory holds the content of a project, by its name.
pub fn is_content_dir(name: &str) -> (r: bool)
    ensures
        r == (lower(name@) == lower("Content"@)),
{
    let v = chars_of(name);
    let a = to_lower(v.as_slice());
    let c = chars_of("Content");
    let b = to_lower(c.as_slice());
    same(a.as_slice(), b.as_slice())
}

/// Whether an entry of the walk is an asset that is read.
pub fn is_candidate_asset(path: &str, is_file: bool, windows: bool) -> (r: bool)
    ensures
        r == (is_file && asset_file(path@, windows) && important_asset(path@, windows)),
{
    is_file && is_unreal_asset_file(path, windows) && is_important_asset(path, windows)
}

/// One of the paths is the given one, but for slashes.
pub open spec fn same_path_among(paths: Seq<Seq<char>>, path: Seq<char>) -> bool {
    exists|i: int|
        0 <= i < paths.len() && single_slashed(#[trigger] paths[i]) == single_slashed(path)
}

/// The first `n` paths, of several that differ in their slashes alone the first.
pub open spec fn each_once(paths: Seq<Seq<char>>, n: int) -> Seq<Seq<char>>
    decreases n,
{
    if n <= 0 {
        seq![]
    } else {
        let before = each_once(paths, n - 1);
        if same_path_among(before, paths[n - 1]) {
            before
        } else {
            before.push(paths[n - 1])
        }
    }
}

/// The paths, of several that differ in their slashes alone the first.
pub fn unique_paths(paths: &Vec<String>) -> (r: Vec<String>)
    ensures
        texts(r@) == each_once(texts(paths@), paths@.len() as int),
{
    let ghost all = texts(paths@);
    let mut seen = StringHashSet::new();
    let mut out: Vec<String> = Vec::new();
    let mut i: usize = 0;
    assert(texts(out@) =~= seq![]);
    while i < paths.len()
        invariant
            i <= paths@.len(),
            all == texts(paths@),
            texts(out@) == each_once(all, i as int),
            forall|p: Seq<char>| #[trigger]
                seen@.contains(p) <==> exists|k: int|
                    0 <= k < out@.len() && single_slashed(#[trigger] texts(out@)[k]) == p,
        decreases paths.len() - i,
    {
        assert(all[i as int] == paths@[i as int]@);
        let n = normalize_path(paths[i].as_str());
        let key = string_of(n.as_slice());
        let ghost before = texts(out@);
        let ghost had = seen@;
        assert(had.contains(key@) == same_path_among(before, all[i as int]));
        if seen.insert(key) {
            out.push(paths[i].clone());
            assert(texts(out@) =~= before.push(all[i as int]));
            assert forall|p: Seq<char>| #[trigger] seen@.contains(p) <==> exists|k: int|
                0 <= k < out@.len() && single_slashed(#[trigger] texts(out@)[k]) == p by {
                if had.contains(p) {
                    let k = choose|k: int|
                        0 <= k < before.len() && single_slashed(#[trigger] before[k]) == p;
                    assert(texts(out@)[k] == before[k]);
                }
                if p == key@ {
                    assert(single_slashed(texts(out@)[before.len() as int]) == p);
                }
                if exists|k: int|
                    0 <= k < out@.len() && single_slashed(#[trigger] texts(out@)[k]) == p {
                    let k = choose|k: int|
                        0 <= k < out@.len() && single_slashed(#[trigger] texts(out@)[k]) == p;
                    if k < before.len() {
                        assert(single_slashed(before[k]) == p);
                        assert(had.contains(p));
                    }
                }
            }
        } else {
            assert(seen@ =~= had);
        }
        i = i + 1;
    }
    out
}

// ---------------------------------------------------------------------------
// Records
// ---------------------------------------------------------------------------
/// What an asset says of itself.
#[derive(Debug, Clone)]
pub struct AssetRecord {
    pub asset_path: String,
    pub parent_class: Option<String>,
    pub imports: Vec<String>,
    pub functions: Vec<String>,
}

/// What an asset says of itself.
pub struct RecordView {
    pub asset_path: Seq<char>,
    pub parent_class: Option<Seq<char>>,
    pub imports: Seq<Seq<char>>,
    pub functions: Seq<Seq<char>>,
}

impl View for AssetRecord {
    type V = RecordView;

    open spec fn view(&self) -> RecordView {
        RecordView {
            asset_path: self.asset_path@,
            parent_class: opt_text(self.parent_class),
            imports: texts(self.imports@),
            functions: texts(self.functions@),
        }
    }
}

/// The record says what the package at the path holds.
pub open spec fn records(r: AssetRecord, path: Seq<char>, v: PackageView) -> bool {
    &&& r.asset_path@ == asset_path(path)
    &&& opt_text(r.parent_class) == parent_class_of(v.imports, v.exports, v.asset_name)
    &&& lists_references(r.imports@, v.imports, v.imports.len() as int, false)
    &&& lists_references(r.functions@, v.imports, v.imports.len() as int, true)
}

/// The record of an asset, from its bytes.
pub fn parse_asset_record(path: &str, data: &[u8]) -> (r: Result<AssetRecord, AssetError>)
    ensures
        match r {
            Ok(a) => package_of(data@).fault is None && records(a, path@, package_of(data@)),
            Err(e) => package_of(data@).fault == Some(e),
        },
{
    let mut parser = UAssetParser::new();
    match parser.parse(data) {
        Ok(()) => Ok(
            AssetRecord {
                asset_path: to_asset_path(path),
                parent_class: parser.parent_class,
                imports: parser.imports,
                functions: parser.functions,
            },
        ),
        Err(e) => Err(e),
    }
}

/// What came of a scan.
#[derive(Debug, Clone)]
pub struct AssetScanReport {
    pub total_seen: usize,
    pub skipped: usize,
    pub errors: usize,
    pub parsed: Vec<AssetRecord>,
}

/// The records among the first `n` results.
pub open spec fn parsed_among(rs: Seq<Option<AssetRecord>>, n: int) -> Seq<AssetRecord>
    decreases n,
{
    if n <= 0 {
        seq![]
    } else {
        match rs[n - 1] {
            Some(a) => parsed_among(rs, n - 1).push(a),
            None => parsed_among(rs, n - 1),
        }
    }
}

/// What came of a scan, from the result of each file; a file that could not be
/// read has none.
pub fn scan_report(results: Vec<Option<AssetRecord>>) -> (r: AssetScanReport)
    ensures
        r.total_seen == results@.len(),
        r.skipped == 0,
        r.parsed@ == parsed_among(results@, results@.len() as int),
        r.errors + r.parsed@.len() == r.total_seen,
{
    let ghost all = results@;
    let total_seen: usize = results.len();
    let mut rest = results;
    let mut back: Vec<AssetRecord> = Vec::new();
    let mut errors: usize = 0;
    assert(parsed_among(all, all.len() as int) + back@.reverse() =~= parsed_among(
        all,
        all.len() as int,
    ));
    while rest.len() > 0
        invariant
            total_seen == all.len(),
            rest@.len() <= all.len(),
            rest@ == all.take(rest@.len() as int),
            parsed_among(all, all.len() as int) == parsed_among(all, rest@.len() as int)
                + back@.reverse(),
            errors + back@.len() + rest@.len() == total_seen,
        decreases rest.len(),
    {
        let ghost n = rest@.len() as int;
        let ghost had = back@;
        match rest.pop() {
            Some(Some(a)) => {
                assert(all[n - 1] == Some(a));
                back.push(a);
                assert(back@.reverse() =~= seq![a] + had.reverse());
                assert(parsed_among(all, n - 1).push(a) + had.reverse() =~= parsed_among(
                    all,
                    n - 1,
                ) + back@.reverse());
            },
            Some(None) => {
                assert(all[n - 1] is None);
                errors = errors + 1;
            },
            None => {},
        }
        assert(rest@ =~= all.take(n - 1));
    }
    let mut parsed: Vec<AssetRecord> = Vec::new();
    let ghost goal = back@.reverse();
    while back.len() > 0
        invariant
            goal == parsed@ + back@.reverse(),
        decreases back.len(),
    {
        let ghost had = back@;
        let ghost done = parsed@;
        match back.pop() {
            Some(a) => {
                parsed.push(a);
                assert(had.reverse() =~= seq![a] + back@.reverse());
                assert(done + had.reverse() =~= parsed@ + back@.reverse());
            },
            None => {},
        }
    }
    assert(parsed@ =~= goal);
    AssetScanReport { total_seen, skipped: 0, errors, parsed }
}

} // verus!
