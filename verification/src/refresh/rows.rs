//! The rows that a refresh writes, and what it reports.

use vstd::prelude::*;

use super::files::FileUpsert;
#[allow(unused_imports)]
use super::files::UpsertView;
use super::project::normalize_path;
use crate::db::store::{is_header_extension, report_is_due};
#[allow(unused_imports)]
use crate::db::store::{header_ext, percent};
use crate::paths::{file_name_of, parent_of};
#[allow(unused_imports)]
use crate::paths::{file_name, parent};
use crate::text::{chars_of, concat, copy_opt, decimal_of, owned, string_of};
#[allow(unused_imports)]
use crate::text::{decimal, opt_text, swap_char, texts, views};
use crate::types::{ComponentDef, InputFile, ModuleDef, ParseResult};

verus! {

// ---------------------------------------------------------------------------
// Keys of files
// ---------------------------------------------------------------------------
/// The directory and the name by which a file is recorded.
#[derive(Debug, Clone)]
pub struct FileKey {
    pub directory: String,
    pub filename: String,
}

/// The directory and the name by which a file is recorded.
pub open spec fn key_of(path: Seq<char>, windows: bool) -> Option<(Seq<char>, Seq<char>)> {
    match file_name(path, windows) {
        Some(n) if n.len() > 0 => Some(
            (
                match parent(path, windows) {
                    Some(p) => p,
                    None => ""@,
                },
                n,
            ),
        ),
        _ => None,
    }
}

/// The directory and the name by which a file is recorded.
pub fn file_key(path: &str, windows: bool) -> (r: Option<FileKey>)
    ensures
        match r {
            Some(k) => key_of(path@, windows) == Some((k.directory@, k.filename@)),
            None => key_of(path@, windows) is None,
        },
{
    let v = chars_of(path);
    match file_name_of(v.as_slice(), windows) {
        Some(n) => {
            if n.len() == 0 {
                return None;
            }
            let directory = match parent_of(v.as_slice(), windows) {
                Some(p) => string_of(p),
                None => owned(""),
            };
            Some(FileKey { directory, filename: string_of(n) })
        },
        None => None,
    }
}

/// The keys of the first `n` paths that have one.
pub open spec fn keys_of(paths: Seq<Seq<char>>, windows: bool, n: int) -> Seq<
    (Seq<char>, Seq<char>),
>
    decreases n,
{
    if n <= 0 {
        seq![]
    } else {
        match key_of(paths[n - 1], windows) {
            Some(k) => keys_of(paths, windows, n - 1).push(k),
            None => keys_of(paths, windows, n - 1),
        }
    }
}

impl View for FileKey {
    type V = (Seq<char>, Seq<char>);

    open spec fn view(&self) -> (Seq<char>, Seq<char>) {
        (self.directory@, self.filename@)
    }
}

/// The keys of the files that are removed.
pub fn deleted_keys(deleted: &Vec<String>, windows: bool) -> (r: Vec<FileKey>)
    ensures
        views(r@) == keys_of(texts(deleted@), windows, deleted@.len() as int),
{
    let ghost all = texts(deleted@);
    let mut out: Vec<FileKey> = Vec::new();
    let mut i: usize = 0;
    assert(views(out@) =~= seq![]);
    while i < deleted.len()
        invariant
            i <= deleted@.len(),
            all == texts(deleted@),
            views(out@) == keys_of(all, windows, i as int),
        decreases deleted.len() - i,
    {
        assert(all[i as int] == deleted@[i as int]@);
        match file_key(deleted[i].as_str(), windows) {
            Some(k) => {
                let ghost before = views(out@);
                out.push(k);
                assert(views(out@) =~= before.push(k@));
            },
            None => {},
        }
        i = i + 1;
    }
    out
}

/// A row of a file that was not read.
#[derive(Debug, Clone)]
pub struct UpsertRow {
    pub key: FileKey,
    pub extension: String,
    pub mtime: i64,
    pub module_id: i64,
    pub is_header: bool,
}

/// A row of a file that was not read.
pub struct UpsertRowView {
    pub key: (Seq<char>, Seq<char>),
    pub extension: Seq<char>,
    pub mtime: i64,
    pub module_id: i64,
    pub is_header: bool,
}

impl View for UpsertRow {
    type V = UpsertRowView;

    open spec fn view(&self) -> UpsertRowView {
        UpsertRowView {
            key: self.key@,
            extension: self.extension@,
            mtime: self.mtime,
            module_id: self.module_id,
            is_header: self.is_header,
        }
    }
}

/// The rows of the first `n` files that were not read.
pub open spec fn upsert_rows(fs: Seq<UpsertView>, windows: bool, n: int) -> Seq<UpsertRowView>
    decreases n,
{
    if n <= 0 {
        seq![]
    } else {
        let before = upsert_rows(fs, windows, n - 1);
        let f = fs[n - 1];
        match key_of(f.path, windows) {
            Some(key) => before.push(
                UpsertRowView {
                    key,
                    extension: f.extension,
                    mtime: f.mtime,
                    module_id: f.module_id,
                    is_header: header_ext(f.extension),
                },
            ),
            None => before,
        }
    }
}

/// The rows of the files that were not read.
pub fn upsert_non_source_files(files: &Vec<FileUpsert>, windows: bool) -> (r: Vec<UpsertRow>)
    ensures
        views(r@) == upsert_rows(views(files@), windows, files@.len() as int),
{
    let ghost all = views(files@);
    let mut out: Vec<UpsertRow> = Vec::new();
    let mut i: usize = 0;
    assert(views(out@) =~= seq![]);
    while i < files.len()
        invariant
            i <= files@.len(),
            all == views(files@),
            views(out@) == upsert_rows(all, windows, i as int),
        decreases files.len() - i,
    {
        let f = &files[i];
        assert(all[i as int] == f@);
        match file_key(f.path.as_str(), windows) {
            Some(key) => {
                let ghost before = views(out@);
                let e = chars_of(f.extension.as_str());
                let row = UpsertRow {
                    key,
                    extension: f.extension.clone(),
                    mtime: f.mtime,
                    module_id: f.module_id,
                    is_header: is_header_extension(e.as_slice()),
                };
                out.push(row);
                assert(views(out@) =~= before.push(row@));
            },
            None => {},
        }
        i = i + 1;
    }
    out
}

// ---------------------------------------------------------------------------
// Components and modules
// ---------------------------------------------------------------------------
/// The path, if there is one, with slashes only.
pub open spec fn slashed_opt(p: Option<Seq<char>>) -> Option<Seq<char>> {
    match p {
        Some(s) => Some(swap_char(s, '\\', '/')),
        None => None,
    }
}

/// The path, if there is one, with slashes only.
fn normalize_opt(p: &Option<String>) -> (r: Option<String>)
    ensures
        opt_text(r) == slashed_opt(opt_text(*p)),
{
    match p {
        Some(s) => Some(normalize_path(s.as_str())),
        None => None,
    }
}

/// The component as it is recorded: its paths have slashes only.
pub fn component_row(c: &ComponentDef) -> (r: ComponentDef)
    ensures
        r.name@ == c.name@,
        r.display_name@ == c.display_name@,
        r.comp_type@ == c.comp_type@,
        r.owner_name@ == c.owner_name@,
        r.root_path@ == swap_char(c.root_path@, '\\', '/'),
        opt_text(r.uplugin_path) == slashed_opt(opt_text(c.uplugin_path)),
        opt_text(r.uproject_path) == slashed_opt(opt_text(c.uproject_path)),
{
    ComponentDef {
        name: c.name.clone(),
        display_name: c.display_name.clone(),
        comp_type: c.comp_type.clone(),
        root_path: normalize_path(c.root_path.as_str()),
        uproject_path: normalize_opt(&c.uproject_path),
        uplugin_path: normalize_opt(&c.uplugin_path),
        owner_name: c.owner_name.clone(),
    }
}

/// What `serde_json::to_string` makes of a list of texts.
pub uninterp spec fn json_of_texts(v: Seq<Seq<char>>) -> Option<Seq<char>>;

/// `serde_json::to_string` on a list of texts: the JSON array, a function of the
/// texts alone, or none where it reports an error.
#[verifier::external_body]
fn texts_to_json(v: &Vec<String>) -> (r: Option<String>)
    ensures
        opt_text(r) == json_of_texts(texts(v@)),
{
    serde_json::to_string(v).ok()
}

/// A module as it is recorded.
#[derive(Debug, Clone)]
pub struct ModuleRow {
    pub name: String,
    pub mod_type: String,
    pub scope: String,
    pub root: String,
    pub build_cs_path: Option<String>,
    pub owner_name: Option<String>,
    pub component_name: Option<String>,
    pub deep_dependencies: Option<String>,
    /// The directory by which files are assigned to the module.
    pub map_root: String,
}

/// A module with its dependencies as it is recorded; none where they have no
/// JSON form.
pub fn module_row(m: &ModuleDef, deep_deps: &Vec<String>) -> (r: Option<ModuleRow>)
    ensures
        match r {
            Some(row) => row.name@ == m.name@ && row.mod_type@ == m.mod_type@ && row.scope@
                == "Individual"@ && row.root@ == m.root@ && opt_text(row.build_cs_path) == Some(
                swap_char(m.path@, '\\', '/'),
            ) && opt_text(row.owner_name) == Some(m.owner_name@) && opt_text(row.component_name)
                == opt_text(m.component_name) && opt_text(row.deep_dependencies) == json_of_texts(
                texts(deep_deps@),
            ) && row.deep_dependencies is Some && row.map_root@ == swap_char(m.root@, '\\', '/'),
            None => json_of_texts(texts(deep_deps@)) is None,
        },
{
    match texts_to_json(deep_deps) {
        Some(json) => Some(recorded_module(m, json)),
        None => None,
    }
}

/// A module with the JSON form of its dependencies as it is recorded.
pub fn recorded_module(m: &ModuleDef, json: String) -> (row: ModuleRow)
    ensures
        row.name@ == m.name@,
        row.mod_type@ == m.mod_type@,
        row.scope@ == "Individual"@,
        row.root@ == m.root@,
        opt_text(row.build_cs_path) == Some(swap_char(m.path@, '\\', '/')),
        opt_text(row.owner_name) == Some(m.owner_name@),
        opt_text(row.component_name) == opt_text(m.component_name),
        row.deep_dependencies == Some(json),
        row.map_root@ == swap_char(m.root@, '\\', '/'),
{
    ModuleRow {
        name: m.name.clone(),
        mod_type: m.mod_type.clone(),
        scope: owned("Individual"),
        root: m.root.clone(),
        build_cs_path: Some(normalize_path(m.path.as_str())),
        owner_name: Some(m.owner_name.clone()),
        component_name: copy_opt(&m.component_name),
        deep_dependencies: Some(json),
        map_root: normalize_path(m.root.as_str()),
    }
}

/// The module that files outside every other one belong to.
pub fn global_module_row(project_root: &str) -> (row: ModuleRow)
    ensures
        row.name@ == "_Global"@,
        row.mod_type@ == "Global"@,
        row.scope@ == "Game"@,
        row.root@ == project_root@,
        row.build_cs_path is None,
        row.owner_name is None,
        row.component_name is None,
        row.deep_dependencies is None,
        row.map_root@ == swap_char(project_root@, '\\', '/'),
{
    ModuleRow {
        name: owned("_Global"),
        mod_type: owned("Global"),
        scope: owned("Game"),
        root: owned(project_root),
        build_cs_path: None,
        owner_name: None,
        component_name: None,
        deep_dependencies: None,
        map_root: normalize_path(project_root),
    }
}

// ---------------------------------------------------------------------------
// The version of the engine
// ---------------------------------------------------------------------------
/// The version of an engine.
#[derive(Debug, Clone)]
pub struct UeBuildVersion {
    pub major: i32,
    pub minor: i32,
    pub patch: i32,
    pub branch: String,
}

/// A recorded fact about the project.
#[derive(Debug, Clone)]
pub struct MetaRow {
    pub key: String,
    pub value: String,
}

/// The decimal digits of a number, with a sign where it is negative.
pub open spec fn signed_decimal(n: int) -> Seq<char> {
    if n < 0 {
        "-"@ + decimal((-n) as nat)
    } else {
        decimal(n as nat)
    }
}

/// The decimal digits of a number, with a sign where it is negative.
fn signed_text(n: i32) -> (r: String)
    ensures
        r@ == signed_decimal(n as int),
{
    let wide: i64 = n as i64;
    if wide < 0 {
        let digits = string_of(decimal_of((-wide) as u64).as_slice());
        concat("-", digits.as_str())
    } else {
        string_of(decimal_of(wide as u64).as_slice())
    }
}

/// What is recorded of the version of the engine.
pub fn engine_version_rows(v: &UeBuildVersion) -> (r: Vec<MetaRow>)
    ensures
        r@.len() == 4,
        r@[0].key@ == "ue_version_major"@ && r@[0].value@ == signed_decimal(v.major as int),
        r@[1].key@ == "ue_version_minor"@ && r@[1].value@ == signed_decimal(v.minor as int),
        r@[2].key@ == "ue_version_patch"@ && r@[2].value@ == signed_decimal(v.patch as int),
        r@[3].key@ == "ue_version_branch"@ && r@[3].value@ == v.branch@,
{
    vec![
        MetaRow { key: owned("ue_version_major"), value: signed_text(v.major) },
        MetaRow { key: owned("ue_version_minor"), value: signed_text(v.minor) },
        MetaRow { key: owned("ue_version_patch"), value: signed_text(v.patch) },
        MetaRow { key: owned("ue_version_branch"), value: v.branch.clone() },
    ]
}

// ---------------------------------------------------------------------------
// Analysis
// ---------------------------------------------------------------------------
/// The result of a file that could not be read.
pub fn failed_result(input: &InputFile) -> (r: ParseResult)
    ensures
        r.path@ == input.path@,
        r.status@ == "error"@,
        r.mtime == input.mtime,
        r.data is None,
        r.module_id == input.module_id,
{
    ParseResult {
        path: input.path.clone(),
        status: owned("error"),
        mtime: input.mtime,
        data: None,
        module_id: input.module_id,
    }
}

/// A report of the progress.
#[derive(Debug, Clone)]
pub struct Report {
    pub stage: String,
    pub current: usize,
    pub total: usize,
    pub message: String,
}

/// The text of a number.
fn number(n: usize) -> (r: String)
    ensures
        r@ == decimal(n as nat),
{
    string_of(decimal_of(n as u64).as_slice())
}

/// The report with which the analysis begins; none without files.
pub fn analysis_start(total: usize) -> (r: Option<Report>)
    ensures
        r is Some == (total > 0),
        r matches Some(p) ==> p.stage@ == "analysis"@ && p.current == 0 && p.total == total
            && p.message@ == "Analyzing "@ + decimal(total as nat) + " files..."@,
{
    if total == 0 {
        return None;
    }
    let n = number(total);
    let s = concat("Analyzing ", n.as_str());
    Some(
        Report {
            stage: owned("analysis"),
            current: 0,
            total,
            message: concat(s.as_str(), " files..."),
        },
    )
}

/// The report on the file with the number `current`, and the percentage that it
/// reports: for the last file, and wherever the percentage has grown.
pub fn analysis_progress(current: usize, total: usize, last_percent: usize) -> (r: Option<
    (usize, Report),
>)
    ensures
        r is Some == (current == total || percent(current as int, total as int) > last_percent),
        r matches Some(p) ==> p.0 == percent(current as int, total as int) && p.1.stage@
            == "analysis"@ && p.1.current == current && p.1.total == total && p.1.message@
            == "Analyzing: "@ + decimal(current as nat) + "/"@ + decimal(total as nat),
{
    match report_is_due(current, total, last_percent) {
        Some(p) => {
            let c = number(current);
            let t = number(total);
            let s = concat("Analyzing: ", c.as_str());
            let s = concat(s.as_str(), "/");
            Some(
                (
                    p,
                    Report {
                        stage: owned("analysis"),
                        current,
                        total,
                        message: concat(s.as_str(), t.as_str()),
                    },
                ),
            )
        },
        None => None,
    }
}

/// The message after so many entries of the walk.
pub fn discovery_message(count: usize) -> (r: String)
    ensures
        r@ == "Discovery: "@ + decimal(count as nat) + " files seen"@,
{
    let n = number(count);
    let s = concat("Discovery: ", n.as_str());
    concat(s.as_str(), " files seen")
}

} // verus!
