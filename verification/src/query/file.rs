//! Queries for files.

use vstd::prelude::*;

use super::locate::normalize_path;
#[allow(unused_imports)]
use super::locate::slashed;
use super::sql::{like_contains_pattern, no_params, one_int, one_text, params_of_texts,
    path_statement, plain_statement, repeat_placeholders, statement, text_and_int, Statement};
#[allow(unused_imports)]
use super::sql::{chained, holding, marks, on_paths, opt_statement, strs, text_params, ParamView,
    StatementView};
use crate::db::project_path::PATH_CTE;
use crate::paths::file_name_of;
#[allow(unused_imports)]
use crate::paths::file_name;
use crate::text::{chars_of, concat, copy_opt, has, has_str, has_text, replace_char, str_eq,
    string_of, to_lower, trim_string, trimmed};
#[allow(unused_imports)]
use crate::text::{contains, lower, opt_str, opt_text, swap_char, texts, trim, views};
use vstd::slice::slice_subrange;

verus! {

/// No more files than this are found by a part of their path.
pub const DEFAULT_LIMIT: usize = 500;

/// So many files go into one message of a stream, and so many modules into one
/// statement.
pub const STREAM_BATCH_SIZE: usize = 500;

/// The files that a file names, and those that these name, behind the paths of
/// the directories.
pub const DEPENDENCY_GRAPH: &'static str = ",
            dependency_graph(file_id, resolved_id) AS (
                SELECT file_id, resolved_file_id
                FROM file_includes
                WHERE file_id = ?

                UNION

                SELECT fi.file_id, fi.resolved_file_id
                FROM file_includes fi
                JOIN dependency_graph dg ON fi.file_id = dg.resolved_id
                WHERE fi.resolved_file_id IS NOT NULL
            )
            SELECT DISTINCT
                dp.full_path || '/' || sn.text AS path,
                sm.text AS module_name,
                rd.full_path AS module_root,
                f.extension
            FROM dependency_graph dg
            JOIN files f ON dg.resolved_id = f.id
            JOIN dir_paths dp ON f.directory_id = dp.id
            JOIN strings sn ON f.filename_id = sn.id
            LEFT JOIN modules m ON f.module_id = m.id
            LEFT JOIN strings sm ON m.name_id = sm.id
            LEFT JOIN dir_paths rd ON m.root_directory_id = rd.id
            WHERE dg.resolved_id IS NOT NULL
            ORDER BY path
            ";

/// The files that a file names.
pub const DEPENDENCIES: &'static str = "
            SELECT DISTINCT
                dp.full_path || '/' || sn.text AS path,
                sm.text AS module_name,
                rd.full_path AS module_root,
                f.extension
            FROM file_includes fi
            JOIN files f ON fi.resolved_file_id = f.id
            JOIN dir_paths dp ON f.directory_id = dp.id
            JOIN strings sn ON f.filename_id = sn.id
            LEFT JOIN modules m ON f.module_id = m.id
            LEFT JOIN strings sm ON m.name_id = sm.id
            LEFT JOIN dir_paths rd ON m.root_directory_id = rd.id
            WHERE fi.file_id = ?
              AND fi.resolved_file_id IS NOT NULL
            ORDER BY path
            ";

/// The files that describe targets.
pub const TARGET_FILES: &'static str = "
        SELECT sn.text AS filename,
               dp.full_path || '/' || sn.text AS path
        FROM files f
        JOIN dir_paths dp ON f.directory_id = dp.id
        JOIN strings sn ON f.filename_id = sn.id
        WHERE sn.text LIKE '%.Target.cs'
        ORDER BY path
        ";

/// The paths of all files.
pub const ALL_FILE_PATHS: &'static str = "
        SELECT dp.full_path || '/' || sn.text AS path
        FROM files f
        JOIN dir_paths dp ON f.directory_id = dp.id
        JOIN strings sn ON f.filename_id = sn.id
        ORDER BY path
        ";

/// All files with their modules.
pub const ALL_FILES_METADATA: &'static str = "
        SELECT sn.text AS filename,
               dp.full_path || '/' || sn.text AS path,
               sm.text AS module_name
        FROM files f
        JOIN dir_paths dp ON f.directory_id = dp.id
        JOIN strings sn ON f.filename_id = sn.id
        LEFT JOIN modules m ON f.module_id = m.id
        LEFT JOIN strings sm ON m.name_id = sm.id
        ORDER BY path
        ";

/// The files in modules, up to the names of the modules.
pub const MODULE_FILES: &'static str = "
            SELECT dp.full_path || '/' || sn.text AS path,
                   sm.text AS module_name,
                   rd.full_path AS module_root,
                   f.extension
            FROM files f
            JOIN dir_paths dp ON f.directory_id = dp.id
            JOIN strings sn ON f.filename_id = sn.id
            JOIN modules m ON f.module_id = m.id
            JOIN strings sm ON m.name_id = sm.id
            JOIN dir_paths rd ON m.root_directory_id = rd.id
            WHERE sm.text IN (";

/// The order of the files in modules.
pub const MODULE_FILES_ORDER: &'static str = ")
            ORDER BY path
            ";

/// The files whose names fit a pattern.
pub const FILES_BY_NAME: &'static str = "
        SELECT sn.text AS filename,
               dp.full_path || '/' || sn.text AS path,
               sm.text AS module_name,
               rd.full_path AS module_root
        FROM files f
        JOIN strings sn ON f.filename_id = sn.id
        JOIN dir_paths dp ON f.directory_id = dp.id
        LEFT JOIN modules m ON f.module_id = m.id
        LEFT JOIN strings sm ON m.name_id = sm.id
        LEFT JOIN dir_paths rd ON m.root_directory_id = rd.id
        WHERE sn.text LIKE ? ESCAPE '\\'
        ORDER BY sn.text
        LIMIT ?
        ";

/// The files whose paths fit a pattern.
pub const FILES_BY_PATH: &'static str = "
            SELECT sn.text AS filename,
                   dp.full_path || '/' || sn.text AS path,
                   sm.text AS module_name,
                   rd.full_path AS module_root
            FROM files f
            JOIN strings sn ON f.filename_id = sn.id
            JOIN dir_paths dp ON f.directory_id = dp.id
            LEFT JOIN modules m ON f.module_id = m.id
            LEFT JOIN strings sm ON m.name_id = sm.id
            LEFT JOIN dir_paths rd ON m.root_directory_id = rd.id
            WHERE (dp.full_path || '/' || sn.text) LIKE ? ESCAPE '\\'
            ORDER BY path
            LIMIT ?
            ";

/// The file at a path.
pub const FILE_AT_PATH: &'static str = "
        SELECT f.id
        FROM files f
        JOIN dir_paths dp ON f.directory_id = dp.id
        JOIN strings sn ON f.filename_id = sn.id
        WHERE dp.full_path || '/' || sn.text = ?
        LIMIT 1
        ";

/// A file of a name.
pub const FILE_OF_NAME: &'static str = "
            SELECT f.id
            FROM files f
            JOIN strings sn ON f.filename_id = sn.id
            WHERE sn.text = ?
            LIMIT 1
            ";

// ---------------------------------------------------------------------------
// Statements
// ---------------------------------------------------------------------------
/// The text without commas at its end.
pub open spec fn without_commas(s: Seq<char>) -> Seq<char>
    decreases s.len(),
{
    if s.len() > 0 && s.last() == ',' {
        without_commas(s.drop_last())
    } else {
        s
    }
}

/// The query of the paths in a form that another one can follow.
pub fn trim_with_prefix(path_cte: &str) -> (r: String)
    ensures
        r@ == without_commas(trim(path_cte@)),
{
    let v = chars_of(path_cte);
    let t = trimmed(v.as_slice());
    let mut n: usize = t.len();
    assert(t@.take(n as int) =~= t@);
    while n > 0 && t[n - 1] == ','
        invariant
            n <= t@.len(),
            without_commas(t@) == without_commas(t@.take(n as int)),
        decreases n,
    {
        assert(t@.take(n as int).drop_last() =~= t@.take(n - 1));
        n = n - 1;
    }
    assert(t@.subrange(0, n as int) =~= t@.take(n as int));
    string_of(slice_subrange(t, 0, n))
}

/// The files that a file names, all that follow from them where `recursive`.
pub fn get_depend_files(file_id: i64, recursive: bool) -> (r: Statement)
    ensures
        r@ == (StatementView {
            sql: if recursive {
                without_commas(trim(PATH_CTE@)) + DEPENDENCY_GRAPH@
            } else {
                PATH_CTE@ + DEPENDENCIES@
            },
            params: seq![ParamView::Int(file_id)],
        }),
{
    if recursive {
        let head = trim_with_prefix(PATH_CTE);
        let sql = concat(head.as_str(), DEPENDENCY_GRAPH);
        Statement { sql, params: one_int(file_id) }
    } else {
        path_statement(DEPENDENCIES, one_int(file_id))
    }
}

/// The path belongs to the engine and not to the game.
pub open spec fn engine_path(path: Seq<char>) -> bool {
    contains(lower(slashed(path)), "/engine/"@)
}

/// Whether the path belongs to the engine and not to the game.
pub fn is_engine_path(path: &str) -> (r: bool)
    ensures
        r == engine_path(path@),
{
    let p = normalize_path(path);
    let v = chars_of(p.as_str());
    let l = to_lower(v.as_slice());
    has_str(l.as_slice(), "/engine/")
}

/// Whether a file that another one names is listed.
pub fn is_listed_dependency(path: &str, game_only: bool) -> (r: bool)
    ensures
        r == !(game_only && engine_path(path@)),
{
    !(game_only && is_engine_path(path))
}

/// The files that describe targets.
pub fn get_target_files() -> (r: Statement)
    ensures
        r@ == on_paths(TARGET_FILES@, seq![]),
{
    path_statement(TARGET_FILES, no_params())
}

/// The paths of all files.
pub fn get_all_file_paths() -> (r: Statement)
    ensures
        r@ == on_paths(ALL_FILE_PATHS@, seq![]),
{
    path_statement(ALL_FILE_PATHS, no_params())
}

/// All files with their modules.
pub fn get_all_files_metadata() -> (r: Statement)
    ensures
        r@ == on_paths(ALL_FILES_METADATA@, seq![]),
{
    path_statement(ALL_FILES_METADATA, no_params())
}

/// The search for the file at a path.
pub fn find_file_at(path: &str) -> (r: Statement)
    ensures
        r@ == on_paths(FILE_AT_PATH@, seq![ParamView::Text(slashed(path@))]),
{
    let p = normalize_path(path);
    path_statement(FILE_AT_PATH, one_text(p.as_str()))
}

/// The search for a file of the name that a path ends with, where it ends with
/// one.
pub fn find_file_named(path: &str, windows: bool) -> (r: Option<Statement>)
    ensures
        opt_statement(r) == (match file_name(path@, windows) {
            Some(n) => if n.len() > 0 {
                Some(StatementView { sql: FILE_OF_NAME@, params: seq![ParamView::Text(n)] })
            } else {
                None
            },
            None => None,
        }),
{
    let v = chars_of(path);
    match file_name_of(v.as_slice(), windows) {
        Some(n) => {
            if n.len() > 0 {
                let name = string_of(n);
                Some(plain_statement(FILE_OF_NAME, one_text(name.as_str())))
            } else {
                None
            }
        },
        None => None,
    }
}

// ---------------------------------------------------------------------------
// Files in modules
// ---------------------------------------------------------------------------
/// The files in a chunk of modules.
pub open spec fn files_in_chunk(modules: Seq<Seq<char>>) -> StatementView {
    StatementView {
        sql: chained(seq![PATH_CTE@, MODULE_FILES@, marks(modules.len()), MODULE_FILES_ORDER@]),
        params: text_params(modules),
    }
}

/// The files in a chunk of modules.
pub fn get_files_in_modules(modules: &Vec<String>) -> (r: Statement)
    ensures
        r@ == files_in_chunk(texts(modules@)),
{
    let question = repeat_placeholders(modules.len());
    let parts = vec![PATH_CTE, MODULE_FILES, question.as_str(), MODULE_FILES_ORDER];
    assert(strs(parts@) =~= seq![
        PATH_CTE@,
        MODULE_FILES@,
        marks(modules@.len()),
        MODULE_FILES_ORDER@,
    ]);
    statement(&parts, params_of_texts(modules))
}

/// Which files of modules are wanted: their extensions, and a text that their
/// paths hold.
#[derive(Debug, Clone)]
pub struct FileFilter {
    pub extensions: Option<Vec<String>>,
    pub text: Option<String>,
}

/// The extension without leading dots, in lower case.
pub open spec fn bare_extension(s: Seq<char>) -> Seq<char>
    decreases s.len(),
{
    if s.len() > 0 && s[0] == '.' {
        bare_extension(s.skip(1))
    } else {
        lower(s)
    }
}

/// The extensions without leading dots, in lower case.
pub open spec fn bare_extensions(v: Seq<Seq<char>>) -> Seq<Seq<char>> {
    v.map_values(|s: Seq<char>| bare_extension(s))
}

/// The file is wanted: its extension in lower case is one of those asked for,
/// and its path holds the text.
pub open spec fn wanted(
    extensions: Option<Seq<Seq<char>>>,
    text: Option<Seq<char>>,
    path: Seq<char>,
    extension: Seq<char>,
) -> bool {
    &&& match extensions {
        Some(es) => bare_extensions(es).contains(lower(extension)),
        None => true,
    }
    &&& match text {
        Some(t) => t.len() == 0 || contains(slashed(path), swap_char(t, '\\', '/')),
        None => true,
    }
}

/// The extension without leading dots, in lower case.
fn strip_dots(s: &str) -> (r: String)
    ensures
        r@ == bare_extension(s@),
{
    let v = chars_of(s);
    let mut i: usize = 0;
    assert(v@.skip(0) =~= v@);
    while i < v.len() && v[i] == '.'
        invariant
            i <= v@.len(),
            bare_extension(v@) == bare_extension(v@.skip(i as int)),
        decreases v.len() - i,
    {
        assert(v@.skip(i as int).skip(1) =~= v@.skip(i + 1));
        i = i + 1;
    }
    assert(v@.subrange(i as int, v@.len() as int) =~= v@.skip(i as int));
    let l = to_lower(slice_subrange(v.as_slice(), i, v.len()));
    string_of(l.as_slice())
}

/// What an optional list of texts says.
pub open spec fn opt_texts(v: Option<Vec<String>>) -> Option<Seq<Seq<char>>> {
    match v {
        Some(v) => Some(texts(v@)),
        None => None,
    }
}

impl FileFilter {
    /// The filter was made for the extensions and the text.
    pub open spec fn is_for(self, extensions: Option<Seq<Seq<char>>>, text: Option<Seq<char>>) -> bool {
        &&& opt_texts(self.extensions) == (match extensions {
            Some(es) => Some(bare_extensions(es)),
            None => None,
        })
        &&& opt_text(self.text) == (match text {
            Some(t) => if t.len() == 0 {
                None
            } else {
                Some(swap_char(t, '\\', '/'))
            },
            None => None,
        })
    }

    /// The filter for the extensions and the text that were asked for.
    pub fn new(extensions: &Option<Vec<String>>, text: Option<&str>) -> (r: FileFilter)
        ensures
            r.is_for(opt_texts(*extensions), opt_str(text)),
    {
        let extensions: Option<Vec<String>> = match extensions {
            None => None,
            Some(es) => {
                let ghost goal = bare_extensions(texts(es@));
                let mut out: Vec<String> = Vec::new();
                let mut i: usize = 0;
                assert(texts(out@) =~= goal.take(0));
                while i < es.len()
                    invariant
                        i <= es@.len(),
                        goal == bare_extensions(texts(es@)),
                        texts(out@) == goal.take(i as int),
                    decreases es.len() - i,
                {
                    assert(texts(es@)[i as int] == es@[i as int]@);
                    let ghost before = texts(out@);
                    let e = strip_dots(es[i].as_str());
                    out.push(e);
                    assert(texts(out@) =~= before.push(e@));
                    assert(texts(out@) =~= goal.take(i + 1));
                    i = i + 1;
                }
                assert(goal.take(goal.len() as int) =~= goal);
                Some(out)
            },
        };
        let text: Option<String> = match text {
            None => None,
            Some(t) => {
                let v = chars_of(t);
                if v.len() == 0 {
                    None
                } else {
                    let v = replace_char(v.as_slice(), '\\', '/');
                    Some(string_of(v.as_slice()))
                }
            },
        };
        FileFilter { extensions, text }
    }
}

/// A file of a module.
#[derive(Debug, Clone)]
pub struct ModuleFile {
    pub file_path: String,
    pub module_name: String,
    pub module_root: String,
    pub extension: String,
}

/// What a file of a module says.
pub struct ModuleFileView {
    pub file_path: Seq<char>,
    pub module_name: Seq<char>,
    pub module_root: Seq<char>,
    pub extension: Seq<char>,
}

impl View for ModuleFile {
    type V = ModuleFileView;

    open spec fn view(&self) -> ModuleFileView {
        ModuleFileView {
            file_path: self.file_path@,
            module_name: self.module_name@,
            module_root: self.module_root@,
            extension: self.extension@,
        }
    }
}

/// The file as it is listed.
pub open spec fn listed(f: ModuleFileView) -> ModuleFileView {
    ModuleFileView {
        file_path: slashed(f.file_path),
        module_name: f.module_name,
        module_root: slashed(f.module_root),
        extension: lower(f.extension),
    }
}

/// The files among the first `n` rows that are wanted, as they are listed.
pub open spec fn wanted_files(
    rows: Seq<ModuleFileView>,
    extensions: Option<Seq<Seq<char>>>,
    text: Option<Seq<char>>,
    n: int,
) -> Seq<ModuleFileView>
    decreases n,
{
    if n <= 0 {
        seq![]
    } else {
        let before = wanted_files(rows, extensions, text, n - 1);
        if wanted(extensions, text, rows[n - 1].file_path, rows[n - 1].extension) {
            before.push(listed(rows[n - 1]))
        } else {
            before
        }
    }
}

/// The files among the rows that are wanted, as they are listed.
pub fn query_files_in_modules(
    rows: &Vec<ModuleFile>,
    extensions: &Option<Vec<String>>,
    text: Option<&str>,
) -> (r: Vec<ModuleFile>)
    ensures
        views(r@) == wanted_files(
            views(rows@),
            opt_texts(*extensions),
            opt_str(text),
            rows@.len() as int,
        ),
{
    let filter = FileFilter::new(extensions, text);
    let ghost all = views(rows@);
    let ghost es = opt_texts(*extensions);
    let ghost t = opt_str(text);
    let mut out: Vec<ModuleFile> = Vec::new();
    assert(views(out@) =~= Seq::<ModuleFileView>::empty());
    let mut i: usize = 0;
    while i < rows.len()
        invariant
            i <= rows@.len(),
            all == views(rows@),
            filter.is_for(es, t),
            views(out@) == wanted_files(all, es, t, i as int),
        decreases rows.len() - i,
    {
        assert(all[i as int] == rows@[i as int]@);
        let path = normalize_path(rows[i].file_path.as_str());
        let ev = chars_of(rows[i].extension.as_str());
        let el = to_lower(ev.as_slice());
        let extension = string_of(el.as_slice());
        let fits_extension = match &filter.extensions {
            Some(es) => has_text(es, extension.as_str()),
            None => true,
        };
        let fits_text = match &filter.text {
            Some(t) => {
                let pv = chars_of(path.as_str());
                let tv = chars_of(t.as_str());
                has(pv.as_slice(), tv.as_slice())
            },
            None => true,
        };
        if fits_extension && fits_text {
            let ghost before = views(out@);
            let f = ModuleFile {
                file_path: path,
                module_name: rows[i].module_name.clone(),
                module_root: normalize_path(rows[i].module_root.as_str()),
                extension,
            };
            out.push(f);
            assert(views(out@) =~= before.push(f@));
        }
        i = i + 1;
    }
    out
}

// ---------------------------------------------------------------------------
// Files by a part of their path
// ---------------------------------------------------------------------------
/// The search for files by their names; nothing to search where the text is
/// blank.
pub fn search_files_by_name(part: &str) -> (r: Option<Statement>)
    ensures
        opt_statement(r) == (if trim(part@).len() == 0 {
            None
        } else {
            Some(
                on_paths(
                    FILES_BY_NAME@,
                    seq![
                        ParamView::Text(holding(trim(part@))),
                        ParamView::Int(DEFAULT_LIMIT as i64),
                    ],
                ),
            )
        }),
{
    let part = trim_string(part);
    let v = chars_of(part.as_str());
    if v.len() == 0 {
        return None;
    }
    let pattern = like_contains_pattern(part.as_str());
    Some(path_statement(FILES_BY_NAME, text_and_int(pattern.as_str(), DEFAULT_LIMIT as i64)))
}

/// The search for files by their paths, which follows where fewer than fifty
/// were found by their names.
pub fn search_files_by_path_part(part: &str, found: usize) -> (r: Option<Statement>)
    ensures
        opt_statement(r) == (if trim(part@).len() == 0 || found >= 50 {
            None
        } else {
            Some(
                on_paths(
                    FILES_BY_PATH@,
                    seq![
                        ParamView::Text(holding(trim(part@))),
                        ParamView::Int(DEFAULT_LIMIT as i64),
                    ],
                ),
            )
        }),
{
    let part = trim_string(part);
    let v = chars_of(part.as_str());
    if v.len() == 0 || found >= 50 {
        return None;
    }
    let pattern = like_contains_pattern(part.as_str());
    Some(path_statement(FILES_BY_PATH, text_and_int(pattern.as_str(), DEFAULT_LIMIT as i64)))
}

/// A file that was found.
#[derive(Debug, Clone)]
pub struct FoundFile {
    pub filename: String,
    pub path: String,
    pub module_name: Option<String>,
    pub module_root: Option<String>,
}

/// What a file that was found says.
pub struct FoundView {
    pub filename: Seq<char>,
    pub path: Seq<char>,
    pub module_name: Option<Seq<char>>,
    pub module_root: Option<Seq<char>>,
}

impl View for FoundFile {
    type V = FoundView;

    open spec fn view(&self) -> FoundView {
        FoundView {
            filename: self.filename@,
            path: self.path@,
            module_name: opt_text(self.module_name),
            module_root: opt_text(self.module_root),
        }
    }
}

/// The found file as it is listed.
pub open spec fn shown(f: FoundView) -> FoundView {
    FoundView {
        filename: f.filename,
        path: slashed(f.path),
        module_name: f.module_name,
        module_root: match f.module_root {
            Some(p) => Some(slashed(p)),
            None => None,
        },
    }
}

/// One of the files has the path.
pub open spec fn has_path(found: Seq<FoundView>, path: Seq<char>) -> bool {
    exists|i: int| 0 <= i < found.len() && (#[trigger] found[i]).path == path
}

/// What has been found after the first `n` rows: each path once, and no more
/// than the limit.
pub open spec fn found_after(found: Seq<FoundView>, rows: Seq<FoundView>, n: int) -> Seq<FoundView>
    decreases n,
{
    if n <= 0 {
        found
    } else {
        let before = found_after(found, rows, n - 1);
        let f = shown(rows[n - 1]);
        if before.len() >= DEFAULT_LIMIT || has_path(before, f.path) {
            before
        } else {
            before.push(f)
        }
    }
}

/// Adds rows to what has been found.
pub fn collect_file_search_rows(found: &mut Vec<FoundFile>, rows: &Vec<FoundFile>)
    ensures
        views(final(found)@) == found_after(
            views(old(found)@),
            views(rows@),
            rows@.len() as int,
        ),
{
    let ghost start = views(found@);
    let ghost all = views(rows@);
    let mut i: usize = 0;
    while i < rows.len()
        invariant
            i <= rows@.len(),
            all == views(rows@),
            views(found@) == found_after(start, all, i as int),
        decreases rows.len() - i,
    {
        assert(all[i as int] == rows@[i as int]@);
        let path = normalize_path(rows[i].path.as_str());
        let ghost before = views(found@);
        if found.len() < DEFAULT_LIMIT && !is_known_path(found, path.as_str()) {
            let module_root: Option<String> = match &rows[i].module_root {
                Some(p) => Some(normalize_path(p.as_str())),
                None => None,
            };
            let f = FoundFile {
                filename: rows[i].filename.clone(),
                path,
                module_name: copy_opt(&rows[i].module_name),
                module_root,
            };
            found.push(f);
            assert(views(found@) =~= before.push(f@));
        }
        i = i + 1;
    }
}

/// Whether one of the files has the path.
fn is_known_path(found: &Vec<FoundFile>, path: &str) -> (r: bool)
    ensures
        r == has_path(views(found@), path@),
{
    let ghost all = views(found@);
    let mut i: usize = 0;
    while i < found.len()
        invariant
            i <= found@.len(),
            all == views(found@),
            forall|j: int| 0 <= j < i ==> (#[trigger] all[j]).path != path@,
        decreases found.len() - i,
    {
        assert(all[i as int] == found@[i as int]@);
        if str_eq(found[i].path.as_str(), path) {
            assert(all[i as int].path == path@);
            return true;
        }
        i = i + 1;
    }
    false
}

/// No path is found twice, and no more files than the limit are found.
pub proof fn law_found_paths(found: Seq<FoundView>, rows: Seq<FoundView>, n: int)
    requires
        0 <= n <= rows.len(),
        found.len() <= DEFAULT_LIMIT,
        forall|i: int, j: int|
            0 <= i < j < found.len() ==> (#[trigger] found[i]).path != (#[trigger] found[j]).path,
    ensures
        found_after(found, rows, n).len() <= DEFAULT_LIMIT,
        forall|i: int, j: int|
            0 <= i < j < found_after(found, rows, n).len() ==> (#[trigger] found_after(
                found,
                rows,
                n,
            )[i]).path != (#[trigger] found_after(found, rows, n)[j]).path,
    decreases n,
{
    if n > 0 {
        law_found_paths(found, rows, n - 1);
    }
}

} // verus!
