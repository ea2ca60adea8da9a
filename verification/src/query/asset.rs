//! Queries for assets, and for files in modules by a part of their path.

use vstd::prelude::*;

use super::sql::{like_contains_pattern, no_params, params_of_texts, path_statement,
    repeat_placeholders, statement, text_and_int, SqlParam, Statement};
#[allow(unused_imports)]
use super::sql::{chained, holding, marks, on_paths, opt_statement, strs, text_params, ParamView,
    StatementView};
use crate::db::project_path::PATH_CTE;
use crate::parser::symbols::contains_bytes;
#[allow(unused_imports)]
use crate::parser::symbols::holds_bytes;
#[allow(unused_imports)]
use crate::text::{texts, views};

verus! {

/// So many files are searched where no number was given.
pub const DEFAULT_FILE_LIMIT: usize = 100;

/// So many files are streamed where no number was given.
pub const DEFAULT_ASYNC_FILE_LIMIT: usize = 1000;

/// So many modules go into one statement.
pub const MODULE_CHUNK_SIZE: usize = 500;

/// So many files go into one message of a stream.
pub const ASYNC_BATCH_SIZE: usize = 200;

/// So many assets go into one message of a stream.
pub const ASSET_BATCH_SIZE: usize = 500;

/// The assets with their names.
pub const ASSETS: &'static str = "
        SELECT
            CASE
                WHEN dp.full_path = '/' THEN '/' || sn.text
                WHEN substr(dp.full_path, -1) = '/' THEN dp.full_path || sn.text
                ELSE dp.full_path || '/' || sn.text
            END AS path,
            sn.text AS filename
        FROM files f
        JOIN dir_paths dp ON f.directory_id = dp.id
        JOIN strings sn ON f.filename_id = sn.id
        WHERE LOWER(f.extension) IN ('uasset', 'umap')
        ORDER BY path
        LIMIT 1000
        ";

/// The files whose names fit a pattern.
pub const FILES_NAMED: &'static str = "
        SELECT
            CASE
                WHEN dp.full_path = '/' THEN '/' || sn.text
                WHEN substr(dp.full_path, -1) = '/' THEN dp.full_path || sn.text
                ELSE dp.full_path || '/' || sn.text
            END AS path,
            sn.text AS filename
        FROM files f
        JOIN dir_paths dp ON f.directory_id = dp.id
        JOIN strings sn ON f.filename_id = sn.id
        WHERE sn.text LIKE ?1 ESCAPE '\\'
        ORDER BY sn.text
        LIMIT ?2
        ";

/// The paths of the assets, up to a further condition.
pub const ASSET_PATHS: &'static str = "
        SELECT
            CASE
                WHEN dp.full_path = '/' THEN '/' || sn.text
                WHEN substr(dp.full_path, -1) = '/' THEN dp.full_path || sn.text
                ELSE dp.full_path || '/' || sn.text
            END AS path
        FROM files f
        JOIN dir_paths dp ON f.directory_id = dp.id
        JOIN strings sn ON f.filename_id = sn.id
        WHERE LOWER(f.extension) IN ('uasset', 'umap')
        ";

/// The order of the paths of the assets.
pub const ASSET_PATHS_ORDER: &'static str = "
        ORDER BY path
        ";

/// The condition that an asset lies in a content directory.
pub const CONTENT_ONLY: &'static str = "AND dp.full_path LIKE '%/Content/%'";

/// The files in modules, up to the names of the modules.
pub const MODULE_FILES: &'static str = "
        SELECT
            CASE
                WHEN dp.full_path = '/' THEN '/' || sn.text
                WHEN substr(dp.full_path, -1) = '/' THEN dp.full_path || sn.text
                ELSE dp.full_path || '/' || sn.text
            END AS file_path,
            f.extension,
            sm.text AS module_name,
            rd.full_path AS module_root
        FROM files f
        JOIN dir_paths dp ON f.directory_id = dp.id
        JOIN strings sn ON f.filename_id = sn.id
        JOIN modules m ON f.module_id = m.id
        JOIN strings sm ON m.name_id = sm.id
        JOIN dir_paths rd ON m.root_directory_id = rd.id
        WHERE sm.text IN (";

/// The files in modules whose paths fit a pattern.
pub const MODULE_FILES_LIKE: &'static str = ")
          AND file_path LIKE ? ESCAPE '\\'
        ORDER BY file_path
        LIMIT ?
        ";

/// The assets with their names.
pub fn get_assets() -> (r: Statement)
    ensures
        r@ == on_paths(ASSETS@, seq![]),
{
    path_statement(ASSETS, no_params())
}

/// The files whose names hold a text.
pub fn search_files(part: &str) -> (r: Statement)
    ensures
        r@ == on_paths(
            FILES_NAMED@,
            seq![ParamView::Text(holding(part@)), ParamView::Int(DEFAULT_FILE_LIMIT as i64)],
        ),
{
    let pattern = like_contains_pattern(part);
    path_statement(FILES_NAMED, text_and_int(pattern.as_str(), DEFAULT_FILE_LIMIT as i64))
}

/// The paths of the assets, those in content directories alone where asked for.
pub fn collect_asset_paths(content_only: bool) -> (r: Statement)
    ensures
        r@ == (StatementView {
            sql: chained(
                seq![
                    PATH_CTE@,
                    ASSET_PATHS@,
                    if content_only {
                        CONTENT_ONLY@
                    } else {
                        ""@
                    },
                    ASSET_PATHS_ORDER@,
                ],
            ),
            params: seq![],
        }),
{
    let condition: &str = if content_only {
        CONTENT_ONLY
    } else {
        ""
    };
    let parts = vec![PATH_CTE, ASSET_PATHS, condition, ASSET_PATHS_ORDER];
    assert(strs(parts@) =~= seq![PATH_CTE@, ASSET_PATHS@, condition@, ASSET_PATHS_ORDER@]);
    statement(&parts, no_params())
}

/// Whether a content holds the bytes that are searched. Nothing holds no bytes
/// at all.
pub fn contains_subslice(haystack: &[u8], needle: &[u8]) -> (r: bool)
    ensures
        r == (needle@.len() > 0 && holds_bytes(haystack@, needle@)),
{
    if needle.len() == 0 {
        return false;
    }
    contains_bytes(haystack, needle)
}

/// The files in a chunk of modules whose paths hold a text.
pub open spec fn files_in_chunk(modules: Seq<Seq<char>>, filter: Seq<char>, limit: usize) -> StatementView {
    StatementView {
        sql: chained(seq![PATH_CTE@, MODULE_FILES@, marks(modules.len()), MODULE_FILES_LIKE@]),
        params: text_params(modules) + seq![
            ParamView::Text(holding(filter)),
            ParamView::Int(limit as i64),
        ],
    }
}

/// The files in a chunk of modules whose paths hold a text; nothing to search
/// where the chunk is empty or no file is wanted any more.
pub fn query_files_in_module_chunk(modules: &Vec<String>, filter: &str, limit: usize) -> (r: Option<
    Statement,
>)
    ensures
        opt_statement(r) == (if modules@.len() == 0 || limit == 0 {
            None
        } else {
            Some(files_in_chunk(texts(modules@), filter@, limit))
        }),
{
    if modules.len() == 0 || limit == 0 {
        return None;
    }
    let ghost goal = files_in_chunk(texts(modules@), filter@, limit);
    let question = repeat_placeholders(modules.len());
    let parts = vec![PATH_CTE, MODULE_FILES, question.as_str(), MODULE_FILES_LIKE];
    assert(strs(parts@) =~= seq![
        PATH_CTE@,
        MODULE_FILES@,
        marks(modules@.len()),
        MODULE_FILES_LIKE@,
    ]);
    let mut params = params_of_texts(modules);
    let n: i64 = #[verifier::truncate]
    (limit as i64);
    params.push(SqlParam::Text(like_contains_pattern(filter)));
    params.push(SqlParam::Int(n));
    assert(views(params@) =~= goal.params);
    Some(statement(&parts, params))
}

/// A search in modules, chunk by chunk.
#[derive(Debug, Clone, Copy)]
pub struct ModuleSearch {
    pub limit: usize,
    pub found: usize,
}

impl ModuleSearch {
    /// No more than the limit has been found.
    pub open spec fn wf(self) -> bool {
        self.found <= self.limit
    }

    /// A search that lists its files at once, or one that streams them.
    pub fn start(limit: Option<usize>, streaming: bool) -> (r: ModuleSearch)
        ensures
            r.wf(),
            r.found == 0,
            r.limit == (match limit {
                Some(l) => l,
                None => if streaming {
                    DEFAULT_ASYNC_FILE_LIMIT
                } else {
                    DEFAULT_FILE_LIMIT
                },
            }),
    {
        let limit: usize = match limit {
            Some(l) => l,
            None => if streaming {
                DEFAULT_ASYNC_FILE_LIMIT
            } else {
                DEFAULT_FILE_LIMIT
            },
        };
        ModuleSearch { limit, found: 0 }
    }

    /// The statement for the next chunk; none once the limit is reached.
    pub fn search_files_in_modules(&self, modules: &Vec<String>, filter: &str) -> (r: Option<
        Statement,
    >)
        requires
            self.wf(),
        ensures
            opt_statement(r) == (if modules@.len() == 0 || self.found == self.limit {
                None
            } else {
                Some(files_in_chunk(texts(modules@), filter@, (self.limit - self.found) as usize))
            }),
    {
        query_files_in_module_chunk(modules, filter, self.limit - self.found)
    }

    /// Counts the rows that a chunk gave, and says how many of them are listed.
    pub fn take_rows(&mut self, rows: usize) -> (r: usize)
        requires
            old(self).wf(),
        ensures
            final(self).wf(),
            final(self).limit == old(self).limit,
            final(self).found == old(self).found + r,
            r == (if rows <= old(self).limit - old(self).found {
                rows as int
            } else {
                old(self).limit - old(self).found
            }),
    {
        let left: usize = self.limit - self.found;
        let taken: usize = if rows <= left {
            rows
        } else {
            left
        };
        self.found = self.found + taken;
        taken
    }
}

} // verus!
