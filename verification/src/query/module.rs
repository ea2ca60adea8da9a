//! Queries for modules.

use vstd::prelude::*;

use super::sql::{clamp_limit, like_contains_pattern, no_params, one_text, path_statement,
    plain_statement, text_and_int, Statement};
#[allow(unused_imports)]
use super::sql::{clamped, holding, on_paths, opt_statement, ParamView, StatementView};
use crate::text::{chars_of, trim_string};
#[allow(unused_imports)]
use crate::text::trim;

verus! {

/// All modules.
pub const MODULES: &'static str = "
        SELECT
            m.id,
            sm.text AS name,
            m.type,
            m.scope,
            dp.full_path AS root_path,
            m.build_cs_path,
            m.owner_name,
            m.component_name,
            m.deep_dependencies
        FROM modules m
        JOIN strings sm ON m.name_id = sm.id
        JOIN dir_paths dp ON m.root_directory_id = dp.id
        ORDER BY sm.text
        ";

/// The module of a name.
pub const MODULE_NAMED: &'static str = "
        SELECT
            m.id,
            sm.text AS name,
            m.type,
            m.scope,
            dp.full_path AS root_path,
            m.build_cs_path,
            m.owner_name,
            m.component_name,
            m.deep_dependencies
        FROM modules m
        JOIN strings sm ON m.name_id = sm.id
        JOIN dir_paths dp ON m.root_directory_id = dp.id
        WHERE sm.text = ?
        LIMIT 1
        ";

/// The modules whose names fit a pattern.
pub const MODULES_LIKE: &'static str = "
        SELECT
            m.id,
            sm.text AS name,
            m.type,
            m.scope,
            dp.full_path AS root_path,
            m.build_cs_path,
            m.owner_name,
            m.component_name,
            m.deep_dependencies
        FROM modules m
        JOIN strings sm ON m.name_id = sm.id
        JOIN dir_paths dp ON m.root_directory_id = dp.id
        WHERE sm.text LIKE ? ESCAPE '\\'
        ORDER BY sm.text
        LIMIT ?
        ";

/// The names of all modules.
pub const MODULE_NAMES: &'static str = "
        SELECT sm.text AS name
        FROM modules m
        JOIN strings sm ON m.name_id = sm.id
        ORDER BY sm.text
    ";

/// All modules.
pub fn get_modules() -> (r: Statement)
    ensures
        r@ == on_paths(MODULES@, seq![]),
{
    path_statement(MODULES, no_params())
}

/// The module of a name; nothing to search where the name is blank.
pub fn get_module_by_name(name: &str) -> (r: Option<Statement>)
    ensures
        opt_statement(r) == (if trim(name@).len() == 0 {
            None
        } else {
            Some(on_paths(MODULE_NAMED@, seq![ParamView::Text(trim(name@))]))
        }),
{
    let name = trim_string(name);
    let v = chars_of(name.as_str());
    if v.len() == 0 {
        return None;
    }
    Some(path_statement(MODULE_NAMED, one_text(name.as_str())))
}

/// The modules whose names hold a text.
pub open spec fn modules_holding(part: Seq<char>, limit: int) -> StatementView {
    on_paths(
        MODULES_LIKE@,
        seq![ParamView::Text(holding(part)), ParamView::Int(clamped(limit, 0, 1000) as i64)],
    )
}

/// The modules whose names hold a text; nothing to search where it is blank.
pub fn search_modules(part: &str, limit: Option<usize>) -> (r: Option<Statement>)
    ensures
        opt_statement(r) == (if trim(part@).len() == 0 {
            None
        } else {
            Some(
                modules_holding(
                    trim(part@),
                    match limit {
                        Some(l) => l as int,
                        None => 100,
                    },
                ),
            )
        }),
{
    let part = trim_string(part);
    let v = chars_of(part.as_str());
    if v.len() == 0 {
        return None;
    }
    let wanted: usize = match limit {
        Some(l) => l,
        None => 100,
    };
    let pattern = like_contains_pattern(part.as_str());
    let n: i64 = clamp_limit(wanted, 0, 1000);
    assert(n == clamped(wanted as int, 0, 1000) as i64);
    Some(path_statement(MODULES_LIKE, text_and_int(pattern.as_str(), n)))
}

/// The names of all modules.
pub fn get_module_names() -> (r: Statement)
    ensures
        r@ == (StatementView { sql: MODULE_NAMES@, params: seq![] }),
{
    plain_statement(MODULE_NAMES, no_params())
}

} // verus!
