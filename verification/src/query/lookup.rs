//! Lookups of symbols in the index, for jumps and for uses.

use vstd::prelude::*;

use super::cursor::strip_namespace;
#[allow(unused_imports)]
use super::cursor::without_namespace;
use super::goto::{member_order_by_clause, GENERATED_PRIORITY_SQL, HEADER_PRIORITY_SQL};
#[allow(unused_imports)]
use super::goto::member_order;
use super::locate::header_lookup_patterns;
#[allow(unused_imports)]
use super::locate::header_patterns;
use super::sql::{one_int, one_text, params_of_texts, path_statement, plain_statement,
    repeat_placeholders, statement, two_texts, SqlParam, Statement};
#[allow(unused_imports)]
use super::sql::{chained, marks, on_paths, opt_statement, strs, text_params, ParamView,
    StatementView};
use crate::db::project_path::PATH_CTE;
use crate::text::{chars_of, owned};
#[allow(unused_imports)]
use crate::text::views;

verus! {

/// The numbers of the classes of a name, up to their order.
pub const CLASSES_NAMED: &'static str = "
            SELECT c.id
            FROM classes c
            JOIN strings s ON c.name_id = s.id
            JOIN files f ON c.file_id = f.id
            JOIN strings sf ON f.filename_id = sf.id
            WHERE s.text = ?
            ORDER BY
                ";

/// What ends an order by line.
pub const BY_LINE: &'static str = ",
                c.line_number
            ";

/// The parents of a class.
pub const PARENTS: &'static str = "
            SELECT i.parent_class_id, sp.text
            FROM inheritance i
            JOIN strings sp ON i.parent_name_id = sp.id
            WHERE i.child_id = ?
            ";

/// The name of a class.
pub const CLASS_NAME: &'static str = "SELECT s.text FROM classes c JOIN strings s ON c.name_id = s.id WHERE c.id = ?";

/// A member of a class, up to the order.
pub const MEMBER_OF_CLASS_ID: &'static str = "
        SELECT sm.text,
               m.line_number,
               dp.full_path || '/' || sf.text,
               sc.text
        FROM members m
        JOIN strings sm ON m.name_id = sm.id
        JOIN classes c ON m.class_id = c.id
        JOIN strings sc ON c.name_id = sc.id
        JOIN files f ON COALESCE(m.file_id, c.file_id) = f.id
        JOIN dir_paths dp ON f.directory_id = dp.id
        JOIN strings sf ON f.filename_id = sf.id
        WHERE m.class_id = ?
          AND sm.text = ?
        ";

/// A member in a module, up to the order.
pub const MEMBER_IN_MODULE: &'static str = "
        SELECT smem.text,
               mem.line_number,
               dp.full_path || '/' || sf.text,
               sc.text
        FROM members mem
        JOIN strings smem ON mem.name_id = smem.id
        JOIN classes c ON mem.class_id = c.id
        JOIN strings sc ON c.name_id = sc.id
        JOIN files f ON COALESCE(mem.file_id, c.file_id) = f.id
        JOIN dir_paths dp ON f.directory_id = dp.id
        JOIN strings sf ON f.filename_id = sf.id
        JOIN modules m ON f.module_id = m.id
        JOIN strings smod ON m.name_id = smod.id
        WHERE smod.text = ?
          AND smem.text = ?
        ";

/// A member of any class, up to the order.
pub const MEMBER_ANYWHERE: &'static str = "
        SELECT sm.text,
               m.line_number,
               dp.full_path || '/' || sf.text,
               sc.text
        FROM members m
        JOIN strings sm ON m.name_id = sm.id
        JOIN classes c ON m.class_id = c.id
        JOIN strings sc ON c.name_id = sc.id
        JOIN files f ON COALESCE(m.file_id, c.file_id) = f.id
        JOIN dir_paths dp ON f.directory_id = dp.id
        JOIN strings sf ON f.filename_id = sf.id
        WHERE sm.text = ?
        ";

/// A member of the classes of a name, up to the order.
pub const MEMBER_OF_CLASS_NAME: &'static str = "
        SELECT sm.text, m.line_number, dp.full_path || '/' || sf.text, sc.text
        FROM members m
        JOIN strings sm ON m.name_id = sm.id
        JOIN classes c ON m.class_id = c.id
        JOIN strings sc ON c.name_id = sc.id
        JOIN files f ON COALESCE(m.file_id, c.file_id) = f.id
        JOIN dir_paths dp ON f.directory_id = dp.id
        JOIN strings sf ON f.filename_id = sf.id
        WHERE c.name_id IN (SELECT id FROM strings WHERE text = ?)
          AND sm.text = ?
        ";

/// What takes the first row.
pub const FIRST_ROW: &'static str = "
        LIMIT 1
        ";

/// A type, up to the order.
pub const TYPE_NAMED: &'static str = "
        SELECT sc.text,
               c.line_number,
               dp.full_path || '/' || sf.text,
               c.symbol_type
        FROM classes c
        JOIN strings sc ON c.name_id = sc.id
        JOIN files f ON c.file_id = f.id
        JOIN dir_paths dp ON f.directory_id = dp.id
        JOIN strings sf ON f.filename_id = sf.id
        WHERE sc.text = ?
        ORDER BY
            ";

/// A type in a module, up to the order.
pub const TYPE_IN_MODULE: &'static str = "
        SELECT sc.text,
               c.line_number,
               dp.full_path || '/' || sf.text,
               c.symbol_type
        FROM classes c
        JOIN strings sc ON c.name_id = sc.id
        JOIN files f ON c.file_id = f.id
        JOIN dir_paths dp ON f.directory_id = dp.id
        JOIN strings sf ON f.filename_id = sf.id
        JOIN modules m ON f.module_id = m.id
        JOIN strings sm ON m.name_id = sm.id
        WHERE sm.text = ?
          AND sc.text = ?
        ORDER BY
            ";

/// What ends an order by line and takes the first row.
pub const FIRST_BY_LINE: &'static str = ",
            c.line_number
        LIMIT 1
        ";

/// The headers that may declare a type.
pub const HEADERS: &'static str = "
        SELECT dp.full_path || '/' || sf.text
        FROM files f
        JOIN strings sf ON f.filename_id = sf.id
        JOIN dir_paths dp ON f.directory_id = dp.id
        WHERE sf.text NOT LIKE '%.generated.h'
          AND (
            sf.text = ?
            OR sf.text = ?
            OR sf.text LIKE ?
            OR sf.text LIKE ?
          )
        ORDER BY
          CASE
            WHEN dp.full_path LIKE '%/Classes/%' THEN 0
            WHEN dp.full_path LIKE '%/Public/%' THEN 1
            WHEN dp.full_path LIKE '%/Private/%' THEN 2
            ELSE 3
          END,
          LENGTH(dp.full_path || '/' || sf.text)
        LIMIT 50
        ";

/// The files that define a member of a class.
pub const MEMBER_FILES: &'static str = "
        SELECT DISTINCT COALESCE(m.file_id, c.file_id)
        FROM members m
        JOIN strings sm ON m.name_id = sm.id
        JOIN classes c ON m.class_id = c.id
        JOIN strings sc ON c.name_id = sc.id
        WHERE sm.text = ?
          AND sc.text = ?
          AND COALESCE(m.file_id, c.file_id) IS NOT NULL
        ";

/// The declarations of a member of a class.
pub const MEMBER_DECLARATIONS: &'static str = "
        SELECT dp.full_path || '/' || sf.text,
               m.line_number,
               sc.text
        FROM members m
        JOIN strings sm ON m.name_id = sm.id
        JOIN classes c ON m.class_id = c.id
        JOIN strings sc ON c.name_id = sc.id
        JOIN files f ON COALESCE(m.file_id, c.file_id) = f.id
        JOIN dir_paths dp ON f.directory_id = dp.id
        JOIN strings sf ON f.filename_id = sf.id
        WHERE sm.text = ?
          AND sc.text = ?
          AND COALESCE(m.file_id, c.file_id) IS NOT NULL
        ORDER BY m.line_number
        ";

/// The files that name one of some files, up to the numbers of those.
pub const USING_FILES: &'static str = "
            SELECT DISTINCT fi.file_id
            FROM file_includes fi
            WHERE fi.resolved_file_id IN (";

/// The paths of some files, up to their numbers.
pub const PATHS_OF_FILES: &'static str = "
            SELECT dp.full_path || '/' || sn.text AS path
            FROM files f
            JOIN dir_paths dp ON f.directory_id = dp.id
            JOIN strings sn ON f.filename_id = sn.id
            WHERE f.id IN (";

/// The order of the paths of some files.
pub const PATHS_ORDER: &'static str = ")
            ORDER BY path
            ";

/// The numbers of the classes of a name, the headers first.
pub fn class_ids_statement(name: &str) -> (r: Statement)
    ensures
        r@ == (StatementView {
            sql: chained(
                seq![
                    CLASSES_NAMED@,
                    GENERATED_PRIORITY_SQL@,
                    ","@,
                    HEADER_PRIORITY_SQL@,
                    BY_LINE@,
                ],
            ),
            params: seq![ParamView::Text(name@)],
        }),
{
    let parts = vec![CLASSES_NAMED, GENERATED_PRIORITY_SQL, ",", HEADER_PRIORITY_SQL, BY_LINE];
    assert(strs(parts@) =~= seq![
        CLASSES_NAMED@,
        GENERATED_PRIORITY_SQL@,
        ","@,
        HEADER_PRIORITY_SQL@,
        BY_LINE@,
    ]);
    statement(&parts, one_text(name))
}

/// The name under which classes are looked up, without its namespace; none where
/// nothing is left of it.
pub fn class_lookup_name(name: &str) -> (r: Option<String>)
    ensures
        match r {
            Some(n) => n@ == without_namespace(name@) && n@.len() > 0,
            None => without_namespace(name@).len() == 0,
        },
{
    let short = strip_namespace(name);
    let v = chars_of(short.as_str());
    if v.len() == 0 {
        None
    } else {
        Some(short)
    }
}

/// The parents of a class.
pub fn parents_statement(class_id: i64) -> (r: Statement)
    ensures
        r@ == (StatementView { sql: PARENTS@, params: seq![ParamView::Int(class_id)] }),
{
    plain_statement(PARENTS, one_int(class_id))
}

/// The name of a class.
pub fn class_name_statement(class_id: i64) -> (r: Statement)
    ensures
        r@ == (StatementView { sql: CLASS_NAME@, params: seq![ParamView::Int(class_id)] }),
{
    plain_statement(CLASS_NAME, one_int(class_id))
}

/// Where a member is looked up.
#[derive(Debug, Clone)]
pub enum MemberPlace {
    ClassId(i64),
    ClassName(String),
    Module(String),
    Anywhere,
}

/// The statement that looks a member up.
pub open spec fn member_lookup(place: MemberPlace, symbol: Seq<char>, prefer_impl: bool) -> StatementView {
    let order = member_order(prefer_impl);
    match place {
        MemberPlace::ClassId(id) => StatementView {
            sql: chained(seq![PATH_CTE@, MEMBER_OF_CLASS_ID@, order, FIRST_ROW@]),
            params: seq![ParamView::Int(id), ParamView::Text(symbol)],
        },
        MemberPlace::ClassName(c) => StatementView {
            sql: chained(seq![PATH_CTE@, MEMBER_OF_CLASS_NAME@, order, FIRST_ROW@]),
            params: seq![ParamView::Text(c@), ParamView::Text(symbol)],
        },
        MemberPlace::Module(m) => StatementView {
            sql: chained(seq![PATH_CTE@, MEMBER_IN_MODULE@, order, FIRST_ROW@]),
            params: seq![ParamView::Text(m@), ParamView::Text(symbol)],
        },
        MemberPlace::Anywhere => StatementView {
            sql: chained(seq![PATH_CTE@, MEMBER_ANYWHERE@, order, FIRST_ROW@]),
            params: seq![ParamView::Text(symbol)],
        },
    }
}

/// The statement that looks a member up.
pub fn find_member(place: &MemberPlace, symbol_name: &str, prefer_impl: bool) -> (r: Statement)
    ensures
        r@ == member_lookup(*place, symbol_name@, prefer_impl),
{
    let order = member_order_by_clause(prefer_impl);
    let body: &str = match place {
        MemberPlace::ClassId(_) => MEMBER_OF_CLASS_ID,
        MemberPlace::ClassName(_) => MEMBER_OF_CLASS_NAME,
        MemberPlace::Module(_) => MEMBER_IN_MODULE,
        MemberPlace::Anywhere => MEMBER_ANYWHERE,
    };
    let params: Vec<SqlParam> = match place {
        MemberPlace::ClassId(id) => {
            let p = vec![SqlParam::Int(*id), SqlParam::Text(owned(symbol_name))];
            assert(views(p@) =~= seq![ParamView::Int(*id), ParamView::Text(symbol_name@)]);
            p
        },
        MemberPlace::ClassName(c) => two_texts(c.as_str(), symbol_name),
        MemberPlace::Module(m) => two_texts(m.as_str(), symbol_name),
        MemberPlace::Anywhere => one_text(symbol_name),
    };
    let parts = vec![PATH_CTE, body, order.as_str(), FIRST_ROW];
    assert(strs(parts@) =~= seq![PATH_CTE@, body@, order@, FIRST_ROW@]);
    statement(&parts, params)
}

/// The statement that looks a type up.
pub open spec fn type_lookup(name: Seq<char>) -> StatementView {
    StatementView {
        sql: chained(
            seq![
                PATH_CTE@,
                TYPE_NAMED@,
                GENERATED_PRIORITY_SQL@,
                ","@,
                HEADER_PRIORITY_SQL@,
                FIRST_BY_LINE@,
            ],
        ),
        params: seq![ParamView::Text(name)],
    }
}

/// The statement that looks a type up by its name without a namespace; nothing
/// to search where nothing is left of it.
pub fn find_type_definition(name: &str) -> (r: Option<Statement>)
    ensures
        opt_statement(r) == (if without_namespace(name@).len() == 0 {
            None
        } else {
            Some(type_lookup(without_namespace(name@)))
        }),
{
    let short = strip_namespace(name);
    let v = chars_of(short.as_str());
    if v.len() == 0 {
        return None;
    }
    let parts = vec![
        PATH_CTE,
        TYPE_NAMED,
        GENERATED_PRIORITY_SQL,
        ",",
        HEADER_PRIORITY_SQL,
        FIRST_BY_LINE,
    ];
    assert(strs(parts@) =~= seq![
        PATH_CTE@,
        TYPE_NAMED@,
        GENERATED_PRIORITY_SQL@,
        ","@,
        HEADER_PRIORITY_SQL@,
        FIRST_BY_LINE@,
    ]);
    Some(statement(&parts, one_text(short.as_str())))
}

/// The statement that looks a type up in a module.
pub fn find_type_in_module(module_name: &str, symbol_name: &str) -> (r: Statement)
    ensures
        r@ == (StatementView {
            sql: chained(
                seq![
                    PATH_CTE@,
                    TYPE_IN_MODULE@,
                    GENERATED_PRIORITY_SQL@,
                    ","@,
                    HEADER_PRIORITY_SQL@,
                    FIRST_BY_LINE@,
                ],
            ),
            params: seq![ParamView::Text(module_name@), ParamView::Text(symbol_name@)],
        }),
{
    let parts = vec![
        PATH_CTE,
        TYPE_IN_MODULE,
        GENERATED_PRIORITY_SQL,
        ",",
        HEADER_PRIORITY_SQL,
        FIRST_BY_LINE,
    ];
    assert(strs(parts@) =~= seq![
        PATH_CTE@,
        TYPE_IN_MODULE@,
        GENERATED_PRIORITY_SQL@,
        ","@,
        HEADER_PRIORITY_SQL@,
        FIRST_BY_LINE@,
    ]);
    statement(&parts, two_texts(module_name, symbol_name))
}

/// The headers that may declare a type.
pub fn headers_statement(symbol_name: &str) -> (r: Statement)
    ensures
        r@ == on_paths(HEADERS@, text_params(header_patterns(symbol_name@))),
{
    let patterns = header_lookup_patterns(symbol_name);
    path_statement(HEADERS, params_of_texts(&patterns))
}

/// The files that define a member of a class.
pub fn member_files_statement(symbol_name: &str, owner_class: &str) -> (r: Statement)
    ensures
        r@ == (StatementView {
            sql: MEMBER_FILES@,
            params: seq![ParamView::Text(symbol_name@), ParamView::Text(owner_class@)],
        }),
{
    plain_statement(MEMBER_FILES, two_texts(symbol_name, owner_class))
}

/// The declarations of a member of a class.
pub fn member_declarations_statement(symbol_name: &str, owner_class: &str) -> (r: Statement)
    ensures
        r@ == on_paths(
            MEMBER_DECLARATIONS@,
            seq![ParamView::Text(symbol_name@), ParamView::Text(owner_class@)],
        ),
{
    path_statement(MEMBER_DECLARATIONS, two_texts(symbol_name, owner_class))
}

/// The numbers as parameters.
pub open spec fn int_params(ids: Seq<i64>) -> Seq<ParamView> {
    ids.map_values(|n: i64| ParamView::Int(n))
}

/// The numbers as parameters.
fn params_of_ids(ids: &Vec<i64>) -> (r: Vec<SqlParam>)
    ensures
        views(r@) == int_params(ids@),
{
    let ghost goal = int_params(ids@);
    let mut out: Vec<SqlParam> = Vec::new();
    let mut i: usize = 0;
    assert(views(out@) =~= goal.take(0));
    while i < ids.len()
        invariant
            i <= ids@.len(),
            goal == int_params(ids@),
            views(out@) == goal.take(i as int),
        decreases ids.len() - i,
    {
        let ghost before = views(out@);
        let q = SqlParam::Int(ids[i]);
        out.push(q);
        assert(views(out@) =~= before.push(q@));
        assert(views(out@) =~= goal.take(i + 1));
        i = i + 1;
    }
    assert(goal.take(goal.len() as int) =~= goal);
    out
}

/// The files that name one of some files.
pub fn using_files_statement(ids: &Vec<i64>) -> (r: Statement)
    ensures
        r@ == (StatementView {
            sql: chained(seq![USING_FILES@, marks(ids@.len()), ")"@]),
            params: int_params(ids@),
        }),
{
    let question = repeat_placeholders(ids.len());
    let parts = vec![USING_FILES, question.as_str(), ")"];
    assert(strs(parts@) =~= seq![USING_FILES@, marks(ids@.len()), ")"@]);
    statement(&parts, params_of_ids(ids))
}

/// The paths of some files.
pub fn file_paths_statement(ids: &Vec<i64>) -> (r: Statement)
    ensures
        r@ == (StatementView {
            sql: chained(seq![PATH_CTE@, PATHS_OF_FILES@, marks(ids@.len()), PATHS_ORDER@]),
            params: int_params(ids@),
        }),
{
    let question = repeat_placeholders(ids.len());
    let parts = vec![PATH_CTE, PATHS_OF_FILES, question.as_str(), PATHS_ORDER];
    assert(strs(parts@) =~= seq![PATH_CTE@, PATHS_OF_FILES@, marks(ids@.len()), PATHS_ORDER@]);
    statement(&parts, params_of_ids(ids))
}

} // verus!
