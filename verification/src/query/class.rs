//! Queries for classes, their members and the values of enumerations.

use vstd::prelude::*;
use vstd::slice::slice_subrange;

use super::sql::{clamp_limit, one_int, one_text, params_of_texts, plain_statement,
    repeat_placeholders, statement, text_and_int, SqlParam, Statement};
#[allow(unused_imports)]
use super::sql::{chained, clamped, marks, opt_statement, strs, text_params, ParamView,
    StatementView};
use crate::db::project_path::PATH_CTE;
use crate::order::sorted_set;
#[allow(unused_imports)]
use crate::order::ascending;
use crate::paths::file_name_of;
#[allow(unused_imports)]
use crate::paths::file_name;
use crate::text::{chars_of, concat, copy_opt, owned, replace_char, rfind_str, str_eq, string_of,
    trim_string};
#[allow(unused_imports)]
use crate::text::{opt_str, opt_text, rfind, swap_char, texts, trim, views};

verus! {

/// So many modules go into one statement.
pub const MODULE_CHUNK_SIZE: usize = 500;

/// So many classes go into one message of a stream.
pub const STREAM_BATCH_SIZE: usize = 200;

/// So many calls are listed where no number was given.
pub const DEFAULT_USAGE_LIMIT: usize = 200;

/// The path of a file whose name is joined as `sf`.
pub const FILE_PATH: &'static str = "
        CASE
            WHEN dp.full_path = '/' THEN '/' || sf.text
            WHEN substr(dp.full_path, -1) = '/' THEN dp.full_path || sf.text
            ELSE dp.full_path || '/' || sf.text
        END
        ";

/// The path of a file whose name is joined as `sn`.
pub const NAMED_FILE_PATH: &'static str = "
        CASE
            WHEN dp.full_path = '/' THEN '/' || sn.text
            WHEN substr(dp.full_path, -1) = '/' THEN dp.full_path || sn.text
            ELSE dp.full_path || '/' || sn.text
        END
        ";

/// The classes in a file.
pub const CLASSES_IN_FILE: &'static str = "
        SELECT
            c.id,
            sc.text AS name,
            c.line_number,
            c.symbol_type,
            c.end_line_number
        FROM classes c
        JOIN strings sc ON c.name_id = sc.id
        WHERE c.file_id = ?1
        ORDER BY c.line_number
        ";

/// The members of a class, up to the path of their file.
pub const CLASS_MEMBER_COLUMNS: &'static str = "
        SELECT
            sn.text AS name,
            st.text AS type,
            m.access,
            m.flags,
            m.line_number,
            m.detail,
            srt.text AS return_type,
            m.is_static,
            COALESCE(";

/// The members of a class, behind the path of their file.
pub const CLASS_MEMBER_ROWS: &'static str = ", '') AS file_path
        FROM members m
        JOIN strings sn ON m.name_id = sn.id
        JOIN strings st ON m.type_id = st.id
        LEFT JOIN strings srt ON m.return_type_id = srt.id
        LEFT JOIN files mf ON m.file_id = mf.id
        LEFT JOIN dir_paths dp ON mf.directory_id = dp.id
        LEFT JOIN strings sf ON mf.filename_id = sf.id
        WHERE m.class_id = ?1
        ORDER BY m.line_number
        ";

/// The members of the classes of a name.
pub const MEMBERS_OF_NAME: &'static str = "
        SELECT
            m.name_id,
            sn.text AS name,
            st.text AS type,
            m.access,
            m.flags,
            m.line_number,
            m.detail,
            srt.text AS return_type,
            m.is_static
        FROM members m
        JOIN strings sn ON m.name_id = sn.id
        JOIN strings st ON m.type_id = st.id
        LEFT JOIN strings srt ON m.return_type_id = srt.id
        JOIN classes c ON m.class_id = c.id
        JOIN strings sc ON c.name_id = sc.id
        WHERE sc.text = ?1
        ORDER BY m.line_number
        ";

/// The classes whose names begin with a text, up to the path of their file.
pub const PREFIX_COLUMNS: &'static str = "
        SELECT
            c.id,
            sc.text AS name,
            sb.text AS base_class,
            c.symbol_type,
            ";

/// The classes whose names begin with a text, behind the path of their file.
pub const PREFIX_ROWS: &'static str = " AS path,
            sm.text AS module_name,
            c.line_number,
            c.end_line_number
        FROM classes c
        JOIN strings sc ON c.name_id = sc.id
        LEFT JOIN strings sb ON c.base_class_id = sb.id
        LEFT JOIN files f ON c.file_id = f.id
        LEFT JOIN dir_paths dp ON f.directory_id = dp.id
        LEFT JOIN strings sf ON f.filename_id = sf.id
        LEFT JOIN modules m ON f.module_id = m.id
        LEFT JOIN strings sm ON m.name_id = sm.id
        WHERE sc.text LIKE ?1
          AND sc.text NOT LIKE '(%'
        ORDER BY sc.text ASC
        LIMIT ?2
        ";

/// The classes in modules, up to the path of their file.
pub const MODULE_CLASS_COLUMNS: &'static str = "
        SELECT
            sc.text AS name,
            sb.text AS base,
            ";

/// The classes in modules, up to the names of the modules.
pub const MODULE_CLASS_ROWS: &'static str = " AS path,
            c.line_number,
            c.symbol_type
        FROM classes c
        JOIN strings sc ON c.name_id = sc.id
        LEFT JOIN strings sb ON c.base_class_id = sb.id
        JOIN files f ON c.file_id = f.id
        JOIN dir_paths dp ON f.directory_id = dp.id
        JOIN strings sf ON f.filename_id = sf.id
        JOIN modules m ON f.module_id = m.id
        JOIN strings sm ON m.name_id = sm.id
        WHERE sm.text IN (";

/// The order of the classes in modules.
pub const MODULE_CLASS_ORDER: &'static str = "
        ORDER BY path, c.line_number
        ";

/// The values of an enumeration.
pub const ENUM_VALUES: &'static str = "
        SELECT s.text
        FROM enum_values ev
        JOIN strings s ON ev.name_id = s.id
        WHERE ev.enum_id = ?1
        ORDER BY ev.line_number ASC
        ";

/// The calls of a name, up to the path of their file.
pub const CALL_COLUMNS: &'static str = "
        SELECT
            sc.line,
            ";

/// The calls of a name, behind the path of their file.
pub const CALL_ROWS: &'static str = " AS path
        FROM symbol_calls sc
        JOIN strings s ON sc.name_id = s.id
        JOIN files f ON sc.file_id = f.id
        JOIN dir_paths dp ON f.directory_id = dp.id
        JOIN strings sn ON f.filename_id = sn.id
        WHERE s.text = ?1
        ORDER BY path, sc.line
        LIMIT ?2
        ";

/// The file at a path, up to that path.
pub const FILE_AT_PATH: &'static str = "
        SELECT f.id
        FROM files f
        JOIN dir_paths dp ON f.directory_id = dp.id
        JOIN strings sf ON f.filename_id = sf.id
        WHERE ";

/// The file at a path, behind that path.
pub const FILE_AT_PATH_ROWS: &'static str = " = ?1
        LIMIT 1
        ";

/// A file of a name.
pub const FILE_OF_NAME: &'static str = "
        SELECT f.id
        FROM files f
        JOIN strings s ON f.filename_id = s.id
        WHERE s.text = ?1
        ORDER BY f.id
        LIMIT 1
        ";

/// A class of a name.
pub const CLASS_OF_NAME: &'static str = "
        SELECT c.id
        FROM classes c
        JOIN strings sn ON c.name_id = sn.id
        WHERE sn.text = ?1
        LIMIT 1
        ";

// ---------------------------------------------------------------------------
// Files
// ---------------------------------------------------------------------------
/// The path with slashes only.
pub fn normalize_path(path: &str) -> (r: String)
    ensures
        r@ == swap_char(path@, '\\', '/'),
{
    let v = chars_of(path);
    let v = replace_char(v.as_slice(), '\\', '/');
    string_of(v.as_slice())
}

/// The search for the file at a path.
pub open spec fn file_at(path: Seq<char>) -> StatementView {
    StatementView {
        sql: chained(seq![PATH_CTE@, FILE_AT_PATH@, FILE_PATH@, FILE_AT_PATH_ROWS@]),
        params: seq![ParamView::Text(swap_char(path, '\\', '/'))],
    }
}

/// The search for the file at a path.
pub fn find_file_at(path: &str) -> (r: Statement)
    ensures
        r@ == file_at(path@),
{
    let p = normalize_path(path);
    let parts = vec![PATH_CTE, FILE_AT_PATH, FILE_PATH, FILE_AT_PATH_ROWS];
    assert(strs(parts@) =~= seq![PATH_CTE@, FILE_AT_PATH@, FILE_PATH@, FILE_AT_PATH_ROWS@]);
    statement(&parts, one_text(p.as_str()))
}

/// The search for a file of the name that a path ends with, where it ends with
/// one.
pub fn find_file_named(path: &str, windows: bool) -> (r: Option<Statement>)
    ensures
        opt_statement(r) == (match file_name(path@, windows) {
            Some(n) => if n.len() > 0 {
                Some(StatementView { sql: FILE_OF_NAME@, params: seq![ParamView::Text(n)] })
            } else {
                None
            },
            None => None,
        }),
{
    let v = chars_of(path);
    match file_name_of(v.as_slice(), windows) {
        Some(n) => {
            if n.len() > 0 {
                let name = string_of(n);
                Some(plain_statement(FILE_OF_NAME, one_text(name.as_str())))
            } else {
                None
            }
        },
        None => None,
    }
}

// ---------------------------------------------------------------------------
// Members
// ---------------------------------------------------------------------------
/// The classes in a file.
pub fn classes_in_file(file_id: i64) -> (r: Statement)
    ensures
        r@ == (StatementView { sql: CLASSES_IN_FILE@, params: seq![ParamView::Int(file_id)] }),
{
    plain_statement(CLASSES_IN_FILE, one_int(file_id))
}

/// The members of a class.
pub fn members_of_class(class_id: i64) -> (r: Statement)
    ensures
        r@ == (StatementView {
            sql: chained(seq![PATH_CTE@, CLASS_MEMBER_COLUMNS@, FILE_PATH@, CLASS_MEMBER_ROWS@]),
            params: seq![ParamView::Int(class_id)],
        }),
{
    let parts = vec![PATH_CTE, CLASS_MEMBER_COLUMNS, FILE_PATH, CLASS_MEMBER_ROWS];
    assert(strs(parts@) =~= seq![
        PATH_CTE@,
        CLASS_MEMBER_COLUMNS@,
        FILE_PATH@,
        CLASS_MEMBER_ROWS@,
    ]);
    statement(&parts, one_int(class_id))
}

/// The members of the classes of a name.
pub fn get_class_members(class_name: &str) -> (r: Statement)
    ensures
        r@ == (StatementView {
            sql: MEMBERS_OF_NAME@,
            params: seq![ParamView::Text(class_name@)],
        }),
{
    plain_statement(MEMBERS_OF_NAME, one_text(class_name))
}

/// A member as it is recorded.
#[derive(Debug, Clone)]
pub struct MemberRow {
    pub name: String,
    pub kind: String,
    pub access: String,
    pub flags: Option<String>,
    pub line: i64,
    pub detail: Option<String>,
    pub return_type: Option<String>,
    pub is_static: i64,
    pub file_path: String,
}

/// A member of a class as it is shown.
#[derive(Debug, Clone)]
pub struct MemberSymbol {
    pub name: String,
    pub kind: String,
    pub access: String,
    pub flags: String,
    pub line: i64,
    pub detail: Option<String>,
    pub return_type: Option<String>,
    pub is_static: bool,
    pub file_path: String,
}

/// A member as it is shown in a file: where it has no file of its own, it stands
/// in that of its class.
pub fn member_symbol(row: &MemberRow, file_path: &str) -> (r: MemberSymbol)
    ensures
        r.name@ == row.name@,
        r.kind@ == row.kind@,
        r.access@ == row.access@,
        r.flags@ == (match row.flags {
            Some(f) => f@,
            None => ""@,
        }),
        r.line == row.line,
        opt_text(r.detail) == opt_text(row.detail),
        opt_text(r.return_type) == opt_text(row.return_type),
        r.is_static == (row.is_static == 1),
        r.file_path@ == swap_char(
            if row.file_path@.len() == 0 {
                file_path@
            } else {
                row.file_path@
            },
            '\\',
            '/',
        ),
{
    let own = chars_of(row.file_path.as_str());
    let file_path = if own.len() == 0 {
        normalize_path(file_path)
    } else {
        normalize_path(row.file_path.as_str())
    };
    let flags = match &row.flags {
        Some(f) => f.clone(),
        None => owned(""),
    };
    MemberSymbol {
        name: row.name.clone(),
        kind: row.kind.clone(),
        access: row.access.clone(),
        flags,
        line: row.line,
        detail: copy_opt(&row.detail),
        return_type: copy_opt(&row.return_type),
        is_static: row.is_static == 1,
        file_path,
    }
}

// ---------------------------------------------------------------------------
// Classes
// ---------------------------------------------------------------------------
/// The classes whose names begin with a text.
pub open spec fn classes_beginning(prefix: Seq<char>, limit: int) -> StatementView {
    StatementView {
        sql: chained(seq![PATH_CTE@, PREFIX_COLUMNS@, FILE_PATH@, PREFIX_ROWS@]),
        params: seq![
            ParamView::Text(prefix + "%"@),
            ParamView::Int(clamped(limit, 1, 1000) as i64),
        ],
    }
}

/// The classes whose names begin with a text; nothing to search where it is
/// blank.
pub fn search_classes_prefix(prefix: &str, limit: Option<usize>) -> (r: Option<Statement>)
    ensures
        opt_statement(r) == (if trim(prefix@).len() == 0 {
            None
        } else {
            Some(
                classes_beginning(
                    trim(prefix@),
                    match limit {
                        Some(l) => l as int,
                        None => 50,
                    },
                ),
            )
        }),
{
    let prefix = trim_string(prefix);
    let v = chars_of(prefix.as_str());
    if v.len() == 0 {
        return None;
    }
    let wanted: usize = match limit {
        Some(l) => l,
        None => 50,
    };
    let n: i64 = clamp_limit(wanted, 1, 1000);
    assert(n == clamped(wanted as int, 1, 1000) as i64);
    let pattern = concat(prefix.as_str(), "%");
    let parts = vec![PATH_CTE, PREFIX_COLUMNS, FILE_PATH, PREFIX_ROWS];
    assert(strs(parts@) =~= seq![PATH_CTE@, PREFIX_COLUMNS@, FILE_PATH@, PREFIX_ROWS@]);
    Some(statement(&parts, text_and_int(pattern.as_str(), n)))
}

/// The classes in a chunk of modules, of one kind where one was given.
pub open spec fn classes_in_chunk(modules: Seq<Seq<char>>, kind: Option<Seq<char>>) -> StatementView {
    StatementView {
        sql: chained(
            seq![
                PATH_CTE@,
                MODULE_CLASS_COLUMNS@,
                FILE_PATH@,
                MODULE_CLASS_ROWS@,
                marks(modules.len()),
                ")"@,
                match kind {
                    Some(k) => " AND c.symbol_type = ?"@,
                    None => ""@,
                },
                MODULE_CLASS_ORDER@,
            ],
        ),
        params: match kind {
            Some(k) => text_params(modules).push(ParamView::Text(k)),
            None => text_params(modules),
        },
    }
}

/// The classes in a chunk of modules; nothing to search where it is empty.
pub fn query_classes_in_module_chunk(modules: &Vec<String>, symbol_type: Option<&str>) -> (r:
    Option<Statement>)
    ensures
        opt_statement(r) == (if modules@.len() == 0 {
            None
        } else {
            Some(classes_in_chunk(texts(modules@), opt_str(symbol_type)))
        }),
{
    if modules.len() == 0 {
        return None;
    }
    let ghost goal = classes_in_chunk(texts(modules@), opt_str(symbol_type));
    let question = repeat_placeholders(modules.len());
    let condition: &str = match symbol_type {
        Some(_) => " AND c.symbol_type = ?",
        None => "",
    };
    let parts = vec![
        PATH_CTE,
        MODULE_CLASS_COLUMNS,
        FILE_PATH,
        MODULE_CLASS_ROWS,
        question.as_str(),
        ")",
        condition,
        MODULE_CLASS_ORDER,
    ];
    assert(strs(parts@) =~= seq![
        PATH_CTE@,
        MODULE_CLASS_COLUMNS@,
        FILE_PATH@,
        MODULE_CLASS_ROWS@,
        marks(modules@.len()),
        ")"@,
        condition@,
        MODULE_CLASS_ORDER@,
    ]);
    let mut params = params_of_texts(modules);
    match symbol_type {
        Some(k) => {
            let ghost before = views(params@);
            let q = SqlParam::Text(owned(k));
            params.push(q);
            assert(views(params@) =~= before.push(q@));
        },
        None => {},
    }
    Some(statement(&parts, params))
}

/// A class in a module.
#[derive(Debug, Clone)]
pub struct ClassModuleItem {
    pub name: String,
    pub base: Option<String>,
    pub path: String,
    pub line: i64,
    pub symbol_type: String,
}

/// What a class in a module says.
pub struct ClassItemView {
    pub name: Seq<char>,
    pub base: Option<Seq<char>>,
    pub path: Seq<char>,
    pub line: i64,
    pub symbol_type: Seq<char>,
}

impl View for ClassModuleItem {
    type V = ClassItemView;

    open spec fn view(&self) -> ClassItemView {
        ClassItemView {
            name: self.name@,
            base: opt_text(self.base),
            path: self.path@,
            line: self.line,
            symbol_type: self.symbol_type@,
        }
    }
}

/// The classes of one file.
#[derive(Debug, Clone)]
pub struct PathGroup {
    pub path: String,
    pub items: Vec<ClassModuleItem>,
}

/// The paths of a list of classes.
pub open spec fn item_paths(items: Seq<ClassItemView>) -> Seq<Seq<char>> {
    items.map_values(|c: ClassItemView| c.path)
}

/// Those of the first `n` classes that stand in the file at the path, in order.
pub open spec fn of_path(items: Seq<ClassItemView>, path: Seq<char>, n: int) -> Seq<ClassItemView>
    decreases n,
{
    if n <= 0 {
        seq![]
    } else if items[n - 1].path == path {
        of_path(items, path, n - 1).push(items[n - 1])
    } else {
        of_path(items, path, n - 1)
    }
}

/// The paths of the groups.
pub open spec fn group_paths(groups: Seq<PathGroup>) -> Seq<Seq<char>> {
    groups.map_values(|g: PathGroup| g.path@)
}

/// A copy of a class in a module.
fn copy_item(c: &ClassModuleItem) -> (r: ClassModuleItem)
    ensures
        r@ == c@,
{
    ClassModuleItem {
        name: c.name.clone(),
        base: copy_opt(&c.base),
        path: c.path.clone(),
        line: c.line,
        symbol_type: c.symbol_type.clone(),
    }
}

/// The classes that stand in the file at the path, in order.
fn items_of_path(items: &Vec<ClassModuleItem>, path: &str) -> (r: Vec<ClassModuleItem>)
    ensures
        views(r@) == of_path(views(items@), path@, items@.len() as int),
{
    let ghost all = views(items@);
    let mut out: Vec<ClassModuleItem> = Vec::new();
    assert(views(out@) =~= Seq::<ClassItemView>::empty());
    let mut i: usize = 0;
    while i < items.len()
        invariant
            i <= items@.len(),
            all == views(items@),
            views(out@) == of_path(all, path@, i as int),
        decreases items.len() - i,
    {
        assert(all[i as int] == items@[i as int]@);
        if str_eq(items[i].path.as_str(), path) {
            let ghost before = views(out@);
            let c = copy_item(&items[i]);
            out.push(c);
            assert(views(out@) =~= before.push(c@));
        }
        i = i + 1;
    }
    out
}

/// The classes of modules by file: the files in order, each once, and the
/// classes of each in the order in which they came.
pub fn get_classes_in_modules(items: &Vec<ClassModuleItem>) -> (r: Vec<PathGroup>)
    ensures
        ascending(group_paths(r@)),
        group_paths(r@).to_set() == item_paths(views(items@)).to_set(),
        forall|i: int|
            0 <= i < r@.len() ==> views((#[trigger] r@[i]).items@) == of_path(
                views(items@),
                r@[i].path@,
                items@.len() as int,
            ),
{
    let ghost all = views(items@);
    let ghost wanted = item_paths(all);
    let mut paths: Vec<String> = Vec::new();
    let mut i: usize = 0;
    assert(texts(paths@) =~= wanted.take(0));
    while i < items.len()
        invariant
            i <= items@.len(),
            all == views(items@),
            wanted == item_paths(all),
            texts(paths@) == wanted.take(i as int),
        decreases items.len() - i,
    {
        assert(all[i as int] == items@[i as int]@);
        let ghost before = texts(paths@);
        let p = items[i].path.clone();
        paths.push(p);
        assert(texts(paths@) =~= before.push(p@));
        assert(texts(paths@) =~= wanted.take(i + 1));
        i = i + 1;
    }
    assert(wanted.take(wanted.len() as int) =~= wanted);
    let sorted = sorted_set(&paths);
    let mut out: Vec<PathGroup> = Vec::new();
    let mut k: usize = 0;
    while k < sorted.len()
        invariant
            k <= sorted@.len(),
            out@.len() == k,
            all == views(items@),
            forall|i: int| 0 <= i < k ==> (#[trigger] out@[i]).path@ == sorted@[i]@,
            forall|i: int|
                0 <= i < k ==> views((#[trigger] out@[i]).items@) == of_path(
                    all,
                    out@[i].path@,
                    items@.len() as int,
                ),
        decreases sorted.len() - k,
    {
        let group = items_of_path(items, sorted[k].as_str());
        out.push(PathGroup { path: sorted[k].clone(), items: group });
        k = k + 1;
    }
    assert(group_paths(out@) =~= texts(sorted@));
    out
}

// ---------------------------------------------------------------------------
// Enumerations
// ---------------------------------------------------------------------------
/// The names under which an enumeration is looked up, in order: its own, what
/// stands before the last `::`, and what stands behind it.
pub open spec fn enum_candidates(name: Seq<char>) -> Seq<Seq<char>> {
    match rfind(name, "::"@) {
        None => seq![name],
        Some(i) => {
            let left = name.take(i);
            let right = name.skip(i + 2);
            let first = if left.len() > 0 {
                seq![name, left]
            } else {
                seq![name]
            };
            if right.len() > 0 && right != first.last() {
                first.push(right)
            } else {
                first
            }
        },
    }
}

/// The names under which an enumeration is looked up, in order.
pub fn enum_name_candidates(enum_name: &str) -> (r: Vec<String>)
    ensures
        texts(r@) == enum_candidates(enum_name@),
{
    let v = chars_of(enum_name);
    let mut out: Vec<String> = vec![owned(enum_name)];
    assert(texts(out@) =~= seq![enum_name@]);
    proof {
        reveal_strlit("::");
    }
    match rfind_str(v.as_slice(), "::") {
        None => {},
        Some(i) => {
            assert(v@.subrange(0, i as int) =~= v@.take(i as int));
            assert(v@.subrange(i + 2, v@.len() as int) =~= v@.skip(i + 2));
            let left = string_of(slice_subrange(v.as_slice(), 0, i));
            let right = string_of(slice_subrange(v.as_slice(), i + 2, v.len()));
            let last = if i > 0 {
                out.push(left.clone());
                assert(texts(out@) =~= seq![enum_name@, left@]);
                left
            } else {
                owned(enum_name)
            };
            let ghost first = texts(out@);
            if v.len() - (i + 2) > 0 && !str_eq(right.as_str(), last.as_str()) {
                out.push(right);
                assert(texts(out@) =~= first.push(right@));
            }
        },
    }
    out
}

/// The search for a class of a name.
pub fn find_class_id_by_name(class_name: &str) -> (r: Statement)
    ensures
        r@ == (StatementView {
            sql: CLASS_OF_NAME@,
            params: seq![ParamView::Text(class_name@)],
        }),
{
    plain_statement(CLASS_OF_NAME, one_text(class_name))
}

/// The values of an enumeration.
pub fn get_enum_values(class_id: i64) -> (r: Statement)
    ensures
        r@ == (StatementView { sql: ENUM_VALUES@, params: seq![ParamView::Int(class_id)] }),
{
    plain_statement(ENUM_VALUES, one_int(class_id))
}

// ---------------------------------------------------------------------------
// Calls
// ---------------------------------------------------------------------------
/// The calls of a name.
pub open spec fn calls_of(symbol: Seq<char>, limit: usize) -> StatementView {
    StatementView {
        sql: chained(seq![PATH_CTE@, CALL_COLUMNS@, NAMED_FILE_PATH@, CALL_ROWS@]),
        params: seq![
            ParamView::Text(symbol),
            ParamView::Int(
                if limit == 0 {
                    DEFAULT_USAGE_LIMIT as i64
                } else {
                    limit as i64
                },
            ),
        ],
    }
}

/// The calls of a name, by default `DEFAULT_USAGE_LIMIT` of them.
pub fn find_symbol_usages(symbol_name: &str, limit: usize) -> (r: Statement)
    ensures
        r@ == calls_of(symbol_name@, limit),
{
    let wanted: usize = if limit == 0 {
        DEFAULT_USAGE_LIMIT
    } else {
        limit
    };
    let n: i64 = #[verifier::truncate]
    (wanted as i64);
    let parts = vec![PATH_CTE, CALL_COLUMNS, NAMED_FILE_PATH, CALL_ROWS];
    assert(strs(parts@) =~= seq![PATH_CTE@, CALL_COLUMNS@, NAMED_FILE_PATH@, CALL_ROWS@]);
    statement(&parts, text_and_int(symbol_name, n))
}

} // verus!
