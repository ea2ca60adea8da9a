//! Searches for symbols in the index.

use vstd::prelude::*;

use super::sql::{clamp_limit, like_contains_pattern, like_prefix_pattern, statement, SqlParam,
    Statement};
#[allow(unused_imports)]
use super::sql::{beginning, chained, clamped, holding, opt_statement, strs, ParamView,
    StatementView};
use crate::db::project_path::PATH_CTE;
use crate::text::{chars_of, concat, join_strings, owned, split_words, string_of, to_lower,
    trim_string, trimmed};
#[allow(unused_imports)]
use crate::text::{join, lower, rows, texts, trim, views, words};

verus! {

/// What is selected of symbols, up to the condition for classes.
pub const SYMBOL_COLUMNS: &'static str = "
        SELECT
            sfts.name,
            sfts.type,
            sfts.class_name,
            dp.full_path || '/' || sn.text AS path,
            COALESCE(c.line_number, mem.line_number),
            sm.text AS module_name
        FROM symbols_fts sfts
        LEFT JOIN classes c
            ON c.id = sfts.rowid_ref
           AND ";

/// The members, up to the condition for classes.
pub const SYMBOL_MEMBERS: &'static str = "
        LEFT JOIN members mem
            ON mem.id = sfts.rowid_ref
           AND NOT (";

/// The files of the symbols, up to the condition of the search.
pub const SYMBOL_FILES: &'static str = ")
        JOIN files f ON f.id = COALESCE(c.file_id, mem.file_id)
        JOIN dir_paths dp ON f.directory_id = dp.id
        JOIN strings sn ON f.filename_id = sn.id
        LEFT JOIN modules m ON f.module_id = m.id
        LEFT JOIN strings sm ON m.name_id = sm.id
        WHERE ";

/// The order of what was found: exact names, then names that begin with the text,
/// then names that hold it, then classes, modules and paths that do.
pub const SYMBOL_RANKING: &'static str = "
        ORDER BY
            CASE
                WHEN lower(sfts.name) = ? THEN 0
                WHEN lower(sfts.name) LIKE ? ESCAPE '\\' THEN 1
                WHEN lower(sfts.name) LIKE ? ESCAPE '\\' THEN 2
                WHEN lower(COALESCE(sfts.class_name, '')) LIKE ? ESCAPE '\\' THEN 3
                WHEN lower(COALESCE(sm.text, '')) LIKE ? ESCAPE '\\' THEN 4
                WHEN lower(dp.full_path || '/' || sn.text) LIKE ? ESCAPE '\\' THEN 5
                ELSE 9
            END,
            CASE
                WHEN COALESCE(sfts.type, '') IN ('class', 'struct', 'enum', 'UCLASS', 'USTRUCT', 'UENUM') THEN 0
                WHEN lower(COALESCE(sfts.type, '')) LIKE '%function%' OR lower(COALESCE(sfts.type, '')) LIKE '%method%' THEN 1
                ELSE 2
            END,
            lower(sfts.name) ASC,
            path ASC
        LIMIT ? OFFSET ?
        ";

/// The files of the symbols, in the order of their names.
pub const SYMBOL_LIST: &'static str = ")
        JOIN files f ON f.id = COALESCE(c.file_id, mem.file_id)
        JOIN dir_paths dp ON f.directory_id = dp.id
        JOIN strings sn ON f.filename_id = sn.id
        LEFT JOIN modules m ON f.module_id = m.id
        LEFT JOIN strings sm ON m.name_id = sm.id
        WHERE sfts.name NOT LIKE '(%'
        ORDER BY lower(sfts.name) ASC
        LIMIT ? OFFSET ?
        ";

/// The condition that a symbol is a class.
pub const CLASS_SYMBOL: &'static str = "COALESCE(sfts.type, '') IN ('class', 'struct', 'enum', 'UCLASS', 'USTRUCT', 'UENUM')";

/// The text of a symbol in which words are searched.
pub const SEARCHABLE: &'static str = "lower(
        COALESCE(sfts.name, '') || ' ' ||
        COALESCE(sfts.type, '') || ' ' ||
        COALESCE(sfts.class_name, '') || ' ' ||
        COALESCE(sm.text, '') || ' ' ||
        COALESCE(dp.full_path, '') || '/' || COALESCE(sn.text, '')
    )";

/// What is selected of structs.
pub const STRUCTS: &'static str = "
        SELECT
            sc.text AS name,
            sb.text AS base_class,
            c.symbol_type,
            dp.full_path || '/' || sn.text AS path,
            sm.text AS module_name,
            c.line_number,
            c.end_line_number
        FROM classes c
        JOIN strings sc ON c.name_id = sc.id
        LEFT JOIN strings sb ON c.base_class_id = sb.id
        JOIN files f ON c.file_id = f.id
        JOIN dir_paths dp ON f.directory_id = dp.id
        JOIN strings sn ON f.filename_id = sn.id
        LEFT JOIN modules m ON f.module_id = m.id
        LEFT JOIN strings sm ON m.name_id = sm.id
        WHERE c.symbol_type IN ('struct', 'USTRUCT')
          AND sc.text NOT LIKE '(%'
        ORDER BY sc.text ASC
        ";

/// What is selected of the types of one kind.
pub const TYPES: &'static str = "
        SELECT
            sc.text AS name,
            sb.text AS base_class,
            c.symbol_type,
            dp.full_path || '/' || sn.text AS path,
            sm.text AS module_name,
            c.line_number,
            c.end_line_number
        FROM classes c
        JOIN strings sc ON c.name_id = sc.id
        LEFT JOIN strings sb ON c.base_class_id = sb.id
        JOIN files f ON c.file_id = f.id
        JOIN dir_paths dp ON f.directory_id = dp.id
        JOIN strings sn ON f.filename_id = sn.id
        LEFT JOIN modules m ON f.module_id = m.id
        LEFT JOIN strings sm ON m.name_id = sm.id
        WHERE c.symbol_type = ?
          AND sc.text NOT LIKE '(%'
        ORDER BY sc.text ASC
        LIMIT ?
        ";

/// The words of a text in lower case.
pub open spec fn search_words(s: Seq<char>) -> Seq<Seq<char>> {
    words(s).map_values(|w: Seq<char>| lower(w))
}

/// The words of a text in lower case.
pub fn search_tokens(input: &[char]) -> (r: Vec<String>)
    ensures
        texts(r@) == search_words(input@),
{
    let ws = split_words(input);
    let ghost goal = search_words(input@);
    let mut out: Vec<String> = Vec::new();
    let mut i: usize = 0;
    assert(texts(out@) =~= goal.take(0));
    while i < ws.len()
        invariant
            i <= ws@.len(),
            rows(ws@) == words(input@),
            goal == search_words(input@),
            texts(out@) == goal.take(i as int),
        decreases ws.len() - i,
    {
        assert(rows(ws@)[i as int] == ws@[i as int]@);
        let low = to_lower(ws[i].as_slice());
        let ghost before = texts(out@);
        out.push(string_of(low.as_slice()));
        assert(texts(out@) =~= before.push(low@));
        assert(texts(out@) =~= goal.take(i + 1));
        i = i + 1;
    }
    assert(goal.take(goal.len() as int) =~= goal);
    out
}

/// The condition that a symbol holds each of `n` words.
pub open spec fn words_condition(n: nat) -> Seq<char> {
    if n == 0 {
        "1 = 1"@
    } else {
        join(Seq::new(n, |i: int| SEARCHABLE@ + " LIKE ? ESCAPE '\\'"@), " AND "@)
    }
}

/// The condition that a symbol holds each of `n` words.
fn words_condition_of(n: usize) -> (r: String)
    ensures
        r@ == words_condition(n as nat),
{
    if n == 0 {
        return owned("1 = 1");
    }
    let mut conditions: Vec<String> = Vec::new();
    let mut i: usize = 0;
    while i < n
        invariant
            i <= n,
            texts(conditions@) =~= Seq::new(
                i as nat,
                |j: int| SEARCHABLE@ + " LIKE ? ESCAPE '\\'"@,
            ),
        decreases n - i,
    {
        let ghost before = texts(conditions@);
        let c = concat(SEARCHABLE, " LIKE ? ESCAPE '\\'");
        conditions.push(c);
        assert(texts(conditions@) =~= before.push(c@));
        i = i + 1;
    }
    join_strings(&conditions, " AND ")
}

/// The search for a trimmed text.
pub open spec fn find_symbols(pattern: Seq<char>, limit: int, offset: int) -> StatementView {
    let ws = search_words(pattern);
    let low = lower(pattern);
    StatementView {
        sql: chained(
            seq![
                PATH_CTE@,
                SYMBOL_COLUMNS@,
                CLASS_SYMBOL@,
                SYMBOL_MEMBERS@,
                CLASS_SYMBOL@,
                SYMBOL_FILES@,
                words_condition(ws.len()),
                SYMBOL_RANKING@,
            ],
        ),
        params: ws.map_values(|w: Seq<char>| ParamView::Text(holding(w))) + seq![
            ParamView::Text(low),
            ParamView::Text(beginning(low)),
            ParamView::Text(holding(low)),
            ParamView::Text(holding(low)),
            ParamView::Text(holding(low)),
            ParamView::Text(holding(low)),
            ParamView::Int(clamped(limit, 1, 10_000) as i64),
            ParamView::Int(clamped(offset, 0, 1_000_000) as i64),
        ],
    }
}

/// The list of all symbols.
pub open spec fn all_symbols(limit: int, offset: int) -> StatementView {
    StatementView {
        sql: chained(
            seq![
                PATH_CTE@,
                SYMBOL_COLUMNS@,
                CLASS_SYMBOL@,
                SYMBOL_MEMBERS@,
                CLASS_SYMBOL@,
                SYMBOL_LIST@,
            ],
        ),
        params: seq![
            ParamView::Int(clamped(limit, 1, 10_000) as i64),
            ParamView::Int(clamped(offset, 0, 1_000_000) as i64),
        ],
    }
}

/// The list of all symbols.
fn list_symbols(limit: usize, offset: usize) -> (r: Statement)
    ensures
        r@ == all_symbols(limit as int, offset as int),
{
    let parts = vec![
        PATH_CTE,
        SYMBOL_COLUMNS,
        CLASS_SYMBOL,
        SYMBOL_MEMBERS,
        CLASS_SYMBOL,
        SYMBOL_LIST,
    ];
    let params = vec![
        SqlParam::Int(clamp_limit(limit, 1, 10_000)),
        SqlParam::Int(clamp_limit(offset, 0, 1_000_000)),
    ];
    assert(strs(parts@) =~= seq![
        PATH_CTE@,
        SYMBOL_COLUMNS@,
        CLASS_SYMBOL@,
        SYMBOL_MEMBERS@,
        CLASS_SYMBOL@,
        SYMBOL_LIST@,
    ]);
    assert(views(params@) =~= all_symbols(limit as int, offset as int).params);
    statement(&parts, params)
}

/// The search for symbols: all of them where the text is blank.
pub fn search_symbols(pattern: &str, limit: usize, offset: usize) -> (r: Statement)
    ensures
        r@ == (if trim(pattern@).len() == 0 {
            all_symbols(limit as int, offset as int)
        } else {
            find_symbols(trim(pattern@), limit as int, offset as int)
        }),
{
    let v = chars_of(pattern);
    let p = trimmed(v.as_slice());
    if p.len() == 0 {
        return list_symbols(limit, offset);
    }
    let ghost goal = find_symbols(p@, limit as int, offset as int);
    let tokens = search_tokens(p);
    let condition = words_condition_of(tokens.len());
    let low_chars = to_lower(p);
    let low = string_of(low_chars.as_slice());
    let parts = vec![
        PATH_CTE,
        SYMBOL_COLUMNS,
        CLASS_SYMBOL,
        SYMBOL_MEMBERS,
        CLASS_SYMBOL,
        SYMBOL_FILES,
        condition.as_str(),
        SYMBOL_RANKING,
    ];
    let ghost ws = search_words(p@);
    let ghost firsts = ws.map_values(|w: Seq<char>| ParamView::Text(holding(w)));
    assert(strs(parts@) =~= seq![
        PATH_CTE@,
        SYMBOL_COLUMNS@,
        CLASS_SYMBOL@,
        SYMBOL_MEMBERS@,
        CLASS_SYMBOL@,
        SYMBOL_FILES@,
        words_condition(ws.len()),
        SYMBOL_RANKING@,
    ]);
    let mut params: Vec<SqlParam> = Vec::new();
    let mut i: usize = 0;
    assert(views(params@) =~= firsts.take(0));
    while i < tokens.len()
        invariant
            i <= tokens@.len(),
            texts(tokens@) == ws,
            firsts == ws.map_values(|w: Seq<char>| ParamView::Text(holding(w))),
            views(params@) == firsts.take(i as int),
        decreases tokens.len() - i,
    {
        assert(ws[i as int] == tokens@[i as int]@);
        let ghost before = views(params@);
        let q = SqlParam::Text(like_contains_pattern(tokens[i].as_str()));
        params.push(q);
        assert(views(params@) =~= before.push(q@));
        assert(views(params@) =~= firsts.take(i + 1));
        i = i + 1;
    }
    assert(firsts.take(firsts.len() as int) =~= firsts);
    let held = like_contains_pattern(low.as_str());
    params.push(SqlParam::Text(low.clone()));
    params.push(SqlParam::Text(like_prefix_pattern(low.as_str())));
    params.push(SqlParam::Text(held.clone()));
    params.push(SqlParam::Text(held.clone()));
    params.push(SqlParam::Text(held.clone()));
    params.push(SqlParam::Text(held));
    params.push(SqlParam::Int(clamp_limit(limit, 1, 10_000)));
    params.push(SqlParam::Int(clamp_limit(offset, 0, 1_000_000)));
    assert(views(params@) =~= goal.params);
    statement(&parts, params)
}

/// All structs.
pub fn get_structs() -> (r: Statement)
    ensures
        r@ == (StatementView { sql: chained(seq![PATH_CTE@, STRUCTS@]), params: seq![] }),
{
    let parts = vec![PATH_CTE, STRUCTS];
    let params: Vec<SqlParam> = Vec::new();
    assert(strs(parts@) =~= seq![PATH_CTE@, STRUCTS@]);
    assert(views(params@) =~= seq![]);
    statement(&parts, params)
}

/// The types of one kind.
pub open spec fn types_of_kind(kind: Seq<char>, limit: int) -> StatementView {
    StatementView {
        sql: chained(seq![PATH_CTE@, TYPES@]),
        params: seq![ParamView::Text(kind), ParamView::Int(clamped(limit, 1, 5000) as i64)],
    }
}

/// The types of one kind; nothing to search where the kind is blank.
pub fn get_symbols_by_type(symbol_type: &str, limit: Option<usize>) -> (r: Option<Statement>)
    ensures
        opt_statement(r) == (if trim(symbol_type@).len() == 0 {
            None
        } else {
            Some(
                types_of_kind(
                    trim(symbol_type@),
                    match limit {
                        Some(l) => l as int,
                        None => 1000,
                    },
                ),
            )
        }),
{
    let kind = trim_string(symbol_type);
    let v = chars_of(kind.as_str());
    if v.len() == 0 {
        return None;
    }
    let wanted: usize = match limit {
        Some(l) => l,
        None => 1000,
    };
    let ghost goal = types_of_kind(kind@, wanted as int);
    let parts = vec![PATH_CTE, TYPES];
    let params = vec![SqlParam::Text(kind), SqlParam::Int(clamp_limit(wanted, 1, 5000))];
    assert(strs(parts@) =~= seq![PATH_CTE@, TYPES@]);
    assert(views(params@) =~= goal.params);
    Some(statement(&parts, params))
}

/// However many symbols are asked for, at least one and at most ten thousand
/// are searched.
pub proof fn law_search_is_bounded(limit: int)
    ensures
        1 <= clamped(limit, 1, 10_000) <= 10_000,
        1 <= limit <= 10_000 ==> clamped(limit, 1, 10_000) == limit,
{
}

} // verus!
