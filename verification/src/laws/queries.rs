//! What is asked of the index, and how its answers are shown.

#[allow(unused_imports)]
use crate::query::class::{calls_of, classes_beginning, classes_in_chunk, enum_candidates, file_at, of_path,
    ClassItemView};
#[allow(unused_imports)]
use crate::query::dispatch::{is_plan, QueryPlan, RowShape};
#[allow(unused_imports)]
use crate::query::file::{bare_extension, bare_extensions, engine_path, found_after, has_path, listed, shown, wanted,
    wanted_files, without_commas, FoundView, ModuleFileView};
#[allow(unused_imports)]
use crate::query::locate::slashed;
#[allow(unused_imports)]
use crate::query::lookup::{int_params, member_lookup, type_lookup, MemberPlace};
#[allow(unused_imports)]
use crate::query::module::modules_holding;
#[allow(unused_imports)]
use crate::query::search::{all_symbols, find_symbols, search_words, types_of_kind, words_condition};
#[allow(unused_imports)]
use crate::query::sql::{beginning, chained, clamped, escaped, holding, marks, text_params, ParamView};
#[allow(unused_imports)]
use crate::text::{contains, find, join, lemma_contains_find, lower, occurs_at, rfind, rfind_from, swap_char, trim,
    words};
#[allow(unused_imports)]
use crate::types::QueryRequest;
#[allow(unused_imports)]
use crate::query::file::FileFilter;
#[allow(unused_imports)]
use crate::query::sql::on_paths;
#[allow(unused_imports)]
use crate::text::texts;
use vstd::prelude::*;

verus! {

// ---------------------------------------------------------------------------
// Statements
// ---------------------------------------------------------------------------
/// The parts of a statement stand one after the other, with nothing between them.
pub proof fn law_chained(a: Seq<Seq<char>>, part: Seq<char>)
    ensures
        chained(Seq::<Seq<char>>::empty()).len() == 0,
        chained(a.push(part)) == chained(a) + part,
{
    assert(a.push(part).drop_last() =~= a);
}

/// There are as many question marks as parameters, with a comma between each two.
pub proof fn law_marks(n: nat, i: int)
    ensures
        marks(0).len() == 0,
        n > 0 ==> marks(n).len() == 2 * n - 1,
        0 <= i < n ==> marks(n)[2 * i] == '?',
        0 <= i < n - 1 ==> marks(n)[2 * i + 1] == ',',
    decreases n,
{
    reveal_strlit("?");
    reveal_strlit(",");
    let all = Seq::new(n, |i: int| "?"@);
    if n > 1 {
        let m = (n - 1) as nat;
        law_marks(m, i);
        assert(all.drop_last() =~= Seq::new(m, |i: int| "?"@));
        assert(marks(n) == marks(m) + ","@ + "?"@);
    }
}

/// A character with a meaning of its own gets a backslash before it; the others stay
/// as they are, and all stay in order.
pub proof fn law_escaped(s: Seq<char>, c: char)
    ensures
        escaped(Seq::<char>::empty()).len() == 0,
        c == '%' || c == '_' || c == '\\' ==> escaped(s.push(c)) == escaped(s) + seq!['\\', c],
        c != '%' && c != '_' && c != '\\' ==> escaped(s.push(c)) == escaped(s) + seq![c],
        beginning(s) == escaped(s) + seq!['%'],
        holding(s) == seq!['%'] + escaped(s) + seq!['%'],
{
    reveal_strlit("%");
    assert(s.push(c).drop_last() =~= s);
    assert(escaped(s).push(c) =~= escaped(s) + seq![c]);
    assert("%"@ =~= seq!['%']);
}

/// A number in the range stays; one outside of it goes to the nearer end.
pub proof fn law_clamped(n: int, low: int, high: int)
    requires
        low <= high,
    ensures
        low <= clamped(n, low, high) <= high,
        low <= n <= high ==> clamped(n, low, high) == n,
        n < low ==> clamped(n, low, high) == low,
        n > high ==> clamped(n, low, high) == high,
{
}

/// Each text is a parameter of its own, in order.
pub proof fn law_parameters(ts: Seq<Seq<char>>, ids: Seq<i64>, i: int)
    ensures
        text_params(ts).len() == ts.len(),
        0 <= i < ts.len() ==> text_params(ts)[i] == ParamView::Text(ts[i]),
        int_params(ids).len() == ids.len(),
        0 <= i < ids.len() ==> int_params(ids)[i] == ParamView::Int(ids[i]),
{
}

// ---------------------------------------------------------------------------
// Classes
// ---------------------------------------------------------------------------
/// A file is found by its path whichever slashes it is written with.
pub proof fn law_file_at(path: Seq<char>)
    ensures
        file_at(swap_char(path, '\\', '/')) == file_at(path),
        !path.contains('\\') ==> file_at(path).params == seq![ParamView::Text(path)],
{
    let p = swap_char(path, '\\', '/');
    assert(swap_char(p, '\\', '/') =~= p);
    if !path.contains('\\') {
        assert forall|i: int| 0 <= i < path.len() implies p[i] == path[i] by {
            assert(path.contains(path[i]));
        }
        assert(p =~= path);
    }
}

/// A search by a prefix asks for what begins with it, for no fewer than one and no
/// more than a thousand classes.
pub proof fn law_classes_beginning(prefix: Seq<char>, limit: int)
    ensures
        ({
            let s = classes_beginning(prefix, limit);
            &&& s.params.len() == 2
            &&& s.params[0] == ParamView::Text(prefix + seq!['%'])
            &&& 1 <= limit <= 1000 ==> s.params[1] == ParamView::Int(limit as i64)
            &&& limit < 1 ==> s.params[1] == ParamView::Int(1)
            &&& limit > 1000 ==> s.params[1] == ParamView::Int(1000)
        }),
{
    reveal_strlit("%");
    assert("%"@ =~= seq!['%']);
}

/// The classes of modules are asked for by the names of all the modules and, where
/// one was given, by their kind.
pub proof fn law_classes_in_chunk(modules: Seq<Seq<char>>, kind: Seq<char>, i: int)
    ensures
        classes_in_chunk(modules, None).params.len() == modules.len(),
        classes_in_chunk(modules, Some(kind)).params.len() == modules.len() + 1,
        classes_in_chunk(modules, Some(kind)).params.last() == ParamView::Text(kind),
        0 <= i < modules.len() ==> classes_in_chunk(modules, None).params[i] == ParamView::Text(
            modules[i],
        ) && classes_in_chunk(modules, Some(kind)).params[i] == ParamView::Text(modules[i]),
{
}

/// The classes of a file are those with its path, in order.
pub proof fn law_of_path(items: Seq<ClassItemView>, path: Seq<char>, n: int)
    requires
        0 <= n < items.len(),
    ensures
        of_path(items, path, 0).len() == 0,
        items[n].path == path ==> of_path(items, path, n + 1) == of_path(items, path, n) + seq![
            items[n],
        ],
        items[n].path != path ==> of_path(items, path, n + 1) == of_path(items, path, n),
{
    assert(of_path(items, path, n).push(items[n]) =~= of_path(items, path, n) + seq![items[n]]);
}

/// An enumeration is looked up by its whole name, then by what stands before the last
/// `::`, then by what stands behind it.
pub proof fn law_enum_candidates(left: Seq<char>, right: Seq<char>)
    requires
        !right.contains(':'),
        left.len() > 0,
        right.len() > 0,
    ensures
        enum_candidates(right) == seq![right],
        left != right ==> enum_candidates(left + "::"@ + right) == seq![
            left + "::"@ + right,
            left,
            right,
        ],
        left == right ==> enum_candidates(left + "::"@ + right) == seq![left + "::"@ + right, left],
{
    reveal_strlit("::");
    let name = left + "::"@ + right;
    let at = left.len() as int;
    lemma_no_pair(right, right.len() - 2);
    assert(name.subrange(at, at + 2) =~= "::"@);
    lemma_last_pair(name, at, name.len() - 2);
    assert(name.take(at) =~= left);
    assert(name.skip(at + 2) =~= right);
    assert(seq![name, left].push(right) =~= seq![name, left, right]);
}

proof fn lemma_no_pair(s: Seq<char>, from: int)
    requires
        !s.contains(':'),
        from <= s.len() - 2,
    ensures
        rfind_from(s, "::"@, from) is None,
    decreases from + 1,
{
    reveal_strlit("::");
    if from >= 0 {
        if occurs_at(s, "::"@, from) {
            assert(s.subrange(from, from + 2)[0] == ':');
            assert(s.contains(s[from]));
        }
        lemma_no_pair(s, from - 1);
    }
}

proof fn lemma_last_pair(s: Seq<char>, at: int, from: int)
    requires
        0 <= at <= from <= s.len() - 2,
        occurs_at(s, "::"@, at),
        !s.skip(at + 2).contains(':'),
    ensures
        rfind_from(s, "::"@, from) == Some(at),
    decreases from,
{
    reveal_strlit("::");
    if from > at {
        if occurs_at(s, "::"@, from) {
            assert(s.subrange(from, from + 2)[1] == ':');
            assert(s.skip(at + 2)[from - at - 1] == ':');
        }
        lemma_last_pair(s, at, from - 1);
    }
}

/// The calls of a name are asked for by the name, and by the usual number where none
/// was given.
pub proof fn law_calls_of(symbol: Seq<char>, limit: usize)
    ensures
        calls_of(symbol, limit).params.len() == 2,
        calls_of(symbol, limit).params[0] == ParamView::Text(symbol),
        limit > 0 ==> calls_of(symbol, limit).params[1] == ParamView::Int(limit as i64),
        calls_of(symbol, 0).params[1] == ParamView::Int(200),
{
}

// ---------------------------------------------------------------------------
// Files
// ---------------------------------------------------------------------------
/// Commas at the end of a text are taken away, and nothing else.
pub proof fn law_without_commas(s: Seq<char>)
    ensures
        without_commas(s.push(',')) == without_commas(s),
        s.len() == 0 || s.last() != ',' ==> without_commas(s) == s,
{
    assert(s.push(',').drop_last() =~= s);
}

/// A path with a directory `engine`, in any case, belongs to the engine.
pub proof fn law_engine_path(path: Seq<char>)
    ensures
        engine_path(path) <==> exists|i: int| occurs_at(lower(slashed(path)), "/engine/"@, i),
{
}

/// Extensions are compared without leading dots and without regard to case.
pub proof fn law_bare_extension(s: Seq<char>)
    ensures
        bare_extension(seq!['.'] + s) == bare_extension(s),
        s.len() == 0 || s[0] != '.' ==> bare_extension(s) == lower(s),
{
    let t = seq!['.'] + s;
    assert(t.skip(1) =~= s);
}

/// Without a filter all files are wanted; extensions and a text narrow them down
/// independently of each other.
pub proof fn law_wanted(es: Seq<Seq<char>>, t: Seq<char>, path: Seq<char>, ext: Seq<char>, i: int)
    ensures
        wanted(None, None, path, ext),
        wanted(Some(es), Some(t), path, ext) <==> wanted(Some(es), None, path, ext) && wanted(
            None,
            Some(t),
            path,
            ext,
        ),
        0 <= i < es.len() && bare_extension(es[i]) == lower(ext) ==> wanted(
            Some(es),
            None,
            path,
            ext,
        ),
        (forall|j: int| 0 <= j < es.len() ==> bare_extension(#[trigger] es[j]) != lower(ext))
            ==> !wanted(Some(es), None, path, ext),
        t.len() == 0 ==> wanted(None, Some(t), path, ext),
        t.len() > 0 ==> (wanted(None, Some(t), path, ext) <==> contains(
            slashed(path),
            swap_char(t, '\\', '/'),
        )),
{
    let bs = bare_extensions(es);
    if 0 <= i < es.len() {
        assert(bs[i] == bare_extension(es[i]));
        assert(bs.contains(bs[i]));
    }
    if bs.contains(lower(ext)) {
        let j = choose|j: int| 0 <= j < bs.len() && bs[j] == lower(ext);
        assert(bare_extension(es[j]) == lower(ext));
    }
}

/// Of the rows the wanted ones are listed, in order, with slashes and extensions in
/// lower case.
pub proof fn law_wanted_files(
    rows: Seq<ModuleFileView>,
    es: Option<Seq<Seq<char>>>,
    t: Option<Seq<char>>,
    n: int,
)
    requires
        0 <= n < rows.len(),
    ensures
        wanted_files(rows, es, t, 0).len() == 0,
        !wanted(es, t, rows[n].file_path, rows[n].extension) ==> wanted_files(rows, es, t, n + 1)
            == wanted_files(rows, es, t, n),
        wanted(es, t, rows[n].file_path, rows[n].extension) ==> {
            let before = wanted_files(rows, es, t, n);
            let after = wanted_files(rows, es, t, n + 1);
            &&& after.len() == before.len() + 1
            &&& after.drop_last() == before
            &&& after.last().file_path == slashed(rows[n].file_path)
            &&& after.last().module_name == rows[n].module_name
            &&& after.last().module_root == slashed(rows[n].module_root)
            &&& after.last().extension == lower(rows[n].extension)
        },
{
    let before = wanted_files(rows, es, t, n);
    assert(before.push(listed(rows[n])).drop_last() =~= before);
}

/// A row is listed where its path was not found yet and the limit is not reached.
pub proof fn law_found_step(found: Seq<FoundView>, rows: Seq<FoundView>, n: int)
    requires
        0 <= n < rows.len(),
    ensures
        found_after(found, rows, 0) == found,
        ({
            let before = found_after(found, rows, n);
            let after = found_after(found, rows, n + 1);
            let path = slashed(rows[n].path);
            let known = exists|i: int| 0 <= i < before.len() && (#[trigger] before[i]).path == path;
            &&& known || before.len() >= 500 ==> after == before
            &&& !known && before.len() < 500 ==> after.len() == before.len() + 1
                && after.drop_last() == before && after.last().path == path
                && after.last().filename == rows[n].filename && after.last().module_name
                == rows[n].module_name && (match rows[n].module_root {
                Some(p) => after.last().module_root == Some(slashed(p)),
                None => after.last().module_root is None,
            })
        }),
{
    let before = found_after(found, rows, n);
    assert(before.push(shown(rows[n])).drop_last() =~= before);
}

// ---------------------------------------------------------------------------
// Symbols
// ---------------------------------------------------------------------------
/// Each word of the text must be held; the whole text decides the order; limit and
/// offset come last, moved into their ranges.
pub proof fn law_find_symbols(pattern: Seq<char>, limit: int, offset: int, i: int)
    ensures
        ({
            let ps = find_symbols(pattern, limit, offset).params;
            let n = words(pattern).len() as int;
            &&& ps.len() == n + 8
            &&& 0 <= i < n ==> ps[i] == ParamView::Text(holding(lower(words(pattern)[i])))
            &&& ps[n] == ParamView::Text(lower(pattern))
            &&& ps[n + 1] == ParamView::Text(beginning(lower(pattern)))
            &&& n + 2 <= i < n + 6 ==> ps[i] == ParamView::Text(holding(lower(pattern)))
            &&& 1 <= limit <= 10_000 ==> ps[n + 6] == ParamView::Int(limit as i64)
            &&& limit > 10_000 ==> ps[n + 6] == ParamView::Int(10_000)
            &&& limit < 1 ==> ps[n + 6] == ParamView::Int(1)
            &&& 0 <= offset <= 1_000_000 ==> ps[n + 7] == ParamView::Int(offset as i64)
            &&& offset > 1_000_000 ==> ps[n + 7] == ParamView::Int(1_000_000)
        }),
{
}

/// Without a text all symbols are listed, up to the limit, from the offset on.
pub proof fn law_all_symbols(limit: int, offset: int)
    ensures
        ({
            let ps = all_symbols(limit, offset).params;
            &&& ps.len() == 2
            &&& 1 <= limit <= 10_000 ==> ps[0] == ParamView::Int(limit as i64)
            &&& limit > 10_000 ==> ps[0] == ParamView::Int(10_000)
            &&& 0 <= offset <= 1_000_000 ==> ps[1] == ParamView::Int(offset as i64)
            &&& offset > 1_000_000 ==> ps[1] == ParamView::Int(1_000_000)
        }),
{
}

/// The condition of a search has one part for each word; without words it always
/// holds.
pub proof fn law_words_condition(n: nat)
    ensures
        words_condition(0) == "1 = 1"@,
        n > 0 ==> words_condition(n + 1) == words_condition(n) + " AND "@ + words_condition(1),
{
    if n > 0 {
        let part = crate::query::search::SEARCHABLE@ + " LIKE ? ESCAPE '\\'"@;
        let f = |i: int| crate::query::search::SEARCHABLE@ + " LIKE ? ESCAPE '\\'"@;
        let all = Seq::new(n + 1, f);
        assert(all.drop_last() =~= Seq::new(n, f));
        assert(all.last() == part);
        assert(Seq::new(1, f)[0] == part);
    }
}

/// Types are asked for by their kind, modules by a part of their name, both up to a
/// limit.
pub proof fn law_limited(kind: Seq<char>, limit: int)
    ensures
        types_of_kind(kind, limit).params[0] == ParamView::Text(kind),
        1 <= limit <= 5000 ==> types_of_kind(kind, limit).params[1] == ParamView::Int(limit as i64),
        limit > 5000 ==> types_of_kind(kind, limit).params[1] == ParamView::Int(5000),
        modules_holding(kind, limit).params[0] == ParamView::Text(holding(kind)),
        0 <= limit <= 1000 ==> modules_holding(kind, limit).params[1] == ParamView::Int(
            limit as i64,
        ),
        limit > 1000 ==> modules_holding(kind, limit).params[1] == ParamView::Int(1000),
{
}

/// A member is looked up where it was asked for, by its name; which order counts
/// does not change what is asked for.
pub proof fn law_member_lookup(
    id: i64,
    class_name: String,
    module: String,
    symbol: Seq<char>,
    prefer_impl: bool,
)
    ensures
        member_lookup(MemberPlace::ClassId(id), symbol, prefer_impl).params == seq![
            ParamView::Int(id),
            ParamView::Text(symbol),
        ],
        member_lookup(MemberPlace::ClassName(class_name), symbol, prefer_impl).params == seq![
            ParamView::Text(class_name@),
            ParamView::Text(symbol),
        ],
        member_lookup(MemberPlace::Module(module), symbol, prefer_impl).params == seq![
            ParamView::Text(module@),
            ParamView::Text(symbol),
        ],
        member_lookup(MemberPlace::Anywhere, symbol, prefer_impl).params == seq![
            ParamView::Text(symbol),
        ],
        type_lookup(symbol).params == seq![ParamView::Text(symbol)],
{
}

// ---------------------------------------------------------------------------
// Requests
// ---------------------------------------------------------------------------
/// A jump to a definition leads to a declaration, one to an implementation to an
/// implementation, both from the place that was given.
pub proof fn law_jump_plan(
    content: String,
    line: u32,
    character: u32,
    file_path: Option<String>,
    p: QueryPlan,
)
    ensures
        is_plan(QueryRequest::GotoDefinition { content, line, character, file_path }, p) ==> (p matches QueryPlan::Jump {
            content: c,
            line: l,
            character: k,
            file_path: f,
            implementation,
        } && c == content && l == line && k == character && f == file_path && !implementation),
        is_plan(QueryRequest::GotoImplementation { content, line, character, file_path }, p) ==> (p matches QueryPlan::Jump {
            content: c,
            line: l,
            character: k,
            file_path: f,
            implementation,
        } && c == content && l == line && k == character && f == file_path && implementation),
{
}

/// A blank prefix finds nothing, a blank name of a module neither; another is
/// searched without the white space around it.
pub proof fn law_blank_requests(prefix: String, limit: Option<usize>, p: QueryPlan)
    ensures
        trim(prefix@).len() == 0 ==> (is_plan(
            QueryRequest::SearchClassesPrefix { prefix, limit },
            p,
        ) <==> p is EmptyList),
        trim(prefix@).len() == 0 ==> (is_plan(QueryRequest::GetModuleByName { name: prefix }, p)
            <==> p is Nothing),
        trim(prefix@).len() > 0 ==> (is_plan(QueryRequest::SearchClassesPrefix { prefix, limit }, p)
            ==> (p matches QueryPlan::Rows { statement, shape } && shape == RowShape::Class
            && statement@.params[0] == ParamView::Text(trim(prefix@) + "%"@))),
        trim(prefix@).len() > 0 ==> (is_plan(QueryRequest::GetModuleByName { name: prefix }, p) ==> (p
            matches QueryPlan::FirstRow { statement, shape } && shape == RowShape::Module
            && statement@.params == seq![ParamView::Text(trim(prefix@))])),
{
}

/// What a request names reaches its plan.
pub proof fn law_plan_keeps_names(a: String, b: String, f: Option<String>, p: QueryPlan)
    ensures
        is_plan(QueryRequest::FindSymbolInModule { module: a, symbol: b }, p) <==> p
            == (QueryPlan::SymbolInModule { module: a, symbol: b }),
        is_plan(
            QueryRequest::FindSymbolInInheritanceChain { class_name: a, symbol_name: b, mode: f },
            p,
        ) <==> p == (QueryPlan::MemberInChain { class_name: a, symbol_name: b }),
        is_plan(QueryRequest::SearchFiles { part: a }, p) <==> p == (QueryPlan::FilesByPathPart {
            part: a,
        }),
        is_plan(QueryRequest::SearchFilesByPathPart { part: a }, p) <==> p
            == (QueryPlan::FilesByPathPart { part: a }),
        is_plan(QueryRequest::GetFileSymbols { file_path: a }, p) <==> p == (QueryPlan::FileSymbols {
            file_path: a,
        }),
        is_plan(QueryRequest::GrepAssets { pattern: a }, p) <==> p == (QueryPlan::GrepAssets {
            pattern: a,
        }),
        is_plan(QueryRequest::GetClassMembers { class_name: a }, p) ==> (p matches QueryPlan::Rows {
            statement,
            shape,
        } && shape == RowShape::ClassMember && statement@.params == seq![ParamView::Text(a@)]),
        is_plan(QueryRequest::GetClassFilePath { class_name: a }, p) ==> p is Refused,
        is_plan(QueryRequest::FindClassByName { name: a }, p) <==> p == (QueryPlan::Unknown {
            request: QueryRequest::FindClassByName { name: a },
        }),
{
}

/// The rows of a request are shown by the columns that it asks for.
pub proof fn law_row_shapes(p: QueryPlan)
    ensures
        is_plan(QueryRequest::GetTargetFiles, p) ==> (p matches QueryPlan::Rows { shape, .. } && shape
            == RowShape::TargetFile),
        is_plan(QueryRequest::GetAllFilePaths, p) ==> (p matches QueryPlan::Rows { shape, .. } && shape
            == RowShape::FilePath),
        is_plan(QueryRequest::GetAllFilesMetadata, p) ==> (p matches QueryPlan::Rows { shape, .. }
            && shape == RowShape::FileMetadata),
        is_plan(QueryRequest::GetStructsOnly, p) ==> (p matches QueryPlan::Rows { shape, .. } && shape
            == RowShape::Struct),
        is_plan(QueryRequest::GetModules, p) ==> (p matches QueryPlan::Rows { shape, .. } && shape
            == RowShape::Module),
        is_plan(QueryRequest::GetAssets, p) ==> (p matches QueryPlan::Rows { shape, .. } && shape
            == RowShape::Asset),
        is_plan(QueryRequest::GetComponents, p) ==> (p matches QueryPlan::Rows { shape, .. } && shape
            == RowShape::Component),
{
}

/// A filter holds the extensions without dots and in lower case, and the text with
/// slashes; an empty text is none.
pub proof fn law_filter(f: FileFilter, es: Seq<Seq<char>>, t: Seq<char>, i: int)
    ensures
        f.is_for(None, None) ==> f.extensions is None && f.text is None,
        t.len() == 0 ==> (f.is_for(None, Some(t)) ==> f.text is None),
        t.len() > 0 ==> (f.is_for(None, Some(t)) ==> (f.text matches Some(s) && s@ == swap_char(
            t,
            '\\',
            '/',
        ))),
        0 <= i < es.len() ==> (f.is_for(Some(es), None) ==> (f.extensions matches Some(v)
            && v@[i]@ == bare_extension(es[i]))),
{
    if f.is_for(Some(es), None) {
        match f.extensions {
            Some(v) => {
                assert(texts(v@) == bare_extensions(es));
                if 0 <= i < es.len() {
                    assert(texts(v@)[i] == v@[i]@);
                }
            },
            None => {},
        }
    }
}

/// A statement on paths begins with those of the directories and keeps its parameters.
pub proof fn law_on_paths(text: Seq<char>, params: Seq<ParamView>)
    ensures
        on_paths(text, params).sql == crate::db::project_path::PATH_CTE@ + text,
        on_paths(text, params).params == params,
{
}

/// A kind narrows the classes of modules down by one more condition.
pub proof fn law_kind_condition(modules: Seq<Seq<char>>, kind: Seq<char>)
    ensures
        ({
            let plain = classes_in_chunk(modules, None).sql;
            let narrow = classes_in_chunk(modules, Some(kind)).sql;
            exists|a: Seq<char>, b: Seq<char>|
                plain == #[trigger] (a + b) && narrow == a + " AND c.symbol_type = ?"@ + b
        }),
{
    reveal_strlit("");
    let parts = seq![
        crate::db::project_path::PATH_CTE@,
        crate::query::class::MODULE_CLASS_COLUMNS@,
        crate::query::class::FILE_PATH@,
        crate::query::class::MODULE_CLASS_ROWS@,
        marks(modules.len()),
        ")"@,
    ];
    let order = crate::query::class::MODULE_CLASS_ORDER@;
    let a = chained(parts);
    let cond = " AND c.symbol_type = ?"@;
    law_chained(parts, ""@);
    law_chained(parts.push(""@), order);
    law_chained(parts, cond);
    law_chained(parts.push(cond), order);
    let plain = classes_in_chunk(modules, None).sql;
    let narrow = classes_in_chunk(modules, Some(kind)).sql;
    assert(parts.push(""@).push(order) =~= seq![
        crate::db::project_path::PATH_CTE@,
        crate::query::class::MODULE_CLASS_COLUMNS@,
        crate::query::class::FILE_PATH@,
        crate::query::class::MODULE_CLASS_ROWS@,
        marks(modules.len()),
        ")"@,
        ""@,
        order,
    ]);
    assert(parts.push(cond).push(order) =~= seq![
        crate::db::project_path::PATH_CTE@,
        crate::query::class::MODULE_CLASS_COLUMNS@,
        crate::query::class::FILE_PATH@,
        crate::query::class::MODULE_CLASS_ROWS@,
        marks(modules.len()),
        ")"@,
        cond,
        order,
    ]);
    assert(plain == chained(parts.push(""@).push(order)));
    assert(narrow == chained(parts.push(cond).push(order)));
    assert(plain =~= a + order);
    assert(narrow == a + cond + order);
}

/// An enumeration with nothing before or behind the last `::` is not looked up by that.
pub proof fn law_empty_enum_part(name: Seq<char>)
    requires
        !name.contains(':'),
        name.len() > 0,
    ensures
        enum_candidates(name + "::"@) == seq![name + "::"@, name],
        enum_candidates("::"@ + name) == seq!["::"@ + name, name],
{
    reveal_strlit("::");
    let a = name + "::"@;
    let at = name.len() as int;
    assert(a.subrange(at, at + 2) =~= "::"@);
    assert(a.skip(at + 2) =~= Seq::<char>::empty());
    lemma_last_pair(a, at, a.len() - 2);
    assert(a.take(at) =~= name);
    let b = "::"@ + name;
    assert(b.subrange(0, 2) =~= "::"@);
    assert(b.skip(2) =~= name);
    lemma_last_pair(b, 0, b.len() - 2);
    assert(b.take(0) =~= Seq::<char>::empty());
    assert(b[0] == ':');
    if b == name {
        assert(name.contains(name[0]));
    }
    assert(seq![b].push(name) =~= seq![b, name]);
}

} // verus!
