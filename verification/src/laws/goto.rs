//! Where a jump leads.

#[allow(unused_imports)]
use crate::query::cursor::{cursor_context, local_declaration, var_type, without_namespace, CursorView};
#[allow(unused_imports)]
use crate::query::goto::{goto_plan, impl_class, lookups_for, member_order, qualifier_class, search_line, symbol_place,
    tried_after, type_place, unvisited, walk, GotoView, HeaderMatch, LocationView, LookupView, IMPLEMENTATION_ORDER_SQL};
#[allow(unused_imports)]
use crate::query::locate::{declaration_from, header_name, symbol_near};
#[allow(unused_imports)]
use crate::syntax::NodeView;
#[allow(unused_imports)]
use crate::text::{lines, opt_text};
#[allow(unused_imports)]
use crate::query::goto::skipped;
use vstd::prelude::*;

verus! {

proof fn lemma_operators()
    ensures
        "."@ != "::"@,
        "->"@ != "::"@,
        "."@ != "->"@,
{
    reveal_strlit(".");
    reveal_strlit("::");
    reveal_strlit("->");
    assert("."@.len() == 1 && "::"@.len() == 2 && "->"@.len() == 2);
    assert("::"@[0] == ':' && "->"@[0] == '-');
}

// ---------------------------------------------------------------------------
// Implementations
// ---------------------------------------------------------------------------
/// Behind `Class::`, the implementation is looked for in that class, whatever class
/// the cursor stands in.
pub proof fn law_named_class_is_searched(ns: Seq<NodeView>, c: CursorView, row: int, q: Seq<char>)
    requires
        c.qualifier == Some(q),
        c.qualifier_op == Some("::"@),
        q != "Super"@,
    ensures
        lookups_for(ns, c, row, true) == seq![
            LookupView::ImplInChain(q),
            LookupView::MemberOfClass(q),
        ],
{
}

/// Behind `Super::`, behind `this->`, and without a qualifier, the implementation is
/// looked for in the class around the cursor; nowhere where there is none.
pub proof fn law_own_class_is_searched(ns: Seq<NodeView>, c: CursorView, row: int)
    requires
        (c.qualifier == Some("Super"@) && c.qualifier_op == Some("::"@)) || (c.qualifier == Some(
            "this"@,
        ) && (c.qualifier_op == Some("."@) || c.qualifier_op == Some("->"@))) || c.qualifier is None,
    ensures
        match c.enclosing_class {
            Some(k) => lookups_for(ns, c, row, true) == seq![
                LookupView::ImplInChain(k),
                LookupView::MemberOfClass(k),
            ],
            None => lookups_for(ns, c, row, true) == Seq::<LookupView>::empty(),
        },
{
    lemma_operators();
}

/// Behind a variable, the implementation is looked for in the class of its type;
/// nowhere where that is not known.
pub proof fn law_class_of_variable_is_searched(
    ns: Seq<NodeView>,
    c: CursorView,
    row: int,
    v: Seq<char>,
)
    requires
        c.qualifier == Some(v),
        c.qualifier_op == Some("."@) || c.qualifier_op == Some("->"@),
        v != "this"@,
    ensures
        match var_type(ns, v, Some(row)) {
            Some(k) => lookups_for(ns, c, row, true) == seq![
                LookupView::ImplInChain(k),
                LookupView::MemberOfClass(k),
            ],
            None => lookups_for(ns, c, row, true) == Seq::<LookupView>::empty(),
        },
{
    lemma_operators();
}

// ---------------------------------------------------------------------------
// Declarations
// ---------------------------------------------------------------------------
/// A declaration is looked for through its qualifier first, then in the class
/// around the cursor, then among the types, then everywhere.
pub proof fn law_declaration_order(ns: Seq<NodeView>, c: CursorView, row: int)
    ensures
        match (c.qualifier, c.enclosing_class) {
            (Some(q), Some(k)) => lookups_for(ns, c, row, false) == seq![
                LookupView::MemberInChain(qualifier_class(ns, c, q, row)),
                LookupView::MemberInChain(k),
                LookupView::TypeDefinition,
                LookupView::MemberAnywhere,
            ],
            (Some(q), None) => lookups_for(ns, c, row, false) == seq![
                LookupView::MemberInChain(qualifier_class(ns, c, q, row)),
                LookupView::TypeDefinition,
                LookupView::MemberAnywhere,
            ],
            (None, Some(k)) => lookups_for(ns, c, row, false) == seq![
                LookupView::MemberInChain(k),
                LookupView::TypeDefinition,
                LookupView::MemberAnywhere,
            ],
            (None, None) => lookups_for(ns, c, row, false) == seq![
                LookupView::TypeDefinition,
                LookupView::MemberAnywhere,
            ],
        },
{
    let l = lookups_for(ns, c, row, false);
    match (c.qualifier, c.enclosing_class) {
        (Some(q), Some(k)) => {
            assert(l =~= seq![
                LookupView::MemberInChain(qualifier_class(ns, c, q, row)),
                LookupView::MemberInChain(k),
                LookupView::TypeDefinition,
                LookupView::MemberAnywhere,
            ]);
        },
        (Some(q), None) => {
            assert(l =~= seq![
                LookupView::MemberInChain(qualifier_class(ns, c, q, row)),
                LookupView::TypeDefinition,
                LookupView::MemberAnywhere,
            ]);
        },
        (None, Some(k)) => {
            assert(l =~= seq![
                LookupView::MemberInChain(k),
                LookupView::TypeDefinition,
                LookupView::MemberAnywhere,
            ]);
        },
        (None, None) => {
            assert(l =~= seq![LookupView::TypeDefinition, LookupView::MemberAnywhere]);
        },
    }
}

/// What a qualifier stands for: the class of that name, the class around the cursor
/// for `Super` and `this`, and for a variable the class of its type, where that is
/// known.
pub proof fn law_qualifier_class(ns: Seq<NodeView>, c: CursorView, q: Seq<char>, row: int)
    ensures
        c.qualifier_op == Some("::"@) && q != "Super"@ ==> qualifier_class(ns, c, q, row) == q,
        c.qualifier_op == Some("::"@) && q == "Super"@ ==> qualifier_class(ns, c, q, row) == (
        match c.enclosing_class {
            Some(k) => k,
            None => q,
        }),
        (c.qualifier_op == Some("."@) || c.qualifier_op == Some("->"@)) && q == "this"@
            ==> qualifier_class(ns, c, q, row) == (match c.enclosing_class {
            Some(k) => k,
            None => q,
        }),
        (c.qualifier_op == Some("."@) || c.qualifier_op == Some("->"@)) && q != "this"@
            ==> qualifier_class(ns, c, q, row) == (match var_type(ns, q, Some(row)) {
            Some(k) => k,
            None => q,
        }),
        c.qualifier_op is None ==> qualifier_class(ns, c, q, row) == q,
{
    lemma_operators();
}

// ---------------------------------------------------------------------------
// Plans
// ---------------------------------------------------------------------------
/// A jump without a symbol under the cursor leads nowhere. A local name is found in
/// the file itself, with its line counted from one; everything else is looked up.
pub proof fn law_goto_plan(
    ns: Seq<NodeView>,
    at: int,
    row: int,
    col: int,
    path: Option<Seq<char>>,
    prefer_impl: bool,
)
    ensures
        goto_plan(ns, None, row, col, path, prefer_impl) is Nothing,
        cursor_context(ns, at) is None ==> goto_plan(ns, Some(at), row, col, path, prefer_impl)
            is Nothing,
        cursor_context(ns, at) matches Some(c) ==> {
            let r = goto_plan(ns, Some(at), row, col, path, prefer_impl);
            let local = local_declaration(ns, at, c.symbol, row, col);
            &&& local is None || path is None ==> (r matches GotoView::Search {
                symbol_name,
                lookups,
            } && symbol_name == c.symbol && lookups == lookups_for(ns, c, row, prefer_impl))
            &&& local is Some && path is Some ==> (r matches GotoView::Local {
                symbol_name,
                line_number,
                col: column,
                file_path,
            } && symbol_name == c.symbol && line_number == (local->0.row + 1) as u64 && column
                == local->0.col as u64)
        },
{
}

/// Rows of implementations come in the order of implementations.
pub proof fn law_member_order()
    ensures
        member_order(true) == IMPLEMENTATION_ORDER_SQL@,
{
}

// ---------------------------------------------------------------------------
// The walk along parents
// ---------------------------------------------------------------------------
proof fn lemma_unvisited_all(ids: Seq<i64>, visited: Set<i64>)
    ensures
        forall|x: i64| #[trigger]
            unvisited(ids, visited).contains(x) <==> ids.contains(x) && !visited.contains(x),
    decreases ids.len(),
{
    if ids.len() > 0 {
        let few = ids.drop_last();
        lemma_unvisited_all(few, visited);
        let rest = unvisited(few, visited);
        let all = unvisited(ids, visited);
        assert forall|x: i64| #[trigger] all.contains(x) <==> ids.contains(x) && !visited.contains(
            x,
        ) by {
            if all.contains(x) {
                let k = choose|k: int| 0 <= k < all.len() && all[k] == x;
                if k < rest.len() {
                    assert(rest[k] == x);
                    assert(rest.contains(x));
                    let m = choose|m: int| 0 <= m < few.len() && few[m] == x;
                    assert(ids[m] == x);
                } else {
                    assert(ids[ids.len() - 1] == x);
                }
            }
            if ids.contains(x) && !visited.contains(x) {
                let m = choose|m: int| 0 <= m < ids.len() && ids[m] == x;
                if m < few.len() {
                    assert(few[m] == x);
                    assert(few.contains(x));
                    assert(rest.contains(x));
                    let k = choose|k: int| 0 <= k < rest.len() && rest[k] == x;
                    assert(all[k] == x);
                } else {
                    assert(all.last() == x);
                }
            }
        }
    }
}

/// Of the parents of a class those are still to be looked at that were not yet.
pub proof fn law_unvisited(ids: Seq<i64>, visited: Set<i64>, x: i64)
    ensures
        unvisited(ids, visited).contains(x) <==> ids.contains(x) && !visited.contains(x),
{
    lemma_unvisited_all(ids, visited);
}

/// The walk begins with the first class of the queue that was not visited.
pub proof fn law_walk_begins(
    parents: spec_fn(i64) -> Seq<i64>,
    queue: Seq<i64>,
    visited: Set<i64>,
    fuel: nat,
)
    requires
        fuel > 0,
        queue.len() > 0,
        !visited.contains(queue[0]),
    ensures
        walk(parents, queue, visited, fuel).len() > 0,
        walk(parents, queue, visited, fuel)[0] == queue[0],
        walk(parents, queue, visited, fuel).skip(1) == walk(
            parents,
            queue.skip(1) + unvisited(parents(queue[0]), visited.insert(queue[0])),
            visited.insert(queue[0]),
            (fuel - 1) as nat,
        ),
{
    let w = walk(parents, queue, visited, fuel);
    let id = queue[0];
    let seen = visited.insert(id);
    let rest = walk(parents, queue.skip(1) + unvisited(parents(id), seen), seen, (fuel - 1) as nat);
    assert(crate::query::goto::skipped(queue, visited) == 0);
    assert(w == seq![id] + rest);
    assert(w.skip(1) =~= rest);
}

/// Every parent of which a name is recorded is tried by its name without the
/// namespace.
pub proof fn law_every_parent_is_tried(
    tried: Seq<Seq<char>>,
    names: Seq<Option<Seq<char>>>,
    n: int,
    k: int,
    name: Seq<char>,
)
    requires
        0 <= k < n <= names.len(),
        names[k] == Some(name),
        without_namespace(name).len() > 0,
    ensures
        tried_after(tried, names, n).contains(without_namespace(name)),
    decreases n,
{
    let before = tried_after(tried, names, n - 1);
    let now = tried_after(tried, names, n);
    let short = without_namespace(name);
    if k == n - 1 {
        if !before.contains(short) {
            assert(now.last() == short);
        }
    } else {
        law_every_parent_is_tried(tried, names, n - 1, k, name);
        let m = choose|m: int| 0 <= m < before.len() && before[m] == short;
        assert(now[m] == short);
    }
}

// ---------------------------------------------------------------------------
// Places
// ---------------------------------------------------------------------------
/// A symbol is found where its file shows it near the recorded line; where the file
/// does not, the recorded line stands, without a column.
pub proof fn law_symbol_place(
    path: Seq<char>,
    line_number: i64,
    content: Option<Seq<char>>,
    name: Seq<char>,
)
    ensures
        symbol_place(path, line_number, content, name).file_path == path,
        content is None ==> symbol_place(path, line_number, content, name).line_number == line_number
            && symbol_place(path, line_number, content, name).col is None,
        content matches Some(text) ==> (match symbol_near(
            lines(text),
            name,
            search_line(line_number) as int,
        ) {
            Some((l, c)) => symbol_place(path, line_number, content, name).line_number == l as i64
                && symbol_place(path, line_number, content, name).col == Some(c as i64),
            None => symbol_place(path, line_number, content, name).line_number == line_number
                && symbol_place(path, line_number, content, name).col is None,
        }),
        1 <= line_number <= u32::MAX ==> search_line(line_number) == line_number,
        line_number < 1 ==> search_line(line_number) == 1,
{
}

/// A type that is recorded in a source is shown in the header that declares it.
pub proof fn law_type_is_shown_in_header(
    path: Seq<char>,
    line_number: i64,
    content: Option<Seq<char>>,
    header: HeaderMatch,
    name: Seq<char>,
)
    requires
        !header_name(path),
    ensures
        type_place(path, line_number, content, Some(header), name) == symbol_place(
            header.file_path@,
            header.line as i64,
            opt_text(header.content),
            name,
        ),
        type_place(path, line_number, content, Some(header), name).file_path == header.file_path@,
{
}

/// A type that is recorded in a header is shown there; where no line was recorded,
/// on the line of its declaration.
pub proof fn law_type_stays_in_header(
    path: Seq<char>,
    line_number: i64,
    content: Option<Seq<char>>,
    header: Option<HeaderMatch>,
    name: Seq<char>,
)
    requires
        header_name(path) || header is None,
    ensures
        type_place(path, line_number, content, header, name).file_path == path,
        line_number > 1 || content is None ==> type_place(path, line_number, content, header, name)
            == symbol_place(path, line_number, content, name),
        line_number <= 1 ==> (content matches Some(text) ==> (match declaration_from(
            lines(text),
            0,
            name,
        ) {
            Some(l) => type_place(path, line_number, content, header, name) == symbol_place(
                path,
                l as i64,
                content,
                name,
            ),
            None => type_place(path, line_number, content, header, name) == symbol_place(
                path,
                line_number,
                content,
                name,
            ),
        })),
{
}

/// Classes at the front of the queue that were visited are passed over.
pub proof fn law_skipped(x: i64, queue: Seq<i64>, visited: Set<i64>)
    ensures
        skipped(Seq::<i64>::empty(), visited) == 0,
        visited.contains(x) ==> skipped(seq![x] + queue, visited) == 1 + skipped(queue, visited),
        !visited.contains(x) ==> skipped(seq![x] + queue, visited) == 0,
{
    assert((seq![x] + queue).skip(1) =~= queue);
}

/// The class through which an implementation is looked up: the one that is named, that
/// of the variable, or the one around the cursor.
pub proof fn law_impl_class(ns: Seq<NodeView>, c: CursorView, q: Seq<char>, op: Seq<char>, row: int)
    requires
        c.qualifier == Some(q),
        c.qualifier_op == Some(op),
    ensures
        op == "::"@ && q != "Super"@ ==> impl_class(ns, c, row) == Some(q),
        op == "::"@ && q == "Super"@ ==> impl_class(ns, c, row) == c.enclosing_class,
        (op == "."@ || op == "->"@) && q != "this"@ ==> impl_class(ns, c, row) == var_type(
            ns,
            q,
            Some(row),
        ),
        (op == "."@ || op == "->"@) && q == "this"@ ==> impl_class(ns, c, row) == c.enclosing_class,
{
    reveal_strlit(".");
    reveal_strlit("::");
    reveal_strlit("->");
    assert("."@.len() == 1 && "::"@.len() == 2 && "->"@.len() == 2);
    assert("::"@[0] == ':' && "->"@[0] == '-');
}

/// A walk ends where every class of the queue was visited, and goes no further than its
/// steps.
pub proof fn law_walk_ends(
    parents: spec_fn(i64) -> Seq<i64>,
    queue: Seq<i64>,
    visited: Set<i64>,
    fuel: nat,
)
    ensures
        walk(parents, queue, visited, fuel).len() <= fuel,
        (forall|i: int| 0 <= i < queue.len() ==> visited.contains(#[trigger] queue[i])) ==> walk(
            parents,
            queue,
            visited,
            fuel,
        ).len() == 0,
    decreases fuel,
{
    let k = skipped(queue, visited);
    if fuel > 0 && k < queue.len() {
        let seen = visited.insert(queue[k]);
        law_walk_ends(
            parents,
            queue.skip(k + 1) + unvisited(parents(queue[k]), seen),
            seen,
            (fuel - 1) as nat,
        );
    }
    if forall|i: int| 0 <= i < queue.len() ==> visited.contains(#[trigger] queue[i]) {
        lemma_all_skipped(queue, visited);
    }
}

proof fn lemma_all_skipped(queue: Seq<i64>, visited: Set<i64>)
    requires
        forall|i: int| 0 <= i < queue.len() ==> visited.contains(#[trigger] queue[i]),
    ensures
        skipped(queue, visited) == queue.len(),
    decreases queue.len(),
{
    if queue.len() > 0 {
        let rest = queue.skip(1);
        assert(visited.contains(queue[0]));
        assert forall|i: int| 0 <= i < rest.len() implies visited.contains(#[trigger] rest[i]) by {
            assert(rest[i] == queue[i + 1]);
        }
        lemma_all_skipped(rest, visited);
    }
}

} // verus!
