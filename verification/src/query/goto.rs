//! Jumping to definitions: the order in which a symbol is looked up, the walk
//! along the parents of a class, and the place that is shown in the end.

use std::collections::{HashSet, VecDeque};

use vstd::prelude::*;

use super::cursor::{extract_cursor_context, find_local_declaration, infer_var_type,
    strip_namespace, CursorCtx};
#[allow(unused_imports)]
use super::cursor::{cursor_context, local_declaration, var_type, without_namespace, CursorView};
use super::locate::{find_symbol_location_near, find_type_declaration_line, is_header_file,
    normalize_path};
#[allow(unused_imports)]
use super::locate::{declaration_from, header_name, slashed, symbol_near};
use crate::ids::{insert_all_rising, insert_rising};
#[allow(unused_imports)]
use crate::ids::rising;
use crate::syntax::SyntaxTree;
#[allow(unused_imports)]
use crate::syntax::NodeView;
use crate::text::{copy_opt, has_text, concat, owned, str_eq, trim_string};
#[allow(unused_imports)]
use crate::text::{lines, opt_str, opt_text, texts, trim, views};

verus! {

// ---------------------------------------------------------------------------
// Order of rows
// ---------------------------------------------------------------------------
/// Headers come before inline files, and these before everything else.
pub const HEADER_PRIORITY_SQL: &'static str = "
    CASE
        WHEN sf.text LIKE '%.h' THEN 0
        WHEN sf.text LIKE '%.hpp' THEN 1
        WHEN sf.text LIKE '%.inl' THEN 2
        ELSE 3
    END
";

/// Generated headers come last.
pub const GENERATED_PRIORITY_SQL: &'static str = "
    CASE
        WHEN sf.text LIKE '%.generated.h' THEN 1
        ELSE 0
    END
";

/// The order in which implementations come first.
pub const IMPLEMENTATION_ORDER_SQL: &'static str = "
    ORDER BY
        CASE WHEN m.access = 'impl' THEN 0 ELSE 1 END,
        CASE
            WHEN sf.text LIKE '%.cpp' THEN 0
            WHEN sf.text LIKE '%.cc' THEN 1
            WHEN sf.text LIKE '%.cxx' THEN 2
            ELSE 3
        END,
        m.line_number
    ";

/// How the order in which declarations come first begins.
pub const DECLARATION_ORDER_SQL: &'static str = "
    ORDER BY
        CASE WHEN m.access = 'impl' THEN 1 ELSE 0 END,
        ";

/// The order in which the rows of members come.
pub open spec fn member_order(prefer_impl: bool) -> Seq<char> {
    if prefer_impl {
        IMPLEMENTATION_ORDER_SQL@
    } else {
        DECLARATION_ORDER_SQL@ + trim(GENERATED_PRIORITY_SQL@) + ",\n        "@ + trim(
            HEADER_PRIORITY_SQL@,
        ) + ",\n        m.line_number\n    "@
    }
}

/// The clause by which the rows of members are ordered.
pub fn member_order_by_clause(prefer_impl: bool) -> (r: String)
    ensures
        r@ == member_order(prefer_impl),
{
    if prefer_impl {
        owned(IMPLEMENTATION_ORDER_SQL)
    } else {
        let generated = trim_string(GENERATED_PRIORITY_SQL);
        let header = trim_string(HEADER_PRIORITY_SQL);
        let s = concat(DECLARATION_ORDER_SQL, generated.as_str());
        let s = concat(s.as_str(), ",\n        ");
        let s = concat(s.as_str(), header.as_str());
        concat(s.as_str(), ",\n        m.line_number\n    ")
    }
}

// ---------------------------------------------------------------------------
// The order of lookups
// ---------------------------------------------------------------------------
/// One way to look a symbol up.
#[derive(Debug, Clone)]
pub enum Lookup {
    /// Its implementation, in the class of that name and then its parents.
    ImplInChain(String),
    /// Its declaration, in the class of that name alone.
    MemberOfClass(String),
    /// Its declaration, in the class of that name and then its parents.
    MemberInChain(String),
    /// The type of that name.
    TypeDefinition,
    /// A member of that name in any class.
    MemberAnywhere,
}

/// What one way to look a symbol up says.
pub enum LookupView {
    ImplInChain(Seq<char>),
    MemberOfClass(Seq<char>),
    MemberInChain(Seq<char>),
    TypeDefinition,
    MemberAnywhere,
}

impl View for Lookup {
    type V = LookupView;

    open spec fn view(&self) -> LookupView {
        match self {
            Lookup::ImplInChain(c) => LookupView::ImplInChain(c@),
            Lookup::MemberOfClass(c) => LookupView::MemberOfClass(c@),
            Lookup::MemberInChain(c) => LookupView::MemberInChain(c@),
            Lookup::TypeDefinition => LookupView::TypeDefinition,
            Lookup::MemberAnywhere => LookupView::MemberAnywhere,
        }
    }
}

/// What to do for a jump.
#[derive(Debug, Clone)]
pub enum GotoPlan {
    /// No symbol under the cursor.
    Nothing,
    /// The symbol is a local name of this file.
    Local { symbol_name: String, line_number: u64, col: u64, file_path: String },
    /// The lookups, of which the first that finds anything counts.
    Search { symbol_name: String, lookups: Vec<Lookup> },
}

/// What the plan for a jump says.
pub enum GotoView {
    Nothing,
    Local { symbol_name: Seq<char>, line_number: u64, col: u64, file_path: Seq<char> },
    Search { symbol_name: Seq<char>, lookups: Seq<LookupView> },
}

impl View for GotoPlan {
    type V = GotoView;

    open spec fn view(&self) -> GotoView {
        match self {
            GotoPlan::Nothing => GotoView::Nothing,
            GotoPlan::Local { symbol_name, line_number, col, file_path } => GotoView::Local {
                symbol_name: symbol_name@,
                line_number: *line_number,
                col: *col,
                file_path: file_path@,
            },
            GotoPlan::Search { symbol_name, lookups } => GotoView::Search {
                symbol_name: symbol_name@,
                lookups: views(lookups@),
            },
        }
    }
}

/// The class through which an implementation is looked up.
pub open spec fn impl_class(ns: Seq<NodeView>, c: CursorView, row: int) -> Option<Seq<char>> {
    match (c.qualifier, c.qualifier_op) {
        (Some(q), Some(op)) => if op == "::"@ {
            if q == "Super"@ {
                c.enclosing_class
            } else {
                Some(q)
            }
        } else if op == "."@ || op == "->"@ {
            if q == "this"@ {
                c.enclosing_class
            } else {
                var_type(ns, q, Some(row))
            }
        } else {
            c.enclosing_class
        },
        _ => c.enclosing_class,
    }
}

/// The class that a qualifier stands for: for `Super` and `this` the enclosing
/// one, for a variable its type, and the qualifier itself where that is unknown.
pub open spec fn qualifier_class(ns: Seq<NodeView>, c: CursorView, q: Seq<char>, row: int) -> Seq<
    char,
> {
    let known = match c.qualifier_op {
        Some(op) => if op == "::"@ && q == "Super"@ {
            c.enclosing_class
        } else if op != "::"@ && (op == "."@ || op == "->"@) {
            if q == "this"@ {
                c.enclosing_class
            } else {
                var_type(ns, q, Some(row))
            }
        } else {
            None
        },
        None => None,
    };
    match known {
        Some(k) => k,
        None => q,
    }
}

/// The lookups for a symbol, in order.
pub open spec fn lookups_for(ns: Seq<NodeView>, c: CursorView, row: int, prefer_impl: bool) -> Seq<
    LookupView,
> {
    if prefer_impl {
        match impl_class(ns, c, row) {
            Some(k) => seq![LookupView::ImplInChain(k), LookupView::MemberOfClass(k)],
            None => seq![],
        }
    } else {
        let through = match c.qualifier {
            Some(q) => seq![LookupView::MemberInChain(qualifier_class(ns, c, q, row))],
            None => seq![],
        };
        let around = match c.enclosing_class {
            Some(k) => seq![LookupView::MemberInChain(k)],
            None => seq![],
        };
        through + around + seq![LookupView::TypeDefinition, LookupView::MemberAnywhere]
    }
}

/// The plan for a jump from a cursor on node `at` of a file.
pub open spec fn goto_plan(
    ns: Seq<NodeView>,
    at: Option<int>,
    row: int,
    col: int,
    path: Option<Seq<char>>,
    prefer_impl: bool,
) -> GotoView {
    match at {
        None => GotoView::Nothing,
        Some(at) => match cursor_context(ns, at) {
            None => GotoView::Nothing,
            Some(c) => match (local_declaration(ns, at, c.symbol, row, col), path) {
                (Some(d), Some(p)) => GotoView::Local {
                    symbol_name: c.symbol,
                    line_number: (d.row + 1) as u64,
                    col: d.col as u64,
                    file_path: slashed(p),
                },
                _ => GotoView::Search {
                    symbol_name: c.symbol,
                    lookups: lookups_for(ns, c, row, prefer_impl),
                },
            },
        },
    }
}

/// The class through which an implementation is looked up.
pub fn resolve_impl_class(ctx: &CursorCtx, tree: &SyntaxTree, line: u32) -> (r: Option<String>)
    ensures
        opt_text(r) == impl_class(tree@, ctx@, line as int),
{
    match (&ctx.qualifier, &ctx.qualifier_op) {
        (Some(q), Some(op)) => {
            if str_eq(op.as_str(), "::") {
                if str_eq(q.as_str(), "Super") {
                    copy_opt(&ctx.enclosing_class)
                } else {
                    Some(q.clone())
                }
            } else if str_eq(op.as_str(), ".") || str_eq(op.as_str(), "->") {
                if str_eq(q.as_str(), "this") {
                    copy_opt(&ctx.enclosing_class)
                } else {
                    infer_var_type(tree, q.as_str(), Some(line))
                }
            } else {
                copy_opt(&ctx.enclosing_class)
            }
        },
        _ => copy_opt(&ctx.enclosing_class),
    }
}

/// The class that a qualifier stands for.
pub fn resolve_qualifier_class(
    ctx: &CursorCtx,
    qualifier: &str,
    tree: &SyntaxTree,
    line: u32,
) -> (r: String)
    ensures
        r@ == qualifier_class(tree@, ctx@, qualifier@, line as int),
{
    let known: Option<String> = match &ctx.qualifier_op {
        Some(op) => {
            if str_eq(op.as_str(), "::") {
                if str_eq(qualifier, "Super") {
                    copy_opt(&ctx.enclosing_class)
                } else {
                    None
                }
            } else if str_eq(op.as_str(), ".") || str_eq(op.as_str(), "->") {
                if str_eq(qualifier, "this") {
                    copy_opt(&ctx.enclosing_class)
                } else {
                    infer_var_type(tree, qualifier, Some(line))
                }
            } else {
                None
            }
        },
        None => None,
    };
    match known {
        Some(k) => k,
        None => owned(qualifier),
    }
}

/// The lookups for a symbol, in order.
pub fn lookups_of(ctx: &CursorCtx, tree: &SyntaxTree, line: u32, prefer_impl: bool) -> (r: Vec<
    Lookup,
>)
    ensures
        views(r@) == lookups_for(tree@, ctx@, line as int, prefer_impl),
{
    let mut out: Vec<Lookup> = Vec::new();
    if prefer_impl {
        match resolve_impl_class(ctx, tree, line) {
            Some(k) => {
                out.push(Lookup::ImplInChain(k.clone()));
                out.push(Lookup::MemberOfClass(k));
            },
            None => {},
        }
        assert(views(out@) =~= lookups_for(tree@, ctx@, line as int, prefer_impl));
        return out;
    }
    match &ctx.qualifier {
        Some(q) => {
            out.push(
                Lookup::MemberInChain(resolve_qualifier_class(ctx, q.as_str(), tree, line)),
            );
        },
        None => {},
    }
    match &ctx.enclosing_class {
        Some(k) => {
            out.push(Lookup::MemberInChain(k.clone()));
        },
        None => {},
    }
    out.push(Lookup::TypeDefinition);
    out.push(Lookup::MemberAnywhere);
    assert(views(out@) =~= lookups_for(tree@, ctx@, line as int, prefer_impl));
    out
}

/// The plan for a jump from a cursor on node `at` of a file.
pub fn plan_goto(
    tree: &SyntaxTree,
    at: Option<usize>,
    line: u32,
    character: u32,
    file_path: Option<&str>,
    prefer_impl: bool,
) -> (r: GotoPlan)
    requires
        at matches Some(i) ==> i < tree@.len(),
    ensures
        r@ == goto_plan(
            tree@,
            match at {
                Some(i) => Some(i as int),
                None => None,
            },
            line as int,
            character as int,
            opt_str(file_path),
            prefer_impl,
        ),
{
    let at: usize = match at {
        Some(i) => i,
        None => {
            return GotoPlan::Nothing;
        },
    };
    let ctx = match extract_cursor_context(tree, at) {
        Some(c) => c,
        None => {
            return GotoPlan::Nothing;
        },
    };
    match (find_local_declaration(tree, at, ctx.symbol.as_str(), line, character), file_path) {
        (Some(d), Some(path)) => {
            let row: u64 = d.row as u64;
            let line_number: u64 = if row < u64::MAX {
                row + 1
            } else {
                0
            };
            assert(line_number == (row + 1) as u64) by (bit_vector)
                requires
                    line_number == (if row < u64::MAX {
                        (row + 1) as u64
                    } else {
                        0u64
                    }),
            ;
            GotoPlan::Local {
                symbol_name: ctx.symbol,
                line_number,
                col: d.col as u64,
                file_path: normalize_path(path),
            }
        },
        _ => {
            let lookups = lookups_of(&ctx, tree, line, prefer_impl);
            GotoPlan::Search { symbol_name: ctx.symbol, lookups }
        },
    }
}

/// The plan for a jump to a declaration.
pub fn goto_definition(
    tree: &SyntaxTree,
    at: Option<usize>,
    line: u32,
    character: u32,
    file_path: Option<&str>,
) -> (r: GotoPlan)
    requires
        at matches Some(i) ==> i < tree@.len(),
    ensures
        r@ == goto_plan(
            tree@,
            match at {
                Some(i) => Some(i as int),
                None => None,
            },
            line as int,
            character as int,
            opt_str(file_path),
            false,
        ),
{
    plan_goto(tree, at, line, character, file_path, false)
}

/// The plan for a jump to an implementation.
pub fn goto_implementation(
    tree: &SyntaxTree,
    at: Option<usize>,
    line: u32,
    character: u32,
    file_path: Option<&str>,
) -> (r: GotoPlan)
    requires
        at matches Some(i) ==> i < tree@.len(),
    ensures
        r@ == goto_plan(
            tree@,
            match at {
                Some(i) => Some(i as int),
                None => None,
            },
            line as int,
            character as int,
            opt_str(file_path),
            true,
        ),
{
    plan_goto(tree, at, line, character, file_path, true)
}

/// An implementation is never looked for in a class other than the one that
/// the cursor points at: no lookup goes through the whole project.
pub proof fn law_implementation_stays_in_class(ns: Seq<NodeView>, c: CursorView, row: int)
    ensures
        forall|i: int|
            #![trigger lookups_for(ns, c, row, true)[i]]
            0 <= i < lookups_for(ns, c, row, true).len() ==> lookups_for(ns, c, row, true)[i]
                != LookupView::MemberAnywhere && lookups_for(ns, c, row, true)[i]
                != LookupView::TypeDefinition,
{
}

/// A declaration is looked for everywhere in the end.
pub proof fn law_definition_falls_back(ns: Seq<NodeView>, c: CursorView, row: int)
    ensures
        lookups_for(ns, c, row, false).len() >= 2,
        lookups_for(ns, c, row, false).last() == LookupView::MemberAnywhere,
{
}

// ---------------------------------------------------------------------------
// The walk along parents
// ---------------------------------------------------------------------------
/// A walk over classes, breadth first: what is still to be looked at, and what
/// has been.
pub struct ChainSearch {
    queue: VecDeque<i64>,
    visited: HashSet<i64>,
}

/// The number of entries in front of the first class that was not visited.
pub open spec fn skipped(queue: Seq<i64>, visited: Set<i64>) -> int
    decreases queue.len(),
{
    if queue.len() == 0 || !visited.contains(queue[0]) {
        0
    } else {
        1 + skipped(queue.skip(1), visited)
    }
}

/// The classes of a list that were not visited.
pub open spec fn unvisited(ids: Seq<i64>, visited: Set<i64>) -> Seq<i64>
    decreases ids.len(),
{
    if ids.len() == 0 {
        seq![]
    } else {
        let rest = unvisited(ids.drop_last(), visited);
        if visited.contains(ids.last()) {
            rest
        } else {
            rest.push(ids.last())
        }
    }
}

/// What `skipped` promises.
proof fn lemma_skipped(queue: Seq<i64>, visited: Set<i64>)
    ensures
        0 <= skipped(queue, visited) <= queue.len(),
        skipped(queue, visited) < queue.len() ==> !visited.contains(
            queue[skipped(queue, visited)],
        ),
        forall|i: int|
            0 <= i < skipped(queue, visited) ==> visited.contains(#[trigger] queue[i]),
    decreases queue.len(),
{
    if queue.len() > 0 && visited.contains(queue[0]) {
        lemma_skipped(queue.skip(1), visited);
        let k = skipped(queue.skip(1), visited);
        assert forall|i: int| 0 <= i < k + 1 implies visited.contains(#[trigger] queue[i]) by {
            if i > 0 {
                assert(queue.skip(1)[i - 1] == queue[i]);
            }
        }
        if k < queue.len() - 1 {
            assert(queue.skip(1)[k] == queue[k + 1]);
        }
    }
}

impl ChainSearch {
    /// The classes still to be looked at.
    pub closed spec fn queue(self) -> Seq<i64> {
        self.queue@
    }

    /// The classes that have been looked at.
    pub closed spec fn visited(self) -> Set<i64> {
        self.visited@
    }

    /// A walk that begins with the given classes.
    pub fn start(ids: &Vec<i64>) -> (r: ChainSearch)
        ensures
            r.queue() == ids@,
            r.visited() == Set::<i64>::empty(),
    {
        let mut queue: VecDeque<i64> = VecDeque::new();
        let mut i: usize = 0;
        while i < ids.len()
            invariant
                i <= ids@.len(),
                queue@ == ids@.take(i as int),
            decreases ids.len() - i,
        {
            queue.push_back(ids[i]);
            assert(ids@.take(i + 1) =~= ids@.take(i as int).push(ids@[i as int]));
            i = i + 1;
        }
        assert(ids@.take(ids@.len() as int) =~= ids@);
        ChainSearch { queue, visited: HashSet::new() }
    }

    /// The next class to look at, which none of the calls before gave.
    pub fn next_class(&mut self) -> (r: Option<i64>)
        ensures
            ({
                let k = skipped(old(self).queue(), old(self).visited());
                match r {
                    Some(id) => {
                        &&& k < old(self).queue().len()
                        &&& id == old(self).queue()[k]
                        &&& !old(self).visited().contains(id)
                        &&& final(self).queue() == old(self).queue().skip(k + 1)
                        &&& final(self).visited() == old(self).visited().insert(id)
                    },
                    None => {
                        &&& k == old(self).queue().len()
                        &&& final(self).queue() == Seq::<i64>::empty()
                        &&& final(self).visited() == old(self).visited()
                    },
                }
            }),
    {
        broadcast use vstd::std_specs::hash::group_hash_axioms;

        let ghost q = self.queue@;
        let ghost seen = self.visited@;
        let ghost mut n: int = 0;
        loop
            invariant
                0 <= n <= q.len(),
                self.queue@ == q.skip(n),
                self.visited@ == seen,
                q == old(self).queue(),
                seen == old(self).visited(),
                skipped(q, seen) == n + skipped(q.skip(n), seen),
            decreases self.queue@.len(),
        {
            proof {
                lemma_skipped(q, seen);
            }
            match self.queue.pop_front() {
                None => {
                    assert(self.queue@ =~= Seq::<i64>::empty());
                    return None;
                },
                Some(id) => {
                    assert(q.skip(n).subrange(1, q.skip(n).len() as int) =~= q.skip(n + 1));
                    assert(q.skip(n).skip(1) =~= q.skip(n + 1));
                    if self.visited.insert(id) {
                        return Some(id);
                    }
                    assert(seen.insert(id) =~= seen);
                    proof {
                        n = n + 1;
                    }
                },
            }
        }
    }

    /// Adds the parents of the class that was given last, but for those that
    /// have been looked at.
    pub fn add_parents(&mut self, parents: &Vec<i64>)
        ensures
            final(self).queue() == old(self).queue() + unvisited(
                parents@,
                old(self).visited(),
            ),
            final(self).visited() == old(self).visited(),
    {
        broadcast use vstd::std_specs::hash::group_hash_axioms;

        let mut i: usize = 0;
        assert(self.queue@ =~= self.queue@ + unvisited(parents@.take(0), self.visited@));
        while i < parents.len()
            invariant
                i <= parents@.len(),
                self.visited() == old(self).visited(),
                self.queue() == old(self).queue() + unvisited(
                    parents@.take(i as int),
                    old(self).visited(),
                ),
            decreases parents.len() - i,
        {
            broadcast use vstd::std_specs::hash::group_hash_axioms;

            assert(parents@.take(i + 1).drop_last() =~= parents@.take(i as int));
            if !self.visited.contains(&parents[i]) {
                self.queue.push_back(parents[i]);
            }
            assert(self.queue() =~= old(self).queue() + unvisited(
                parents@.take(i + 1),
                old(self).visited(),
            ));
            i = i + 1;
        }
        assert(parents@.take(parents@.len() as int) =~= parents@);
    }
}

/// The classes that a walk gives within `fuel` steps, where `parents` says what
/// the parents of a class are.
pub open spec fn walk(
    parents: spec_fn(i64) -> Seq<i64>,
    queue: Seq<i64>,
    visited: Set<i64>,
    fuel: nat,
) -> Seq<i64>
    decreases fuel,
{
    let k = skipped(queue, visited);
    if fuel == 0 || k >= queue.len() {
        seq![]
    } else {
        let id = queue[k];
        let seen = visited.insert(id);
        seq![id] + walk(
            parents,
            queue.skip(k + 1) + unvisited(parents(id), seen),
            seen,
            (fuel - 1) as nat,
        )
    }
}

/// A walk gives no class twice, and none that was visited before.
pub proof fn law_walk_visits_once(
    parents: spec_fn(i64) -> Seq<i64>,
    queue: Seq<i64>,
    visited: Set<i64>,
    fuel: nat,
)
    ensures
        walk(parents, queue, visited, fuel).no_duplicates(),
        forall|i: int|
            0 <= i < walk(parents, queue, visited, fuel).len() ==> !visited.contains(
                #[trigger] walk(parents, queue, visited, fuel)[i],
            ),
    decreases fuel,
{
    let k = skipped(queue, visited);
    lemma_skipped(queue, visited);
    if fuel > 0 && k < queue.len() {
        let id = queue[k];
        let seen = visited.insert(id);
        let next = queue.skip(k + 1) + unvisited(parents(id), seen);
        let rest = walk(parents, next, seen, (fuel - 1) as nat);
        law_walk_visits_once(parents, next, seen, (fuel - 1) as nat);
        let all = seq![id] + rest;
        assert(walk(parents, queue, visited, fuel) == all);
        assert forall|i: int| 0 <= i < all.len() implies !visited.contains(#[trigger] all[i]) by {
            if i > 0 {
                assert(all[i] == rest[i - 1]);
            }
        }
        assert forall|i: int, j: int| 0 <= i < all.len() && 0 <= j < all.len() && i != j implies
            all[i] != all[j] by {
            if i > 0 {
                assert(all[i] == rest[i - 1]);
            }
            if j > 0 {
                assert(all[j] == rest[j - 1]);
            }
        }
    }
}

/// What stands among the classes that were not visited.
proof fn lemma_unvisited(ids: Seq<i64>, visited: Set<i64>)
    ensures
        forall|i: int|
            0 <= i < unvisited(ids, visited).len() ==> ids.contains(
                #[trigger] unvisited(ids, visited)[i],
            ),
    decreases ids.len(),
{
    if ids.len() > 0 {
        let d = ids.drop_last();
        lemma_unvisited(d, visited);
        let out = unvisited(ids, visited);
        assert forall|i: int| 0 <= i < out.len() implies ids.contains(#[trigger] out[i]) by {
            if i < unvisited(d, visited).len() {
                assert(d.contains(out[i]));
                let j = choose|j: int| 0 <= j < d.len() && d[j] == out[i];
                assert(ids[j] == out[i]);
            } else {
                assert(ids[ids.len() - 1] == out[i]);
            }
        }
    }
}

/// A walk ends, even where classes are their own ancestors: among `known`
/// classes it takes no more steps than there are of them.
pub proof fn law_walk_ends(
    parents: spec_fn(i64) -> Seq<i64>,
    queue: Seq<i64>,
    visited: Set<i64>,
    known: Set<i64>,
    fuel: nat,
)
    requires
        known.finite(),
        visited.subset_of(known),
        forall|i: int| 0 <= i < queue.len() ==> known.contains(#[trigger] queue[i]),
        forall|id: i64, i: int|
            #![trigger parents(id)[i]]
            known.contains(id) && 0 <= i < parents(id).len() ==> known.contains(parents(id)[i]),
        fuel >= known.difference(visited).len(),
    ensures
        walk(parents, queue, visited, fuel) == walk(parents, queue, visited, fuel + 1),
        walk(parents, queue, visited, fuel).len() <= known.difference(visited).len(),
    decreases fuel,
{
    let k = skipped(queue, visited);
    lemma_skipped(queue, visited);
    if k < queue.len() {
        let id = queue[k];
        let seen = visited.insert(id);
        let left = known.difference(visited);
        assert(left.contains(id));
        assert(known.difference(seen) =~= left.remove(id));
        let next = queue.skip(k + 1) + unvisited(parents(id), seen);
        lemma_unvisited(parents(id), seen);
        assert forall|i: int| 0 <= i < next.len() implies known.contains(#[trigger] next[i]) by {
            let tail = queue.skip(k + 1);
            if i < tail.len() {
                assert(next[i] == queue[i + k + 1]);
            } else {
                let u = unvisited(parents(id), seen);
                assert(next[i] == u[i - tail.len()]);
                assert(parents(id).contains(u[i - tail.len()]));
                let ps = parents(id);
                let j = choose|j: int| 0 <= j < ps.len() && #[trigger] ps[j] == next[i];
                assert(known.contains(parents(id)[j]));
            }
        }
        assert(fuel > 0);
        law_walk_ends(parents, next, seen, known, (fuel - 1) as nat);
    }
}

// ---------------------------------------------------------------------------
// Names tried on the way
// ---------------------------------------------------------------------------
/// The names that were tried once the first `n` parents have been looked at.
pub open spec fn tried_after(tried: Seq<Seq<char>>, names: Seq<Option<Seq<char>>>, n: int) -> Seq<
    Seq<char>,
>
    decreases n,
{
    if n <= 0 {
        tried
    } else {
        let before = tried_after(tried, names, n - 1);
        match names[n - 1] {
            Some(name) => {
                let short = without_namespace(name);
                if short.len() > 0 && !before.contains(short) {
                    before.push(short)
                } else {
                    before
                }
            },
            None => before,
        }
    }
}

/// The optional texts of a list.
pub open spec fn opt_texts(v: Seq<Option<String>>) -> Seq<Option<Seq<char>>> {
    v.map_values(|s: Option<String>| opt_text(s))
}

/// Adds the names of the parents of a class to those that were tried, each once
/// and without its namespace. What is new stands behind what was there, in the
/// order in which it has to be tried.
pub fn add_parent_names(tried: &mut Vec<String>, names: &Vec<Option<String>>)
    ensures
        texts(final(tried)@) == tried_after(
            texts(old(tried)@),
            opt_texts(names@),
            names@.len() as int,
        ),
{
    let ghost start = texts(tried@);
    let ghost all = opt_texts(names@);
    let mut i: usize = 0;
    while i < names.len()
        invariant
            i <= names@.len(),
            all == opt_texts(names@),
            texts(tried@) == tried_after(start, all, i as int),
        decreases names.len() - i,
    {
        assert(all[i as int] == opt_text(names@[i as int]));
        match &names[i] {
            Some(name) => {
                let short = strip_namespace(name.as_str());
                let v = crate::text::chars_of(short.as_str());
                if v.len() > 0 && !has_text(tried, short.as_str()) {
                    let ghost before = texts(tried@);
                    let ghost sv = short@;
                    tried.push(short);
                    assert(texts(tried@) =~= before.push(sv));
                }
            },
            None => {},
        }
        i = i + 1;
    }
}

/// No name is tried twice, and what was tried stays so.
pub proof fn law_names_tried_once(tried: Seq<Seq<char>>, names: Seq<Option<Seq<char>>>, n: int)
    requires
        tried.no_duplicates(),
        0 <= n <= names.len(),
    ensures
        tried_after(tried, names, n).no_duplicates(),
        tried.is_prefix_of(tried_after(tried, names, n)),
    decreases n,
{
    if n > 0 {
        law_names_tried_once(tried, names, n - 1);
        let before = tried_after(tried, names, n - 1);
        let out = tried_after(tried, names, n);
        if out != before {
            let s = out.last();
            assert(out == before.push(s));
            assert forall|i: int, j: int|
                0 <= i < out.len() && 0 <= j < out.len() && i != j implies out[i] != out[j] by {
                if i < before.len() {
                    assert(before.contains(before[i]));
                }
                if j < before.len() {
                    assert(before.contains(before[j]));
                }
            }
        }
    }
}

// ---------------------------------------------------------------------------
// Parents of a class
// ---------------------------------------------------------------------------
/// One recorded parent: its number where it is known, else the numbers of all
/// classes of its name.
#[derive(Debug, Clone)]
pub struct ParentRow {
    pub id: Option<i64>,
    pub named: Vec<i64>,
}

impl ParentRow {
    /// The number belongs to this parent.
    pub open spec fn holds(self, x: i64) -> bool {
        match self.id {
            Some(id) => x == id,
            None => self.named@.contains(x),
        }
    }
}

/// The parents of a class in order, each once.
pub fn parent_ids(rows: &Vec<ParentRow>) -> (r: Vec<i64>)
    ensures
        rising(r@),
        forall|x: i64|
            r@.contains(x) == exists|i: int| 0 <= i < rows@.len() && #[trigger] rows@[i].holds(x),
{
    let mut out: Vec<i64> = Vec::new();
    let mut i: usize = 0;
    while i < rows.len()
        invariant
            i <= rows@.len(),
            rising(out@),
            forall|x: i64|
                out@.contains(x) == exists|j: int| 0 <= j < i && #[trigger] rows@[j].holds(x),
        decreases rows.len() - i,
    {
        let ghost before = out@;
        match rows[i].id {
            Some(id) => {
                insert_rising(&mut out, id);
                assert forall|x: i64| out@.contains(x) == (before.contains(x) || rows@[i as int].holds(x)) by {
                    assert(rows@[i as int].id == Some(id));
                }
            },
            None => {
                insert_all_rising(&mut out, &rows[i].named);
                assert forall|x: i64| out@.contains(x) == (before.contains(x) || rows@[i as int].holds(x)) by {
                    assert(rows@[i as int].id is None);
                    assert(out@.contains(x) == (before.contains(x) || rows@[i as int].named@.contains(x)));
                }
            },
        }
        proof {
            assert forall|x: i64|
                out@.contains(x) == exists|j: int|
                    0 <= j < i + 1 && #[trigger] rows@[j].holds(x) by {
                assert(out@.contains(x) == (before.contains(x) || rows@[i as int].holds(x)));
                if before.contains(x) {
                    let j = choose|j: int| 0 <= j < i && #[trigger] rows@[j].holds(x);
                    assert(rows@[j].holds(x));
                }
            }
        }
        i = i + 1;
    }
    out
}

// ---------------------------------------------------------------------------
// The place that is shown
// ---------------------------------------------------------------------------
/// A place in a file: the line counted from one, and the column where it is
/// known.
#[derive(Debug, Clone)]
pub struct Location {
    pub file_path: String,
    pub line_number: i64,
    pub col: Option<i64>,
}

/// What a place says.
pub struct LocationView {
    pub file_path: Seq<char>,
    pub line_number: i64,
    pub col: Option<i64>,
}

impl View for Location {
    type V = LocationView;

    open spec fn view(&self) -> LocationView {
        LocationView {
            file_path: self.file_path@,
            line_number: self.line_number,
            col: self.col,
        }
    }
}

/// The line from which a symbol is searched.
pub open spec fn search_line(line_number: i64) -> usize {
    if line_number >= 1 {
        line_number as usize
    } else {
        1
    }
}

/// The place of a symbol: the exact line and column where the file shows them
/// near the recorded line, else what was recorded.
pub open spec fn symbol_place(
    path: Seq<char>,
    line_number: i64,
    content: Option<Seq<char>>,
    name: Seq<char>,
) -> LocationView {
    let near = match content {
        Some(c) => symbol_near(lines(c), name, search_line(line_number) as int),
        None => None,
    };
    match near {
        Some((l, c)) => LocationView {
            file_path: path,
            line_number: l as i64,
            col: Some(c as i64),
        },
        None => LocationView { file_path: path, line_number, col: None },
    }
}

/// The place of a symbol, from the text of its file where that can be read.
pub fn fix_symbol_location(
    file_path: &str,
    line_number: i64,
    content: Option<&str>,
    symbol_name: &str,
) -> (r: Location)
    ensures
        r@ == symbol_place(file_path@, line_number, opt_str(content), symbol_name@),
{
    let start: usize = if line_number >= 1 {
        #[verifier::truncate]
        (line_number as usize)
    } else {
        1
    };
    let near: Option<(usize, usize)> = match content {
        Some(c) => find_symbol_location_near(c, symbol_name, start),
        None => None,
    };
    match near {
        Some((l, c)) => Location {
            file_path: owned(file_path),
            line_number: #[verifier::truncate]
            (l as i64),
            col: Some(#[verifier::truncate]
            (c as i64)),
        },
        None => Location { file_path: owned(file_path), line_number, col: None },
    }
}

/// A header that declares a type: its path, its text where it can be read, and
/// the line of the declaration.
#[derive(Debug, Clone)]
pub struct HeaderMatch {
    pub file_path: String,
    pub content: Option<String>,
    pub line: usize,
}

/// The place of a type. A header is preferred to a source file, and where no
/// line was recorded the declaration is searched in the file.
pub open spec fn type_place(
    path: Seq<char>,
    line_number: i64,
    content: Option<Seq<char>>,
    header: Option<HeaderMatch>,
    name: Seq<char>,
) -> LocationView {
    match header {
        Some(h) if !header_name(path) => symbol_place(
            h.file_path@,
            h.line as i64,
            opt_text(h.content),
            name,
        ),
        _ => {
            let declared = match content {
                Some(c) => declaration_from(lines(c), 0, name),
                None => None,
            };
            let line = match declared {
                Some(l) => if line_number <= 1 {
                    l as i64
                } else {
                    line_number
                },
                None => line_number,
            };
            symbol_place(path, line, content, name)
        },
    }
}

/// The place of a type, given the header that declares it where one was found.
/// The header counts only where the recorded file is none itself.
pub fn fix_type_definition_location(
    file_path: &str,
    line_number: i64,
    content: Option<&str>,
    header: &Option<HeaderMatch>,
    symbol_name: &str,
) -> (r: Location)
    ensures
        r@ == type_place(file_path@, line_number, opt_str(content), *header, symbol_name@),
{
    match header {
        Some(h) => {
            if !is_header_file(file_path) {
                let text: Option<&str> = match &h.content {
                    Some(c) => Some(c.as_str()),
                    None => None,
                };
                return fix_symbol_location(
                    h.file_path.as_str(),
                    #[verifier::truncate]
                    (h.line as i64),
                    text,
                    symbol_name,
                );
            }
        },
        None => {},
    }
    let declared: Option<usize> = match content {
        Some(c) => find_type_declaration_line(c, symbol_name),
        None => None,
    };
    let line: i64 = match declared {
        Some(l) => if line_number <= 1 {
            #[verifier::truncate]
            (l as i64)
        } else {
            line_number
        },
        None => line_number,
    };
    fix_symbol_location(file_path, line, content, symbol_name)
}

} // verus!
