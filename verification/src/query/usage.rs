//! Uses of a symbol: which files may hold them, and which of the occurrences in
//! a file belong to the symbol under the cursor.

use vstd::prelude::*;
use vstd::slice::slice_subrange;

use super::cursor::{enclosing_function, extract_cursor_context, infer_var_type};
#[allow(unused_imports)]
use super::cursor::{cursor_context, function_around, var_type, CursorView};
use super::locate::normalize_path;
#[allow(unused_imports)]
use super::locate::slashed;
use crate::ids::{insert_all_rising, insert_rising};
#[allow(unused_imports)]
use crate::ids::rising;
use crate::order::sorted_set;
#[allow(unused_imports)]
use crate::order::ascending;
use crate::syntax::SyntaxTree;
#[allow(unused_imports)]
use crate::syntax::{child_field, end_of, lemma_end_from, lemma_field_from, NodeView};
use crate::text::{chars_of, concat, copy_opt, ends_with_str, find_str, has, has_char, has_str,
    is_word_char, starts_with_str, str_eq, string_of, to_lower, trim_string, trimmed_end,
    trimmed_start};
#[allow(unused_imports)]
use crate::text::{contains, ends, find, lines, lower, opt_text, rows, starts, texts, trim, trim_end,
    trim_start, views, word_char};

verus! {

/// No more uses than this are collected.
pub const MAX_RESULTS: usize = 300;

/// No more files than this are searched.
pub const MAX_FILES: usize = 2000;

/// So many row numbers go into one statement.
pub const SQL_CHUNK_SIZE: usize = 100;

/// So many uses go into one message of a stream.
pub const STREAM_BATCH_SIZE: usize = 15;

// ---------------------------------------------------------------------------
// Scopes
// ---------------------------------------------------------------------------
/// The lines of the function that a local name belongs to.
#[derive(Debug, Clone, Copy)]
pub struct LocalScope {
    pub start_line: usize,
    pub end_line: usize,
}

/// The class that owns a member, and the class in which the cursor stands.
#[derive(Debug, Clone)]
pub struct MemberScope {
    pub member_owner_class: String,
    pub context_class: Option<String>,
}

/// What a symbol belongs to.
#[derive(Debug, Clone)]
pub enum UsageScope {
    Local(LocalScope),
    Member(MemberScope),
}

/// What a scope says.
pub enum ScopeView {
    Local { start_line: usize, end_line: usize },
    Member { owner: Seq<char>, context: Option<Seq<char>> },
}

impl View for UsageScope {
    type V = ScopeView;

    open spec fn view(&self) -> ScopeView {
        match self {
            UsageScope::Local(s) => ScopeView::Local {
                start_line: s.start_line,
                end_line: s.end_line,
            },
            UsageScope::Member(m) => ScopeView::Member {
                owner: m.member_owner_class@,
                context: opt_text(m.context_class),
            },
        }
    }
}

/// What an optional scope says.
pub open spec fn opt_scope(s: Option<UsageScope>) -> Option<ScopeView> {
    match s {
        Some(s) => Some(s@),
        None => None,
    }
}

/// The name of a scope.
pub open spec fn scope_text(s: Option<ScopeView>) -> Seq<char> {
    match s {
        Some(ScopeView::Local { .. }) => "local"@,
        Some(ScopeView::Member { .. }) => "member"@,
        None => "unresolved"@,
    }
}

/// The name of a scope.
pub fn scope_name(scope: &Option<UsageScope>) -> (r: &'static str)
    ensures
        r@ == scope_text(opt_scope(*scope)),
{
    match scope {
        Some(UsageScope::Local(_)) => "local",
        Some(UsageScope::Member(_)) => "member",
        None => "unresolved",
    }
}

/// The classes through which a member may be used: its owner, and the class of
/// the cursor where that is another one.
pub open spec fn classes_of(scope: Option<ScopeView>) -> Seq<Seq<char>> {
    match scope {
        Some(ScopeView::Member { owner, context }) => match context {
            Some(c) => if c != owner {
                seq![owner, c]
            } else {
                seq![owner]
            },
            None => seq![owner],
        },
        _ => seq![],
    }
}

/// The classes through which a member may be used.
pub fn candidate_classes(scope: &Option<UsageScope>) -> (r: Vec<String>)
    ensures
        texts(r@) == classes_of(opt_scope(*scope)),
{
    let mut out: Vec<String> = Vec::new();
    match scope {
        Some(UsageScope::Member(m)) => {
            out.push(m.member_owner_class.clone());
            match &m.context_class {
                Some(c) => {
                    if !str_eq(c.as_str(), m.member_owner_class.as_str()) {
                        out.push(c.clone());
                    }
                },
                None => {},
            }
        },
        _ => {},
    }
    assert(texts(out@) =~= classes_of(opt_scope(*scope)));
    out
}

// ---------------------------------------------------------------------------
// Local names
// ---------------------------------------------------------------------------
/// The kinds of declarators that lead to the one inside of them.
pub open spec fn leads_on(kind: Seq<char>) -> bool {
    ||| kind == "function_declarator"@
    ||| kind == "init_declarator"@
    ||| kind == "pointer_declarator"@
    ||| kind == "reference_declarator"@
    ||| kind == "array_declarator"@
}

/// The nodes from `j` up to `end` declare the name. Of a declarator only the
/// one inside of it counts.
pub open spec fn names_declared(ns: Seq<NodeView>, j: int, end: int, name: Seq<char>) -> bool
    decreases ns.len() - j,
    when 0 <= j && end <= ns.len()
    via names_declared_decreases
{
    if j >= end {
        false
    } else if ns[j].kind == "identifier"@ || ns[j].kind == "field_identifier"@ {
        (trim(ns[j].text).len() > 0 && trim(ns[j].text) == name) || names_declared(
            ns,
            end_of(ns, j),
            end,
            name,
        )
    } else if leads_on(ns[j].kind) {
        (match child_field(ns, j, "declarator"@) {
            Some(c) => names_declared(ns, c, end_of(ns, c), name),
            None => false,
        }) || names_declared(ns, end_of(ns, j), end, name)
    } else {
        names_declared(ns, j + 1, end, name)
    }
}

#[via_fn]
proof fn names_declared_decreases(ns: Seq<NodeView>, j: int, end: int, name: Seq<char>) {
    if j < end {
        lemma_end_from(ns, ns[j].depth, j + 1);
        lemma_field_from(ns, j + 1, end_of(ns, j), "declarator"@);
        match child_field(ns, j, "declarator"@) {
            Some(c) => {
                lemma_end_from(ns, ns[c].depth, c + 1);
            },
            None => {},
        }
    }
}

/// Node `i` declares the name.
pub open spec fn declares_name(ns: Seq<NodeView>, i: int, name: Seq<char>) -> bool {
    (ns[i].kind == "declaration"@ || ns[i].kind == "parameter_declaration"@) && match child_field(
        ns,
        i,
        "declarator"@,
    ) {
        Some(d) => names_declared(ns, d, end_of(ns, d), name),
        None => false,
    }
}

/// The nodes from `j` up to `end` declare the name, those that begin below the
/// row left out with all that is inside of them.
pub open spec fn declared_above(
    ns: Seq<NodeView>,
    j: int,
    end: int,
    name: Seq<char>,
    row: int,
) -> bool
    decreases ns.len() - j,
    when 0 <= j && end <= ns.len()
    via declared_above_decreases
{
    if j >= end {
        false
    } else if ns[j].start_row > row {
        declared_above(ns, end_of(ns, j), end, name, row)
    } else {
        declares_name(ns, j, name) || declared_above(ns, j + 1, end, name, row)
    }
}

#[via_fn]
proof fn declared_above_decreases(
    ns: Seq<NodeView>,
    j: int,
    end: int,
    name: Seq<char>,
    row: int,
) {
    if j < end {
        lemma_end_from(ns, ns[j].depth, j + 1);
    }
}

/// The lines of the function around node `at` that declares the name up to the
/// row.
pub open spec fn local_scope(ns: Seq<NodeView>, at: int, name: Seq<char>, row: int) -> Option<
    ScopeView,
> {
    match function_around(ns, at) {
        Some(f) => if declared_above(ns, f, end_of(ns, f), name, row) {
            Some(
                ScopeView::Local {
                    start_line: ns[f].start_row.wrapping_add(1),
                    end_line: ns[f].end_row.wrapping_add(1),
                },
            )
        } else {
            None
        },
        None => None,
    }
}

/// Whether the nodes from `start` up to `end` declare the name.
fn has_declared_name(tree: &SyntaxTree, start: usize, end: usize, name: &str) -> (r: bool)
    requires
        start <= end <= tree@.len(),
    ensures
        r == names_declared(tree@, start as int, end as int, name@),
    decreases tree@.len() - start,
{
    let mut j: usize = start;
    while j < end
        invariant
            start <= j,
            end <= tree@.len(),
            names_declared(tree@, start as int, end as int, name@) == names_declared(
                tree@,
                j as int,
                end as int,
                name@,
            ),
        decreases tree@.len() - j,
    {
        if tree.is_plain_name(j) {
            let t = trim_string(tree.text(j));
            let v = chars_of(t.as_str());
            if v.len() > 0 && str_eq(t.as_str(), name) {
                return true;
            }
            j = tree.subtree_end(j);
        } else if tree.is_kind(j, "function_declarator") || tree.is_kind(j, "init_declarator")
            || tree.is_kind(j, "pointer_declarator") || tree.is_kind(j, "reference_declarator")
            || tree.is_kind(j, "array_declarator") {
            match tree.child_by_field(j, "declarator") {
                Some(c) => {
                    let e: usize = tree.subtree_end(c);
                    if has_declared_name(tree, c, e, name) {
                        return true;
                    }
                },
                None => {},
            }
            j = tree.subtree_end(j);
        } else {
            j = j + 1;
        }
    }
    false
}

/// Whether node `i` declares the name.
fn is_declaration_of(tree: &SyntaxTree, i: usize, name: &str) -> (r: bool)
    requires
        i < tree@.len(),
    ensures
        r == declares_name(tree@, i as int, name@),
{
    if !(tree.is_kind(i, "declaration") || tree.is_kind(i, "parameter_declaration")) {
        return false;
    }
    match tree.child_by_field(i, "declarator") {
        Some(d) => {
            let end: usize = tree.subtree_end(d);
            has_declared_name(tree, d, end, name)
        },
        None => false,
    }
}

/// Whether function `f` declares the name up to the row.
pub fn has_local_declaration(tree: &SyntaxTree, f: usize, name: &str, row: usize) -> (r: bool)
    requires
        f < tree@.len(),
    ensures
        r == declared_above(tree@, f as int, end_of(tree@, f as int), name@, row as int),
{
    let end: usize = tree.subtree_end(f);
    let mut j: usize = f;
    while j < end
        invariant
            end <= tree@.len(),
            end == end_of(tree@, f as int),
            declared_above(tree@, f as int, end as int, name@, row as int) == declared_above(
                tree@,
                j as int,
                end as int,
                name@,
                row as int,
            ),
        decreases tree@.len() - j,
    {
        assert(tree@[j as int].start_row == tree.nodes@[j as int].start_row);
        if tree.nodes[j].start_row > row {
            j = tree.subtree_end(j);
        } else {
            if is_declaration_of(tree, j, name) {
                return true;
            }
            j = j + 1;
        }
    }
    false
}

/// The lines of the function around the cursor that declares the name.
pub fn resolve_local_scope(tree: &SyntaxTree, at: usize, name: &str, line: u32) -> (r: Option<
    LocalScope,
>)
    requires
        at < tree@.len(),
    ensures
        match r {
            Some(s) => local_scope(tree@, at as int, name@, line as int) == Some(
                UsageScope::Local(s)@,
            ),
            None => local_scope(tree@, at as int, name@, line as int) is None,
        },
{
    match enclosing_function(tree, at) {
        Some(f) => {
            if has_local_declaration(tree, f, name, line as usize) {
                assert(tree@[f as int].start_row == tree.nodes@[f as int].start_row);
                assert(tree@[f as int].end_row == tree.nodes@[f as int].end_row);
                Some(
                    LocalScope {
                        start_line: tree.nodes[f].start_row.wrapping_add(1),
                        end_line: tree.nodes[f].end_row.wrapping_add(1),
                    },
                )
            } else {
                None
            }
        },
        None => None,
    }
}

// ---------------------------------------------------------------------------
// What the cursor points at
// ---------------------------------------------------------------------------
/// What the uses of a symbol depend on.
#[derive(Debug, Clone)]
pub enum UsageTarget {
    /// Nothing that is known.
    Unknown,
    /// A local name.
    Local(LocalScope),
    /// A member of the class or of one of its parents.
    Member { symbol: String, class_name: String, context_class: Option<String> },
}

/// What a target says.
pub enum TargetView {
    Unknown,
    Local(ScopeView),
    Member { symbol: Seq<char>, class_name: Seq<char>, context_class: Option<Seq<char>> },
}

impl View for UsageTarget {
    type V = TargetView;

    open spec fn view(&self) -> TargetView {
        match self {
            UsageTarget::Unknown => TargetView::Unknown,
            UsageTarget::Local(s) => TargetView::Local(UsageScope::Local(*s)@),
            UsageTarget::Member { symbol, class_name, context_class } => TargetView::Member {
                symbol: symbol@,
                class_name: class_name@,
                context_class: opt_text(*context_class),
            },
        }
    }
}

/// The class whose member the cursor points at.
pub open spec fn target_class(ns: Seq<NodeView>, c: CursorView, row: int) -> Option<Seq<char>> {
    match c.qualifier {
        None => c.enclosing_class,
        Some(q) => if q == "this"@ || (q == "Super"@ && c.qualifier_op == Some("::"@)) {
            c.enclosing_class
        } else if c.qualifier_op == Some("."@) || c.qualifier_op == Some("->"@) {
            match var_type(ns, q, Some(row)) {
                Some(t) => Some(t),
                None => Some(q),
            }
        } else if c.qualifier_op == Some("::"@) {
            Some(q)
        } else {
            c.enclosing_class
        },
    }
}

/// What a cursor on node `at` points at. The symbol that was asked for stands in
/// where the one under the cursor is blank.
pub open spec fn target_at(ns: Seq<NodeView>, at: int, fallback: Seq<char>, row: int) -> TargetView {
    match cursor_context(ns, at) {
        None => TargetView::Unknown,
        Some(c) => {
            let symbol = if trim(c.symbol).len() == 0 {
                trim(fallback)
            } else {
                trim(c.symbol)
            };
            if symbol.len() == 0 {
                TargetView::Unknown
            } else {
                match local_scope(ns, at, symbol, row) {
                    Some(s) => TargetView::Local(s),
                    None => match target_class(ns, c, row) {
                        Some(k) => TargetView::Member {
                            symbol,
                            class_name: k,
                            context_class: c.enclosing_class,
                        },
                        None => TargetView::Unknown,
                    },
                }
            }
        },
    }
}

/// Whether an optional text is the given one.
fn opt_is(s: &Option<String>, t: &str) -> (r: bool)
    ensures
        r == (opt_text(*s) == Some(t@)),
{
    match s {
        Some(s) => str_eq(s.as_str(), t),
        None => false,
    }
}

/// What a cursor on node `at` points at.
pub fn resolve_usage_target(tree: &SyntaxTree, at: usize, fallback_symbol: &str, line: u32) -> (r:
    UsageTarget)
    requires
        at < tree@.len(),
    ensures
        r@ == target_at(tree@, at as int, fallback_symbol@, line as int),
{
    let ctx = match extract_cursor_context(tree, at) {
        Some(c) => c,
        None => {
            return UsageTarget::Unknown;
        },
    };
    let under = trim_string(ctx.symbol.as_str());
    let v = chars_of(under.as_str());
    let symbol = if v.len() == 0 {
        trim_string(fallback_symbol)
    } else {
        under
    };
    let v = chars_of(symbol.as_str());
    if v.len() == 0 {
        return UsageTarget::Unknown;
    }
    match resolve_local_scope(tree, at, symbol.as_str(), line) {
        Some(s) => {
            return UsageTarget::Local(s);
        },
        None => {},
    }
    let class: Option<String> = match &ctx.qualifier {
        None => copy_opt(&ctx.enclosing_class),
        Some(q) => {
            if str_eq(q.as_str(), "this") || (str_eq(q.as_str(), "Super") && opt_is(
                &ctx.qualifier_op,
                "::",
            )) {
                copy_opt(&ctx.enclosing_class)
            } else if opt_is(&ctx.qualifier_op, ".") || opt_is(&ctx.qualifier_op, "->") {
                match infer_var_type(tree, q.as_str(), Some(line)) {
                    Some(t) => Some(t),
                    None => Some(q.clone()),
                }
            } else if opt_is(&ctx.qualifier_op, "::") {
                Some(q.clone())
            } else {
                copy_opt(&ctx.enclosing_class)
            }
        },
    };
    match class {
        Some(class_name) => UsageTarget::Member {
            symbol,
            class_name,
            context_class: copy_opt(&ctx.enclosing_class),
        },
        None => UsageTarget::Unknown,
    }
}

/// The scope of a target, given the class that was found to own the member.
pub open spec fn scope_of(t: TargetView, owner: Option<Seq<char>>) -> Option<ScopeView> {
    match t {
        TargetView::Unknown => None,
        TargetView::Local(s) => Some(s),
        TargetView::Member { context_class, .. } => match owner {
            Some(owner) => Some(ScopeView::Member { owner, context: context_class }),
            None => None,
        },
    }
}

/// The scope of a target, given the class that was found to own the member.
pub fn resolve_usage_scope(target: &UsageTarget, owner: &Option<String>) -> (r: Option<UsageScope>)
    ensures
        opt_scope(r) == scope_of(target@, opt_text(*owner)),
{
    match target {
        UsageTarget::Unknown => None,
        UsageTarget::Local(s) => Some(UsageScope::Local(*s)),
        UsageTarget::Member { context_class, .. } => match owner {
            Some(owner) => Some(
                UsageScope::Member(
                    MemberScope {
                        member_owner_class: owner.clone(),
                        context_class: copy_opt(context_class),
                    },
                ),
            ),
            None => None,
        },
    }
}

// ---------------------------------------------------------------------------
// Files to search
// ---------------------------------------------------------------------------
/// One of the three lists holds the number.
pub open spec fn is_candidate(
    def_ids: Seq<i64>,
    users: Seq<i64>,
    current: Option<i64>,
    x: i64,
) -> bool {
    def_ids.contains(x) || users.contains(x) || current == Some(x)
}

/// The files to search, by number: those of the definitions, those that use
/// them, and the current one, in order and at most `MAX_FILES` of them.
pub fn candidate_ids(def_ids: &Vec<i64>, users: &Vec<i64>, current: Option<i64>) -> (r: Vec<i64>)
    ensures
        rising(r@),
        r@.len() <= MAX_FILES,
        forall|x: i64| r@.contains(x) ==> is_candidate(def_ids@, users@, current, x),
        forall|x: i64|
            #![trigger is_candidate(def_ids@, users@, current, x)]
            is_candidate(def_ids@, users@, current, x) ==> r@.contains(x) || (r@.len() == MAX_FILES
                && forall|i: int| 0 <= i < r@.len() ==> #[trigger] r@[i] < x),
{
    let mut ids: Vec<i64> = Vec::new();
    insert_all_rising(&mut ids, def_ids);
    let ghost first = ids@;
    insert_all_rising(&mut ids, users);
    let ghost second = ids@;
    assert forall|x: i64| second.contains(x) == (def_ids@.contains(x) || users@.contains(x)) by {
        assert(first.contains(x) == def_ids@.contains(x));
    }
    match current {
        Some(id) => {
            insert_rising(&mut ids, id);
        },
        None => {},
    }
    let ghost all = ids@;
    assert forall|x: i64| all.contains(x) == is_candidate(def_ids@, users@, current, x) by {
        assert(second.contains(x) == (def_ids@.contains(x) || users@.contains(x)));
        assert(all.contains(x) == (second.contains(x) || current == Some(x)));
    }
    ids.truncate(MAX_FILES);
    proof {
        let r = ids@;
        assert forall|i: int, j: int| 0 <= i < j < r.len() implies #[trigger] r[i] < #[trigger] r[j] by {
            assert(all[i] < all[j]);
        }
        assert forall|x: i64| r.contains(x) implies is_candidate(def_ids@, users@, current, x) by {
            let k = choose|k: int| 0 <= k < r.len() && r[k] == x;
            assert(all[k] == x);
            assert(all.contains(x));
        }
        assert forall|x: i64|
            #![trigger is_candidate(def_ids@, users@, current, x)]
            is_candidate(def_ids@, users@, current, x) implies r.contains(x) || (r.len()
            == MAX_FILES && forall|i: int| 0 <= i < r.len() ==> #[trigger] r[i] < x) by {
            assert(all.contains(x));
            let k = choose|k: int| 0 <= k < all.len() && all[k] == x;
            if k < r.len() {
                assert(r[k] == x);
            } else {
                assert forall|i: int| 0 <= i < r.len() implies #[trigger] r[i] < x by {
                    assert(all[i] < all[k]);
                }
            }
        }
    }
    ids
}

/// The paths with slashes only.
pub open spec fn slashed_all(paths: Seq<Seq<char>>) -> Seq<Seq<char>> {
    paths.map_values(|p: Seq<char>| slashed(p))
}

/// The files to search, by path: in order, each once.
pub fn candidate_paths(paths: &Vec<String>) -> (r: Vec<String>)
    ensures
        ascending(texts(r@)),
        texts(r@).to_set() == slashed_all(texts(paths@)).to_set(),
{
    let mut out: Vec<String> = Vec::new();
    let ghost goal = slashed_all(texts(paths@));
    let mut i: usize = 0;
    assert(texts(out@) =~= goal.take(0));
    while i < paths.len()
        invariant
            i <= paths@.len(),
            goal == slashed_all(texts(paths@)),
            texts(out@) == goal.take(i as int),
        decreases paths.len() - i,
    {
        let ghost before = texts(out@);
        let p = normalize_path(paths[i].as_str());
        out.push(p);
        assert(texts(out@) =~= before.push(p@));
        assert(goal[i as int] == slashed(paths@[i as int]@));
        assert(texts(out@) =~= goal.take(i + 1));
        i = i + 1;
    }
    assert(goal.take(paths@.len() as int) =~= goal);
    sorted_set(&out)
}

/// The file to search for a local name: the current one.
pub fn local_candidates(current_file: Option<&str>) -> (r: Vec<String>)
    ensures
        texts(r@) == (match current_file {
            Some(p) => seq![slashed(p@)],
            None => seq![],
        }),
{
    let mut out: Vec<String> = Vec::new();
    match current_file {
        Some(p) => {
            out.push(normalize_path(p));
            assert(texts(out@) =~= seq![slashed(p@)]);
        },
        None => {
            assert(texts(out@) =~= seq![]);
        },
    }
    out
}

// ---------------------------------------------------------------------------
// Occurrences in a line
// ---------------------------------------------------------------------------
/// What an occurrence is.
#[derive(Debug, Clone, Copy, PartialEq, Eq, Structural)]
pub enum UsageKind {
    Declaration,
    Definition,
    Call,
    Write,
    Read,
}

impl UsageKind {
    /// The name of the kind.
    pub open spec fn text(self) -> Seq<char> {
        match self {
            UsageKind::Declaration => "declaration"@,
            UsageKind::Definition => "definition"@,
            UsageKind::Call => "call"@,
            UsageKind::Write => "write"@,
            UsageKind::Read => "read"@,
        }
    }

    /// The name of the kind.
    pub fn name(self) -> (r: &'static str)
        ensures
            r@ == self.text(),
    {
        match self {
            UsageKind::Declaration => "declaration",
            UsageKind::Definition => "definition",
            UsageKind::Call => "call",
            UsageKind::Write => "write",
            UsageKind::Read => "read",
        }
    }
}

/// What the occurrence at `i` of a symbol of `n` characters is.
pub open spec fn usage_kind(line: Seq<char>, i: int, n: int) -> UsageKind {
    let left = trim_end(line.take(i));
    let right = trim_start(line.skip(i + n));
    if contains(line, "UPROPERTY("@) || contains(line, "UFUNCTION("@) {
        UsageKind::Declaration
    } else if starts(right, "("@) {
        if contains(left, "::"@) {
            UsageKind::Definition
        } else {
            UsageKind::Call
        }
    } else if starts(right, "="@) || starts(right, "+="@) || starts(right, "-="@) || starts(
        right,
        "*="@,
    ) || starts(right, "/="@) {
        UsageKind::Write
    } else {
        UsageKind::Read
    }
}

/// What the occurrence at `i` of a symbol of `n` characters is.
pub fn classify_usage_line(line: &[char], i: usize, n: usize) -> (r: UsageKind)
    requires
        i + n <= line@.len(),
    ensures
        r == usage_kind(line@, i as int, n as int),
{
    if has_str(line, "UPROPERTY(") || has_str(line, "UFUNCTION(") {
        return UsageKind::Declaration;
    }
    assert(line@.subrange(0, i as int) =~= line@.take(i as int));
    assert(i + n <= line.len());
    assert(line@.subrange(i + n, line@.len() as int) =~= line@.skip(i + n));
    let left = trimmed_end(slice_subrange(line, 0, i));
    let right = trimmed_start(slice_subrange(line, i + n, line.len()));
    if starts_with_str(right, "(") {
        if has_str(left, "::") {
            UsageKind::Definition
        } else {
            UsageKind::Call
        }
    } else if starts_with_str(right, "=") || starts_with_str(right, "+=") || starts_with_str(
        right,
        "-=",
    ) || starts_with_str(right, "*=") || starts_with_str(right, "/=") {
        UsageKind::Write
    } else {
        UsageKind::Read
    }
}

/// Where a recorded member stands: a definition in a source file that names a
/// scope, else a declaration.
pub open spec fn member_kind(path: Seq<char>, context: Seq<char>, symbol: Seq<char>) -> UsageKind {
    let p = lower(path);
    if (ends(p, ".cpp"@) || ends(p, ".cc"@) || ends(p, ".cxx"@)) && contains(context, "::"@)
        && contains(context, symbol) {
        UsageKind::Definition
    } else {
        UsageKind::Declaration
    }
}

/// Where a recorded member stands.
pub fn classify_member_location(path: &str, context: &str, symbol_name: &str) -> (r: UsageKind)
    ensures
        r == member_kind(path@, context@, symbol_name@),
{
    let v = chars_of(path);
    let p = to_lower(v.as_slice());
    let c = chars_of(context);
    let s = chars_of(symbol_name);
    let source = ends_with_str(p.as_slice(), ".cpp") || ends_with_str(p.as_slice(), ".cc")
        || ends_with_str(p.as_slice(), ".cxx");
    if source && has_str(c.as_slice(), "::") && has(c.as_slice(), s.as_slice()) {
        UsageKind::Definition
    } else {
        UsageKind::Declaration
    }
}

/// Whether a string is open after `n` characters of a line, and whether the
/// last of them escapes the next.
pub open spec fn quoted(line: Seq<char>, n: int) -> (bool, bool)
    decreases n,
{
    if n <= 0 {
        (false, false)
    } else {
        let (open, escaped) = quoted(line, n - 1);
        let c = line[n - 1];
        if escaped {
            (open, false)
        } else if c == '\\' {
            (open, true)
        } else if c == '"' {
            (!open, false)
        } else {
            (open, false)
        }
    }
}

/// Whether position `i` of a line lies inside of a string.
pub fn is_inside_double_quoted_string(line: &[char], i: usize) -> (r: bool)
    requires
        i <= line@.len(),
    ensures
        r == quoted(line@, i as int).0,
{
    let mut open = false;
    let mut escaped = false;
    let mut k: usize = 0;
    while k < i
        invariant
            k <= i <= line@.len(),
            quoted(line@, k as int) == (open, escaped),
        decreases i - k,
    {
        let c: char = line[k];
        if escaped {
            escaped = false;
        } else if c == '\\' {
            escaped = true;
        } else if c == '"' {
            open = !open;
        }
        k = k + 1;
    }
    open
}

/// Position `i` of a line is code: neither in a comment nor in a string.
pub open spec fn code_at(line: Seq<char>, i: int) -> bool {
    let commented = match find(line, "//"@) {
        Some(k) => i >= k,
        None => false,
    };
    !commented && !quoted(line, i).0
}

/// Whether position `i` of a line is code.
pub fn is_code_occurrence(line: &[char], i: usize) -> (r: bool)
    requires
        i <= line@.len(),
    ensures
        r == code_at(line@, i as int),
{
    match find_str(line, "//") {
        Some(k) => {
            if i >= k {
                return false;
            }
        },
        None => {},
    }
    !is_inside_double_quoted_string(line, i)
}

/// Where the word begins that ends at `end`.
pub open spec fn word_start(s: Seq<char>, end: int) -> int
    decreases end,
{
    if end <= 0 || !word_char(s[end - 1]) {
        end
    } else {
        word_start(s, end - 1)
    }
}

/// The text without the suffix, where it has it.
pub open spec fn without_suffix(s: Seq<char>, p: Seq<char>) -> Option<Seq<char>> {
    if ends(s, p) {
        Some(s.take(s.len() - p.len()))
    } else {
        None
    }
}

/// The last word of a text, unless the text ends otherwise.
pub open spec fn tail_word(s: Seq<char>) -> Option<Seq<char>> {
    let w = s.skip(word_start(s, s.len() as int));
    if w.len() == 0 {
        None
    } else {
        Some(w)
    }
}

/// The word and the operator before position `i`.
pub open spec fn qualifier_before(line: Seq<char>, i: int) -> Option<(Seq<char>, Seq<char>)> {
    let t = trim_end(line.take(i));
    let (prefix, op) = if ends(t, "->"@) {
        (without_suffix(t, "->"@), "->"@)
    } else if ends(t, "."@) {
        (without_suffix(t, "."@), "."@)
    } else {
        (without_suffix(t, "::"@), "::"@)
    };
    match prefix {
        Some(p) => match tail_word(p) {
            Some(w) => Some((w, op)),
            None => None,
        },
        None => None,
    }
}

/// The last word of a text without the suffix.
fn word_before(t: &[char], p: &str) -> (r: Option<String>)
    ensures
        opt_text(r) == (match without_suffix(t@, p@) {
            Some(s) => tail_word(s),
            None => None,
        }),
{
    if !ends_with_str(t, p) {
        return None;
    }
    let n: usize = chars_of(p).len();
    let end: usize = t.len() - n;
    assert(t@.subrange(0, end as int) =~= t@.take(end as int));
    let s = slice_subrange(t, 0, end);
    let mut k: usize = end;
    while k > 0 && is_word_char(s[k - 1])
        invariant
            k <= s@.len(),
            word_start(s@, s@.len() as int) == word_start(s@, k as int),
        decreases k,
    {
        k = k - 1;
    }
    assert(s@.subrange(k as int, s@.len() as int) =~= s@.skip(k as int));
    if k == end {
        None
    } else {
        Some(string_of(slice_subrange(s, k, end)))
    }
}

/// The word and the operator before position `i`.
pub fn explicit_qualifier_before(line: &[char], i: usize) -> (r: Option<(String, &'static str)>)
    requires
        i <= line@.len(),
    ensures
        match r {
            Some((w, op)) => qualifier_before(line@, i as int) == Some((w@, op@)),
            None => qualifier_before(line@, i as int) is None,
        },
{
    assert(line@.subrange(0, i as int) =~= line@.take(i as int));
    let t = trimmed_end(slice_subrange(line, 0, i));
    let op: &'static str = if ends_with_str(t, "->") {
        "->"
    } else if ends_with_str(t, ".") {
        "."
    } else {
        "::"
    };
    match word_before(t, op) {
        Some(w) => Some((w, op)),
        None => None,
    }
}

// ---------------------------------------------------------------------------
// Bodies of methods
// ---------------------------------------------------------------------------
/// The lines of the body of a method.
#[derive(Debug, Clone)]
pub struct MethodRange {
    pub class_name: String,
    pub start_line: usize,
    pub end_line: usize,
}

/// What the lines of a method say.
pub struct MethodView {
    pub class_name: Seq<char>,
    pub start_line: int,
    pub end_line: int,
}

impl View for MethodRange {
    type V = MethodView;

    open spec fn view(&self) -> MethodView {
        MethodView {
            class_name: self.class_name@,
            start_line: self.start_line as int,
            end_line: self.end_line as int,
        }
    }
}

/// The first of the classes from `i` on whose method the line begins.
pub open spec fn method_class(line: Seq<char>, classes: Seq<Seq<char>>, i: int) -> Option<Seq<char>>
    decreases classes.len() - i,
{
    if i < 0 || i >= classes.len() {
        None
    } else if contains(line, classes[i] + "::"@) && line.contains('(') {
        Some(classes[i])
    } else {
        method_class(line, classes, i + 1)
    }
}

/// The class whose method the line begins.
pub fn detect_method_class(line: &[char], classes: &Vec<String>) -> (r: Option<String>)
    ensures
        opt_text(r) == (if starts(trim_start(line@), "//"@) {
            None
        } else {
            method_class(line@, texts(classes@), 0)
        }),
{
    if starts_with_str(trimmed_start(line), "//") {
        return None;
    }
    let ghost all = texts(classes@);
    let mut i: usize = 0;
    while i < classes.len()
        invariant
            i <= classes@.len(),
            all == texts(classes@),
            !starts(trim_start(line@), "//"@),
            method_class(line@, all, 0) == method_class(line@, all, i as int),
        decreases classes.len() - i,
    {
        assert(all[i as int] == classes@[i as int]@);
        let scope = concat(classes[i].as_str(), "::");
        let v = chars_of(scope.as_str());
        if has(line, v.as_slice()) && has_char(line, '(') {
            return Some(classes[i].clone());
        }
        i = i + 1;
    }
    None
}

/// How often a character stands in the first `n` of a text.
pub open spec fn count(s: Seq<char>, c: char, n: int) -> int
    decreases n,
{
    if n <= 0 {
        0
    } else {
        count(s, c, n - 1) + if s[n - 1] == c {
            1int
        } else {
            0int
        }
    }
}

/// How often a character stands in a text.
pub fn count_char(s: &[char], c: char) -> (r: usize)
    ensures
        r == count(s@, c, s@.len() as int),
        r <= s.len(),
{
    let mut n: usize = 0;
    let mut i: usize = 0;
    while i < s.len()
        invariant
            n <= i <= s.len(),
            n == count(s@, c, i as int),
        decreases s.len() - i,
    {
        if s[i] == c {
            n = n + 1;
        }
        i = i + 1;
    }
    n
}

/// How far the lines have been read: a method whose body has not begun, one
/// whose body has and how deep its braces are, and the bodies that have ended.
pub struct MethodState {
    pub pending: Option<(Seq<char>, int)>,
    pub active: Option<(Seq<char>, int, int)>,
    pub ended: Seq<MethodView>,
}

/// What one more line does.
pub open spec fn method_step(
    st: MethodState,
    line: Seq<char>,
    number: int,
    classes: Seq<Seq<char>>,
) -> MethodState {
    let pending = if st.active is None && st.pending is None {
        if starts(trim_start(line), "//"@) {
            None
        } else {
            match method_class(line, classes, 0) {
                Some(c) => Some((c, number)),
                None => None,
            }
        }
    } else {
        st.pending
    };
    let begins = st.active is None && pending is Some && line.contains('{');
    let active = match pending {
        Some((c, start)) if begins => Some((c, start, 0int)),
        _ => st.active,
    };
    let pending = if begins {
        None
    } else {
        pending
    };
    match active {
        Some((c, start, depth)) => {
            let depth = depth + count(line, '{', line.len() as int) - count(
                line,
                '}',
                line.len() as int,
            );
            if depth <= 0 && line.contains('}') {
                MethodState {
                    pending,
                    active: None,
                    ended: st.ended.push(
                        MethodView { class_name: c, start_line: start, end_line: number },
                    ),
                }
            } else {
                MethodState { pending, active: Some((c, start, depth)), ended: st.ended }
            }
        },
        None => MethodState { pending, active: None, ended: st.ended },
    }
}

/// How far the first `n` lines have been read.
pub open spec fn method_state(ls: Seq<Seq<char>>, classes: Seq<Seq<char>>, n: int) -> MethodState
    decreases n,
{
    if n <= 0 {
        MethodState { pending: None, active: None, ended: seq![] }
    } else {
        method_step(method_state(ls, classes, n - 1), ls[n - 1], n, classes)
    }
}

/// The bodies of the methods of the classes. One that does not end runs to the
/// last line.
pub open spec fn method_ranges(ls: Seq<Seq<char>>, classes: Seq<Seq<char>>) -> Seq<MethodView> {
    let st = method_state(ls, classes, ls.len() as int);
    match st.active {
        Some((c, start, depth)) => st.ended.push(
            MethodView { class_name: c, start_line: start, end_line: ls.len() as int },
        ),
        None => st.ended,
    }
}

/// A method whose body has begun, with the braces counted so far.
struct OpenMethod {
    class_name: String,
    start_line: usize,
    opened: u128,
    closed: u128,
}

/// The exec state stands for the state of the reading.
spec fn stands_for(
    pending: Option<(String, usize)>,
    active: Option<OpenMethod>,
    ended: Seq<MethodRange>,
    st: MethodState,
) -> bool {
    &&& match pending {
        Some((c, l)) => st.pending == Some((c@, l as int)),
        None => st.pending is None,
    }
    &&& match active {
        Some(m) => st.active == Some((m.class_name@, m.start_line as int, m.opened - m.closed)),
        None => st.active is None,
    }
    &&& views(ended) == st.ended
}

/// The bodies of the methods of the classes.
pub fn collect_method_ranges(ls: &Vec<Vec<char>>, classes: &Vec<String>) -> (r: Vec<MethodRange>)
    ensures
        views(r@) == method_ranges(rows(ls@), texts(classes@)),
{
    let ghost all = rows(ls@);
    let ghost cs = texts(classes@);
    let mut ended: Vec<MethodRange> = Vec::new();
    let mut pending: Option<(String, usize)> = None;
    let mut active: Option<OpenMethod> = None;
    assert(views(ended@) =~= Seq::<MethodView>::empty());
    let mut i: usize = 0;
    while i < ls.len()
        invariant
            i <= ls.len(),
            all == rows(ls@),
            cs == texts(classes@),
            stands_for(pending, active, ended@, method_state(all, cs, i as int)),
            match active {
                Some(m) => m.opened <= i * 0xffff_ffff_ffff_ffff && m.closed <= i
                    * 0xffff_ffff_ffff_ffff,
                None => true,
            },
        decreases ls.len() - i,
    {
        let line = ls[i].as_slice();
        assert(all[i as int] == line@);
        let number: usize = i + 1;
        let ghost st = method_state(all, cs, i as int);
        let ghost next = method_step(st, line@, i + 1, cs);
        assert(next == method_state(all, cs, i + 1));
        if active.is_none() && pending.is_none() {
            match detect_method_class(line, classes) {
                Some(c) => {
                    pending = Some((c, number));
                },
                None => {},
            }
        }
        if active.is_none() && has_char(line, '{') {
            match pending {
                Some((c, l)) => {
                    active = Some(
                        OpenMethod { class_name: c, start_line: l, opened: 0, closed: 0 },
                    );
                    pending = None;
                },
                None => {
                    pending = None;
                },
            }
        }
        match active {
            Some(m) => {
                let up: usize = count_char(line, '{');
                let down: usize = count_char(line, '}');
                let opened: u128 = m.opened + up as u128;
                let closed: u128 = m.closed + down as u128;
                if opened <= closed && has_char(line, '}') {
                    let ghost before = views(ended@);
                    let range = MethodRange {
                        class_name: m.class_name,
                        start_line: m.start_line,
                        end_line: number,
                    };
                    ended.push(range);
                    assert(views(ended@) =~= before.push(range@));
                    active = None;
                } else {
                    active = Some(
                        OpenMethod {
                            class_name: m.class_name,
                            start_line: m.start_line,
                            opened,
                            closed,
                        },
                    );
                }
            },
            None => {
                active = None;
            },
        }
        i = i + 1;
    }
    match active {
        Some(m) => {
            let ghost before = views(ended@);
            let range = MethodRange {
                class_name: m.class_name,
                start_line: m.start_line,
                end_line: ls.len(),
            };
            ended.push(range);
            assert(views(ended@) =~= before.push(range@));
        },
        None => {},
    }
    ended
}

/// The class of the first body from `i` on that holds the line.
pub open spec fn class_at(ranges: Seq<MethodView>, line: int, i: int) -> Option<Seq<char>>
    decreases ranges.len() - i,
{
    if i < 0 || i >= ranges.len() {
        None
    } else if ranges[i].start_line <= line <= ranges[i].end_line {
        Some(ranges[i].class_name)
    } else {
        class_at(ranges, line, i + 1)
    }
}

/// The class of the method whose body holds the line.
pub fn method_class_at(ranges: &Vec<MethodRange>, line: usize) -> (r: Option<String>)
    ensures
        opt_text(r) == class_at(views(ranges@), line as int, 0),
{
    let ghost all = views(ranges@);
    let mut i: usize = 0;
    while i < ranges.len()
        invariant
            i <= ranges@.len(),
            all == views(ranges@),
            class_at(all, line as int, 0) == class_at(all, line as int, i as int),
        decreases ranges.len() - i,
    {
        assert(all[i as int] == ranges@[i as int]@);
        if ranges[i].start_line <= line && line <= ranges[i].end_line {
            return Some(ranges[i].class_name.clone());
        }
        i = i + 1;
    }
    None
}

} // verus!
