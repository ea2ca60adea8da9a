//! The uses of a symbol in the text of files, collected without repetition and
//! up to a limit, or sent out in batches.

use vstd::prelude::*;

use super::cursor::infer_var_type;
#[allow(unused_imports)]
use super::cursor::var_type;
use super::locate::{column_of, find_symbol_location_near, find_word, normalize_path};
#[allow(unused_imports)]
use super::locate::{byte_column, lemma_word_from, slashed, symbol_near, word_from};
use super::usage::{candidate_classes, classify_member_location, classify_usage_line,
    collect_method_ranges, explicit_qualifier_before, is_code_occurrence, method_class_at,
    MethodRange, UsageKind, UsageScope, MAX_RESULTS, STREAM_BATCH_SIZE};
#[allow(unused_imports)]
use super::usage::{class_at, classes_of, code_at, member_kind, method_ranges, opt_scope,
    qualifier_before, usage_kind, ScopeView};
use crate::syntax::SyntaxTree;
#[allow(unused_imports)]
use crate::syntax::NodeView;
use crate::text::{chars_of, concat, copy_opt, has_text, owned, split_lines, str_eq, string_of,
    trimmed};
#[allow(unused_imports)]
use crate::text::{lines, opt_str, opt_text, rows, texts, trim, views};

verus! {

/// One use of a symbol: the file, the line counted from one, the column in
/// bytes, the trimmed text of the line, and for a recorded member its class.
#[derive(Debug, Clone)]
pub struct Usage {
    pub path: String,
    pub line: usize,
    pub col: usize,
    pub context: String,
    pub kind: UsageKind,
    pub class_name: Option<String>,
}

/// What a use says.
pub struct UsageView {
    pub path: Seq<char>,
    pub line: usize,
    pub col: usize,
    pub context: Seq<char>,
    pub kind: UsageKind,
    pub class_name: Option<Seq<char>>,
}

impl View for Usage {
    type V = UsageView;

    open spec fn view(&self) -> UsageView {
        UsageView {
            path: self.path@,
            line: self.line,
            col: self.col,
            context: self.context@,
            kind: self.kind,
            class_name: opt_text(self.class_name),
        }
    }
}

// ---------------------------------------------------------------------------
// One file
// ---------------------------------------------------------------------------
/// A search in one file: the nodes and lines of the file, its path, the symbol
/// and its scope.
pub struct SearchView {
    pub nodes: Seq<NodeView>,
    pub lines: Seq<Seq<char>>,
    pub path: Seq<char>,
    pub symbol: Seq<char>,
    pub scope: Option<ScopeView>,
}

impl SearchView {
    /// The classes through which the symbol may be used.
    pub open spec fn classes(self) -> Seq<Seq<char>> {
        classes_of(self.scope)
    }

    /// The class whose method holds line `k` is one of these.
    pub open spec fn in_own_method(self, k: int) -> bool {
        match class_at(method_ranges(self.lines, self.classes()), k + 1, 0) {
            Some(c) => self.classes().contains(c),
            None => false,
        }
    }

    /// The occurrence at position `i` of line `k` belongs to the symbol. A
    /// member is used through its class, through `this`, through a variable of
    /// such a type, or without a qualifier in a method of such a class.
    pub open spec fn belongs(self, k: int, i: int) -> bool {
        match self.scope {
            Some(ScopeView::Member { .. }) => match qualifier_before(self.lines[k], i) {
                Some((q, op)) => if op == "::"@ {
                    self.classes().contains(q)
                } else if q == "this"@ {
                    self.in_own_method(k)
                } else {
                    match var_type(self.nodes, q, Some((k as u32) as int)) {
                        Some(t) => self.classes().contains(t),
                        None => false,
                    }
                },
                None => self.in_own_method(k),
            },
            _ => true,
        }
    }

    /// The use at position `i` of line `k`.
    pub open spec fn usage(self, k: int, i: int) -> UsageView {
        UsageView {
            path: slashed(self.path),
            line: (k + 1) as usize,
            col: byte_column(self.lines[k], i),
            context: trim(self.lines[k]),
            kind: usage_kind(self.lines[k], i, self.symbol.len() as int),
            class_name: None,
        }
    }

    /// The uses in line `k` from position `from` on.
    pub open spec fn in_line(self, k: int, from: int) -> Seq<UsageView>
        decreases self.lines[k].len() - from,
        when 0 <= from && self.symbol.len() > 0
        via Self::in_line_decreases
    {
        match word_from(self.lines[k], self.symbol, from) {
            None => seq![],
            Some(i) => {
                let rest = self.in_line(k, i + self.symbol.len());
                if code_at(self.lines[k], i) && self.belongs(k, i) {
                    seq![self.usage(k, i)] + rest
                } else {
                    rest
                }
            },
        }
    }

    #[via_fn]
    proof fn in_line_decreases(self, k: int, from: int) {
        lemma_word_from(self.lines[k], self.symbol, from);
    }

    /// Line `k` is searched at all.
    pub open spec fn in_reach(self, k: int) -> bool {
        match self.scope {
            Some(ScopeView::Local { start_line, end_line }) => start_line <= k + 1 <= end_line,
            _ => true,
        }
    }

    /// The uses in the lines from `k` on.
    pub open spec fn from_line(self, k: int) -> Seq<UsageView>
        decreases self.lines.len() - k,
    {
        if k < 0 || k >= self.lines.len() || self.symbol.len() == 0 {
            seq![]
        } else if self.in_reach(k) {
            self.in_line(k, 0) + self.from_line(k + 1)
        } else {
            self.from_line(k + 1)
        }
    }

    /// All uses in the file.
    pub open spec fn all(self) -> Seq<UsageView> {
        self.from_line(0)
    }
}

/// The first of a list, at most `n`.
pub open spec fn at_most<T>(s: Seq<T>, n: int) -> Seq<T> {
    if s.len() <= n {
        s
    } else {
        s.take(n)
    }
}

/// What is needed to tell the uses of one symbol in one file.
struct FileSearch<'a> {
    tree: &'a SyntaxTree,
    scope: &'a Option<UsageScope>,
    classes: Vec<String>,
    ranges: Vec<MethodRange>,
}

impl<'a> FileSearch<'a> {
    /// The search stands for the given one.
    spec fn is(self, v: SearchView) -> bool {
        &&& self.tree@ == v.nodes
        &&& opt_scope(*self.scope) == v.scope
        &&& texts(self.classes@) == v.classes()
        &&& views(self.ranges@) == method_ranges(v.lines, v.classes())
    }

    /// Whether line `k` lies in a method of one of the classes.
    fn is_in_own_method(&self, k: usize, v: Ghost<SearchView>) -> (r: bool)
        requires
            self.is(v@),
            k < usize::MAX,
        ensures
            r == v@.in_own_method(k as int),
    {
        match method_class_at(&self.ranges, k + 1) {
            Some(c) => has_text(&self.classes, c.as_str()),
            None => false,
        }
    }

    /// Whether the occurrence at position `i` of line `k` belongs to the symbol.
    fn should_emit_match(&self, line: &[char], k: usize, i: usize, v: Ghost<SearchView>) -> (r: bool)
        requires
            self.is(v@),
            k < usize::MAX,
            k < v@.lines.len(),
            line@ == v@.lines[k as int],
            i <= line@.len(),
        ensures
            r == v@.belongs(k as int, i as int),
    {
        match self.scope {
            Some(UsageScope::Member(_)) => {},
            _ => {
                return true;
            },
        }
        match explicit_qualifier_before(line, i) {
            Some((q, op)) => {
                if str_eq(op, "::") {
                    has_text(&self.classes, q.as_str())
                } else if str_eq(q.as_str(), "this") {
                    self.is_in_own_method(k, v)
                } else {
                    let row: u32 = #[verifier::truncate]
                    (k as u32);
                    match infer_var_type(self.tree, q.as_str(), Some(row)) {
                        Some(t) => has_text(&self.classes, t.as_str()),
                        None => false,
                    }
                }
            },
            None => self.is_in_own_method(k, v),
        }
    }

    /// Adds the uses in line `k`.
    fn add_line(
        &self,
        line: &[char],
        k: usize,
        symbol: &[char],
        path: &str,
        out: &mut Vec<Usage>,
        v: Ghost<SearchView>,
    )
        requires
            self.is(v@),
            k < v@.lines.len(),
            k < usize::MAX,
            line@ == v@.lines[k as int],
            symbol@ == v@.symbol,
            symbol@.len() > 0,
            path@ == v@.path,
        ensures
            views(final(out)@) == views(old(out)@) + v@.in_line(k as int, 0),
    {
        let ghost start = views(out@);
        let ghost goal = v@.in_line(k as int, 0);
        let mut from: usize = 0;
        assert(start + goal == views(out@) + v@.in_line(k as int, from as int));
        loop
            invariant
                self.is(v@),
                k < v@.lines.len(),
                k < usize::MAX,
                line@ == v@.lines[k as int],
                symbol@ == v@.symbol,
                symbol@.len() > 0,
                path@ == v@.path,
                from <= line@.len(),
                start + goal == views(out@) + v@.in_line(k as int, from as int),
            ensures
                start + goal == views(out@),
            decreases line@.len() - from,
        {
            match find_word(line, symbol, from) {
                None => {
                    assert(views(out@) + Seq::<UsageView>::empty() =~= views(out@));
                    break;
                },
                Some(i) => {
                    let ghost rest = v@.in_line(k as int, i + symbol@.len());
                    if is_code_occurrence(line, i) && self.should_emit_match(line, k, i, v) {
                        let ghost before = views(out@);
                        let item = Usage {
                            path: normalize_path(path),
                            line: k + 1,
                            col: column_of(line, i),
                            context: string_of(trimmed(line)),
                            kind: classify_usage_line(line, i, symbol.len()),
                            class_name: None,
                        };
                        out.push(item);
                        assert(views(out@) =~= before.push(item@));
                        assert(item@ == v@.usage(k as int, i as int));
                        assert(before + (seq![item@] + rest) =~= views(out@) + rest);
                    }
                    from = i + symbol.len();
                },
            }
        }
    }
}

/// The uses of a symbol in one file, at most `limit` of them.
pub fn search_in_file(
    path: &str,
    content: &str,
    tree: &SyntaxTree,
    symbol_name: &str,
    limit: usize,
    scope: &Option<UsageScope>,
) -> (r: Vec<Usage>)
    ensures
        views(r@) == at_most(
            (SearchView {
                nodes: tree@,
                lines: lines(content@),
                path: path@,
                symbol: symbol_name@,
                scope: opt_scope(*scope),
            }).all(),
            limit as int,
        ),
{
    let ghost v = SearchView {
        nodes: tree@,
        lines: lines(content@),
        path: path@,
        symbol: symbol_name@,
        scope: opt_scope(*scope),
    };
    let text = chars_of(content);
    let ls = split_lines(text.as_slice());
    let symbol = chars_of(symbol_name);
    let mut out: Vec<Usage> = Vec::new();
    assert(views(out@) =~= Seq::<UsageView>::empty());
    if symbol.len() == 0 {
        return out;
    }
    let classes = candidate_classes(scope);
    let ranges = collect_method_ranges(&ls, &classes);
    let search = FileSearch { tree, scope, classes, ranges };
    let mut k: usize = 0;
    assert(views(out@) + v.from_line(0) =~= v.all());
    while k < ls.len() && out.len() < limit
        invariant
            k <= ls.len(),
            rows(ls@) == v.lines,
            search.is(v),
            symbol@ == v.symbol,
            symbol@.len() > 0,
            path@ == v.path,
            opt_scope(*scope) == v.scope,
            views(out@) + v.from_line(k as int) == v.all(),
        decreases ls.len() - k,
    {
        let inside = match scope {
            Some(UsageScope::Local(s)) => s.start_line <= k + 1 && k + 1 <= s.end_line,
            _ => true,
        };
        assert(inside == v.in_reach(k as int));
        if inside {
            let line = ls[k].as_slice();
            assert(rows(ls@)[k as int] == line@);
            let ghost before = views(out@);
            search.add_line(line, k, symbol.as_slice(), path, &mut out, Ghost(v));
            assert(before + (v.in_line(k as int, 0) + v.from_line(k + 1)) =~= views(out@)
                + v.from_line(k + 1));
        }
        k = k + 1;
    }
    let ghost found = views(out@);
    let ghost rest = v.from_line(k as int);
    out.truncate(limit);
    proof {
        if found.len() <= limit {
            assert(views(out@) =~= found);
            if k == ls.len() {
                assert(found + rest =~= found);
            } else {
                assert((found + rest).take(limit as int) =~= found);
                if rest.len() == 0 {
                    assert(found + rest =~= found);
                }
            }
        } else {
            assert(views(out@) =~= found.take(limit as int));
            assert((found + rest).take(limit as int) =~= found.take(limit as int));
        }
    }
    out
}

// ---------------------------------------------------------------------------
// Recorded members
// ---------------------------------------------------------------------------
/// The trimmed text of a line, counted from one.
pub open spec fn line_text(content: Option<Seq<char>>, line: usize) -> Option<Seq<char>> {
    match content {
        None => None,
        Some(c) => {
            let k = if line == 0 {
                0
            } else {
                line - 1
            };
            if k < lines(c).len() {
                Some(trim(lines(c)[k]))
            } else {
                None
            }
        },
    }
}

/// The trimmed text of a line, counted from one.
pub fn read_line_context(content: Option<&str>, line_number: usize) -> (r: Option<String>)
    ensures
        opt_text(r) == line_text(opt_str(content), line_number),
{
    match content {
        None => None,
        Some(c) => {
            let text = chars_of(c);
            let ls = split_lines(text.as_slice());
            let k: usize = if line_number == 0 {
                0
            } else {
                line_number - 1
            };
            if k < ls.len() {
                assert(rows(ls@)[k as int] == ls@[k as int]@);
                Some(string_of(trimmed(ls[k].as_slice())))
            } else {
                None
            }
        },
    }
}

/// The use that the record of a member stands for.
pub open spec fn recorded_usage(
    path: Seq<char>,
    line: i64,
    class_name: Seq<char>,
    symbol: Seq<char>,
    content: Option<Seq<char>>,
) -> UsageView {
    let near = match content {
        Some(c) => symbol_near(lines(c), symbol, (line as usize) as int),
        None => None,
    };
    let (l, c) = match near {
        Some((l, c)) => (l as usize, c),
        None => (line as usize, 0usize),
    };
    let context = match line_text(content, l) {
        Some(t) => t,
        None => class_name + "::"@ + symbol,
    };
    UsageView {
        path,
        line: l,
        col: c,
        context,
        kind: member_kind(path, context, symbol),
        class_name: Some(class_name),
    }
}

/// The use that the record of a member stands for, from the text of its file
/// where that can be read.
pub fn declaration_usage(
    path: &str,
    line: i64,
    class_name: &str,
    symbol_name: &str,
    content: Option<&str>,
) -> (r: Usage)
    ensures
        r@ == recorded_usage(path@, line, class_name@, symbol_name@, opt_str(content)),
{
    let start: usize = #[verifier::truncate]
    (line as usize);
    let near: Option<(usize, usize)> = match content {
        Some(c) => find_symbol_location_near(c, symbol_name, start),
        None => None,
    };
    let (l, col): (usize, usize) = match near {
        Some((l, c)) => (l, c),
        None => (start, 0),
    };
    let context = match read_line_context(content, l) {
        Some(t) => t,
        None => {
            let s = concat(class_name, "::");
            concat(s.as_str(), symbol_name)
        },
    };
    let kind = classify_member_location(path, context.as_str(), symbol_name);
    Usage { path: owned(path), line: l, col, context, kind, class_name: Some(owned(class_name)) }
}

// ---------------------------------------------------------------------------
// Collecting without repetition
// ---------------------------------------------------------------------------
/// Two uses are at the same place.
pub open spec fn same_place(a: UsageView, b: UsageView) -> bool {
    slashed(a.path) == slashed(b.path) && a.line == b.line && a.col == b.col
}

/// One of the uses is at the place of the given one.
pub open spec fn has_place(all: Seq<UsageView>, u: UsageView) -> bool {
    exists|i: int| 0 <= i < all.len() && same_place(#[trigger] all[i], u)
}

/// The uses with one more, unless its place is there already.
pub open spec fn with_usage(all: Seq<UsageView>, u: UsageView) -> Seq<UsageView> {
    if has_place(all, u) {
        all
    } else {
        all.push(u)
    }
}

/// The uses with the first `n` of more uses.
pub open spec fn with_usages(all: Seq<UsageView>, more: Seq<UsageView>, n: int) -> Seq<UsageView>
    decreases n,
{
    if n <= 0 {
        all
    } else {
        with_usage(with_usages(all, more, n - 1), more[n - 1])
    }
}

/// No two of the uses are at the same place.
pub open spec fn distinct_places(all: Seq<UsageView>) -> bool {
    forall|i: int, j: int|
        0 <= i < j < all.len() ==> !same_place(#[trigger] all[i], #[trigger] all[j])
}

/// No place is collected twice.
pub proof fn law_places_distinct(all: Seq<UsageView>, more: Seq<UsageView>, n: int)
    requires
        distinct_places(all),
        0 <= n <= more.len(),
    ensures
        distinct_places(with_usages(all, more, n)),
        all.is_prefix_of(with_usages(all, more, n)),
        with_usages(all, more, n).len() <= all.len() + n,
    decreases n,
{
    if n > 0 {
        law_places_distinct(all, more, n - 1);
    }
}

/// Every use that was to be collected has its place among the collected ones.
pub proof fn law_places_kept(all: Seq<UsageView>, more: Seq<UsageView>, n: int, i: int)
    requires
        0 <= i < n <= more.len(),
    ensures
        has_place(with_usages(all, more, n), more[i]),
    decreases n,
{
    let before = with_usages(all, more, n - 1);
    let after = with_usages(all, more, n);
    if i < n - 1 {
        law_places_kept(all, more, n - 1, i);
        let j = choose|j: int| 0 <= j < before.len() && same_place(#[trigger] before[j], more[i]);
        assert(after[j] == before[j]);
    } else if !has_place(before, more[i]) {
        assert(same_place(after[after.len() - 1], more[i]));
    }
}

/// A copy of a use.
fn copy_usage(u: &Usage) -> (r: Usage)
    ensures
        r@ == u@,
{
    Usage {
        path: u.path.clone(),
        line: u.line,
        col: u.col,
        context: u.context.clone(),
        kind: u.kind,
        class_name: copy_opt(&u.class_name),
    }
}

/// Adds a use, unless its place is there already.
pub fn push_unique_result(results: &mut Vec<Usage>, item: Usage)
    ensures
        views(final(results)@) == with_usage(views(old(results)@), item@),
{
    let ghost all = views(results@);
    let ghost u = item@;
    let path = normalize_path(item.path.as_str());
    let mut i: usize = 0;
    while i < results.len()
        invariant
            i <= results@.len(),
            all == views(results@),
            *results == *old(results),
            u == item@,
            path@ == slashed(item.path@),
            forall|j: int| 0 <= j < i ==> !same_place(#[trigger] all[j], u),
        decreases results.len() - i,
    {
        assert(all[i as int] == results@[i as int]@);
        let p = normalize_path(results[i].path.as_str());
        if str_eq(p.as_str(), path.as_str()) && results[i].line == item.line && results[i].col
            == item.col {
            assert(same_place(all[i as int], u));
            return;
        }
        i = i + 1;
    }
    results.push(item);
    assert(views(results@) =~= all.push(u));
}

/// The uses after one more file was searched: up to `MAX_RESULTS` of them, none
/// of them twice.
pub open spec fn after_file(all: Seq<UsageView>, v: SearchView) -> Seq<UsageView> {
    if all.len() >= MAX_RESULTS {
        all
    } else {
        let more = at_most(v.all(), MAX_RESULTS - all.len());
        with_usages(all, more, more.len() as int)
    }
}

/// Adds the uses in one more file.
pub fn collect_from_file(
    results: &mut Vec<Usage>,
    path: &str,
    content: &str,
    tree: &SyntaxTree,
    symbol_name: &str,
    scope: &Option<UsageScope>,
)
    ensures
        views(final(results)@) == after_file(
            views(old(results)@),
            (SearchView {
                nodes: tree@,
                lines: lines(content@),
                path: path@,
                symbol: symbol_name@,
                scope: opt_scope(*scope),
            }),
        ),
{
    if results.len() >= MAX_RESULTS {
        return;
    }
    let ghost all = views(results@);
    let found = search_in_file(
        path,
        content,
        tree,
        symbol_name,
        MAX_RESULTS - results.len(),
        scope,
    );
    let ghost more = views(found@);
    let mut i: usize = 0;
    while i < found.len()
        invariant
            i <= found@.len(),
            more == views(found@),
            views(results@) == with_usages(all, more, i as int),
        decreases found.len() - i,
    {
        assert(more[i as int] == found@[i as int]@);
        push_unique_result(results, copy_usage(&found[i]));
        i = i + 1;
    }
}

/// Searching one more file never takes the collection over the limit, and keeps
/// what was collected.
pub proof fn law_limit_kept(all: Seq<UsageView>, v: SearchView)
    requires
        distinct_places(all),
    ensures
        all.len() <= MAX_RESULTS ==> after_file(all, v).len() <= MAX_RESULTS,
        distinct_places(after_file(all, v)),
        all.is_prefix_of(after_file(all, v)),
{
    if all.len() < MAX_RESULTS {
        let more = at_most(v.all(), MAX_RESULTS - all.len());
        law_places_distinct(all, more, more.len() as int);
    }
}

// ---------------------------------------------------------------------------
// Batches
// ---------------------------------------------------------------------------
/// Uses on their way to the caller: those that wait for their batch to be full,
/// and how many there have been.
pub struct UsageStream {
    pub batch: Vec<Usage>,
    pub total: usize,
}

/// The batches one after the other.
pub open spec fn chained(batches: Seq<Vec<Usage>>) -> Seq<UsageView>
    decreases batches.len(),
{
    if batches.len() == 0 {
        seq![]
    } else {
        chained(batches.drop_last()) + views(batches.last()@)
    }
}

impl UsageStream {
    /// What waits is less than a batch.
    pub open spec fn wf(self) -> bool {
        self.batch@.len() < STREAM_BATCH_SIZE && self.total <= MAX_RESULTS
    }

    /// A stream with nothing in it.
    pub fn start() -> (r: UsageStream)
        ensures
            r.wf(),
            r.total == 0,
            views(r.batch@) == Seq::<UsageView>::empty(),
    {
        let r = UsageStream { batch: Vec::new(), total: 0 };
        assert(views(r.batch@) =~= Seq::<UsageView>::empty());
        r
    }

    /// Adds the uses in one more file, up to the limit, and hands out the
    /// batches that are full. Nothing is lost and the order is kept.
    pub fn add_file(
        &mut self,
        path: &str,
        content: &str,
        tree: &SyntaxTree,
        symbol_name: &str,
    ) -> (r: Vec<Vec<Usage>>)
        requires
            old(self).wf(),
        ensures
            final(self).wf(),
            ({
                let v = SearchView {
                    nodes: tree@,
                    lines: lines(content@),
                    path: path@,
                    symbol: symbol_name@,
                    scope: None,
                };
                let more = at_most(v.all(), MAX_RESULTS - old(self).total);
                &&& final(self).total == old(self).total + more.len()
                &&& chained(r@) + views(final(self).batch@) == views(old(self).batch@) + more
            }),
            forall|i: int| 0 <= i < r@.len() ==> (#[trigger] r@[i])@.len() == STREAM_BATCH_SIZE,
    {
        let found = search_in_file(
            path,
            content,
            tree,
            symbol_name,
            MAX_RESULTS - self.total,
            &None,
        );
        let ghost start = views(self.batch@);
        let ghost more = views(found@);
        let mut full: Vec<Vec<Usage>> = Vec::new();
        let mut batch: Vec<Usage> = Vec::new();
        let mut i: usize = 0;
        let n: usize = self.batch.len();
        while i < n
            invariant
                i <= n,
                n == self.batch@.len(),
                start == views(self.batch@),
                views(batch@) == start.take(i as int),
            decreases n - i,
        {
            let ghost before = views(batch@);
            let u = copy_usage(&self.batch[i]);
            batch.push(u);
            assert(views(batch@) =~= before.push(u@));
            assert(start[i as int] == u@);
            assert(start.take(i + 1) =~= start.take(i as int).push(u@));
            i = i + 1;
        }
        assert(start.take(n as int) =~= start);
        let mut k: usize = 0;
        assert(chained(full@) + views(batch@) =~= start + more.take(0));
        while k < found.len()
            invariant
                k <= found@.len(),
                more == views(found@),
                batch@.len() < STREAM_BATCH_SIZE,
                chained(full@) + views(batch@) == start + more.take(k as int),
                forall|i: int|
                    0 <= i < full@.len() ==> (#[trigger] full@[i])@.len() == STREAM_BATCH_SIZE,
            decreases found.len() - k,
        {
            let ghost before = views(batch@);
            let ghost done = chained(full@);
            let u = copy_usage(&found[k]);
            batch.push(u);
            assert(views(batch@) =~= before.push(u@));
            assert(more[k as int] == u@);
            assert(more.take(k + 1) =~= more.take(k as int).push(u@));
            assert(done + views(batch@) =~= (done + before).push(u@));
            assert(start + more.take(k + 1) =~= (start + more.take(k as int)).push(u@));
            if batch.len() >= STREAM_BATCH_SIZE {
                let ghost was = full@;
                full.push(batch);
                assert(full@.drop_last() =~= was);
                batch = Vec::new();
                assert(chained(full@) + views(batch@) =~= chained(full@));
            }
            k = k + 1;
        }
        assert(more.take(found@.len() as int) =~= more);
        self.total = self.total + found.len();
        self.batch = batch;
        full
    }
}

} // verus!
