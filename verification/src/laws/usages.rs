//! Which occurrences of a symbol are uses of it.

#[allow(unused_imports)]
use crate::query::cursor::{cursor_context, function_around, var_type, CursorView};
#[allow(unused_imports)]
use crate::query::locate::{byte_column, code_part, declaration_from, declaration_line, declared_name, declares_from,
    file_stem, first_name, head_end, header_patterns, slashed, symbol_from, symbol_near, token_list, tokens_from,
    type_text, word_at, word_from};
#[allow(unused_imports)]
use crate::query::occurrences::{after_file, at_most, has_place, line_text, recorded_usage, same_place, with_usage,
    with_usages, SearchView, UsageView};
#[allow(unused_imports)]
use crate::query::usage::{class_at, classes_of, code_at, count, declared_above, declares_name, local_scope,
    member_kind, method_class, method_ranges, method_state, method_step, names_declared, qualifier_before, quoted,
    scope_of, tail_word, target_at, target_class, usage_kind, word_start, MethodState, MethodView, ScopeView,
    TargetView, UsageKind, MAX_RESULTS};
#[allow(unused_imports)]
use crate::syntax::{child_field, end_of, lemma_end_from, NodeView};
#[allow(unused_imports)]
use crate::text::{contains, ends, find, find_from, lemma_find_from, lines, lower, occurs_at, starts, trim, trim_end,
    trim_start, word_char};
#[allow(unused_imports)]
use crate::query::locate::three_lines;
#[allow(unused_imports)]
use crate::query::usage::{is_candidate, scope_text};
#[allow(unused_imports)]
use crate::query::occurrences::{chained, Usage};
#[allow(unused_imports)]
use crate::text::views;
use vstd::prelude::*;

verus! {

// ---------------------------------------------------------------------------
// Strings and comments
// ---------------------------------------------------------------------------
/// On a line without backslashes a position lies inside of a string exactly where
/// an odd number of quotes stands before it.
pub proof fn law_odd_quotes(line: Seq<char>, i: int)
    requires
        0 <= i <= line.len(),
        forall|k: int| 0 <= k < i ==> #[trigger] line[k] != '\\',
    ensures
        quoted(line, i).0 == (count(line, '"', i) % 2 == 1),
        !quoted(line, i).1,
        count(line, '"', i) >= 0,
    decreases i,
{
    if i > 0 {
        law_odd_quotes(line, i - 1);
        assert(line[i - 1] != '\\');
    }
}

/// A character behind a backslash neither opens nor closes a string.
pub proof fn law_escaped_character(line: Seq<char>, i: int)
    requires
        0 <= i,
        i + 2 <= line.len(),
        line[i] == '\\',
        !quoted(line, i).1,
    ensures
        quoted(line, i + 2) == quoted(line, i),
{
    reveal_with_fuel(quoted, 3);
}

/// Behind a string that was closed there is code again.
pub proof fn law_code_behind_string(line: Seq<char>, a: int, b: int)
    requires
        0 <= a < b < line.len(),
        line[a] == '"',
        line[b] == '"',
        quoted(line, a) == (false, false),
        forall|k: int| a < k < b ==> #[trigger] line[k] != '"' && line[k] != '\\',
    ensures
        forall|k: int| a < k <= b ==> #[trigger] quoted(line, k) == (true, false),
        quoted(line, b + 1) == (false, false),
{
    assert(quoted(line, a + 1) == (true, false));
    assert forall|k: int| a < k <= b implies #[trigger] quoted(line, k) == (true, false) by {
        lemma_stays_open(line, a, k);
    }
    assert(quoted(line, b) == (true, false));
}

proof fn lemma_stays_open(line: Seq<char>, a: int, k: int)
    requires
        0 <= a < k <= line.len(),
        quoted(line, a + 1) == (true, false),
        forall|m: int| a < m < k ==> #[trigger] line[m] != '"' && line[m] != '\\',
    ensures
        quoted(line, k) == (true, false),
    decreases k - a,
{
    if k > a + 1 {
        lemma_stays_open(line, a, k - 1);
        assert(line[k - 1] != '"');
    }
}

/// A position is code where neither a comment has begun before it nor a string is
/// open.
pub proof fn law_code(line: Seq<char>, i: int)
    ensures
        code_at(line, i) <==> !quoted(line, i).0 && (find(line, "//"@) matches Some(k) ==> i < k),
        (forall|k: int| 0 <= k ==> !#[trigger] occurs_at(line, "//"@, k)) ==> (code_at(line, i)
            <==> !quoted(line, i).0),
{
    lemma_find_from(line, "//"@, 0);
}

// ---------------------------------------------------------------------------
// Kinds
// ---------------------------------------------------------------------------
/// What an occurrence is: a declaration on a line of a macro, a definition or a call
/// before a bracket, a write before an assignment, and a read otherwise.
pub proof fn law_usage_kind(line: Seq<char>, i: int, n: int)
    ensures
        ({
            let kind = usage_kind(line, i, n);
            let left = trim_end(line.take(i));
            let right = trim_start(line.skip(i + n));
            let reflected = contains(line, "UPROPERTY("@) || contains(line, "UFUNCTION("@);
            let assigned = starts(right, "="@) || starts(right, "+="@) || starts(right, "-="@)
                || starts(right, "*="@) || starts(right, "/="@);
            &&& reflected ==> kind == UsageKind::Declaration
            &&& !reflected && starts(right, "("@) && contains(left, "::"@) ==> kind
                == UsageKind::Definition
            &&& !reflected && starts(right, "("@) && !contains(left, "::"@) ==> kind
                == UsageKind::Call
            &&& !reflected && !starts(right, "("@) && assigned ==> kind == UsageKind::Write
            &&& !reflected && !starts(right, "("@) && !assigned ==> kind == UsageKind::Read
        }),
{
}

/// A recorded member is defined where a source names it behind its scope, and
/// declared everywhere else.
pub proof fn law_member_kind(path: Seq<char>, context: Seq<char>, symbol: Seq<char>)
    ensures
        ({
            let source = ends(lower(path), ".cpp"@) || ends(lower(path), ".cc"@) || ends(
                lower(path),
                ".cxx"@,
            );
            let named = contains(context, "::"@) && contains(context, symbol);
            &&& source && named ==> member_kind(path, context, symbol) == UsageKind::Definition
            &&& !(source && named) ==> member_kind(path, context, symbol) == UsageKind::Declaration
        }),
{
}

// ---------------------------------------------------------------------------
// Qualifiers
// ---------------------------------------------------------------------------
proof fn lemma_word_start(s: Seq<char>, end: int, at: int)
    requires
        0 <= at <= end <= s.len(),
        forall|k: int| at <= k < end ==> word_char(#[trigger] s[k]),
        at > 0 ==> !word_char(s[at - 1]),
    ensures
        word_start(s, end) == at,
    decreases end - at,
{
    if end > at {
        assert(word_char(s[end - 1]));
        lemma_word_start(s, end - 1, at);
    }
}

/// A word with `->`, `.` or `::` directly before a position is the qualifier there.
pub proof fn law_qualifier_before(line: Seq<char>, i: int, before: Seq<char>, word: Seq<char>, op: Seq<char>)
    requires
        0 <= i <= line.len(),
        op == "->"@ || op == "."@ || op == "::"@,
        word.len() > 0,
        forall|k: int| 0 <= k < word.len() ==> word_char(#[trigger] word[k]),
        before.len() > 0 ==> !word_char(before.last()),
        line.take(i) == before + word + op,
    ensures
        qualifier_before(line, i) == Some((word, op)),
{
    reveal_strlit("->");
    reveal_strlit(".");
    reveal_strlit("::");
    let t = line.take(i);
    let p = before + word;
    assert(t.last() == op.last());
    assert(trim_end(t) =~= t);
    assert(t.take(t.len() - op.len()) =~= p);
    assert(t.subrange(t.len() - op.len(), t.len() as int) =~= op);
    if op == "."@ {
        if ends(t, "->"@) {
            assert(t.subrange(t.len() - 2, t.len() as int)[1] == '>');
        }
    } else if op == "::"@ {
        if ends(t, "->"@) {
            assert(t.subrange(t.len() - 2, t.len() as int)[1] == '>');
        }
        if ends(t, "."@) {
            assert(t.subrange(t.len() - 1, t.len() as int)[0] == '.');
        }
    }
    assert forall|k: int| before.len() <= k < p.len() implies word_char(#[trigger] p[k]) by {
        assert(p[k] == word[k - before.len()]);
    }
    lemma_word_start(p, p.len() as int, before.len() as int);
    assert(p.skip(before.len() as int) =~= word);
}

// ---------------------------------------------------------------------------
// Words
// ---------------------------------------------------------------------------
/// The first word of its own is found: it stands alone, and none does before it.
pub proof fn law_word_from(s: Seq<char>, p: Seq<char>, from: int)
    requires
        0 <= from,
    ensures
        match word_from(s, p, from) {
            Some(i) => from <= i && occurs_at(s, p, i) && (i > 0 ==> !word_char(s[i - 1])) && (i
                + p.len() < s.len() ==> !word_char(s[i + p.len()])) && (forall|k: int|
                from <= k < i ==> !#[trigger] word_at(s, p, k)),
            None => forall|k: int| from <= k ==> !#[trigger] word_at(s, p, k),
        },
    decreases s.len() + 1 - from,
{
    if from + p.len() <= s.len() && !word_at(s, p, from) {
        law_word_from(s, p, from + 1);
    }
}

/// Every word of a line that is code and belongs to the symbol is a use.
pub proof fn law_every_word_is_used(v: SearchView, k: int, from: int, i: int)
    requires
        0 <= from <= i,
        0 <= k < v.lines.len(),
        v.symbol.len() > 0,
        forall|m: int| 0 <= m < v.symbol.len() ==> word_char(#[trigger] v.symbol[m]),
        word_at(v.lines[k], v.symbol, i),
        code_at(v.lines[k], i),
        v.belongs(k, i),
    ensures
        v.in_line(k, from).contains(v.usage(k, i)),
    decreases v.lines[k].len() - from,
{
    let line = v.lines[k];
    let n = v.symbol.len() as int;
    law_word_from(line, v.symbol, from);
    assert(word_from(line, v.symbol, from) is Some);
    let j = word_from(line, v.symbol, from)->0;
    let all = v.in_line(k, from);
    let rest = v.in_line(k, j + n);
    if j == i {
        assert(all[0] == v.usage(k, i));
    } else {
        assert(j < i);
        if i < j + n {
            assert(line.subrange(j, j + n)[i - 1 - j] == v.symbol[i - 1 - j]);
            assert(word_char(v.symbol[i - 1 - j]));
            assert(line[i - 1] == v.symbol[i - 1 - j]);
        }
        law_every_word_is_used(v, k, j + n, i);
        let m = choose|m: int| 0 <= m < rest.len() && rest[m] == v.usage(k, i);
        if code_at(line, j) && v.belongs(k, j) {
            assert(all[m + 1] == rest[m]);
        } else {
            assert(all[m] == rest[m]);
        }
    }
}

/// Every use in a line is a word there that is code and belongs to the symbol.
pub proof fn law_every_use_is_word(v: SearchView, k: int, from: int, m: int)
    requires
        0 <= from,
        0 <= k < v.lines.len(),
        v.symbol.len() > 0,
        0 <= m < v.in_line(k, from).len(),
    ensures
        exists|i: int|
            from <= i && #[trigger] word_at(v.lines[k], v.symbol, i) && code_at(v.lines[k], i)
                && v.belongs(k, i) && v.in_line(k, from)[m] == v.usage(k, i),
    decreases v.lines[k].len() - from,
{
    let line = v.lines[k];
    let n = v.symbol.len() as int;
    law_word_from(line, v.symbol, from);
    let j = word_from(line, v.symbol, from)->0;
    assert(word_at(line, v.symbol, j));
    let rest = v.in_line(k, j + n);
    if code_at(line, j) && v.belongs(k, j) {
        if m > 0 {
            law_every_use_is_word(v, k, j + n, m - 1);
        }
    } else {
        law_every_use_is_word(v, k, j + n, m);
    }
}

/// All lines of a file are searched, of a local name those of its function only.
pub proof fn law_lines_in_reach(v: SearchView, from: int, k: int, u: UsageView)
    requires
        0 <= from <= k < v.lines.len(),
        v.symbol.len() > 0,
        match v.scope {
            Some(ScopeView::Local { start_line, end_line }) => start_line <= k + 1 <= end_line,
            _ => true,
        },
        v.in_line(k, 0).contains(u),
    ensures
        v.from_line(from).contains(u),
    decreases k - from,
{
    let all = v.from_line(from);
    let own = v.in_line(from, 0);
    let rest = v.from_line(from + 1);
    if from == k {
        let m = choose|m: int| 0 <= m < own.len() && own[m] == u;
        assert(all[m] == u);
    } else {
        law_lines_in_reach(v, from + 1, k, u);
        let m = choose|m: int| 0 <= m < rest.len() && rest[m] == u;
        if v.in_reach(from) {
            assert(all[own.len() + m] == u);
        } else {
            assert(all[m] == u);
        }
    }
}

/// A local name has no uses outside of its function.
pub proof fn law_local_uses_stay_inside(v: SearchView, from: int, m: int, first: usize, last: usize)
    requires
        0 <= from,
        v.symbol.len() > 0,
        v.scope == Some(ScopeView::Local { start_line: first, end_line: last }),
        0 <= m < v.from_line(from).len(),
        v.lines.len() < usize::MAX,
    ensures
        first <= v.from_line(from)[m].line <= last,
    decreases v.lines.len() - from,
{
    let all = v.from_line(from);
    let own = v.in_line(from, 0);
    if v.in_reach(from) {
        if m < own.len() {
            law_every_use_is_word(v, from, 0, m);
            assert(all[m] == own[m]);
        } else {
            law_local_uses_stay_inside(v, from + 1, m - own.len(), first, last);
        }
    } else {
        law_local_uses_stay_inside(v, from + 1, m, first, last);
    }
}

/// A use is shown with its line counted from one, its column in bytes, and the text
/// of the line.
pub proof fn law_usage_place(v: SearchView, k: int, i: int)
    requires
        0 <= k < usize::MAX,
    ensures
        v.usage(k, i).line == k + 1,
        v.usage(k, i).col == byte_column(v.lines[k], i),
        v.usage(k, i).context == trim(v.lines[k]),
        v.usage(k, i).path == slashed(v.path),
        v.usage(k, i).class_name is None,
        v.usage(k, i).kind == usage_kind(v.lines[k], i, v.symbol.len() as int),
{
}

// ---------------------------------------------------------------------------
// Members
// ---------------------------------------------------------------------------
/// Without the scope of a member every word belongs to the symbol.
pub proof fn law_unscoped_belongs(v: SearchView, k: int, i: int)
    requires
        !(v.scope matches Some(ScopeView::Member { .. })),
    ensures
        v.belongs(k, i),
{
}

/// A member is used through the name of one of its classes, through `this` or
/// without a qualifier in a method of one, and through a variable of such a type.
pub proof fn law_member_belongs(
    v: SearchView,
    k: int,
    i: int,
    owner: Seq<char>,
    context: Option<Seq<char>>,
)
    requires
        v.scope == Some(ScopeView::Member { owner, context }),
    ensures
        ({
            let q = qualifier_before(v.lines[k], i);
            let ours = |c: Seq<char>| c == owner || context == Some(c);
            let here = match class_at(method_ranges(v.lines, classes_of(v.scope)), k + 1, 0) {
                Some(c) => c == owner || context == Some(c),
                None => false,
            };
            &&& q is None ==> (v.belongs(k, i) <==> here)
            &&& q matches Some((w, op)) ==> {
                &&& op == "::"@ ==> (v.belongs(k, i) <==> w == owner || context == Some(w))
                &&& op != "::"@ && w == "this"@ ==> (v.belongs(k, i) <==> here)
                &&& op != "::"@ && w != "this"@ ==> (v.belongs(k, i) <==> (match var_type(
                    v.nodes,
                    w,
                    Some((k as u32) as int),
                ) {
                    Some(t) => t == owner || context == Some(t),
                    None => false,
                }))
            }
        }),
{
    assert forall|c: Seq<char>| #[trigger] v.classes().contains(c) <==> c == owner || context == Some(
        c,
    ) by {
        let cs = v.classes();
        if c == owner {
            assert(cs[0] == owner);
        }
        if context == Some(c) {
            if c != owner {
                assert(cs[1] == c);
            }
        }
    }
}

/// The classes of a member are its owner and the class around the cursor, each
/// once.
pub proof fn law_classes_of(owner: Seq<char>, context: Option<Seq<char>>)
    ensures
        context is None || context == Some(owner) ==> classes_of(
            Some(ScopeView::Member { owner, context }),
        ) == seq![owner],
        context matches Some(c) ==> (c != owner ==> classes_of(
            Some(ScopeView::Member { owner, context }),
        ) == seq![owner, c]),
        classes_of(None) == Seq::<Seq<char>>::empty(),
{
}

/// The class of a line is that of the first method whose lines hold it.
pub proof fn law_class_at(ranges: Seq<MethodView>, line: int, i: int)
    requires
        0 <= i,
    ensures
        match class_at(ranges, line, i) {
            Some(c) => exists|k: int|
                i <= k < ranges.len() && (#[trigger] ranges[k]).start_line <= line <= ranges[k].end_line
                    && c == ranges[k].class_name && (forall|m: int|
                    i <= m < k ==> !((#[trigger] ranges[m]).start_line <= line
                        <= ranges[m].end_line)),
            None => forall|k: int|
                i <= k < ranges.len() ==> !((#[trigger] ranges[k]).start_line <= line
                    <= ranges[k].end_line),
        },
    decreases ranges.len() - i,
{
    if i < ranges.len() && !(ranges[i].start_line <= line <= ranges[i].end_line) {
        law_class_at(ranges, line, i + 1);
    }
}

/// The class of a method is the first whose name stands before `::` on a line with a
/// bracket.
pub proof fn law_method_class(line: Seq<char>, classes: Seq<Seq<char>>, i: int)
    requires
        0 <= i,
    ensures
        match method_class(line, classes, i) {
            Some(c) => line.contains('(') && exists|k: int|
                i <= k < classes.len() && c == #[trigger] classes[k] && contains(
                    line,
                    classes[k] + "::"@,
                ) && (forall|m: int|
                    i <= m < k ==> !contains(line, #[trigger] classes[m] + "::"@)),
            None => !line.contains('(') || forall|m: int|
                i <= m < classes.len() ==> !contains(line, #[trigger] classes[m] + "::"@),
        },
    decreases classes.len() - i,
{
    if i < classes.len() {
        if contains(line, classes[i] + "::"@) && line.contains('(') {
            assert(classes[i] == method_class(line, classes, i)->0);
        } else {
            law_method_class(line, classes, i + 1);
        }
    }
}

/// A body begins with its first brace, and ends on the line on which as many have
/// closed as were opened.
pub proof fn law_method_step(st: MethodState, line: Seq<char>, number: int, classes: Seq<Seq<char>>)
    ensures
        ({
            let r = method_step(st, line, number, classes);
            let opened = count(line, '{', line.len() as int);
            let closed = count(line, '}', line.len() as int);
            &&& st.active matches Some((c, start, depth)) ==> {
                let ends_here = depth + opened - closed <= 0 && line.contains('}');
                &&& ends_here ==> r.active is None && r.ended == st.ended.push(
                    (MethodView { class_name: c, start_line: start, end_line: number }),
                )
                &&& !ends_here ==> r.active == Some((c, start, depth + opened - closed)) && r.ended
                    == st.ended
            }
            &&& st.active is None && st.pending is None && (starts(trim_start(line), "//"@)
                || method_class(line, classes, 0) is None) ==> r.active is None && r.pending is None
                && r.ended == st.ended
            &&& st.active is None && st.pending is None && !starts(trim_start(line), "//"@) ==> (
            method_class(line, classes, 0) matches Some(c) ==> {
                &&& !line.contains('{') ==> r.active is None && r.pending == Some((c, number))
                &&& line.contains('{') && !(opened - closed <= 0 && line.contains('}')) ==> r.active
                    == Some((c, number, opened - closed)) && r.pending is None
                &&& line.contains('{') && opened - closed <= 0 && line.contains('}') ==> r.active
                    is None && r.ended.last() == (MethodView {
                    class_name: c,
                    start_line: number,
                    end_line: number,
                })
            })
            &&& st.active is None ==> (st.pending matches Some((c, start)) ==> {
                &&& !line.contains('{') ==> r.active is None && r.pending == st.pending
                &&& line.contains('{') && !(opened - closed <= 0 && line.contains('}')) ==> r.active
                    == Some((c, start, opened - closed))
            })
        }),
{
}

/// A body that does not end runs to the last line.
pub proof fn law_open_method_runs_on(ls: Seq<Seq<char>>, classes: Seq<Seq<char>>)
    ensures
        method_state(ls, classes, ls.len() as int).active matches Some((c, start, _)) ==> method_ranges(
            ls,
            classes,
        ) == method_state(ls, classes, ls.len() as int).ended.push(
            (MethodView { class_name: c, start_line: start, end_line: ls.len() as int }),
        ),
        method_state(ls, classes, ls.len() as int).active is None ==> method_ranges(ls, classes)
            == method_state(ls, classes, ls.len() as int).ended,
{
}

// ---------------------------------------------------------------------------
// Targets
// ---------------------------------------------------------------------------
/// A symbol without a qualifier belongs to the class around the cursor; so does one
/// behind `this` and `Super::`. Behind `Class::` it belongs to that class, and
/// behind a variable to the class of its type.
pub proof fn law_target_class(ns: Seq<NodeView>, c: CursorView, row: int)
    ensures
        c.qualifier is None ==> target_class(ns, c, row) == c.enclosing_class,
        c.qualifier == Some("this"@) ==> target_class(ns, c, row) == c.enclosing_class,
        c.qualifier == Some("Super"@) && c.qualifier_op == Some("::"@) ==> target_class(ns, c, row)
            == c.enclosing_class,
        c.qualifier matches Some(q) ==> {
            &&& q != "Super"@ && q != "this"@ && c.qualifier_op == Some("::"@) ==> target_class(
                ns,
                c,
                row,
            ) == Some(q)
            &&& q != "this"@ && (c.qualifier_op == Some("."@) || c.qualifier_op == Some("->"@))
                ==> target_class(ns, c, row) == (match var_type(ns, q, Some(row)) {
                Some(t) => Some(t),
                None => Some(q),
            })
        },
{
    reveal_strlit(".");
    reveal_strlit("->");
    reveal_strlit("::");
    assert("."@.len() == 1 && "->"@[0] == '-' && "::"@[0] == ':');
}

/// What the uses of a symbol depend on: a local name on its function, whatever its
/// class; anything else on the class it belongs to.
pub proof fn law_target(ns: Seq<NodeView>, at: int, fallback: Seq<char>, row: int)
    ensures
        cursor_context(ns, at) is None ==> target_at(ns, at, fallback, row) is Unknown,
        cursor_context(ns, at) matches Some(c) ==> (trim(c.symbol).len() > 0 ==> {
            let symbol = trim(c.symbol);
            let r = target_at(ns, at, fallback, row);
            &&& local_scope(ns, at, symbol, row) matches Some(s) ==> r == TargetView::Local(s)
            &&& local_scope(ns, at, symbol, row) is None ==> (match target_class(ns, c, row) {
                Some(k) => r == (TargetView::Member {
                    symbol,
                    class_name: k,
                    context_class: c.enclosing_class,
                }),
                None => r is Unknown,
            })
        }),
{
}

/// The scope of a member is the class that owns it, if one was found.
pub proof fn law_scope_of(t: TargetView, owner: Option<Seq<char>>)
    ensures
        t is Unknown ==> scope_of(t, owner) is None,
        t matches TargetView::Local(s) ==> scope_of(t, owner) == Some(s),
        t matches TargetView::Member { context_class, .. } ==> (match owner {
            Some(o) => scope_of(t, owner) == Some(
                ScopeView::Member { owner: o, context: context_class },
            ),
            None => scope_of(t, owner) is None,
        }),
{
}

/// A name is local where a declaration in the function around the cursor declares
/// it, on the row of the cursor or above.
pub proof fn law_local_scope(ns: Seq<NodeView>, at: int, name: Seq<char>, row: int, f: int, j: int)
    requires
        function_around(ns, at) == Some(f),
        0 <= f <= j < end_of(ns, f) <= ns.len(),
        declares_name(ns, j, name),
        forall|k: int| f <= k <= j ==> (#[trigger] ns[k]).start_row <= row,
    ensures
        local_scope(ns, at, name, row) == Some(
            ScopeView::Local {
                start_line: ns[f].start_row.wrapping_add(1),
                end_line: ns[f].end_row.wrapping_add(1),
            },
        ),
{
    lemma_declared(ns, f, end_of(ns, f), name, row, j);
}

proof fn lemma_declared(ns: Seq<NodeView>, i: int, end: int, name: Seq<char>, row: int, j: int)
    requires
        0 <= i <= j < end <= ns.len(),
        declares_name(ns, j, name),
        forall|k: int| i <= k <= j ==> (#[trigger] ns[k]).start_row <= row,
    ensures
        declared_above(ns, i, end, name, row),
    decreases j - i,
{
    if i < j {
        lemma_declared(ns, i + 1, end, name, row, j);
    }
}

/// A name that nothing in the function declares is not local.
pub proof fn law_not_local(ns: Seq<NodeView>, at: int, name: Seq<char>, row: int)
    requires
        function_around(ns, at) matches Some(f) ==> 0 <= f < ns.len() && (forall|j: int|
            f <= j < end_of(ns, f) && (#[trigger] ns[j]).start_row <= row ==> !declares_name(
                ns,
                j,
                name,
            )),
    ensures
        local_scope(ns, at, name, row) is None,
{
    match function_around(ns, at) {
        Some(f) => {
            lemma_end_from(ns, ns[f].depth, f + 1);
            lemma_undeclared(ns, f, end_of(ns, f), name, row);
        },
        None => {},
    }
}

proof fn lemma_undeclared(ns: Seq<NodeView>, i: int, end: int, name: Seq<char>, row: int)
    requires
        0 <= i,
        end <= ns.len(),
        forall|j: int|
            i <= j < end && (#[trigger] ns[j]).start_row <= row ==> !declares_name(ns, j, name),
    ensures
        !declared_above(ns, i, end, name, row),
    decreases ns.len() - i,
{
    if i < end {
        lemma_end_from(ns, ns[i].depth, i + 1);
        if ns[i].start_row > row {
            lemma_undeclared(ns, end_of(ns, i), end, name, row);
        } else {
            assert(!declares_name(ns, i, name));
            lemma_undeclared(ns, i + 1, end, name, row);
        }
    }
}

/// A declaration and a parameter declare the plain name that is their declarator,
/// and so does the declarator of an array, a pointer, a reference, a function or
/// an initialiser around it.
pub proof fn law_declares_name(ns: Seq<NodeView>, i: int, d: int, name: Seq<char>)
    requires
        0 <= i < d < ns.len(),
        child_field(ns, i, "declarator"@) == Some(d),
    ensures
        ns[i].kind != "declaration"@ && ns[i].kind != "parameter_declaration"@ ==> !declares_name(
            ns,
            i,
            name,
        ),
        (ns[i].kind == "declaration"@ || ns[i].kind == "parameter_declaration"@) && (ns[d].kind
            == "identifier"@ || ns[d].kind == "field_identifier"@) && end_of(ns, d) == d + 1 ==> (
        declares_name(ns, i, name) <==> trim(ns[d].text).len() > 0 && trim(ns[d].text) == name),
{
    if end_of(ns, d) == d + 1 {
        assert(names_declared(ns, d + 1, d + 1, name) == false);
    }
}

// ---------------------------------------------------------------------------
// Results
// ---------------------------------------------------------------------------
/// Of many uses the first ones are kept.
pub proof fn law_at_most(s: Seq<UsageView>, n: int)
    requires
        0 <= n,
    ensures
        at_most(s, n).len() <= n,
        s.len() <= n ==> at_most(s, n) == s,
        s.len() > n ==> at_most(s, n).len() == n,
        forall|i: int| 0 <= i < at_most(s, n).len() ==> #[trigger] at_most(s, n)[i] == s[i],
{
}

/// A use is added unless one at its place is there.
pub proof fn law_with_usage(all: Seq<UsageView>, u: UsageView)
    ensures
        has_place(all, u) ==> with_usage(all, u) == all,
        !has_place(all, u) ==> with_usage(all, u) == all.push(u),
        has_place(with_usage(all, u), u),
{
    if !has_place(all, u) {
        assert(with_usage(all, u).last() == u);
        assert(same_place(with_usage(all, u)[all.len() as int], u));
    }
}

/// Each use that is found is shown, itself or another at its place.
pub proof fn law_every_use_is_shown(all: Seq<UsageView>, more: Seq<UsageView>, n: int, k: int)
    requires
        0 <= k < n <= more.len(),
    ensures
        has_place(with_usages(all, more, n), more[k]),
    decreases n,
{
    let before = with_usages(all, more, n - 1);
    let now = with_usages(all, more, n);
    if k == n - 1 {
        law_with_usage(before, more[k]);
    } else {
        law_every_use_is_shown(all, more, n - 1, k);
        let i = choose|i: int| 0 <= i < before.len() && same_place(#[trigger] before[i], more[k]);
        assert(now[i] == before[i]);
        assert(same_place(now[i], more[k]));
    }
}

/// The record of a member is shown where the file shows it near its line, with the
/// text of that line, and as `Class::member` where the file does not.
pub proof fn law_recorded_usage(
    path: Seq<char>,
    line: i64,
    class_name: Seq<char>,
    symbol: Seq<char>,
    content: Option<Seq<char>>,
)
    ensures
        ({
            let u = recorded_usage(path, line, class_name, symbol, content);
            &&& u.path == path && u.class_name == Some(class_name)
            &&& content is None ==> u.line == line as usize && u.col == 0 && u.context == class_name
                + "::"@ + symbol
            &&& content matches Some(text) ==> (symbol_near(
                lines(text),
                symbol,
                (line as usize) as int,
            ) matches Some((l, c)) ==> u.line == l as usize && u.col == c)
            &&& u.kind == member_kind(path, u.context, symbol)
        }),
{
}

// ---------------------------------------------------------------------------
// Places of symbols
// ---------------------------------------------------------------------------
/// A symbol near a line is on the first line that holds it, of that line and the
/// eight behind it.
pub proof fn law_symbol_near(ls: Seq<Seq<char>>, p: Seq<char>, line: int)
    requires
        1 <= line <= ls.len(),
    ensures
        match symbol_near(ls, p, line) {
            Some((l, c)) => line <= l <= line + 8 && l <= ls.len() && (word_from(ls[l - 1], p, 0)
                matches Some(k) && c == byte_column(ls[l - 1], k)) && (forall|m: int|
                line - 1 <= m < l - 1 ==> word_from(#[trigger] ls[m], p, 0) is None),
            None => forall|m: int|
                line - 1 <= m < line + 8 && m < ls.len() ==> word_from(#[trigger] ls[m], p, 0) is None,
        },
{
    let start = line - 1;
    let end = if start + 9 < ls.len() {
        start + 9
    } else {
        ls.len() as int
    };
    lemma_symbol_from(ls, p, start, end);
}

proof fn lemma_symbol_from(ls: Seq<Seq<char>>, p: Seq<char>, i: int, end: int)
    requires
        0 <= i,
        end <= ls.len(),
    ensures
        match symbol_from(ls, p, i, end) {
            Some((l, c)) => i < l <= end && (word_from(ls[l - 1], p, 0) matches Some(k) && c
                == byte_column(ls[l - 1], k)) && (forall|m: int|
                i <= m < l - 1 ==> word_from(#[trigger] ls[m], p, 0) is None),
            None => forall|m: int| i <= m < end ==> word_from(#[trigger] ls[m], p, 0) is None,
        },
    decreases end - i,
{
    if i < end && word_from(ls[i], p, 0) is None {
        lemma_symbol_from(ls, p, i + 1, end);
    }
}

/// The code of a line is what stands before its comment.
pub proof fn law_code_part(line: Seq<char>)
    ensures
        match find(line, "//"@) {
            Some(i) => code_part(line) == line.take(i),
            None => code_part(line) == line,
        },
        !contains(code_part(line), "//"@),
{
    reveal_strlit("//");
    lemma_find_from(line, "//"@, 0);
    let c = code_part(line);
    if contains(c, "//"@) {
        let k = choose|k: int| occurs_at(c, "//"@, k);
        assert(c.subrange(k, k + 2) =~= line.subrange(k, k + 2));
        assert(occurs_at(line, "//"@, k));
    }
}

/// The declaration of a type is the first line that declares it.
pub proof fn law_declaration_from(ls: Seq<Seq<char>>, i: int, name: Seq<char>)
    requires
        0 <= i,
    ensures
        match declaration_from(ls, i, name) {
            Some(l) => i < l <= ls.len() && declaration_line(ls, l - 1, name) && (forall|m: int|
                i <= m < l - 1 ==> !#[trigger] declaration_line(ls, m, name)),
            None => forall|m: int| i <= m < ls.len() ==> !#[trigger] declaration_line(ls, m, name),
        },
    decreases ls.len() - i,
{
    if i < ls.len() && !declaration_line(ls, i, name) {
        law_declaration_from(ls, i + 1, name);
    }
}

/// The name that a keyword declares is the first word behind it that is not a
/// modifier; `enum class` is one keyword.
pub proof fn law_declared_name(ts: Seq<Seq<char>>, k: int)
    requires
        0 <= k,
        k + 1 < ts.len(),
    ensures
        ts[k] != "enum"@ && !crate::query::locate::type_modifier(ts[k + 1]) ==> declared_name(ts, k)
            == Some(ts[k + 1]),
        ts[k] != "enum"@ && crate::query::locate::type_modifier(ts[k + 1]) && k + 2 < ts.len()
            && !crate::query::locate::type_modifier(ts[k + 2]) ==> declared_name(ts, k) == Some(
            ts[k + 2],
        ),
        ts[k] == "enum"@ && (ts[k + 1] == "class"@ || ts[k + 1] == "struct"@) && k + 2 < ts.len()
            && !crate::query::locate::type_modifier(ts[k + 2]) ==> declared_name(ts, k) == Some(
            ts[k + 2],
        ),
{
    reveal_with_fuel(first_name, 3);
}

/// The macros of a module and the words of a declaration are no names.
pub proof fn law_type_modifier(module: Seq<char>)
    ensures
        crate::query::locate::type_modifier(module + "_API"@),
        crate::query::locate::type_modifier("final"@),
        crate::query::locate::type_modifier("abstract"@),
        crate::query::locate::type_modifier("alignas"@),
{
    let t = module + "_API"@;
    reveal_strlit("_API");
    assert(t.subrange(t.len() - 4, t.len() as int) =~= "_API"@);
}

/// The header of a type is named after it, without the letter that marks its kind.
pub proof fn law_file_stem(letter: char, rest: Seq<char>)
    requires
        rest.len() > 0,
        'A' <= rest[0] <= 'Z',
    ensures
        letter == 'A' || letter == 'U' || letter == 'F' || letter == 'E' || letter == 'T' || letter
            == 'S' ==> file_stem(seq![letter] + rest) == rest,
        !(letter == 'A' || letter == 'U' || letter == 'F' || letter == 'E' || letter == 'T'
            || letter == 'S') ==> file_stem(seq![letter] + rest) == seq![letter] + rest,
        header_patterns(seq![letter] + rest)[0] == file_stem(seq![letter] + rest) + ".h"@,
        header_patterns(seq![letter] + rest)[1] == file_stem(seq![letter] + rest) + ".hpp"@,
{
    assert((seq![letter] + rest).skip(1) =~= rest);
}

// ---------------------------------------------------------------------------
// Words and lines
// ---------------------------------------------------------------------------
/// The words of a text are its longest runs of identifier characters, in order.
pub proof fn law_tokens(w: Seq<char>, c: char, rest: Seq<char>)
    requires
        forall|i: int| 0 <= i < w.len() ==> word_char(#[trigger] w[i]),
        !word_char(c),
    ensures
        token_list(Seq::<char>::empty()).len() == 0,
        w.len() > 0 ==> token_list(w) == seq![w],
        w.len() > 0 ==> token_list(w + seq![c] + rest) == seq![w] + token_list(rest),
        token_list(seq![c] + rest) == token_list(rest),
{
    let s = w + seq![c] + rest;
    lemma_token_run(s, w.len() as int, 0);
    assert(s.subrange(0, w.len() as int) =~= w);
    assert(s.skip(w.len() as int + 1) =~= rest);
    lemma_token_shift(s, rest, w.len() as int + 1, 0, 0);
    lemma_token_end(w, 0);
    assert(w.subrange(0, w.len() as int) =~= w);
    let t = seq![c] + rest;
    assert(t[0] == c);
    assert(t.skip(1) =~= rest);
    lemma_token_shift(t, rest, 1, 0, 0);
}

proof fn lemma_token_run(s: Seq<char>, at: int, from: int)
    requires
        0 <= from <= at < s.len(),
        !word_char(s[at]),
        forall|j: int| 0 <= j < at ==> word_char(#[trigger] s[j]),
    ensures
        at > 0 ==> tokens_from(s, 0, from) == seq![s.subrange(0, at)] + tokens_from(
            s,
            at + 1,
            at + 1,
        ),
    decreases at - from,
{
    if from < at {
        assert(word_char(s[from]));
        lemma_token_run(s, at, from + 1);
    }
}

proof fn lemma_token_end(s: Seq<char>, from: int)
    requires
        0 <= from <= s.len(),
        forall|j: int| 0 <= j < s.len() ==> word_char(#[trigger] s[j]),
    ensures
        s.len() > 0 ==> tokens_from(s, 0, from) == seq![s.subrange(0, s.len() as int)],
    decreases s.len() - from,
{
    if from < s.len() {
        assert(word_char(s[from]));
        lemma_token_end(s, from + 1);
    }
}

proof fn lemma_token_shift(s: Seq<char>, t: Seq<char>, k: int, start: int, from: int)
    requires
        0 <= k <= s.len(),
        t == s.skip(k),
        0 <= start <= from,
    ensures
        tokens_from(s, k + start, k + from) == tokens_from(t, start, from),
    decreases t.len() - from,
{
    if from < t.len() {
        assert(s[k + from] == t[from]);
        assert(s.subrange(k + start, k + from) =~= t.subrange(start, from));
        if word_char(t[from]) {
            lemma_token_shift(s, t, k, start, from + 1);
        } else {
            lemma_token_shift(s, t, k, from + 1, from + 1);
        }
    } else if start < t.len() {
        assert(s.subrange(k + start, s.len() as int) =~= t.subrange(start, t.len() as int));
    }
}

/// The word that a text ends with begins behind its last other character.
pub proof fn law_tail_word(a: Seq<char>, w: Seq<char>)
    requires
        a.len() > 0 ==> !word_char(a.last()),
        forall|i: int| 0 <= i < w.len() ==> word_char(#[trigger] w[i]),
    ensures
        w.len() > 0 ==> tail_word(a + w) == Some(w),
        tail_word(a) is None,
{
    let s = a + w;
    lemma_tail_start(s, a.len() as int, s.len() as int);
    assert(s.skip(a.len() as int) =~= w);
    lemma_tail_start(a, a.len() as int, a.len() as int);
}

proof fn lemma_tail_start(s: Seq<char>, k: int, end: int)
    requires
        0 <= k <= end <= s.len(),
        k > 0 ==> !word_char(s[k - 1]),
        forall|j: int| k <= j < end ==> word_char(#[trigger] s[j]),
    ensures
        word_start(s, end) == k,
    decreases end,
{
    if end > k {
        assert(word_char(s[end - 1]));
        lemma_tail_start(s, k, end - 1);
    }
}

/// A declaration is looked for on a line and the two lines behind it, without their
/// comments.
pub proof fn law_three_lines(ls: Seq<Seq<char>>, i: int)
    requires
        0 <= i < ls.len(),
    ensures
        i + 1 == ls.len() ==> three_lines(ls, i) == code_part(ls[i]),
        i + 2 == ls.len() ==> three_lines(ls, i) == code_part(ls[i]) + seq![' '] + code_part(
            ls[i + 1],
        ),
        i + 2 < ls.len() ==> three_lines(ls, i) == code_part(ls[i]) + seq![' '] + code_part(
            ls[i + 1],
        ) + seq![' '] + code_part(ls[i + 2]),
{
}

/// A type is declared by a keyword with its name behind it.
pub proof fn law_declares_type(ts: Seq<Seq<char>>, name: Seq<char>, i: int)
    requires
        0 <= i < ts.len(),
    ensures
        (ts[i] == "class"@ || ts[i] == "struct"@ || ts[i] == "enum"@) && declared_name(ts, i) == Some(
            name,
        ) ==> declares_from(ts, name, i),
        !((ts[i] == "class"@ || ts[i] == "struct"@ || ts[i] == "enum"@) && declared_name(ts, i)
            == Some(name)) ==> (declares_from(ts, name, i) <==> declares_from(ts, name, i + 1)),
        !declares_from(ts, name, ts.len() as int),
{
}

/// A bare announcement of a type is no declaration of it.
pub proof fn law_announcement(text: Seq<char>, name: Seq<char>)
    ensures
        head_end(text, 0) < text.len() && text[head_end(text, 0)] == ';' ==> !type_text(text, name),
        !(head_end(text, 0) < text.len() && text[head_end(text, 0)] == ';') ==> (type_text(text, name)
            <==> declares_from(token_list(text.take(head_end(text, 0))), name, 0)),
{
}

/// The name of each scope.
pub proof fn law_scope_text(s: ScopeView)
    ensures
        scope_text(None) == "unresolved"@,
        s is Local ==> scope_text(Some(s)) == "local"@,
        s is Member ==> scope_text(Some(s)) == "member"@,
{
}

/// A line of a file is shown without white space around it; lines count from one.
pub proof fn law_line_text(c: Seq<char>, line: usize)
    ensures
        line_text(None, line) is None,
        1 <= line <= lines(c).len() ==> line_text(Some(c), line) == Some(trim(lines(c)[line - 1])),
        line > lines(c).len() ==> line_text(Some(c), line) is None,
{
}

/// Two uses are the same where their file, their line and their column are.
pub proof fn law_same_place(a: UsageView, b: UsageView)
    ensures
        same_place(a, b) <==> slashed(a.path) == slashed(b.path) && a.line == b.line && a.col
            == b.col,
{
}

/// A file may use a symbol where it declares it, names a file that does, or is the
/// current one.
pub proof fn law_candidate(defs: Seq<i64>, users: Seq<i64>, current: Option<i64>, x: i64)
    ensures
        defs.contains(x) ==> is_candidate(defs, users, current, x),
        users.contains(x) ==> is_candidate(defs, users, current, x),
        current == Some(x) ==> is_candidate(defs, users, current, x),
        !defs.contains(x) && !users.contains(x) && current != Some(x) ==> !is_candidate(
            defs,
            users,
            current,
            x,
        ),
{
}

/// Of nodes that begin below the row nothing counts, of the others each declaration.
pub proof fn law_declared_above(ns: Seq<NodeView>, j: int, end: int, name: Seq<char>, row: int)
    requires
        0 <= j < end <= ns.len(),
    ensures
        ns[j].start_row > row ==> (declared_above(ns, j, end, name, row) <==> declared_above(
            ns,
            end_of(ns, j),
            end,
            name,
            row,
        )),
        ns[j].start_row <= row ==> (declared_above(ns, j, end, name, row) <==> declares_name(
            ns,
            j,
            name,
        ) || declared_above(ns, j + 1, end, name, row)),
        !declared_above(ns, end, end, name, row),
{
    lemma_end_from(ns, ns[j].depth, j + 1);
    reveal_with_fuel(declared_above, 2);
}

/// The name of each kind of use.
pub proof fn law_kind_text()
    ensures
        UsageKind::Declaration.text() == "declaration"@,
        UsageKind::Definition.text() == "definition"@,
        UsageKind::Call.text() == "call"@,
        UsageKind::Write.text() == "write"@,
        UsageKind::Read.text() == "read"@,
{
}

/// Batches follow each other, each with all its uses.
pub proof fn law_batches(batches: Seq<Vec<Usage>>, last: Vec<Usage>)
    ensures
        chained(Seq::<Vec<Usage>>::empty()).len() == 0,
        chained(batches.push(last)) == chained(batches) + views(last@),
{
    assert(batches.push(last).drop_last() =~= batches);
}

} // verus!
