//! Statements for the index: their texts, their parameters, and the patterns in
//! which a text of the user stands for itself.

use vstd::prelude::*;

use crate::db::project_path::PATH_CTE;
use crate::text::{chars_of, concat, join_strings, owned, push_str, string_of};
#[allow(unused_imports)]
use crate::text::{join, texts, views};

verus! {

/// A parameter of a statement.
#[derive(Debug, Clone)]
pub enum SqlParam {
    Text(String),
    Int(i64),
}

/// What a parameter says.
pub enum ParamView {
    Text(Seq<char>),
    Int(i64),
}

impl View for SqlParam {
    type V = ParamView;

    open spec fn view(&self) -> ParamView {
        match self {
            SqlParam::Text(s) => ParamView::Text(s@),
            SqlParam::Int(n) => ParamView::Int(*n),
        }
    }
}

/// A statement with its parameters.
#[derive(Debug, Clone)]
pub struct Statement {
    pub sql: String,
    pub params: Vec<SqlParam>,
}

/// What a statement says.
pub struct StatementView {
    pub sql: Seq<char>,
    pub params: Seq<ParamView>,
}

impl View for Statement {
    type V = StatementView;

    open spec fn view(&self) -> StatementView {
        StatementView { sql: self.sql@, params: views(self.params@) }
    }
}

/// What an optional statement says.
pub open spec fn opt_statement(s: Option<Statement>) -> Option<StatementView> {
    match s {
        Some(s) => Some(s@),
        None => None,
    }
}

/// The texts one after the other.
pub open spec fn chained(parts: Seq<Seq<char>>) -> Seq<char>
    decreases parts.len(),
{
    if parts.len() == 0 {
        seq![]
    } else {
        chained(parts.drop_last()) + parts.last()
    }
}

/// What a list of borrowed texts says.
pub open spec fn strs(v: Seq<&str>) -> Seq<Seq<char>> {
    v.map_values(|s: &str| s@)
}

/// The texts one after the other.
pub fn assemble(parts: &Vec<&str>) -> (r: String)
    ensures
        r@ == chained(strs(parts@)),
{
    let ghost all = strs(parts@);
    let mut out: Vec<char> = Vec::new();
    let mut i: usize = 0;
    assert(chained(all.take(0)) =~= out@);
    while i < parts.len()
        invariant
            i <= parts@.len(),
            all == strs(parts@),
            out@ == chained(all.take(i as int)),
        decreases parts.len() - i,
    {
        assert(all.take(i + 1).drop_last() =~= all.take(i as int));
        assert(all.take(i + 1).last() == parts@[i as int]@);
        push_str(&mut out, parts[i]);
        i = i + 1;
    }
    assert(all.take(all.len() as int) =~= all);
    string_of(out.as_slice())
}

/// A statement of the texts, with the parameters.
pub fn statement(parts: &Vec<&str>, params: Vec<SqlParam>) -> (r: Statement)
    ensures
        r@.sql == chained(strs(parts@)),
        r@.params == views(params@),
{
    Statement { sql: assemble(parts), params }
}

/// A statement that begins with the paths of the directories.
pub open spec fn on_paths(text: Seq<char>, params: Seq<ParamView>) -> StatementView {
    StatementView { sql: PATH_CTE@ + text, params }
}

/// A statement that begins with the paths of the directories.
pub fn path_statement(text: &str, params: Vec<SqlParam>) -> (r: Statement)
    ensures
        r@ == on_paths(text@, views(params@)),
{
    Statement { sql: concat(PATH_CTE, text), params }
}

/// A statement of its own.
pub fn plain_statement(text: &str, params: Vec<SqlParam>) -> (r: Statement)
    ensures
        r@ == (StatementView { sql: text@, params: views(params@) }),
{
    Statement { sql: owned(text), params }
}

/// The list without parameters.
pub fn no_params() -> (r: Vec<SqlParam>)
    ensures
        views(r@) == Seq::<ParamView>::empty(),
{
    let r: Vec<SqlParam> = Vec::new();
    assert(views(r@) =~= Seq::<ParamView>::empty());
    r
}

/// The list of one text.
pub fn one_text(s: &str) -> (r: Vec<SqlParam>)
    ensures
        views(r@) == seq![ParamView::Text(s@)],
{
    let r = vec![SqlParam::Text(owned(s))];
    assert(views(r@) =~= seq![ParamView::Text(s@)]);
    r
}

/// The list of one number.
pub fn one_int(n: i64) -> (r: Vec<SqlParam>)
    ensures
        views(r@) == seq![ParamView::Int(n)],
{
    let r = vec![SqlParam::Int(n)];
    assert(views(r@) =~= seq![ParamView::Int(n)]);
    r
}

/// The list of two texts.
pub fn two_texts(a: &str, b: &str) -> (r: Vec<SqlParam>)
    ensures
        views(r@) == seq![ParamView::Text(a@), ParamView::Text(b@)],
{
    let r = vec![SqlParam::Text(owned(a)), SqlParam::Text(owned(b))];
    assert(views(r@) =~= seq![ParamView::Text(a@), ParamView::Text(b@)]);
    r
}

/// The list of a text and a number.
pub fn text_and_int(s: &str, n: i64) -> (r: Vec<SqlParam>)
    ensures
        views(r@) == seq![ParamView::Text(s@), ParamView::Int(n)],
{
    let r = vec![SqlParam::Text(owned(s)), SqlParam::Int(n)];
    assert(views(r@) =~= seq![ParamView::Text(s@), ParamView::Int(n)]);
    r
}

/// The texts as parameters.
pub open spec fn text_params(ts: Seq<Seq<char>>) -> Seq<ParamView> {
    ts.map_values(|t: Seq<char>| ParamView::Text(t))
}

/// The texts as parameters.
pub fn params_of_texts(ts: &Vec<String>) -> (r: Vec<SqlParam>)
    ensures
        views(r@) == text_params(texts(ts@)),
{
    let ghost goal = text_params(texts(ts@));
    let mut out: Vec<SqlParam> = Vec::new();
    let mut i: usize = 0;
    assert(views(out@) =~= goal.take(0));
    while i < ts.len()
        invariant
            i <= ts@.len(),
            goal == text_params(texts(ts@)),
            views(out@) == goal.take(i as int),
        decreases ts.len() - i,
    {
        assert(texts(ts@)[i as int] == ts@[i as int]@);
        let ghost before = views(out@);
        let q = SqlParam::Text(ts[i].clone());
        out.push(q);
        assert(views(out@) =~= before.push(q@));
        assert(views(out@) =~= goal.take(i + 1));
        i = i + 1;
    }
    assert(goal.take(goal.len() as int) =~= goal);
    out
}

/// So many question marks with commas between them.
pub open spec fn marks(n: nat) -> Seq<char> {
    join(Seq::new(n, |i: int| "?"@), ","@)
}

/// So many question marks with commas between them.
pub fn repeat_placeholders(count: usize) -> (r: String)
    ensures
        r@ == marks(count as nat),
{
    let mut parts: Vec<String> = Vec::new();
    let mut i: usize = 0;
    while i < count
        invariant
            i <= count,
            texts(parts@) =~= Seq::new(i as nat, |j: int| "?"@),
        decreases count - i,
    {
        let ghost before = texts(parts@);
        parts.push(owned("?"));
        assert(texts(parts@) =~= before.push("?"@));
        i = i + 1;
    }
    join_strings(&parts, ",")
}

// ---------------------------------------------------------------------------
// Patterns
// ---------------------------------------------------------------------------
/// The character has a meaning of its own in a pattern.
pub open spec fn special(c: char) -> bool {
    c == '\\' || c == '%' || c == '_'
}

/// The text with a backslash before each special character.
pub open spec fn escaped(s: Seq<char>) -> Seq<char>
    decreases s.len(),
{
    if s.len() == 0 {
        s
    } else {
        let before = escaped(s.drop_last());
        if special(s.last()) {
            before + seq!['\\', s.last()]
        } else {
            before.push(s.last())
        }
    }
}

/// The text with a backslash before each special character.
pub fn escape_like(input: &str) -> (r: String)
    ensures
        r@ == escaped(input@),
{
    let v = chars_of(input);
    let mut out: Vec<char> = Vec::new();
    let mut i: usize = 0;
    assert(escaped(v@.take(0)) =~= out@);
    while i < v.len()
        invariant
            i <= v@.len(),
            out@ == escaped(v@.take(i as int)),
        decreases v.len() - i,
    {
        let ghost before = out@;
        assert(v@.take(i + 1).drop_last() =~= v@.take(i as int));
        if v[i] == '\\' || v[i] == '%' || v[i] == '_' {
            out.push('\\');
            out.push(v[i]);
            assert(out@ =~= before + seq!['\\', v@[i as int]]);
        } else {
            out.push(v[i]);
        }
        i = i + 1;
    }
    assert(v@.take(v@.len() as int) =~= v@);
    string_of(out.as_slice())
}

/// The text `t` fits the pattern `p`, in which `%` stands for anything, `_` for
/// one character, and a character behind a backslash for itself.
pub open spec fn fits(p: Seq<char>, t: Seq<char>) -> bool
    decreases p.len(), t.len(),
{
    if p.len() == 0 {
        t.len() == 0
    } else if p[0] == '%' {
        fits(p.skip(1), t) || (t.len() > 0 && fits(p, t.skip(1)))
    } else if p[0] == '\\' && p.len() > 1 {
        t.len() > 0 && t[0] == p[1] && fits(p.skip(2), t.skip(1))
    } else if p[0] == '_' {
        t.len() > 0 && fits(p.skip(1), t.skip(1))
    } else {
        t.len() > 0 && t[0] == p[0] && fits(p.skip(1), t.skip(1))
    }
}

/// The escape of a text is that of its first character and of the rest.
proof fn lemma_escaped_cons(s: Seq<char>)
    requires
        s.len() > 0,
    ensures
        escaped(s) == (if special(s[0]) {
            seq!['\\', s[0]]
        } else {
            seq![s[0]]
        }) + escaped(s.skip(1)),
    decreases s.len(),
{
    let first = if special(s[0]) {
        seq!['\\', s[0]]
    } else {
        seq![s[0]]
    };
    if s.len() == 1 {
        assert(escaped(s.drop_last()) =~= Seq::<char>::empty());
        assert(escaped(s.skip(1)) =~= Seq::<char>::empty());
        assert(escaped(s) =~= first + escaped(s.skip(1)));
    } else {
        lemma_escaped_cons(s.drop_last());
        assert(s.drop_last().skip(1) =~= s.skip(1).drop_last());
        assert(s.skip(1).last() == s.last());
        assert(escaped(s) =~= first + escaped(s.skip(1)));
    }
}

/// Behind an escaped text, a pattern fits what begins with that text and goes
/// on with what the rest of the pattern fits.
pub proof fn law_escaped_stands_for_itself(s: Seq<char>, rest: Seq<char>, t: Seq<char>)
    ensures
        fits(escaped(s) + rest, t) == (t.len() >= s.len() && t.take(s.len() as int) == s && fits(
            rest,
            t.skip(s.len() as int),
        )),
    decreases s.len(),
{
    let p = escaped(s) + rest;
    if s.len() == 0 {
        assert(p =~= rest);
        assert(t.skip(0) =~= t);
        assert(t.take(0) =~= s);
    } else {
        lemma_escaped_cons(s);
        let tail = s.skip(1);
        if special(s[0]) {
            assert(p.skip(2) =~= escaped(tail) + rest);
            assert(p[0] == '\\' && p[1] == s[0] && p.len() > 1);
        } else {
            assert(p.skip(1) =~= escaped(tail) + rest);
            assert(p[0] == s[0]);
        }
        if t.len() > 0 {
            law_escaped_stands_for_itself(tail, rest, t.skip(1));
            let u = t.skip(1);
            if t[0] == s[0] && u.len() >= tail.len() {
                assert(t.skip(s.len() as int) =~= u.skip(tail.len() as int));
                if u.take(tail.len() as int) == tail {
                    assert forall|i: int| 0 <= i < s.len() implies t.take(s.len() as int)[i]
                        == s[i] by {
                        if i > 0 {
                            assert(u.take(tail.len() as int)[i - 1] == tail[i - 1]);
                        }
                    }
                    assert(t.take(s.len() as int) =~= s);
                }
                if t.take(s.len() as int) == s {
                    assert(u.take(tail.len() as int) =~= tail) by {
                        assert forall|i: int| 0 <= i < tail.len() implies u.take(
                            tail.len() as int,
                        )[i] == tail[i] by {
                            assert(t.take(s.len() as int)[i + 1] == s[i + 1]);
                        }
                    }
                }
            } else if t.len() >= s.len() && t.take(s.len() as int) == s {
                assert(t.take(s.len() as int)[0] == s[0]);
            }
        }
    }
}

/// The pattern of what holds a text.
pub open spec fn holding(s: Seq<char>) -> Seq<char> {
    "%"@ + escaped(s) + "%"@
}

/// The pattern of what holds a text.
pub fn like_contains_pattern(input: &str) -> (r: String)
    ensures
        r@ == holding(input@),
{
    let e = escape_like(input);
    let s = concat("%", e.as_str());
    concat(s.as_str(), "%")
}

/// The pattern of what begins with a text.
pub open spec fn beginning(s: Seq<char>) -> Seq<char> {
    escaped(s) + "%"@
}

/// The pattern of what begins with a text.
pub fn like_prefix_pattern(input: &str) -> (r: String)
    ensures
        r@ == beginning(input@),
{
    let e = escape_like(input);
    concat(e.as_str(), "%")
}

/// Anything fits a single `%`.
proof fn lemma_any_fits(t: Seq<char>)
    ensures
        fits("%"@, t),
    decreases t.len(),
{
    reveal_strlit("%");
    assert("%"@.skip(1) =~= Seq::<char>::empty());
    if t.len() > 0 {
        lemma_any_fits(t.skip(1));
    } else {
        assert(fits(Seq::<char>::empty(), t));
    }
}

/// The pattern of what begins with a text fits exactly that.
pub proof fn law_beginning_fits(s: Seq<char>, t: Seq<char>)
    ensures
        fits(beginning(s), t) == (t.len() >= s.len() && t.take(s.len() as int) == s),
{
    law_escaped_stands_for_itself(s, "%"@, t);
    if t.len() >= s.len() {
        lemma_any_fits(t.skip(s.len() as int));
    }
}

/// The pattern of what holds a text fits exactly that.
pub proof fn law_holding_fits(s: Seq<char>, t: Seq<char>)
    ensures
        fits(holding(s), t) == (exists|i: int|
            0 <= i && i + s.len() <= t.len() && #[trigger] t.subrange(i, i + s.len()) == s),
    decreases t.len(),
{
    reveal_strlit("%");
    let p = holding(s);
    assert(p[0] == '%');
    assert(p.skip(1) =~= beginning(s));
    law_beginning_fits(s, t);
    let here = fits(beginning(s), t);
    if here {
        assert(t.subrange(0, 0int + s.len()) =~= t.take(s.len() as int));
    }
    if t.len() > 0 {
        let u = t.skip(1);
        law_holding_fits(s, u);
        if fits(p, u) {
            let i = choose|i: int|
                0 <= i && i + s.len() <= u.len() && #[trigger] u.subrange(i, i + s.len()) == s;
            assert(t.subrange(i + 1, i + 1 + s.len()) =~= u.subrange(i, i + s.len()));
        }
    }
    if exists|i: int| 0 <= i && i + s.len() <= t.len() && #[trigger] t.subrange(i, i + s.len()) == s {
        let i = choose|i: int|
            0 <= i && i + s.len() <= t.len() && #[trigger] t.subrange(i, i + s.len()) == s;
        if i == 0 {
            assert(t.take(s.len() as int) =~= t.subrange(0, 0int + s.len()));
        } else {
            let u = t.skip(1);
            assert(u.subrange(i - 1, i - 1 + s.len()) =~= t.subrange(i, i + s.len()));
        }
    }
}

/// The number, moved into the range.
pub open spec fn clamped(n: int, low: int, high: int) -> int {
    if n < low {
        low
    } else if n > high {
        high
    } else {
        n
    }
}

/// The number, moved into the range.
pub fn clamp_limit(n: usize, low: u32, high: u32) -> (r: i64)
    requires
        low <= high,
    ensures
        r == clamped(n as int, low as int, high as int),
        low <= r <= high,
{
    if n < low as usize {
        low as i64
    } else if n > high as usize {
        high as i64
    } else {
        n as i64
    }
}

// ---------------------------------------------------------------------------
// Batches
// ---------------------------------------------------------------------------
/// Items that wait until a batch is full.
pub struct Batcher<T> {
    pub waiting: Vec<T>,
    pub total: u64,
}

impl<T> Batcher<T> {
    /// Nothing waits.
    pub fn start() -> (r: Self)
        ensures
            r.waiting@ == Seq::<T>::empty(),
            r.total == 0,
    {
        Batcher { waiting: Vec::new(), total: 0 }
    }

    /// Adds an item, and hands the batch out if it is full.
    pub fn add(&mut self, item: T, size: usize) -> (r: Option<Vec<T>>)
        requires
            old(self).total < u64::MAX,
        ensures
            final(self).total == old(self).total + 1,
            match r {
                Some(b) => b@ == old(self).waiting@.push(item) && b@.len() >= size
                    && final(self).waiting@ == Seq::<T>::empty(),
                None => final(self).waiting@ == old(self).waiting@.push(item)
                    && final(self).waiting@.len() < size,
            },
    {
        self.total = self.total + 1;
        self.waiting.push(item);
        if self.waiting.len() >= size {
            let mut full: Vec<T> = Vec::new();
            full.append(&mut self.waiting);
            assert(full@ =~= old(self).waiting@.push(item));
            assert(self.waiting@ =~= Seq::<T>::empty());
            Some(full)
        } else {
            None
        }
    }
}

} // verus!
