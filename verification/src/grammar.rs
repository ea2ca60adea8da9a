//! Syntax trees of C# and JSON files, as tree-sitter builds them.

use streaming_iterator::StreamingIterator;
use vstd::prelude::*;
use vstd::slice::slice_subrange;

#[allow(unused_imports)]
use crate::edit::{target::TARGET_QUERY, uproject::MODULES_QUERY};
use crate::text::{char_at_byte, string_of};
#[allow(unused_imports)]
use crate::text::{at_byte, views};

verus! {

/// The view of a node that a query captured: the name of the capture, and the
/// bytes of the source between which the node stands.
pub open spec fn span_view(c: (String, usize, usize)) -> (Seq<char>, int, int) {
    (c.0@, c.1 as int, c.2 as int)
}

/// The views of the captures of one match.
pub open spec fn spans_view(c: Seq<(String, usize, usize)>) -> Seq<(Seq<char>, int, int)> {
    c.map_values(|x: (String, usize, usize)| span_view(x))
}

/// The views of the captures of a sequence of matches.
pub open spec fn matches_view(m: Seq<Vec<(String, usize, usize)>>) -> Seq<
    Seq<(Seq<char>, int, int)>,
> {
    m.map_values(|c: Vec<(String, usize, usize)>| spans_view(c@))
}

/// The matches of a query in the tree of a C# source, in the order in which
/// they are found: for each the captures, with the name and the bytes between
/// which the node stands. `None` where the query is not valid or no tree can
/// be built.
pub uninterp spec fn csharp_matches(query: Seq<char>, source: Seq<char>) -> Option<
    Seq<Seq<(Seq<char>, int, int)>>,
>;

/// The matches of a query in the tree of a JSON source, in the order in which
/// they are found: for each the captures, with the name and the bytes between
/// which the node stands. `None` where the query is not valid or no tree can
/// be built.
pub uninterp spec fn json_matches(query: Seq<char>, source: Seq<char>) -> Option<
    Seq<Seq<(Seq<char>, int, int)>>,
>;

/// `tree_sitter::QueryCursor::matches` over the tree that
/// `tree_sitter::Parser::parse` builds of the source with the C# grammar. The
/// result depends on the query and the source alone. Only the one query is asked:
/// the parser of queries recurses into brackets without a limit.
#[verifier::external_body]
pub(crate) fn query_csharp(query: &str, source: &str) -> (r: Option<
    Vec<Vec<(String, usize, usize)>>,
>)
    requires
        query@ == TARGET_QUERY@,
    ensures
        match r {
            Some(m) => csharp_matches(query@, source@) == Some(matches_view(m@)),
            None => csharp_matches(query@, source@) is None,
        },
{
    let language: tree_sitter::Language = tree_sitter_c_sharp::LANGUAGE.into();
    let mut parser = tree_sitter::Parser::new();
    parser.set_language(&language).ok()?;
    let tree = parser.parse(source, None)?;
    let query = tree_sitter::Query::new(&language, query).ok()?;
    let name = |i: u32| query.capture_names()[i as usize].to_string();
    let mut cursor = tree_sitter::QueryCursor::new();
    let found = cursor.matches(&query, tree.root_node(), source.as_bytes());
    let span = |c: &tree_sitter::QueryCapture| (name(c.index), c.node.start_byte(), c.node.end_byte());
    Some(found.map_deref(|m| m.captures.iter().map(span).collect()).collect())
}

/// `tree_sitter::QueryCursor::matches` over the tree that
/// `tree_sitter::Parser::parse` builds of the source with the JSON grammar.
/// The result depends on the query and the source alone. Only the one query is
/// asked: the parser of queries recurses into brackets without a limit.
#[verifier::external_body]
pub(crate) fn query_json(query: &str, source: &str) -> (r: Option<
    Vec<Vec<(String, usize, usize)>>,
>)
    requires
        query@ == MODULES_QUERY@,
    ensures
        match r {
            Some(m) => json_matches(query@, source@) == Some(matches_view(m@)),
            None => json_matches(query@, source@) is None,
        },
{
    let language: tree_sitter::Language = tree_sitter_json::LANGUAGE.into();
    let mut parser = tree_sitter::Parser::new();
    parser.set_language(&language).ok()?;
    let tree = parser.parse(source, None)?;
    let query = tree_sitter::Query::new(&language, query).ok()?;
    let name = |i: u32| query.capture_names()[i as usize].to_string();
    let mut cursor = tree_sitter::QueryCursor::new();
    let found = cursor.matches(&query, tree.root_node(), source.as_bytes());
    let span = |c: &tree_sitter::QueryCapture| (name(c.index), c.node.start_byte(), c.node.end_byte());
    Some(found.map_deref(|m| m.captures.iter().map(span).collect()).collect())
}

/// The children of the root of the tree of a JSON source and the children of
/// the first of them: for each the kind, and the byte at which it ends.
/// `None` where no tree can be built.
pub uninterp spec fn json_top(source: Seq<char>) -> Option<
    (Seq<(Seq<char>, int)>, Seq<(Seq<char>, int)>),
>;

/// The views of nodes given by their kind and end.
pub open spec fn kinds_view(c: Seq<(String, usize)>) -> Seq<(Seq<char>, int)> {
    c.map_values(|x: (String, usize)| (x.0@, x.1 as int))
}

/// `tree_sitter::Node::children` of the root of the tree that
/// `tree_sitter::Parser::parse` builds of the source with the JSON grammar,
/// and of the root's first child. The result depends on the source alone.
#[verifier::external_body]
pub(crate) fn top_of_json(source: &str) -> (r: Option<(Vec<(String, usize)>, Vec<(String, usize)>)>)
    ensures
        match r {
            Some(t) => json_top(source@) == Some((kinds_view(t.0@), kinds_view(t.1@))),
            None => json_top(source@) is None,
        },
{
    let language: tree_sitter::Language = tree_sitter_json::LANGUAGE.into();
    let mut parser = tree_sitter::Parser::new();
    parser.set_language(&language).ok()?;
    let tree = parser.parse(source, None)?;
    let kind = |n: tree_sitter::Node| (n.kind().to_string(), n.end_byte());
    let top = tree.root_node().children(&mut tree.walk()).map(kind).collect();
    let first = tree.root_node().child(0);
    let inner = first.map(|n| n.children(&mut n.walk()).map(kind).collect()).unwrap_or_default();
    Some((top, inner))
}

// ---------------------------------------------------------------------------
// Places in a source
// ---------------------------------------------------------------------------
/// A captured node: the name of the capture, the text of the node, the row on
/// which it starts, the row and the column at which it ends, and the blanks
/// and tabs before it at the start of its line.
pub struct Capture {
    pub name: String,
    pub text: String,
    pub start_row: usize,
    pub end_row: usize,
    pub end_column: usize,
    pub indent: String,
}

/// What a captured node says.
pub struct CaptureView {
    pub name: Seq<char>,
    pub text: Seq<char>,
    pub start_row: int,
    pub end_row: int,
    pub end_column: int,
    pub indent: Seq<char>,
}

impl View for Capture {
    type V = CaptureView;

    open spec fn view(&self) -> CaptureView {
        CaptureView {
            name: self.name@,
            text: self.text@,
            start_row: self.start_row as int,
            end_row: self.end_row as int,
            end_column: self.end_column as int,
            indent: self.indent@,
        }
    }
}

/// The position of byte `n`, or the end where no character begins there.
pub open spec fn place(s: Seq<char>, n: int) -> int {
    match at_byte(s, n) {
        Some(i) => i,
        None => s.len() as int,
    }
}

/// The position after the last line feed before `i`.
pub open spec fn line_start(s: Seq<char>, i: int) -> int
    decreases i,
{
    if i <= 0 {
        0
    } else if s[i - 1] == '\n' {
        i
    } else {
        line_start(s, i - 1)
    }
}

/// The number of line feeds before `i`.
pub open spec fn row_at(s: Seq<char>, i: int) -> nat
    decreases i,
{
    if i <= 0 {
        0
    } else {
        row_at(s, i - 1) + (if s[i - 1] == '\n' {
            1nat
        } else {
            0nat
        })
    }
}

/// The position of the first character at or after `i`, before `end`, that is
/// neither blank nor tab.
pub open spec fn blanks_end(s: Seq<char>, i: int, end: int) -> int
    decreases end - i,
{
    if i < end && (s[i] == ' ' || s[i] == '\t') {
        blanks_end(s, i + 1, end)
    } else {
        i
    }
}

/// The blanks and tabs at the start of the line on which position `i` lies,
/// before it.
pub open spec fn indent_before(s: Seq<char>, i: int) -> Seq<char> {
    s.subrange(line_start(s, i), blanks_end(s, line_start(s, i), i))
}

/// The node that a capture stands for.
pub open spec fn capture_at(s: Seq<char>, c: (Seq<char>, int, int)) -> CaptureView {
    let from = place(s, c.1);
    let to = place(s, c.2);
    CaptureView {
        name: c.0,
        text: if from <= to {
            s.subrange(from, to)
        } else {
            seq![]
        },
        start_row: row_at(s, from) as int,
        end_row: row_at(s, to) as int,
        end_column: to - line_start(s, to),
        indent: indent_before(s, from),
    }
}

/// The nodes that the captures of one match stand for.
pub open spec fn captures_at(s: Seq<char>, m: Seq<(Seq<char>, int, int)>) -> Seq<CaptureView> {
    m.map_values(|c: (Seq<char>, int, int)| capture_at(s, c))
}

/// The line start is not after the position.
pub proof fn lemma_line_start(s: Seq<char>, i: int)
    requires
        0 <= i <= s.len(),
    ensures
        0 <= line_start(s, i) <= i,
    decreases i,
{
    if i > 0 && s[i - 1] != '\n' {
        lemma_line_start(s, i - 1);
    }
}

/// There are no more rows than characters.
pub proof fn lemma_row_at(s: Seq<char>, i: int)
    requires
        0 <= i <= s.len(),
    ensures
        row_at(s, i) <= i,
    decreases i,
{
    if i > 0 {
        lemma_row_at(s, i - 1);
    }
}

/// The position of byte `n`, or the end.
pub fn place_of(s: &[char], n: usize) -> (r: usize)
    ensures
        r == place(s@, n as int),
        r <= s@.len(),
{
    match char_at_byte(s, n) {
        Some(i) => i,
        None => s.len(),
    }
}

/// The position after the last line feed before `i`.
pub fn line_start_of(s: &[char], i: usize) -> (r: usize)
    requires
        i <= s@.len(),
    ensures
        r == line_start(s@, i as int),
        r <= i,
{
    let mut k: usize = i;
    while k > 0 && s[k - 1] != '\n'
        invariant
            k <= i <= s@.len(),
            line_start(s@, i as int) == line_start(s@, k as int),
        decreases k,
    {
        k = k - 1;
    }
    k
}

/// The number of line feeds before `i`.
pub fn row_of(s: &[char], i: usize) -> (r: usize)
    requires
        i <= s@.len(),
    ensures
        r == row_at(s@, i as int),
        r <= i,
{
    let mut k: usize = 0;
    let mut r: usize = 0;
    while k < i
        invariant
            k <= i <= s@.len(),
            r == row_at(s@, k as int),
            r <= k,
        decreases i - k,
    {
        if s[k] == '\n' {
            r = r + 1;
        }
        k = k + 1;
    }
    r
}

/// The blanks and tabs at the start of the line on which position `i` lies.
fn indent_before_node(s: &[char], i: usize) -> (r: String)
    requires
        i <= s@.len(),
    ensures
        r@ == indent_before(s@, i as int),
{
    let start: usize = line_start_of(s, i);
    let mut k: usize = start;
    while k < i && (s[k] == ' ' || s[k] == '\t')
        invariant
            start <= k <= i <= s@.len(),
            blanks_end(s@, start as int, i as int) == blanks_end(s@, k as int, i as int),
        decreases i - k,
    {
        k = k + 1;
    }
    string_of(slice_subrange(s, start, k))
}

/// The node that a capture stands for.
fn locate(s: &[char], c: &(String, usize, usize)) -> (r: Capture)
    ensures
        r@ == capture_at(s@, span_view(*c)),
{
    let from: usize = place_of(s, c.1);
    let to: usize = place_of(s, c.2);
    let text = if from <= to {
        string_of(slice_subrange(s, from, to))
    } else {
        String::new()
    };
    let start: usize = line_start_of(s, to);
    Capture {
        name: c.0.clone(),
        text,
        start_row: row_of(s, from),
        end_row: row_of(s, to),
        end_column: to - start,
        indent: indent_before_node(s, from),
    }
}

/// The nodes that the captures of one match stand for.
pub fn locate_all(s: &[char], m: &Vec<(String, usize, usize)>) -> (r: Vec<Capture>)
    ensures
        views(r@) == captures_at(s@, spans_view(m@)),
{
    let mut r: Vec<Capture> = Vec::new();
    let mut i: usize = 0;
    while i < m.len()
        invariant
            i <= m@.len(),
            r@.len() == i,
            forall|j: int|
                0 <= j < i ==> (#[trigger] r@[j])@ == capture_at(s@, span_view(m@[j])),
        decreases m.len() - i,
    {
        r.push(locate(s, &m[i]));
        i = i + 1;
    }
    assert(views(r@) =~= captures_at(s@, spans_view(m@)));
    r
}

} // verus!
