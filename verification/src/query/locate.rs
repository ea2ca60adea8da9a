//! Names in source lines: where a symbol stands, and where a type is declared.

use vstd::prelude::*;
use vstd::slice::slice_subrange;

use crate::text::{byte_count, chars_of, ends_with_str, find_str, is_str, is_word_char, matches_at,
    push_all, replace_char, replace_str, same, split_lines, string_of, to_lower, to_vec};
#[allow(unused_imports)]
use crate::text::{byte_len, contains, ends, find, lines, lower, occurs_at, replace_all, rows,
    swap_char, word_char};

verus! {

/// The path with slashes only, pairs of them made single in one pass.
pub open spec fn slashed(s: Seq<char>) -> Seq<char> {
    replace_all(swap_char(s, '\\', '/'), "//"@, "/"@)
}

/// The path with slashes only, pairs of them made single in one pass.
pub fn normalize_path(path: &str) -> (r: String)
    ensures
        r@ == slashed(path@),
{
    proof {
        reveal_strlit("//");
    }
    let v = chars_of(path);
    let v = replace_char(v.as_slice(), '\\', '/');
    let v = replace_str(v.as_slice(), "//", "/");
    string_of(v.as_slice())
}

// ---------------------------------------------------------------------------
// Symbols
// ---------------------------------------------------------------------------
/// `p` stands at `i` as a word of its own.
pub open spec fn word_at(s: Seq<char>, p: Seq<char>, i: int) -> bool {
    &&& occurs_at(s, p, i)
    &&& (i == 0 || !word_char(s[i - 1]))
    &&& (i + p.len() >= s.len() || !word_char(s[i + p.len()]))
}

/// The first position at or after `from` at which `p` stands as a word of its
/// own.
pub open spec fn word_from(s: Seq<char>, p: Seq<char>, from: int) -> Option<int>
    decreases s.len() + 1 - from,
{
    if from < 0 || from + p.len() > s.len() {
        None
    } else if word_at(s, p, from) {
        Some(from)
    } else {
        word_from(s, p, from + 1)
    }
}

/// What `word_from` promises: the first such position, or none at all.
pub proof fn lemma_word_from(s: Seq<char>, p: Seq<char>, from: int)
    requires
        0 <= from,
    ensures
        match word_from(s, p, from) {
            Some(i) => from <= i && word_at(s, p, i) && forall|j: int|
                from <= j < i ==> !#[trigger] word_at(s, p, j),
            None => forall|j: int| from <= j ==> !#[trigger] word_at(s, p, j),
        },
    decreases s.len() + 1 - from,
{
    if from + p.len() <= s.len() && !word_at(s, p, from) {
        lemma_word_from(s, p, from + 1);
    }
}

/// The first position at or after `from` at which `p` stands as a word of its
/// own.
pub fn find_word(s: &[char], p: &[char], from: usize) -> (r: Option<usize>)
    ensures
        match r {
            Some(i) => word_from(s@, p@, from as int) == Some(i as int) && from <= i && i + p@.len()
                <= s.len(),
            None => word_from(s@, p@, from as int) is None,
        },
{
    let mut i: usize = from;
    while i <= s.len() && p.len() <= s.len() - i
        invariant
            from <= i,
            i <= s.len() || i == from,
            word_from(s@, p@, from as int) == word_from(s@, p@, i as int),
        decreases s.len() - i,
    {
        if matches_at(s, p, i) && (i == 0 || !is_word_char(s[i - 1])) && (i + p.len() >= s.len()
            || !is_word_char(s[i + p.len()])) {
            return Some(i);
        }
        if i == s.len() {
            assert(word_from(s@, p@, i + 1) is None);
            return None;
        }
        i = i + 1;
    }
    None
}

/// The column of a position, in bytes.
pub open spec fn byte_column(s: Seq<char>, i: int) -> usize {
    byte_len(s.take(i)) as usize
}

/// The column of a position, in bytes.
pub fn column_of(s: &[char], i: usize) -> (r: usize)
    requires
        i <= s@.len(),
    ensures
        r == byte_column(s@, i as int),
{
    assert(s@.subrange(0, i as int) =~= s@.take(i as int));
    let n: u128 = byte_count(slice_subrange(s, 0, i));
    #[verifier::truncate]
    (n as usize)
}

/// The first of the lines from `i` up to `end` on which the symbol stands, by
/// its number and column.
pub open spec fn symbol_from(ls: Seq<Seq<char>>, p: Seq<char>, i: int, end: int) -> Option<
    (int, usize),
>
    decreases end - i,
{
    if i >= end {
        None
    } else {
        match word_from(ls[i], p, 0) {
            Some(k) => Some((i + 1, byte_column(ls[i], k))),
            None => symbol_from(ls, p, i + 1, end),
        }
    }
}

/// The first line on which the symbol stands, of the given one (counted from
/// one) and the eight after it.
pub open spec fn symbol_near(ls: Seq<Seq<char>>, p: Seq<char>, line: int) -> Option<(int, usize)> {
    if ls.len() == 0 {
        None
    } else {
        let wanted = if line <= 0 {
            0
        } else {
            line - 1
        };
        let start = if wanted < ls.len() {
            wanted
        } else {
            ls.len() - 1
        };
        let end = if start + 9 < ls.len() {
            start + 9
        } else {
            ls.len() as int
        };
        symbol_from(ls, p, start, end)
    }
}

/// The first line near the given one on which the symbol stands.
pub fn find_symbol_location_near(content: &str, symbol_name: &str, start_line: usize) -> (r: Option<
    (usize, usize),
>)
    ensures
        match r {
            Some((l, c)) => symbol_near(lines(content@), symbol_name@, start_line as int) == Some(
                (l as int, c),
            ),
            None => symbol_near(lines(content@), symbol_name@, start_line as int) is None,
        },
{
    let text = chars_of(content);
    let ls = split_lines(text.as_slice());
    let p = chars_of(symbol_name);
    let ghost all = lines(content@);
    let n: usize = ls.len();
    assert(all.len() == n);
    if n == 0 {
        return None;
    }
    let wanted: usize = if start_line == 0 {
        0
    } else {
        start_line - 1
    };
    let start: usize = if wanted < n {
        wanted
    } else {
        n - 1
    };
    let end: usize = if n - start > 9 {
        start + 9
    } else {
        n
    };
    let mut i: usize = start;
    while i < end
        invariant
            start <= i <= end,
            end <= n,
            n == ls@.len(),
            rows(ls@) == all,
            all == lines(content@),
            p@ == symbol_name@,
            symbol_near(all, symbol_name@, start_line as int) == symbol_from(
                all,
                symbol_name@,
                i as int,
                end as int,
            ),
        decreases end - i,
    {
        let line = ls[i].as_slice();
        assert(all[i as int] == line@);
        match find_word(line, p.as_slice(), 0) {
            Some(k) => {
                return Some((i + 1, column_of(line, k)));
            },
            None => {},
        }
        i = i + 1;
    }
    None
}

// ---------------------------------------------------------------------------
// Type declarations
// ---------------------------------------------------------------------------
/// The line up to its comment.
pub open spec fn code_part(line: Seq<char>) -> Seq<char> {
    match find(line, "//"@) {
        Some(i) => line.take(i),
        None => line,
    }
}

/// The line up to its comment.
pub fn strip_line_comment(line: &[char]) -> (r: &[char])
    ensures
        r@ == code_part(line@),
{
    match find_str(line, "//") {
        Some(i) => {
            assert(line@.subrange(0, i as int) =~= line@.take(i as int));
            slice_subrange(line, 0, i)
        },
        None => line,
    }
}

/// The words of `s[from..]` made of identifier characters; the open word has
/// begun at `start`.
pub open spec fn tokens_from(s: Seq<char>, start: int, from: int) -> Seq<Seq<char>>
    decreases s.len() - from,
{
    if from >= s.len() {
        if start < s.len() {
            seq![s.subrange(start, s.len() as int)]
        } else {
            seq![]
        }
    } else if !word_char(s[from]) {
        if start < from {
            seq![s.subrange(start, from)] + tokens_from(s, from + 1, from + 1)
        } else {
            tokens_from(s, from + 1, from + 1)
        }
    } else {
        tokens_from(s, start, from + 1)
    }
}

/// The words of a text made of identifier characters.
pub open spec fn token_list(s: Seq<char>) -> Seq<Seq<char>> {
    tokens_from(s, 0, 0)
}

/// The words of a text made of identifier characters.
pub fn tokens(s: &[char]) -> (r: Vec<Vec<char>>)
    ensures
        rows(r@) == token_list(s@),
{
    let mut out: Vec<Vec<char>> = Vec::new();
    let mut i: usize = 0;
    let mut start: usize = 0;
    assert(rows(out@) + token_list(s@) =~= token_list(s@));
    while i < s.len()
        invariant
            start <= i <= s@.len(),
            rows(out@) + tokens_from(s@, start as int, i as int) == token_list(s@),
        decreases s.len() - i,
    {
        if !is_word_char(s[i]) {
            if start < i {
                let ghost before = rows(out@);
                let ghost rest = tokens_from(s@, i + 1, i + 1);
                let piece = to_vec(slice_subrange(s, start, i));
                out.push(piece);
                assert(rows(out@) =~= before.push(piece@));
                assert(before + (seq![piece@] + rest) =~= rows(out@) + rest);
            }
            start = i + 1;
        }
        i = i + 1;
    }
    let ghost before = rows(out@);
    if start < s.len() {
        let piece = to_vec(slice_subrange(s, start, s.len()));
        out.push(piece);
        assert(rows(out@) =~= before + seq![piece@]);
    } else {
        assert(before + Seq::<Seq<char>>::empty() =~= before);
    }
    out
}

/// The keywords that declare a type.
pub open spec fn type_keyword(t: Seq<char>) -> bool {
    t == "class"@ || t == "struct"@ || t == "enum"@
}

/// Whether the word is a keyword that declares a type.
fn is_type_keyword(t: &[char]) -> (r: bool)
    ensures
        r == type_keyword(t@),
{
    is_str(t, "class") || is_str(t, "struct") || is_str(t, "enum")
}

/// The words that may stand between the keyword and the name.
pub open spec fn type_modifier(t: Seq<char>) -> bool {
    ||| ends(t, "_API"@)
    ||| t == "NO_API"@
    ||| t == "final"@
    ||| t == "abstract"@
    ||| t == "alignas"@
    ||| t == "__declspec"@
    ||| t == "dllexport"@
    ||| t == "dllimport"@
}

/// Whether the word may stand between the keyword and the name.
fn is_type_declaration_modifier(t: &[char]) -> (r: bool)
    ensures
        r == type_modifier(t@),
{
    ends_with_str(t, "_API") || is_str(t, "NO_API") || is_str(t, "final") || is_str(t, "abstract")
        || is_str(t, "alignas") || is_str(t, "__declspec") || is_str(t, "dllexport") || is_str(
        t,
        "dllimport",
    )
}

/// The first word from `i` on that is no modifier.
pub open spec fn first_name(ts: Seq<Seq<char>>, i: int) -> Option<Seq<char>>
    decreases ts.len() - i,
{
    if i < 0 || i >= ts.len() {
        None
    } else if !type_modifier(ts[i]) {
        Some(ts[i])
    } else {
        first_name(ts, i + 1)
    }
}

/// The name that the keyword at `k` declares.
pub open spec fn declared_name(ts: Seq<Seq<char>>, k: int) -> Option<Seq<char>> {
    let next = if ts[k] == "enum"@ && k + 1 < ts.len() && (ts[k + 1] == "class"@ || ts[k + 1]
        == "struct"@) {
        k + 2
    } else {
        k + 1
    };
    first_name(ts, next)
}

/// A keyword from `i` on declares the type.
pub open spec fn declares_from(ts: Seq<Seq<char>>, name: Seq<char>, i: int) -> bool
    decreases ts.len() - i,
{
    if i < 0 || i >= ts.len() {
        false
    } else {
        (type_keyword(ts[i]) && declared_name(ts, i) == Some(name)) || declares_from(ts, name, i + 1)
    }
}

/// The first position at or after `from` of `:`, `{` or `;`, or the end.
pub open spec fn head_end(s: Seq<char>, from: int) -> int
    decreases s.len() - from,
{
    if from < 0 || from >= s.len() {
        s.len() as int
    } else if s[from] == ':' || s[from] == '{' || s[from] == ';' {
        from
    } else {
        head_end(s, from + 1)
    }
}

/// The text declares or defines the type, other than by a bare announcement: that
/// ends with `;` before anything of the type is said.
pub open spec fn type_text(text: Seq<char>, name: Seq<char>) -> bool {
    let end = head_end(text, 0);
    &&& !(end < text.len() && text[end] == ';')
    &&& declares_from(token_list(text.take(end)), name, 0)
}

/// The name that the keyword at `k` declares is the given one.
fn declares_at(ts: &Vec<Vec<char>>, k: usize, name: &[char]) -> (r: bool)
    requires
        k < ts@.len(),
    ensures
        r == (declared_name(rows(ts@), k as int) == Some(name@)),
{
    let ghost all = rows(ts@);
    assert(all[k as int] == ts@[k as int]@);
    assert(k < ts.len());
    let mut i: usize = k + 1;
    if is_str(ts[k].as_slice(), "enum") && k + 1 < ts.len() {
        assert(all[k + 1] == ts@[k + 1]@);
        if is_str(ts[k + 1].as_slice(), "class") || is_str(ts[k + 1].as_slice(), "struct") {
            i = k + 2;
        }
    }
    while i < ts.len()
        invariant
            all == rows(ts@),
            declared_name(all, k as int) == first_name(all, i as int),
        decreases ts.len() - i,
    {
        assert(all[i as int] == ts@[i as int]@);
        if !is_type_declaration_modifier(ts[i].as_slice()) {
            return same(ts[i].as_slice(), name);
        }
        i = i + 1;
    }
    false
}

/// Whether the text declares or defines the type, other than by a bare
/// announcement.
pub fn is_type_declaration_text(text: &[char], name: &[char]) -> (r: bool)
    ensures
        r == type_text(text@, name@),
{
    let mut end: usize = 0;
    while end < text.len() && !(text[end] == ':' || text[end] == '{' || text[end] == ';')
        invariant
            end <= text@.len(),
            head_end(text@, 0) == head_end(text@, end as int),
        decreases text.len() - end,
    {
        end = end + 1;
    }
    if end < text.len() && text[end] == ';' {
        return false;
    }
    assert(text@.subrange(0, end as int) =~= text@.take(end as int));
    let ts = tokens(slice_subrange(text, 0, end));
    let ghost all = rows(ts@);
    let mut i: usize = 0;
    while i < ts.len()
        invariant
            i <= ts@.len(),
            all == rows(ts@),
            type_text(text@, name@) == declares_from(all, name@, i as int),
        decreases ts.len() - i,
    {
        assert(all[i as int] == ts@[i as int]@);
        if is_type_keyword(ts[i].as_slice()) && declares_at(&ts, i, name) {
            return true;
        }
        i = i + 1;
    }
    false
}

/// The line holds a keyword that declares a type.
pub open spec fn keyword_line(line: Seq<char>) -> bool {
    exists|i: int| 0 <= i < token_list(line).len() && type_keyword(#[trigger] token_list(line)[i])
}

/// Whether the line holds a keyword that declares a type.
pub fn has_type_keyword(line: &[char]) -> (r: bool)
    ensures
        r == keyword_line(line@),
{
    let ts = tokens(line);
    let mut i: usize = 0;
    while i < ts.len()
        invariant
            i <= ts@.len(),
            rows(ts@) == token_list(line@),
            forall|j: int| 0 <= j < i ==> !type_keyword(#[trigger] token_list(line@)[j]),
        decreases ts.len() - i,
    {
        assert(rows(ts@)[i as int] == ts@[i as int]@);
        if is_type_keyword(ts[i].as_slice()) {
            return true;
        }
        i = i + 1;
    }
    false
}

/// Line `i` without comments, and the two lines after it behind blanks.
pub open spec fn three_lines(ls: Seq<Seq<char>>, i: int) -> Seq<char> {
    let a = code_part(ls[i]);
    let b = if i + 1 < ls.len() {
        a + seq![' '] + code_part(ls[i + 1])
    } else {
        a
    };
    if i + 2 < ls.len() {
        b + seq![' '] + code_part(ls[i + 2])
    } else {
        b
    }
}

/// Line `i` declares the type, as far as it and the two lines after it show.
pub open spec fn declaration_line(ls: Seq<Seq<char>>, i: int, name: Seq<char>) -> bool {
    keyword_line(code_part(ls[i])) && type_text(three_lines(ls, i), name)
}

/// The first line from `i` on that declares the type, counted from one.
pub open spec fn declaration_from(ls: Seq<Seq<char>>, i: int, name: Seq<char>) -> Option<int>
    decreases ls.len() - i,
{
    if i < 0 || i >= ls.len() {
        None
    } else if declaration_line(ls, i, name) {
        Some(i + 1)
    } else {
        declaration_from(ls, i + 1, name)
    }
}

proof fn lemma_head_end(a: Seq<char>, b: Seq<char>, from: int)
    requires
        0 <= from,
        head_end(a, from) < a.len(),
    ensures
        from <= head_end(a, from),
        head_end(a + b, from) == head_end(a, from),
    decreases a.len() - from,
{
    assert((a + b)[from] == a[from]);
    if !(a[from] == ':' || a[from] == '{' || a[from] == ';') {
        lemma_head_end(a, b, from + 1);
    }
}

/// A line that only announces a type is skipped, whatever follows it.
pub proof fn law_announcement_is_skipped(ls: Seq<Seq<char>>, i: int, name: Seq<char>)
    requires
        0 <= i < ls.len(),
        ({
            let line = code_part(ls[i]);
            let end = head_end(line, 0);
            end < line.len() && line[end] == ';'
        }),
    ensures
        !declaration_line(ls, i, name),
{
    let line = code_part(ls[i]);
    let all = three_lines(ls, i);
    let rest = all.skip(line.len() as int);
    assert(all =~= line + rest);
    lemma_head_end(line, rest, 0);
    assert(all[head_end(line, 0)] == line[head_end(line, 0)]);
}

/// The first line of a file that declares the type, counted from one.
pub fn find_type_declaration_line(content: &str, symbol_name: &str) -> (r: Option<usize>)
    ensures
        match r {
            Some(l) => declaration_from(lines(content@), 0, symbol_name@) == Some(l as int),
            None => declaration_from(lines(content@), 0, symbol_name@) is None,
        },
{
    let text = chars_of(content);
    let ls = split_lines(text.as_slice());
    let name = chars_of(symbol_name);
    let ghost all = lines(content@);
    let mut i: usize = 0;
    while i < ls.len()
        invariant
            i <= ls@.len(),
            rows(ls@) == all,
            all == lines(content@),
            name@ == symbol_name@,
            declaration_from(all, 0, symbol_name@) == declaration_from(
                all,
                i as int,
                symbol_name@,
            ),
        decreases ls.len() - i,
    {
        assert(all[i as int] == ls@[i as int]@);
        let current = strip_line_comment(ls[i].as_slice());
        if has_type_keyword(current) {
            let mut window = to_vec(current);
            if ls.len() - i > 1 {
                assert(all[i + 1] == ls@[i + 1]@);
                let ghost before = window@;
                window.push(' ');
                push_all(&mut window, strip_line_comment(ls[i + 1].as_slice()));
                assert(window@ =~= before + seq![' '] + code_part(all[i + 1]));
            }
            if ls.len() - i > 2 {
                assert(all[i + 2] == ls@[i + 2]@);
                let ghost before = window@;
                window.push(' ');
                push_all(&mut window, strip_line_comment(ls[i + 2].as_slice()));
                assert(window@ =~= before + seq![' '] + code_part(all[i + 2]));
            }
            assert(window@ =~= three_lines(all, i as int));
            if is_type_declaration_text(window.as_slice(), name.as_slice()) {
                return Some(i + 1);
            }
        }
        i = i + 1;
    }
    None
}

// ---------------------------------------------------------------------------
// Files of types
// ---------------------------------------------------------------------------
/// The path is that of a header.
pub open spec fn header_name(path: Seq<char>) -> bool {
    ends(lower(path), ".h"@) || ends(lower(path), ".hpp"@) || ends(lower(path), ".hh"@)
}

/// Whether the path is that of a header.
pub fn is_header_file(path: &str) -> (r: bool)
    ensures
        r == header_name(path@),
{
    let v = chars_of(path);
    let l = to_lower(v.as_slice());
    ends_with_str(l.as_slice(), ".h") || ends_with_str(l.as_slice(), ".hpp") || ends_with_str(
        l.as_slice(),
        ".hh",
    )
}

/// The name of a type without the letter that marks its kind.
pub open spec fn file_stem(name: Seq<char>) -> Seq<char> {
    if name.len() >= 2 && (name[0] == 'A' || name[0] == 'U' || name[0] == 'F' || name[0] == 'E'
        || name[0] == 'T' || name[0] == 'S') && 'A' <= name[1] <= 'Z' {
        name.skip(1)
    } else {
        name
    }
}

/// The name of a type without the letter that marks its kind.
pub fn unreal_type_file_stem(symbol_name: &str) -> (r: String)
    ensures
        r@ == file_stem(symbol_name@),
{
    let v = chars_of(symbol_name);
    if v.len() >= 2 && (v[0] == 'A' || v[0] == 'U' || v[0] == 'F' || v[0] == 'E' || v[0] == 'T'
        || v[0] == 'S') && 'A' <= v[1] && v[1] <= 'Z' {
        assert(v@.subrange(1, v@.len() as int) =~= v@.skip(1));
        string_of(slice_subrange(v.as_slice(), 1, v.len()))
    } else {
        string_of(v.as_slice())
    }
}

/// The patterns by which the header of a type is looked up: two exact names,
/// then two that may have more on both sides.
pub open spec fn header_patterns(name: Seq<char>) -> Seq<Seq<char>> {
    let stem = file_stem(name);
    seq![stem + ".h"@, stem + ".hpp"@, "%"@ + stem + "%.h"@, "%"@ + stem + "%.hpp"@]
}

/// The patterns by which the header of a type is looked up.
pub fn header_lookup_patterns(symbol_name: &str) -> (r: Vec<String>)
    ensures
        crate::text::texts(r@) == header_patterns(symbol_name@),
{
    let stem = unreal_type_file_stem(symbol_name);
    let any = crate::text::concat("%", stem.as_str());
    let r = vec![
        crate::text::concat(stem.as_str(), ".h"),
        crate::text::concat(stem.as_str(), ".hpp"),
        crate::text::concat(any.as_str(), "%.h"),
        crate::text::concat(any.as_str(), "%.hpp"),
    ];
    assert(crate::text::texts(r@) =~= header_patterns(symbol_name@));
    r
}

} // verus!
