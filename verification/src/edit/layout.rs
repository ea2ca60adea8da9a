//! What the edits of all kinds of files share: lines, indentation, escapes.

use vstd::prelude::*;
use vstd::slice::slice_subrange;

use crate::text::{chars_of, has_str, join_rows, push_str, string_of, to_vec, trimmed};
#[allow(unused_imports)]
use crate::text::{contains, join, rows, trim};

verus! {

/// The line ends of a text: all of the Windows kind as soon as one is.
pub open spec fn newline_of(raw: Seq<char>) -> Seq<char> {
    if contains(raw, "\r\n"@) {
        "\r\n"@
    } else {
        "\n"@
    }
}

/// The line ends of a text.
pub fn detect_newline(raw: &[char]) -> (r: &'static str)
    ensures
        r@ == newline_of(raw@),
{
    if has_str(raw, "\r\n") {
        "\r\n"
    } else {
        "\n"
    }
}

/// The lines, each with the line end.
pub open spec fn joined(ls: Seq<Seq<char>>, newline: Seq<char>) -> Seq<char> {
    join(ls, newline) + newline
}

/// The lines, each with the line end.
pub fn join_lines(ls: &Vec<Vec<char>>, newline: &str) -> (r: String)
    ensures
        r@ == joined(rows(ls@), newline@),
{
    let mut out = join_rows(ls, newline);
    push_str(&mut out, newline);
    string_of(out.as_slice())
}

/// The number of blanks and tabs at the start of a line.
pub open spec fn blanks(s: Seq<char>) -> nat
    decreases s.len(),
{
    if s.len() > 0 && (s[0] == ' ' || s[0] == '\t') {
        1 + blanks(s.skip(1))
    } else {
        0
    }
}

/// The indentation of the first indented line at or after `from`.
pub open spec fn first_indent(ls: Seq<Seq<char>>, from: int) -> Option<Seq<char>>
    decreases ls.len() - from,
{
    if from < 0 || from >= ls.len() {
        None
    } else if blanks(ls[from]) > 0 {
        Some(ls[from].take(blanks(ls[from]) as int))
    } else {
        first_indent(ls, from + 1)
    }
}

/// The indentation of the first indented line.
pub fn infer_indent(ls: &Vec<Vec<char>>) -> (r: Option<Vec<char>>)
    ensures
        match r {
            Some(v) => first_indent(rows(ls@), 0) == Some(v@),
            None => first_indent(rows(ls@), 0) is None,
        },
{
    let mut i: usize = 0;
    while i < ls.len()
        invariant
            i <= ls@.len(),
            first_indent(rows(ls@), 0) == first_indent(rows(ls@), i as int),
        decreases ls.len() - i,
    {
        let line = ls[i].as_slice();
        assert(rows(ls@)[i as int] == line@);
        let mut k: usize = 0;
        assert(line@.skip(0) =~= line@);
        while k < line.len() && (line[k] == ' ' || line[k] == '\t')
            invariant
                k <= line@.len(),
                blanks(line@) == k + blanks(line@.skip(k as int)),
            decreases line.len() - k,
        {
            assert(line@.skip(k as int).skip(1) =~= line@.skip(k + 1));
            k = k + 1;
        }
        if k > 0 {
            assert(line@.subrange(0, k as int) =~= line@.take(k as int));
            return Some(to_vec(slice_subrange(line, 0, k)));
        }
        i = i + 1;
    }
    None
}

/// The unit of indentation of a file: that of its first indented line, else
/// four blanks.
pub open spec fn indent_unit(ls: Seq<Seq<char>>) -> Seq<char> {
    match first_indent(ls, 0) {
        Some(s) => s,
        None => "    "@,
    }
}

/// The unit of indentation of a file.
pub fn indent_unit_of(ls: &Vec<Vec<char>>) -> (r: Vec<char>)
    ensures
        r@ == indent_unit(rows(ls@)),
{
    match infer_indent(ls) {
        Some(v) => v,
        None => chars_of("    "),
    }
}

/// What stands for a character inside a quoted string.
pub open spec fn escape_char(c: char) -> Seq<char> {
    if c == '\\' {
        seq!['\\', '\\']
    } else if c == '"' {
        seq!['\\', '"']
    } else if c == '\n' {
        seq!['\\', 'n']
    } else if c == '\r' {
        seq!['\\', 'r']
    } else if c == '\t' {
        seq!['\\', 't']
    } else {
        seq![c]
    }
}

/// What stands for a text inside a quoted string.
pub open spec fn escaped(s: Seq<char>) -> Seq<char>
    decreases s.len(),
{
    if s.len() == 0 {
        seq![]
    } else {
        escaped(s.drop_last()) + escape_char(s.last())
    }
}

/// What stands for a text inside a quoted string.
pub fn escape(s: &str) -> (out: Vec<char>)
    ensures
        out@ == escaped(s@),
{
    let v = chars_of(s);
    let mut out: Vec<char> = Vec::new();
    let mut i: usize = 0;
    while i < v.len()
        invariant
            i <= v@.len(),
            v@ == s@,
            out@ == escaped(s@.take(i as int)),
        decreases v.len() - i,
    {
        let c = v[i];
        let ghost before = out@;
        if c == '\\' {
            out.push('\\');
            out.push('\\');
        } else if c == '"' {
            out.push('\\');
            out.push('"');
        } else if c == '\n' {
            out.push('\\');
            out.push('n');
        } else if c == '\r' {
            out.push('\\');
            out.push('r');
        } else if c == '\t' {
            out.push('\\');
            out.push('t');
        } else {
            out.push(c);
        }
        assert(out@ =~= before + escape_char(c));
        assert(s@.take(i + 1).drop_last() =~= s@.take(i as int));
        i = i + 1;
    }
    assert(s@.take(i as int) =~= s@);
    out
}

/// The character that an escape stands for.
pub open spec fn unescape_char(c: char) -> char {
    if c == 'n' {
        '\n'
    } else if c == 'r' {
        '\r'
    } else if c == 't' {
        '\t'
    } else {
        c
    }
}

/// The text that a quoted string stands for.
pub open spec fn unescaped(s: Seq<char>) -> Seq<char>
    decreases s.len(),
{
    if s.len() == 0 {
        seq![]
    } else if s[0] == '\\' && s.len() >= 2 {
        seq![unescape_char(s[1])] + unescaped(s.skip(2))
    } else {
        seq![s[0]] + unescaped(s.skip(1))
    }
}

/// A reader of the quoted string gets back the text that was escaped.
pub proof fn law_unescape_escape(s: Seq<char>)
    ensures
        unescaped(escaped(s)) == s,
    decreases s.len(),
{
    if s.len() > 0 {
        lemma_escaped_cons(s);
        let head = escape_char(s[0]);
        let tail = escaped(s.skip(1));
        law_unescape_escape(s.skip(1));
        if head.len() == 2 {
            assert((head + tail).skip(2) =~= tail);
        } else {
            assert((head + tail).skip(1) =~= tail);
        }
        assert(seq![s[0]] + s.skip(1) =~= s);
    }
}

proof fn lemma_escaped_cons(s: Seq<char>)
    requires
        s.len() > 0,
    ensures
        escaped(s) == escape_char(s[0]) + escaped(s.skip(1)),
    decreases s.len(),
{
    if s.len() == 1 {
        assert(s.drop_last().len() == 0);
        assert(s.skip(1).len() == 0);
        assert(escaped(s.drop_last()) =~= Seq::<char>::empty());
        assert(escaped(s.skip(1)) =~= Seq::<char>::empty());
        assert(escaped(s) =~= escape_char(s[0]) + escaped(s.skip(1)));
    } else {
        lemma_escaped_cons(s.drop_last());
        assert(s.drop_last().skip(1) =~= s.skip(1).drop_last());
        assert(s.skip(1).last() == s.last());
        assert(escaped(s) =~= escape_char(s[0]) + escaped(s.skip(1)));
    }
}

/// Different texts are escaped differently.
pub proof fn law_escape_injective(s: Seq<char>, t: Seq<char>)
    requires
        escaped(s) == escaped(t),
    ensures
        s == t,
{
    law_unescape_escape(s);
    law_unescape_escape(t);
}

/// Why a text cannot be written into a project file.
#[derive(Debug, Clone, Copy, PartialEq, Eq, Structural)]
pub enum FieldFault {
    Empty,
    Nul,
}

/// What is wrong with a text that is to be written into a project file.
pub open spec fn field_fault(s: Seq<char>) -> Option<FieldFault> {
    if trim(s).len() == 0 {
        Some(FieldFault::Empty)
    } else if s.contains('\0') {
        Some(FieldFault::Nul)
    } else {
        None
    }
}

/// What is wrong with a text that is to be written into a project file.
pub fn validate_field(s: &str) -> (r: Option<FieldFault>)
    ensures
        r == field_fault(s@),
{
    let v = chars_of(s);
    if trimmed(v.as_slice()).len() == 0 {
        return Some(FieldFault::Empty);
    }
    let mut i: usize = 0;
    while i < v.len()
        invariant
            i <= v@.len(),
            v@ == s@,
            trim(s@).len() > 0,
            forall|j: int| 0 <= j < i ==> s@[j] != '\0',
        decreases v.len() - i,
    {
        if v[i] == '\0' {
            return Some(FieldFault::Nul);
        }
        i = i + 1;
    }
    None
}

/// The list with other lines put in before position `at`.
pub open spec fn inserted(ls: Seq<Seq<char>>, at: int, new: Seq<Seq<char>>) -> Seq<Seq<char>> {
    ls.take(at) + new + ls.skip(at)
}

/// Puts other lines in before position `at`.
pub fn insert_lines(ls: &mut Vec<Vec<char>>, at: usize, new: Vec<Vec<char>>)
    requires
        at <= old(ls)@.len(),
    ensures
        rows(final(ls)@) == inserted(rows(old(ls)@), at as int, rows(new@)),
{
    let ghost all = rows(ls@);
    let mut out: Vec<Vec<char>> = Vec::new();
    let mut i: usize = 0;
    while i < at
        invariant
            i <= at <= ls@.len(),
            all == rows(ls@),
            *ls == *old(ls),
            rows(out@) == all.take(i as int),
        decreases at - i,
    {
        let ghost before = rows(out@);
        let line = to_vec(ls[i].as_slice());
        out.push(line);
        assert(rows(out@) =~= before.push(all[i as int]));
        assert(all.take(i + 1) =~= all.take(i as int).push(all[i as int]));
        i = i + 1;
    }
    let mut k: usize = 0;
    assert(rows(new@).take(0) =~= Seq::<Seq<char>>::empty());
    assert(all.take(at as int) + rows(new@).take(0) =~= all.take(at as int));
    while k < new.len()
        invariant
            k <= new@.len(),
            rows(out@) == all.take(at as int) + rows(new@).take(k as int),
        decreases new.len() - k,
    {
        let ghost before = rows(out@);
        let line = to_vec(new[k].as_slice());
        out.push(line);
        assert(rows(out@) =~= before.push(rows(new@)[k as int]));
        assert(all.take(at as int) + rows(new@).take(k + 1) =~= before.push(rows(new@)[k as int]));
        k = k + 1;
    }
    assert(rows(new@).take(k as int) =~= rows(new@));
    assert(all.subrange(at as int, at as int) =~= Seq::<Seq<char>>::empty());
    assert(rows(out@) =~= all.take(at as int) + rows(new@) + all.subrange(at as int, at as int));
    while i < ls.len()
        invariant
            at <= i <= ls@.len(),
            all == rows(ls@),
            *ls == *old(ls),
            rows(out@) == all.take(at as int) + rows(new@) + all.subrange(at as int, i as int),
        decreases ls.len() - i,
    {
        let ghost before = rows(out@);
        let line = to_vec(ls[i].as_slice());
        out.push(line);
        assert(rows(out@) =~= before.push(all[i as int]));
        assert(all.take(at as int) + rows(new@) + all.subrange(at as int, i + 1) =~= before.push(
            all[i as int],
        ));
        i = i + 1;
    }
    assert(all.subrange(at as int, i as int) =~= all.skip(at as int));
    *ls = out;
}

} // verus!
