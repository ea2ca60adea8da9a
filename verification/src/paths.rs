//! File names and extensions in path texts.
//!
//! A slash separates the components of a path on every platform, a backslash
//! on Windows only.

use vstd::prelude::*;
use vstd::slice::slice_subrange;

use crate::text::{chars_of, replace_char, rfind_char, same, string_of, to_lower, to_vec};
#[allow(unused_imports)]
use crate::text::{last_index_of, lower, opt_text, rows, swap_char};

verus! {

/// The character separates components.
pub open spec fn separator(c: char, windows: bool) -> bool {
    c == '/' || (windows && c == '\\')
}

/// The length of the root: a drive with or without a separator behind it on
/// Windows, else a separator at the start.
pub open spec fn root_len(s: Seq<char>, windows: bool) -> int {
    if windows && s.len() >= 2 && s[1] == ':' {
        if s.len() >= 3 && separator(s[2], windows) {
            3
        } else {
            2
        }
    } else if s.len() >= 1 && separator(s[0], windows) {
        1
    } else {
        0
    }
}

/// The position after the last separator before `end`, or the end of the root.
pub open spec fn component_start(s: Seq<char>, windows: bool, end: int) -> int
    decreases end,
{
    if end <= root_len(s, windows) {
        end
    } else if separator(s[end - 1], windows) {
        end
    } else {
        component_start(s, windows, end - 1)
    }
}

proof fn lemma_component_start(s: Seq<char>, windows: bool, end: int)
    requires
        0 <= end <= s.len(),
    ensures
        0 <= component_start(s, windows, end) <= end,
        root_len(s, windows) <= end ==> root_len(s, windows) <= component_start(s, windows, end),
    decreases end,
{
    if end > root_len(s, windows) && !separator(s[end - 1], windows) {
        lemma_component_start(s, windows, end - 1);
    }
}

/// Where the last component of `s[..end]` starts and ends, the root left out.
/// Empty components, and `.` behind another component, do not count.
pub open spec fn last_span(s: Seq<char>, windows: bool, end: int) -> Option<(int, int)>
    decreases end,
    when end <= s.len()
    via last_span_decreases
{
    let start = component_start(s, windows, end);
    let part = s.subrange(start, end);
    if end <= root_len(s, windows) {
        None
    } else if part.len() == 0 {
        last_span(s, windows, end - 1)
    } else if part == seq!['.'] && start > 0 {
        last_span(s, windows, start)
    } else {
        Some((start, end))
    }
}

#[via_fn]
proof fn last_span_decreases(s: Seq<char>, windows: bool, end: int) {
    if end > root_len(s, windows) {
        lemma_component_start(s, windows, end);
    }
}

proof fn lemma_last_span(s: Seq<char>, windows: bool, end: int)
    requires
        end <= s.len(),
    ensures
        match last_span(s, windows, end) {
            Some((i, j)) => root_len(s, windows) <= i < j <= end,
            None => true,
        },
    decreases end,
{
    if end > root_len(s, windows) {
        lemma_component_start(s, windows, end);
        let start = component_start(s, windows, end);
        let part = s.subrange(start, end);
        if part.len() == 0 {
            lemma_last_span(s, windows, end - 1);
        } else if part == seq!['.'] && start > 0 {
            lemma_last_span(s, windows, start);
        }
    }
}

/// The name of the file that a path leads to; `None` where it leads to a root,
/// to `.` or to `..`.
pub open spec fn file_name(s: Seq<char>, windows: bool) -> Option<Seq<char>> {
    match last_span(s, windows, s.len() as int) {
        Some((i, j)) => {
            let part = s.subrange(i, j);
            if part == seq!['.'] || part == seq!['.', '.'] {
                None
            } else {
                Some(part)
            }
        },
        None => None,
    }
}

/// The path without its last component and without separators behind what is
/// left, but with its root; `None` where it has no component.
pub open spec fn parent(s: Seq<char>, windows: bool) -> Option<Seq<char>> {
    match last_span(s, windows, s.len() as int) {
        Some((i, j)) => match last_span(s, windows, i) {
            Some((k, l)) => Some(s.take(l)),
            None => Some(s.take(root_len(s, windows))),
        },
        None => None,
    }
}

/// The components of `s[..end]`, the root first.
pub open spec fn components(s: Seq<char>, windows: bool, end: int) -> Seq<Seq<char>>
    decreases end,
    when end <= s.len()
    via components_decreases
{
    match last_span(s, windows, end) {
        Some((i, j)) => components(s, windows, i).push(s.subrange(i, j)),
        None => if root_len(s, windows) > 0 {
            seq![swap_char(s.take(root_len(s, windows)), '\\', '/')]
        } else {
            seq![]
        },
    }
}

#[via_fn]
proof fn components_decreases(s: Seq<char>, windows: bool, end: int) {
    lemma_last_span(s, windows, end);
}

/// The path begins with the components of another one.
pub open spec fn begins_with(path: Seq<char>, base: Seq<char>, windows: bool) -> bool {
    components(base, windows, base.len() as int).is_prefix_of(
        components(path, windows, path.len() as int),
    )
}

/// The length of the root.
fn root_length(s: &[char], windows: bool) -> (r: usize)
    ensures
        r == root_len(s@, windows),
        r <= s@.len(),
{
    if windows && s.len() >= 2 && s[1] == ':' {
        if s.len() >= 3 && (s[2] == '/' || s[2] == '\\') {
            3
        } else {
            2
        }
    } else if s.len() >= 1 && (s[0] == '/' || (windows && s[0] == '\\')) {
        1
    } else {
        0
    }
}

/// Where the last component of `s[..end]` starts and ends.
fn find_last_span(s: &[char], windows: bool, end: usize) -> (r: Option<(usize, usize)>)
    requires
        end <= s@.len(),
    ensures
        match r {
            Some((i, j)) => last_span(s@, windows, end as int) == Some((i as int, j as int))
                && root_len(s@, windows) <= i < j <= end,
            None => last_span(s@, windows, end as int) is None,
        },
{
    let root: usize = root_length(s, windows);
    let mut e: usize = end;
    while e > root
        invariant
            e <= end <= s@.len(),
            root == root_len(s@, windows),
            last_span(s@, windows, end as int) == last_span(s@, windows, e as int),
        decreases e,
    {
        let mut start: usize = e;
        while start > root && !(s[start - 1] == '/' || (windows && s[start - 1] == '\\'))
            invariant
                root <= start <= e <= s@.len(),
                root == root_len(s@, windows),
                component_start(s@, windows, e as int) == component_start(
                    s@,
                    windows,
                    start as int,
                ),
            decreases start,
        {
            start = start - 1;
        }
        let ghost part = s@.subrange(start as int, e as int);
        let dot = e - start == 1 && s[start] == '.';
        assert(dot == (part == seq!['.'])) by {
            assert(part =~= seq!['.'] <==> (part.len() == 1 && part[0] == '.'));
        }
        if start == e {
            e = e - 1;
        } else if dot && start > 0 {
            e = start;
        } else {
            return Some((start, e));
        }
    }
    None
}

/// The path without its last component.
pub fn parent_of<'a>(s: &'a [char], windows: bool) -> (r: Option<&'a [char]>)
    ensures
        match r {
            Some(v) => parent(s@, windows) == Some(v@),
            None => parent(s@, windows) is None,
        },
{
    match find_last_span(s, windows, s.len()) {
        Some((i, j)) => {
            let end: usize = match find_last_span(s, windows, i) {
                Some((k, l)) => l,
                None => root_length(s, windows),
            };
            assert(s@.subrange(0, end as int) =~= s@.take(end as int));
            Some(slice_subrange(s, 0, end))
        },
        None => None,
    }
}

/// The components of a path, the root first.
pub fn components_of(s: &[char], windows: bool) -> (r: Vec<Vec<char>>)
    ensures
        rows(r@) == components(s@, windows, s@.len() as int),
{
    let ghost goal = components(s@, windows, s@.len() as int);
    let mut back: Vec<Vec<char>> = Vec::new();
    let mut end: usize = s.len();
    assert(components(s@, windows, end as int) + rows(back@) =~= goal);
    loop
        invariant_except_break
            components(s@, windows, end as int) + rows(back@) == goal,
        invariant
            end <= s@.len(),
        ensures
            rows(back@) == goal,
        decreases end,
    {
        match find_last_span(s, windows, end) {
            Some((i, j)) => {
                let ghost before = rows(back@);
                let ghost outer = components(s@, windows, i as int);
                let part = to_vec(slice_subrange(s, i, j));
                back.insert(0, part);
                assert(rows(back@) =~= seq![part@] + before);
                assert(outer.push(part@) + before =~= outer + rows(back@));
                end = i;
            },
            None => {
                let root: usize = root_length(s, windows);
                if root > 0 {
                    let ghost before = rows(back@);
                    assert(s@.subrange(0, root as int) =~= s@.take(root as int));
                    let part = replace_char(slice_subrange(s, 0, root), '\\', '/');
                    back.insert(0, part);
                    assert(rows(back@) =~= seq![part@] + before);
                } else {
                    assert(Seq::<Seq<char>>::empty() + rows(back@) =~= rows(back@));
                }
                break;
            },
        }
    }
    back
}

/// Whether the path begins with the components of another one.
pub fn path_begins_with(path: &str, base: &str, windows: bool) -> (r: bool)
    ensures
        r == begins_with(path@, base@, windows),
{
    let pv = chars_of(path);
    let bv = chars_of(base);
    let p = components_of(pv.as_slice(), windows);
    let b = components_of(bv.as_slice(), windows);
    let ghost pc = rows(p@);
    let ghost bc = rows(b@);
    if b.len() > p.len() {
        return false;
    }
    let mut i: usize = 0;
    while i < b.len()
        invariant
            i <= b@.len() <= p@.len(),
            pc == rows(p@),
            bc == rows(b@),
            bc == components(base@, windows, base@.len() as int),
            pc == components(path@, windows, path@.len() as int),
            forall|j: int| 0 <= j < i ==> bc[j] == pc[j],
        decreases b.len() - i,
    {
        assert(pc[i as int] == p@[i as int]@);
        assert(bc[i as int] == b@[i as int]@);
        if !same(p[i].as_slice(), b[i].as_slice()) {
            return false;
        }
        i = i + 1;
    }
    assert(bc =~= pc.subrange(0, bc.len() as int));
    true
}

/// A path begins with itself, and what begins with a path that begins with
/// another one begins with that one too.
pub proof fn law_begins_with(a: Seq<char>, b: Seq<char>, c: Seq<char>, windows: bool)
    ensures
        begins_with(a, a, windows),
        begins_with(a, b, windows) && begins_with(b, c, windows) ==> begins_with(a, c, windows),
{
    let ca = components(a, windows, a.len() as int);
    assert(ca =~= ca.subrange(0, ca.len() as int));
    if begins_with(a, b, windows) && begins_with(b, c, windows) {
        let cb = components(b, windows, b.len() as int);
        let cc = components(c, windows, c.len() as int);
        assert(cc =~= ca.subrange(0, cc.len() as int));
    }
}

/// `rel` below `root`, with the separator of the platform.
pub open spec fn joined_native(root: Seq<char>, rel: Seq<char>, windows: bool) -> Seq<char> {
    if root.len() == 0 || separator(root.last(), windows) {
        root + rel
    } else if windows {
        root + seq!['\\'] + rel
    } else {
        root + seq!['/'] + rel
    }
}

/// `rel` below `root`, with the separator of the platform.
pub fn join_native(root: &str, rel: &str, windows: bool) -> (r: String)
    ensures
        r@ == joined_native(root@, rel@, windows),
{
    let mut v = chars_of(root);
    let n: usize = v.len();
    if n > 0 && !(v[n - 1] == '/' || (windows && v[n - 1] == '\\')) {
        if windows {
            v.push('\\');
            assert(v@ =~= root@ + seq!['\\']);
        } else {
            v.push('/');
            assert(v@ =~= root@ + seq!['/']);
        }
    }
    crate::text::push_str(&mut v, rel);
    string_of(v.as_slice())
}

/// `rel` below `root`.
pub open spec fn joined(root: Seq<char>, rel: Seq<char>) -> Seq<char> {
    if root.len() == 0 || root.last() == '/' {
        root + rel
    } else {
        root + seq!['/'] + rel
    }
}

/// `rel` below `root`.
pub fn join_path(root: &str, rel: &str) -> (r: String)
    ensures
        r@ == joined(root@, rel@),
{
    let mut v = chars_of(root);
    if v.len() > 0 && v[v.len() - 1] != '/' {
        v.push('/');
        assert(v@ =~= root@ + seq!['/']);
    }
    crate::text::push_str(&mut v, rel);
    string_of(v.as_slice())
}

/// The extension of a file name: what follows its last dot, unless that dot is
/// its first character.
pub open spec fn name_extension(name: Seq<char>) -> Option<Seq<char>> {
    match last_index_of(name, '.') {
        Some(i) => if i > 0 {
            Some(name.skip(i + 1))
        } else {
            None
        },
        None => None,
    }
}

/// The extension of the file that a path leads to.
pub open spec fn extension(s: Seq<char>, windows: bool) -> Option<Seq<char>> {
    match file_name(s, windows) {
        Some(name) => name_extension(name),
        None => None,
    }
}

/// The extension of the file that a path leads to, in lower case.
pub open spec fn lower_extension(s: Seq<char>, windows: bool) -> Option<Seq<char>> {
    match extension(s, windows) {
        Some(e) => Some(lower(e)),
        None => None,
    }
}

/// The name of the file that a path leads to.
pub fn file_name_of<'a>(s: &'a [char], windows: bool) -> (r: Option<&'a [char]>)
    ensures
        match r {
            Some(v) => file_name(s@, windows) == Some(v@),
            None => file_name(s@, windows) is None,
        },
{
    match find_last_span(s, windows, s.len()) {
        Some((i, j)) => {
            let part = slice_subrange(s, i, j);
            assert(part@ =~= seq!['.'] <==> (part@.len() == 1 && part@[0] == '.'));
            assert(part@ =~= seq!['.', '.'] <==> (part@.len() == 2 && part@[0] == '.' && part@[1]
                == '.'));
            if (part.len() == 1 && part[0] == '.') || (part.len() == 2 && part[0] == '.' && part[1]
                == '.') {
                None
            } else {
                Some(part)
            }
        },
        None => None,
    }
}

/// The name of a file without its extension: what stands before its last dot,
/// unless that dot is its first character.
pub open spec fn name_stem(name: Seq<char>) -> Seq<char> {
    match last_index_of(name, '.') {
        Some(i) => if i > 0 {
            name.take(i)
        } else {
            name
        },
        None => name,
    }
}

/// The name of the file that a path leads to, without its extension.
pub fn file_stem_of(s: &[char], windows: bool) -> (r: Option<String>)
    ensures
        opt_text(r) == (match file_name(s@, windows) {
            Some(n) => Some(name_stem(n)),
            None => None,
        }),
{
    match file_name_of(s, windows) {
        Some(name) => match rfind_char(name, '.') {
            Some(i) => if i > 0 {
                assert(name@.subrange(0, i as int) =~= name@.take(i as int));
                Some(string_of(slice_subrange(name, 0, i)))
            } else {
                Some(string_of(name))
            },
            None => Some(string_of(name)),
        },
        None => None,
    }
}

/// The extension of the file that a path leads to.
pub fn extension_of<'a>(s: &'a [char], windows: bool) -> (r: Option<&'a [char]>)
    ensures
        match r {
            Some(v) => extension(s@, windows) == Some(v@),
            None => extension(s@, windows) is None,
        },
{
    match file_name_of(s, windows) {
        Some(name) => match rfind_char(name, '.') {
            Some(i) => if i > 0 {
                assert(name@.subrange(i + 1, name@.len() as int) =~= name@.skip(i + 1));
                Some(slice_subrange(name, i + 1, name.len()))
            } else {
                None
            },
            None => None,
        },
        None => None,
    }
}

/// The extension of the file that a path leads to, in lower case.
pub fn lower_extension_of(s: &[char], windows: bool) -> (r: Option<Vec<char>>)
    ensures
        match r {
            Some(v) => lower_extension(s@, windows) == Some(v@),
            None => lower_extension(s@, windows) is None,
        },
{
    match extension_of(s, windows) {
        Some(e) => Some(to_lower(e)),
        None => None,
    }
}

} // verus!
