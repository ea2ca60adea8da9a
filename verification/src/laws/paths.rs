//! What holds of paths.

#[allow(unused_imports)]
use crate::paths::{begins_with, component_start, components, extension, file_name, joined, joined_native, last_span,
    lower_extension, name_extension, name_stem, parent, root_len, separator};
#[allow(unused_imports)]
use crate::text::{last_index_of, lemma_last_index_before, lower, swap_char};
use vstd::prelude::*;

verus! {

/// The text is the name of a file: without separators and drives, and neither `.` nor
/// `..`.
pub open spec fn is_name(n: Seq<char>) -> bool {
    &&& n.len() > 0
    &&& n != seq!['.']
    &&& n != seq!['.', '.']
    &&& forall|i: int| 0 <= i < n.len() ==> #[trigger] n[i] != '/' && n[i] != '\\' && n[i] != ':'
}

proof fn lemma_start(s: Seq<char>, windows: bool, k: int, end: int)
    requires
        0 <= k <= end <= s.len(),
        root_len(s, windows) <= k,
        k > 0 ==> k == root_len(s, windows) || separator(s[k - 1], windows),
        forall|j: int| k <= j < end ==> !separator(#[trigger] s[j], windows),
    ensures
        component_start(s, windows, end) == k,
    decreases end,
{
    if end > k {
        assert(!separator(s[end - 1], windows));
        lemma_start(s, windows, k, end - 1);
    }
}

proof fn lemma_named_span(dir: Seq<char>, n: Seq<char>, tail: Seq<char>, windows: bool)
    requires
        is_name(n),
        windows ==> dir.len() != 1 || dir[0] != ':',
    ensures
        ({
            let s = dir + seq!['/'] + n + tail;
            let end = dir.len() as int + 1 + n.len() as int;
            &&& root_len(s, windows) <= dir.len() + 1
            &&& last_span(s, windows, end) == Some((dir.len() as int + 1, end))
        }),
{
    let s = dir + seq!['/'] + n + tail;
    let k = dir.len() + 1;
    let end = dir.len() as int + 1 + n.len() as int;
    assert(s[dir.len() as int] == '/');
    assert forall|j: int| k <= j < end implies !separator(#[trigger] s[j], windows) by {
        assert(s[j] == n[j - k]);
    }
    if dir.len() == 0 {
        assert(s[1] == n[0]);
    }
    if dir.len() == 1 {
        assert(s[1] == '/');
    }
    lemma_start(s, windows, k as int, end);
    assert(s.subrange(k as int, end) =~= n);
}

/// The file that a path leads to is its last part, whatever directory it lies in.
pub proof fn law_file_name(dir: Seq<char>, n: Seq<char>, windows: bool)
    requires
        is_name(n),
        windows ==> dir.len() != 1 || dir[0] != ':',
    ensures
        file_name(dir + seq!['/'] + n, windows) == Some(n),
{
    let s = dir + seq!['/'] + n;
    lemma_named_span(dir, n, Seq::<char>::empty(), windows);
    assert(dir + seq!['/'] + n + Seq::<char>::empty() =~= s);
    assert(s.subrange(dir.len() as int + 1, s.len() as int) =~= n);
}

/// The directory of a file is what stands before its name.
pub proof fn law_parent(up: Seq<char>, m: Seq<char>, n: Seq<char>, windows: bool)
    requires
        is_name(m),
        is_name(n),
        windows ==> up.len() != 1 || up[0] != ':',
    ensures
        parent(up + seq!['/'] + m + seq!['/'] + n, windows) == Some(up + seq!['/'] + m),
{
    let dir = up + seq!['/'] + m;
    let s = dir + seq!['/'] + n;
    lemma_named_span(dir, n, Seq::<char>::empty(), windows);
    assert(dir + seq!['/'] + n + Seq::<char>::empty() =~= s);
    lemma_named_span(up, m, seq!['/'] + n, windows);
    assert(up + seq!['/'] + m + (seq!['/'] + n) =~= s);
    let end = dir.len() as int + 1;
    assert(s[end - 1] == '/');
    assert(component_start(s, windows, end) == end);
    assert(s.subrange(end, end) =~= Seq::<char>::empty());
    assert(last_span(s, windows, end) == last_span(s, windows, end - 1));
    assert(s.take(dir.len() as int) =~= dir);
}

proof fn lemma_prefix_span(s: Seq<char>, t: Seq<char>, windows: bool, end: int)
    requires
        t.len() <= s.len(),
        t == s.take(t.len() as int),
        root_len(s, windows) == root_len(t, windows),
        0 <= end <= t.len(),
    ensures
        component_start(s, windows, end) == component_start(t, windows, end),
        last_span(s, windows, end) == last_span(t, windows, end),
    decreases end,
{
    lemma_prefix_start(s, t, windows, end);
    if end > root_len(s, windows) {
        let start = component_start(s, windows, end);
        lemma_start_in(s, windows, end);
        assert(s.subrange(start, end) =~= t.subrange(start, end));
        if start == end {
            lemma_prefix_span(s, t, windows, end - 1);
        } else if start > 0 {
            lemma_prefix_span(s, t, windows, start);
        }
    }
}

proof fn lemma_start_in(s: Seq<char>, windows: bool, end: int)
    requires
        0 <= end <= s.len(),
    ensures
        0 <= component_start(s, windows, end) <= end,
        component_start(s, windows, end) < end || end == 0 || end <= root_len(s, windows)
            || separator(s[end - 1], windows),
    decreases end,
{
    if end > root_len(s, windows) && !separator(s[end - 1], windows) {
        lemma_start_in(s, windows, end - 1);
    }
}

proof fn lemma_prefix_start(s: Seq<char>, t: Seq<char>, windows: bool, end: int)
    requires
        t.len() <= s.len(),
        t == s.take(t.len() as int),
        root_len(s, windows) == root_len(t, windows),
        0 <= end <= t.len(),
    ensures
        component_start(s, windows, end) == component_start(t, windows, end),
    decreases end,
{
    if end > root_len(s, windows) {
        assert(s[end - 1] == t[end - 1]);
        if !separator(s[end - 1], windows) {
            lemma_prefix_start(s, t, windows, end - 1);
        }
    }
}

proof fn lemma_span_in(s: Seq<char>, windows: bool, end: int)
    requires
        0 <= end <= s.len(),
    ensures
        last_span(s, windows, end) matches Some((i, j)) ==> 0 <= i < j <= end,
    decreases end,
{
    if end > root_len(s, windows) {
        lemma_start_in(s, windows, end);
        let start = component_start(s, windows, end);
        if start == end {
            lemma_span_in(s, windows, end - 1);
        } else if start > 0 {
            lemma_span_in(s, windows, start);
        }
    }
}

proof fn lemma_prefix_components(s: Seq<char>, t: Seq<char>, windows: bool, end: int)
    requires
        t.len() <= s.len(),
        t == s.take(t.len() as int),
        root_len(s, windows) == root_len(t, windows),
        root_len(s, windows) <= t.len(),
        0 <= end <= t.len(),
    ensures
        components(s, windows, end) == components(t, windows, end),
    decreases end,
{
    lemma_prefix_span(s, t, windows, end);
    lemma_span_in(s, windows, end);
    match last_span(s, windows, end) {
        Some((i, j)) => {
            lemma_prefix_components(s, t, windows, i);
            assert(s.subrange(i, j) =~= t.subrange(i, j));
        },
        None => {
            let r = root_len(s, windows);
            assert(s.take(r) =~= t.take(r));
        },
    }
}

/// A file begins with the components of its directory, and has its name behind them.
pub proof fn law_child(up: Seq<char>, m: Seq<char>, n: Seq<char>, windows: bool)
    requires
        is_name(m),
        is_name(n),
        windows ==> up.len() != 1 || up[0] != ':',
    ensures
        ({
            let dir = up + seq!['/'] + m;
            let path = dir + seq!['/'] + n;
            &&& components(path, windows, path.len() as int) == components(
                dir,
                windows,
                dir.len() as int,
            ).push(n)
            &&& begins_with(path, dir, windows)
            &&& !begins_with(dir, path, windows)
        }),
{
    let dir = up + seq!['/'] + m;
    let s = dir + seq!['/'] + n;
    lemma_named_span(dir, n, Seq::<char>::empty(), windows);
    assert(dir + seq!['/'] + n + Seq::<char>::empty() =~= s);
    let end = dir.len() as int + 1;
    assert(s.subrange(end, s.len() as int) =~= n);
    assert(s.take(dir.len() as int) =~= dir);
    lemma_named_span(up, m, Seq::<char>::empty(), windows);
    assert(up + seq!['/'] + m + Seq::<char>::empty() =~= dir);
    lemma_named_span(up, m, seq!['/'] + n, windows);
    assert(up + seq!['/'] + m + (seq!['/'] + n) =~= s);
    if dir.len() == 2 {
        assert(dir[1] == m[0] && s[1] == m[0]);
    }
    assert(root_len(s, windows) == root_len(dir, windows)) by {
        assert(dir.len() >= 2);
        assert(s[0] == dir[0] && s[1] == dir[1]);
        if dir.len() >= 3 {
            assert(s[2] == dir[2]);
        }
    }
    assert(component_start(s, windows, end) == end);
    assert(s.subrange(end, end) =~= Seq::<char>::empty());
    assert(last_span(s, windows, end) == last_span(s, windows, end - 1));
    assert(components(s, windows, end) == components(s, windows, end - 1));
    lemma_prefix_components(s, dir, windows, dir.len() as int);
    let a = components(dir, windows, dir.len() as int);
    assert(a =~= a.push(n).subrange(0, a.len() as int));
}

/// The extension is what stands behind the last dot, the stem what stands before it; a
/// dot at the beginning does not count.
pub proof fn law_extension(stem: Seq<char>, ext: Seq<char>)
    requires
        !ext.contains('.'),
    ensures
        stem.len() > 0 ==> name_extension(stem + seq!['.'] + ext) == Some(ext),
        stem.len() > 0 ==> name_stem(stem + seq!['.'] + ext) == stem,
        name_extension(seq!['.'] + ext) is None,
        name_stem(seq!['.'] + ext) == seq!['.'] + ext,
        name_extension(ext) is None,
        name_stem(ext) == ext,
{
    let s = stem + seq!['.'] + ext;
    let at = stem.len() as int;
    lemma_last_index_before(s, '.', s.len() as int);
    assert(s[at] == '.');
    assert forall|j: int| at < j < s.len() implies s[j] != '.' by {
        assert(s[j] == ext[j - at - 1]);
        assert(ext.contains(ext[j - at - 1]));
    }
    assert(last_index_of(s, '.') == Some(at));
    assert(s.skip(at + 1) =~= ext);
    assert(s.take(at) =~= stem);
    let t = seq!['.'] + ext;
    lemma_last_index_before(t, '.', t.len() as int);
    assert(t[0] == '.');
    assert forall|j: int| 0 < j < t.len() implies t[j] != '.' by {
        assert(t[j] == ext[j - 1]);
        assert(ext.contains(ext[j - 1]));
    }
    assert(last_index_of(t, '.') == Some(0int));
    lemma_last_index_before(ext, '.', ext.len() as int);
    match last_index_of(ext, '.') {
        Some(i) => {
            assert(ext.contains(ext[i]));
        },
        None => {},
    }
}

/// The extension of a path is that of its file, and is compared in lower case.
pub proof fn law_path_extension(s: Seq<char>, windows: bool, n: Seq<char>, e: Seq<char>)
    ensures
        file_name(s, windows) is None ==> extension(s, windows) is None,
        file_name(s, windows) == Some(n) ==> extension(s, windows) == name_extension(n),
        extension(s, windows) == Some(e) ==> lower_extension(s, windows) == Some(lower(e)),
        extension(s, windows) is None ==> lower_extension(s, windows) is None,
{
}

/// Paths are joined by one separator.
pub proof fn law_joined(root: Seq<char>, rel: Seq<char>)
    ensures
        root.len() == 0 ==> joined(root, rel) == rel && joined_native(root, rel, true) == rel
            && joined_native(root, rel, false) == rel,
        joined(root.push('/'), rel) == root + seq!['/'] + rel,
        joined_native(root.push('/'), rel, false) == root + seq!['/'] + rel,
        joined_native(root.push('\\'), rel, true) == root + seq!['\\'] + rel,
        root.len() > 0 && root.last() != '/' ==> joined(root, rel) == root + seq!['/'] + rel
            && joined_native(root, rel, false) == root + seq!['/'] + rel,
        root.len() > 0 && root.last() != '/' && root.last() != '\\' ==> joined_native(root, rel, true)
            == root + seq!['\\'] + rel,
{
    assert(root.push('/') + rel =~= root + seq!['/'] + rel);
    assert(root.push('\\') + rel =~= root + seq!['\\'] + rel);
    if root.len() == 0 {
        assert(root + rel =~= rel);
    }
}

} // verus!
