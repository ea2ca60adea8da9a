//! Build files of modules: the dependencies that they add.

use vstd::prelude::*;

use crate::order::sorted_set;
#[allow(unused_imports)]
use crate::order::ascending;
use crate::pattern::{find_captures, group_text_or};
#[allow(unused_imports)]
use crate::pattern::{captures_view, group_or, groups_view, regex_captures};
use crate::text::{owned, str_eq};
#[allow(unused_imports)]
use crate::text::texts;

verus! {

/// A list of modules that is added at once.
pub const ADD_RANGE: &'static str =
    "(Public|Private)DependencyModuleNames\\s*\\.\\s*AddRange\\s*\\(\\s*new\\s+string\\s*\\[\\]\\s*\\{(?s:(.*?))\\}\\s*\\)";

/// A single module that is added.
pub const ADD_SINGLE: &'static str =
    "(Public|Private)DependencyModuleNames\\s*\\.\\s*Add\\s*\\(\\s*\"([^\"]+)\"\\s*\\)";

/// A quoted name.
pub const QUOTED: &'static str = "\"([^\"]+)\"";

/// What a pattern captures, nothing where it is none.
pub open spec fn captured(pattern: Seq<char>, text: Seq<char>) -> Seq<Seq<Option<Seq<char>>>> {
    match regex_captures(pattern, text) {
        Some(c) => c,
        None => seq![],
    }
}

/// What a pattern captures.
fn captures_in(pattern: &str, text: &str) -> (r: Vec<Vec<Option<String>>>)
    ensures
        captures_view(r@) == captured(pattern@, text@),
{
    match find_captures(pattern, text) {
        Some(c) => c,
        None => {
            let r: Vec<Vec<Option<String>>> = Vec::new();
            assert(captures_view(r@) =~= seq![]);
            r
        },
    }
}

/// Group `k` of the first `n` matches, one after the other.
pub open spec fn group_texts(c: Seq<Seq<Option<Seq<char>>>>, k: int, n: int) -> Seq<Seq<char>>
    decreases n,
{
    if n <= 0 {
        seq![]
    } else {
        group_texts(c, k, n - 1).push(group_or(c[n - 1], k, ""@))
    }
}

/// The names that a quoted list holds.
pub open spec fn quoted_names(list: Seq<char>) -> Seq<Seq<char>> {
    let c = captured(QUOTED@, list);
    group_texts(c, 1, c.len() as int)
}

/// The match adds to the public dependencies where `public`, else to the private
/// ones.
pub open spec fn adds_to(c: Seq<Option<Seq<char>>>, public: bool) -> bool {
    (group_or(c, 1, ""@) == "Public"@) == public
}

/// What the first `n` lists add.
pub open spec fn listed_names(c: Seq<Seq<Option<Seq<char>>>>, public: bool, n: int) -> Seq<Seq<char>>
    decreases n,
{
    if n <= 0 {
        seq![]
    } else {
        let before = listed_names(c, public, n - 1);
        if adds_to(c[n - 1], public) {
            before + quoted_names(group_or(c[n - 1], 2, ""@))
        } else {
            before
        }
    }
}

/// What the first `n` single additions add.
pub open spec fn single_names(c: Seq<Seq<Option<Seq<char>>>>, public: bool, n: int) -> Seq<Seq<char>>
    decreases n,
{
    if n <= 0 {
        seq![]
    } else {
        let before = single_names(c, public, n - 1);
        if adds_to(c[n - 1], public) {
            before.push(group_or(c[n - 1], 2, ""@))
        } else {
            before
        }
    }
}

/// All that a build file adds, from what the patterns have captured in it.
pub open spec fn added_names(
    lists: Seq<Seq<Option<Seq<char>>>>,
    singles: Seq<Seq<Option<Seq<char>>>>,
    public: bool,
) -> Seq<Seq<char>> {
    listed_names(lists, public, lists.len() as int) + single_names(
        singles,
        public,
        singles.len() as int,
    )
}

/// Adds the names that a quoted list holds.
fn add_quoted(out: &mut Vec<String>, list: &str)
    ensures
        texts(final(out)@) == texts(old(out)@) + quoted_names(list@),
{
    let c = captures_in(QUOTED, list);
    let ghost all = captures_view(c@);
    let ghost start = texts(out@);
    let mut i: usize = 0;
    assert(start + group_texts(all, 1, 0) =~= start);
    while i < c.len()
        invariant
            i <= c@.len(),
            all == captures_view(c@),
            texts(out@) == start + group_texts(all, 1, i as int),
        decreases c.len() - i,
    {
        assert(all[i as int] == groups_view(c@[i as int]@));
        let ghost before = texts(out@);
        let name = owned(group_text_or(&c[i], 1, ""));
        out.push(name);
        assert(texts(out@) =~= before.push(name@));
        assert(texts(out@) =~= start + group_texts(all, 1, i + 1));
        i = i + 1;
    }
}

/// The dependencies of one kind that a build file adds, from what the patterns
/// have captured in it: in order, each once.
pub fn collect_dependencies(
    lists: &Vec<Vec<Option<String>>>,
    singles: &Vec<Vec<Option<String>>>,
    public: bool,
) -> (r: Vec<String>)
    ensures
        ascending(texts(r@)),
        texts(r@).to_set() == added_names(
            captures_view(lists@),
            captures_view(singles@),
            public,
        ).to_set(),
{
    let ghost lv = captures_view(lists@);
    let ghost sv = captures_view(singles@);
    let mut out: Vec<String> = Vec::new();
    assert(texts(out@) =~= Seq::<Seq<char>>::empty());
    let mut i: usize = 0;
    while i < lists.len()
        invariant
            i <= lists@.len(),
            lv == captures_view(lists@),
            texts(out@) == listed_names(lv, public, i as int),
        decreases lists.len() - i,
    {
        assert(lv[i as int] == groups_view(lists@[i as int]@));
        if str_eq(group_text_or(&lists[i], 1, ""), "Public") == public {
            add_quoted(&mut out, group_text_or(&lists[i], 2, ""));
        }
        i = i + 1;
    }
    let ghost first = texts(out@);
    let mut k: usize = 0;
    assert(first + single_names(sv, public, 0) =~= first);
    while k < singles.len()
        invariant
            k <= singles@.len(),
            sv == captures_view(singles@),
            texts(out@) == first + single_names(sv, public, k as int),
        decreases singles.len() - k,
    {
        assert(sv[k as int] == groups_view(singles@[k as int]@));
        if str_eq(group_text_or(&singles[k], 1, ""), "Public") == public {
            let ghost before = texts(out@);
            let name = owned(group_text_or(&singles[k], 2, ""));
            out.push(name);
            assert(texts(out@) =~= before.push(name@));
            assert(texts(out@) =~= first + single_names(sv, public, k + 1));
        }
        k = k + 1;
    }
    sorted_set(&out)
}

/// The public and the private dependencies that a build file adds: in order,
/// each once.
pub fn parse_build_cs(content: &str) -> (r: (Vec<String>, Vec<String>))
    ensures
        ascending(texts(r.0@)),
        ascending(texts(r.1@)),
        texts(r.0@).to_set() == added_names(
            captured(ADD_RANGE@, content@),
            captured(ADD_SINGLE@, content@),
            true,
        ).to_set(),
        texts(r.1@).to_set() == added_names(
            captured(ADD_RANGE@, content@),
            captured(ADD_SINGLE@, content@),
            false,
        ).to_set(),
{
    let lists = captures_in(ADD_RANGE, content);
    let singles = captures_in(ADD_SINGLE, content);
    (collect_dependencies(&lists, &singles, true), collect_dependencies(&lists, &singles, false))
}

} // verus!
