//! Dependencies of modules: what each depends on, directly or through others.

use vstd::prelude::*;

use crate::order::{insert_all_ascending, insert_ascending};
#[allow(unused_imports)]
use crate::order::ascending;
use crate::text::{has_text, str_eq};
#[allow(unused_imports)]
use crate::text::texts;
use crate::types::ModuleDef;

verus! {

/// What each module names as its dependencies, by the name of the module.
pub type Graph = Map<Seq<char>, Seq<Seq<char>>>;

/// The dependencies that a module names, the public ones first.
pub open spec fn named_deps(m: ModuleDef) -> Seq<Seq<char>> {
    texts(m.public_deps@) + texts(m.private_deps@)
}

/// What the modules name. Of several modules of one name the last counts.
pub open spec fn graph_of(ms: Seq<ModuleDef>) -> Graph
    decreases ms.len(),
{
    if ms.len() == 0 {
        Map::empty()
    } else {
        graph_of(ms.drop_last()).insert(ms.last().name@, named_deps(ms.last()))
    }
}

// ---------------------------------------------------------------------------
// Dependence
// ---------------------------------------------------------------------------
/// Module `a` names `b`.
pub open spec fn names(g: Graph, a: Seq<char>, b: Seq<char>) -> bool {
    g.dom().contains(a) && g[a].contains(b)
}

/// Module `a` depends on `b` through at most `n` steps.
pub open spec fn reach(g: Graph, a: Seq<char>, b: Seq<char>, n: nat) -> bool
    decreases n,
{
    n > 0 && (names(g, a, b) || exists|c: Seq<char>|
        #[trigger] names(g, a, c) && reach(g, c, b, (n - 1) as nat))
}

/// Module `a` depends on `b`, directly or through others.
pub open spec fn depends(g: Graph, a: Seq<char>, b: Seq<char>) -> bool {
    exists|n: nat| reach(g, a, b, n)
}

/// What is named is depended on.
proof fn lemma_named(g: Graph, a: Seq<char>, b: Seq<char>)
    requires
        names(g, a, b),
    ensures
        depends(g, a, b),
{
    assert(reach(g, a, b, 1));
}

/// What a dependency depends on is depended on.
proof fn lemma_through(g: Graph, a: Seq<char>, c: Seq<char>, b: Seq<char>)
    requires
        names(g, a, c),
        depends(g, c, b),
    ensures
        depends(g, a, b),
{
    let n = choose|n: nat| reach(g, c, b, n);
    assert(reach(g, a, b, n + 1));
}

proof fn lemma_reach_through(g: Graph, a: Seq<char>, b: Seq<char>, c: Seq<char>, n: nat)
    requires
        reach(g, a, b, n),
        depends(g, b, c),
    ensures
        depends(g, a, c),
    decreases n,
{
    if names(g, a, b) {
        lemma_through(g, a, b, c);
    } else {
        let d = choose|d: Seq<char>|
            #[trigger] names(g, a, d) && reach(g, d, b, (n - 1) as nat);
        lemma_reach_through(g, d, b, c, (n - 1) as nat);
        lemma_through(g, a, d, c);
    }
}

/// What a dependency depends on is a dependency too, and so is what it names.
pub proof fn law_depends_transitive(g: Graph, a: Seq<char>, b: Seq<char>, c: Seq<char>)
    requires
        depends(g, a, b),
        depends(g, b, c) || names(g, b, c),
    ensures
        depends(g, a, c),
{
    if names(g, b, c) {
        lemma_named(g, b, c);
    }
    let n = choose|n: nat| reach(g, a, b, n);
    lemma_reach_through(g, a, b, c, n);
}

/// All names that occur as dependencies.
spec fn all_named(ms: Seq<ModuleDef>) -> Set<Seq<char>>
    decreases ms.len(),
{
    if ms.len() == 0 {
        Set::empty()
    } else {
        all_named(ms.drop_last()).union(named_deps(ms.last()).to_set())
    }
}

proof fn lemma_all_named(ms: Seq<ModuleDef>)
    ensures
        all_named(ms).finite(),
        forall|a: Seq<char>, b: Seq<char>| #[trigger]
            names(graph_of(ms), a, b) ==> all_named(ms).contains(b),
    decreases ms.len(),
{
    if ms.len() > 0 {
        let few = ms.drop_last();
        lemma_all_named(few);
        assert forall|a: Seq<char>, b: Seq<char>| #[trigger] names(graph_of(ms), a, b) implies
            all_named(ms).contains(b) by {
            if a != ms.last().name@ {
                assert(names(graph_of(few), a, b));
            } else {
                assert(named_deps(ms.last()).to_set().contains(b));
            }
        }
    }
}

proof fn lemma_reached_is_named(ms: Seq<ModuleDef>, a: Seq<char>, b: Seq<char>, n: nat)
    requires
        reach(graph_of(ms), a, b, n),
    ensures
        all_named(ms).contains(b),
    decreases n,
{
    let g = graph_of(ms);
    lemma_all_named(ms);
    if !names(g, a, b) {
        let c = choose|c: Seq<char>|
            #[trigger] names(g, a, c) && reach(g, c, b, (n - 1) as nat);
        lemma_reached_is_named(ms, c, b, (n - 1) as nat);
    }
}

/// All that the module names is in the set, and so is all that anything in the set
/// names.
spec fn closed(g: Graph, name: Seq<char>, found: Set<Seq<char>>) -> bool {
    &&& forall|y: Seq<char>| #[trigger] names(g, name, y) ==> found.contains(y)
    &&& forall|x: Seq<char>, y: Seq<char>|
        found.contains(x) && #[trigger] names(g, x, y) ==> found.contains(y)
}

proof fn lemma_closed(
    g: Graph,
    name: Seq<char>,
    found: Set<Seq<char>>,
    a: Seq<char>,
    b: Seq<char>,
    n: nat,
)
    requires
        closed(g, name, found),
        a == name || found.contains(a),
        reach(g, a, b, n),
    ensures
        found.contains(b),
    decreases n,
{
    if !names(g, a, b) {
        let c = choose|c: Seq<char>|
            #[trigger] names(g, a, c) && reach(g, c, b, (n - 1) as nat);
        lemma_closed(g, name, found, c, b, (n - 1) as nat);
    }
}

// ---------------------------------------------------------------------------
// The resolution
// ---------------------------------------------------------------------------
/// The list is that of all that the module depends on, in order.
pub open spec fn is_closure(g: Graph, name: Seq<char>, list: Seq<Seq<char>>) -> bool {
    &&& ascending(list)
    &&& forall|x: Seq<char>| #[trigger] list.contains(x) == depends(g, name, x)
}

/// What has been worked out for one module.
pub struct Resolved {
    pub name: String,
    pub deps: Vec<String>,
}

/// Every entry holds all that its module depends on.
pub open spec fn memo_wf(v: Seq<Resolved>, g: Graph) -> bool {
    forall|i: int|
        0 <= i < v.len() ==> is_closure(g, (#[trigger] v[i]).name@, texts(v[i].deps@))
}

/// The entry of a name.
fn find_entry(memo: &Vec<Resolved>, name: &str) -> (r: Option<usize>)
    ensures
        match r {
            Some(i) => i < memo@.len() && memo@[i as int].name@ == name@,
            None => true,
        },
{
    let mut n: usize = 0;
    while n < memo.len()
        invariant
            n <= memo@.len(),
        decreases memo.len() - n,
    {
        if str_eq(memo[n].name.as_str(), name) {
            return Some(n);
        }
        n = n + 1;
    }
    None
}

/// The module of a name.
fn find_module(modules: &Vec<ModuleDef>, name: &str) -> (r: Option<usize>)
    ensures
        match r {
            Some(i) => i < modules@.len() && graph_of(modules@).dom().contains(name@) && graph_of(
                modules@,
            )[name@] == named_deps(modules@[i as int]),
            None => !graph_of(modules@).dom().contains(name@),
        },
{
    let mut n: usize = modules.len();
    assert(modules@.take(n as int) =~= modules@);
    while n > 0
        invariant
            n <= modules@.len(),
            graph_of(modules@).dom().contains(name@) == graph_of(
                modules@.take(n as int),
            ).dom().contains(name@),
            graph_of(modules@).dom().contains(name@) ==> graph_of(modules@)[name@] == graph_of(
                modules@.take(n as int),
            )[name@],
        decreases n,
    {
        assert(modules@.take(n as int).drop_last() =~= modules@.take(n - 1));
        assert(modules@.take(n as int).last() == modules@[n - 1]);
        if str_eq(modules[n - 1].name.as_str(), name) {
            return Some(n - 1);
        }
        n = n - 1;
    }
    None
}

/// A copy of a list of texts.
fn copy_texts(v: &Vec<String>) -> (r: Vec<String>)
    ensures
        texts(r@) == texts(v@),
{
    let mut out: Vec<String> = Vec::new();
    let mut i: usize = 0;
    assert(texts(out@) =~= texts(v@).take(0));
    while i < v.len()
        invariant
            i <= v@.len(),
            texts(out@) == texts(v@).take(i as int),
        decreases v.len() - i,
    {
        let ghost before = texts(out@);
        let s = v[i].clone();
        out.push(s);
        assert(texts(out@) =~= before.push(s@));
        assert(texts(out@) =~= texts(v@).take(i + 1));
        i = i + 1;
    }
    assert(texts(v@).take(v@.len() as int) =~= texts(v@));
    out
}

/// The dependencies that a module names, the public ones first.
fn named_deps_of(m: &ModuleDef) -> (r: Vec<String>)
    ensures
        texts(r@) == named_deps(*m),
{
    let mut out = copy_texts(&m.public_deps);
    let mut rest = copy_texts(&m.private_deps);
    let ghost a = out@;
    let ghost b = rest@;
    out.append(&mut rest);
    assert(texts(out@) =~= texts(a) + texts(b));
    out
}

/// Adds the names of a list that are new to those that were found, and to those
/// whose own dependencies are still to be looked at.
fn add_new(found: &mut Vec<String>, todo: &mut Vec<String>, names: &Vec<String>)
    requires
        ascending(texts(old(found)@)),
    ensures
        ascending(texts(final(found)@)),
        texts(final(found)@).to_set() == texts(old(found)@).to_set().union(texts(names@).to_set()),
        forall|x: Seq<char>|
            texts(old(todo)@).contains(x) ==> #[trigger] texts(final(todo)@).contains(x),
        forall|x: Seq<char>| #[trigger]
            texts(final(todo)@).contains(x) ==> texts(old(todo)@).contains(x) || texts(
                names@,
            ).contains(x),
        forall|x: Seq<char>|
            texts(names@).contains(x) && !texts(old(found)@).contains(x) ==> #[trigger] texts(
                final(todo)@,
            ).contains(x),
        texts(final(found)@).to_set() == texts(old(found)@).to_set() ==> final(todo)@.len() == old(
            todo,
        )@.len(),
{
    let ghost found0 = texts(found@);
    let ghost todo0 = texts(todo@);
    let ghost all = texts(names@);
    let mut i: usize = 0;
    assert(found0.to_set().union(all.take(0).to_set()) =~= found0.to_set());
    while i < names.len()
        invariant
            i <= names@.len(),
            all == texts(names@),
            ascending(texts(found@)),
            texts(found@).to_set() == found0.to_set().union(all.take(i as int).to_set()),
            forall|x: Seq<char>|
                todo0.contains(x) ==> #[trigger] texts(todo@).contains(x),
            forall|x: Seq<char>| #[trigger]
                texts(todo@).contains(x) ==> todo0.contains(x) || all.contains(x),
            forall|x: Seq<char>|
                all.take(i as int).contains(x) && !found0.contains(x) ==> #[trigger] texts(
                    todo@,
                ).contains(x),
            texts(found@).to_set() == found0.to_set() ==> texts(todo@).len() == todo0.len(),
        decreases names.len() - i,
    {
        let ghost x = names@[i as int]@;
        let ghost few = all.take(i as int);
        assert(all[i as int] == x);
        assert(all.contains(x));
        assert(all.take(i + 1) =~= few.push(x));
        proof {
            lemma_push_contains(few, x);
        }
        let ghost f1 = texts(found@);
        let ghost t1 = texts(todo@);
        assert(f1.contains(x) == f1.to_set().contains(x));
        assert(few.contains(x) == few.to_set().contains(x));
        assert(found0.contains(x) == found0.to_set().contains(x));
        if !has_text(found, names[i].as_str()) {
            todo.push(names[i].clone());
            assert(texts(todo@) =~= t1.push(x));
            proof {
                lemma_push_contains(t1, x);
            }
            insert_ascending(found, names[i].clone());
            assert(texts(found@).to_set().contains(x));
            assert(!found0.to_set().contains(x));
        }
        assert(texts(found@).to_set() =~= found0.to_set().union(all.take(i + 1).to_set()));
        i = i + 1;
    }
    assert(all.take(all.len() as int) =~= all);
}

/// A list with one more behind it holds that one and what it held.
proof fn lemma_push_contains(s: Seq<Seq<char>>, x: Seq<char>)
    ensures
        s.push(x).to_set() == s.to_set().insert(x),
        forall|y: Seq<char>| #[trigger] s.push(x).contains(y) == (s.contains(y) || y == x),
{
    let t = s.push(x);
    assert forall|y: Seq<char>| #[trigger] t.contains(y) == (s.contains(y) || y == x) by {
        if s.contains(y) {
            let j = choose|j: int| 0 <= j < s.len() && s[j] == y;
            assert(t[j] == y);
        }
        if y == x {
            assert(t[s.len() as int] == y);
        }
    }
    assert(t.to_set() =~= s.to_set().insert(x));
}

/// All that the module `name` depends on, in order. Where the dependencies of a
/// module are known, they are taken as they are.
pub fn resolve_deep(name: &str, modules: &Vec<ModuleDef>, memo: &Vec<Resolved>) -> (r: Vec<String>)
    requires
        memo_wf(memo@, graph_of(modules@)),
    ensures
        is_closure(graph_of(modules@), name@, texts(r@)),
{
    let ghost g = graph_of(modules@);
    let ghost all = all_named(modules@);
    let mut found: Vec<String> = Vec::new();
    let mut todo: Vec<String> = Vec::new();
    assert(texts(found@) =~= Seq::<Seq<char>>::empty());
    assert(texts(todo@) =~= Seq::<Seq<char>>::empty());
    match find_module(modules, name) {
        Some(k) => {
            let wanted = named_deps_of(&modules[k]);
            add_new(&mut found, &mut todo, &wanted);
            assert forall|y: Seq<char>| texts(found@).to_set().contains(y) == names(g, name@, y) by {
                assert(texts(wanted@).to_set().contains(y) == texts(wanted@).contains(y));
            }
            assert forall|y: Seq<char>| #[trigger] texts(found@).contains(y) == names(g, name@, y) by {
                assert(texts(found@).to_set().contains(y) == texts(found@).contains(y));
            }
        },
        None => {},
    }
    proof {
        lemma_all_named(modules@);
        assert forall|x: Seq<char>| texts(found@).to_set().contains(x) implies depends(
            g,
            name@,
            x,
        ) by {
            assert(texts(found@).contains(x));
            lemma_named(g, name@, x);
        }
    }
    while todo.len() > 0
        invariant
            g == graph_of(modules@),
            all == all_named(modules@),
            all.finite(),
            memo_wf(memo@, g),
            ascending(texts(found@)),
            forall|x: Seq<char>| #[trigger]
                texts(found@).to_set().contains(x) ==> depends(g, name@, x),
            forall|x: Seq<char>| #[trigger]
                texts(todo@).contains(x) ==> texts(found@).to_set().contains(x),
            forall|y: Seq<char>| #[trigger]
                names(g, name@, y) ==> texts(found@).to_set().contains(y),
            forall|x: Seq<char>, y: Seq<char>|
                texts(found@).to_set().contains(x) && #[trigger] names(g, x, y) ==> texts(
                    found@,
                ).to_set().contains(y) || texts(todo@).contains(x),
        decreases all.difference(texts(found@).to_set()).len(), todo.len(),
    {
        let ghost f0 = texts(found@).to_set();
        let ghost full = texts(todo@);
        let ghost before = todo@;
        let t: String = match todo.pop() {
            Some(t) => t,
            None => {
                return found;
            },
        };
        let ghost left = texts(todo@);
        assert(before =~= todo@.push(t));
        assert(full =~= left.push(t@));
        proof {
            lemma_push_contains(left, t@);
        }
        assert(full.contains(t@));
        assert(f0.contains(t@));
        assert forall|x: Seq<char>| #[trigger] left.contains(x) implies f0.contains(x) by {
            assert(full.contains(x));
        }
        match find_entry(memo, t.as_str()) {
            Some(k) => {
                let ghost known = texts(memo@[k as int].deps@);
                assert(is_closure(g, t@, known));
                insert_all_ascending(&mut found, &memo[k].deps);
                proof {
                    let f1 = texts(found@).to_set();
                    assert(f1 == f0.union(known.to_set()));
                    assert forall|x: Seq<char>| f1.contains(x) && !f0.contains(x) implies depends(
                        g,
                        t@,
                        x,
                    ) by {
                        assert(known.contains(x));
                    }
                    assert forall|x: Seq<char>| depends(g, t@, x) implies f1.contains(x) by {
                        assert(known.contains(x));
                        assert(known.to_set().contains(x));
                    }
                    assert forall|x: Seq<char>| #[trigger] f1.contains(x) implies depends(
                        g,
                        name@,
                        x,
                    ) by {
                        if !f0.contains(x) {
                            law_depends_transitive(g, name@, t@, x);
                        }
                    }
                    assert forall|x: Seq<char>, y: Seq<char>|
                        f1.contains(x) && #[trigger] names(g, x, y) implies f1.contains(y)
                        || left.contains(x) by {
                        if x == t@ {
                            lemma_named(g, x, y);
                        } else if !f0.contains(x) {
                            law_depends_transitive(g, t@, x, y);
                        } else {
                            assert(f0.contains(y) || full.contains(x));
                        }
                    }
                    lemma_fewer_left(modules@, name@, f0, f1);
                }
            },
            None => {
                match find_module(modules, t.as_str()) {
                    Some(k) => {
                        let wanted = named_deps_of(&modules[k]);
                        add_new(&mut found, &mut todo, &wanted);
                        proof {
                            let w = texts(wanted@);
                            let f1 = texts(found@).to_set();
                            assert forall|x: Seq<char>| #[trigger] w.contains(x) == names(
                                g,
                                t@,
                                x,
                            ) by {}
                            assert(forall|x: Seq<char>| w.to_set().contains(x) == w.contains(x));
                            assert forall|x: Seq<char>| #[trigger] texts(todo@).contains(
                                x,
                            ) implies f1.contains(x) by {
                                assert(left.contains(x) || w.contains(x));
                            }
                            assert forall|x: Seq<char>| #[trigger] f1.contains(x) implies depends(
                                g,
                                name@,
                                x,
                            ) by {
                                if !f0.contains(x) {
                                    assert(names(g, t@, x));
                                    law_depends_transitive(g, name@, t@, x);
                                }
                            }
                            assert forall|x: Seq<char>, y: Seq<char>|
                                f1.contains(x) && #[trigger] names(g, x, y) implies f1.contains(y)
                                || texts(todo@).contains(x) by {
                                if x == t@ {
                                    assert(w.contains(y));
                                } else if f0.contains(x) {
                                    assert(f0.contains(y) || full.contains(x));
                                } else {
                                    assert(w.contains(x));
                                }
                            }
                            lemma_fewer_left(modules@, name@, f0, f1);
                        }
                    },
                    None => {
                        assert forall|x: Seq<char>, y: Seq<char>|
                            f0.contains(x) && #[trigger] names(g, x, y) implies f0.contains(y)
                            || left.contains(x) by {
                            assert(f0.contains(y) || full.contains(x));
                        }
                    },
                }
            },
        }
    }
    proof {
        let f = texts(found@).to_set();
        assert(closed(g, name@, f));
        assert forall|x: Seq<char>| #[trigger] texts(found@).contains(x) == depends(
            g,
            name@,
            x,
        ) by {
            assert(f.contains(x) == texts(found@).contains(x));
            if depends(g, name@, x) {
                let n = choose|n: nat| reach(g, name@, x, n);
                lemma_closed(g, name@, f, name@, x, n);
            }
        }
    }
    found
}

/// Finding more leaves less to find.
proof fn lemma_fewer_left(
    ms: Seq<ModuleDef>,
    name: Seq<char>,
    few: Set<Seq<char>>,
    more: Set<Seq<char>>,
)
    requires
        few.subset_of(more),
        forall|x: Seq<char>| #[trigger] more.contains(x) ==> depends(graph_of(ms), name, x),
    ensures
        more == few || all_named(ms).difference(more).len() < all_named(ms).difference(few).len(),
{
    lemma_all_named(ms);
    let all = all_named(ms);
    if more != few {
        assert(exists|x: Seq<char>| more.contains(x) && !few.contains(x)) by {
            if forall|x: Seq<char>| more.contains(x) ==> few.contains(x) {
                assert(more =~= few);
            }
        }
        let x = choose|x: Seq<char>| more.contains(x) && !few.contains(x);
        let n = choose|n: nat| reach(graph_of(ms), name, x, n);
        lemma_reached_is_named(ms, name, x, n);
        let a = all.difference(few);
        let b = all.difference(more);
        assert(a.contains(x));
        assert(b.subset_of(a.remove(x)));
        vstd::set_lib::lemma_len_subset(b, a.remove(x));
    }
}

/// All that each module depends on, directly or through others, in order.
pub fn resolve_modules(modules: &Vec<ModuleDef>) -> (r: Vec<Vec<String>>)
    ensures
        r@.len() == modules@.len(),
        forall|i: int|
            0 <= i < r@.len() ==> is_closure(
                graph_of(modules@),
                modules@[i].name@,
                texts((#[trigger] r@[i])@),
            ),
{
    let ghost g = graph_of(modules@);
    let mut memo: Vec<Resolved> = Vec::new();
    let mut out: Vec<Vec<String>> = Vec::new();
    let mut i: usize = 0;
    while i < modules.len()
        invariant
            i <= modules@.len(),
            g == graph_of(modules@),
            memo_wf(memo@, g),
            out@.len() == i,
            forall|k: int|
                0 <= k < i ==> is_closure(g, modules@[k].name@, texts((#[trigger] out@[k])@)),
        decreases modules.len() - i,
    {
        let deps = resolve_deep(modules[i].name.as_str(), modules, &memo);
        let entry = Resolved { name: modules[i].name.clone(), deps: copy_texts(&deps) };
        memo.push(entry);
        out.push(deps);
        i = i + 1;
    }
    out
}

} // verus!
