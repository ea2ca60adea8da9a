//! Which assets refer to what, derive from what, and call what.

use vstd::hash_map::StringHashMap;
use vstd::prelude::*;

use super::asset::AssetRecord;
#[allow(unused_imports)]
use super::asset::RecordView;
#[allow(unused_imports)]
use crate::order::ascending;
use crate::order::insert_ascending;
use crate::text::{chars_of, owned, str_eq, string_of, to_lower};
#[allow(unused_imports)]
use crate::text::{lower, texts};

verus! {

// ---------------------------------------------------------------------------
// One index
// ---------------------------------------------------------------------------
/// The assets of each name, in order.
pub struct AssetIndex {
    places: StringHashMap<usize>,
    lists: Vec<Vec<String>>,
}

impl View for AssetIndex {
    type V = Map<Seq<char>, Set<Seq<char>>>;

    closed spec fn view(&self) -> Map<Seq<char>, Set<Seq<char>>> {
        self.places@.map_values(|k: usize| texts(self.lists@[k as int]@).to_set())
    }
}

/// The assets of a name; none where the name is unknown.
pub open spec fn assets_of(m: Map<Seq<char>, Set<Seq<char>>>, name: Seq<char>) -> Set<Seq<char>> {
    if m.contains_key(name) {
        m[name]
    } else {
        Set::empty()
    }
}

/// The index once the asset stands under the name.
pub open spec fn with_asset(
    m: Map<Seq<char>, Set<Seq<char>>>,
    name: Seq<char>,
    asset: Seq<char>,
) -> Map<Seq<char>, Set<Seq<char>>> {
    m.insert(name, assets_of(m, name).insert(asset))
}

/// The index once the asset stands under the first `n` names, case aside.
pub open spec fn with_names(
    m: Map<Seq<char>, Set<Seq<char>>>,
    names: Seq<Seq<char>>,
    asset: Seq<char>,
    n: int,
) -> Map<Seq<char>, Set<Seq<char>>>
    decreases n,
{
    if n <= 0 {
        m
    } else {
        with_asset(with_names(m, names, asset, n - 1), lower(names[n - 1]), asset)
    }
}

/// The index without the asset; every name stays.
pub open spec fn without_asset(m: Map<Seq<char>, Set<Seq<char>>>, asset: Seq<char>) -> Map<
    Seq<char>,
    Set<Seq<char>>,
> {
    m.map_values(|s: Set<Seq<char>>| s.remove(asset))
}

/// The text in lower case.
fn lower_text(s: &str) -> (r: String)
    ensures
        r@ == lower(s@),
{
    let v = chars_of(s);
    let l = to_lower(v.as_slice());
    string_of(l.as_slice())
}

proof fn lemma_without(s: Seq<Seq<char>>, i: int, x: Seq<char>)
    requires
        ascending(s),
        0 <= i < s.len(),
        s[i] == x,
    ensures
        ascending(s.remove(i)),
        s.remove(i).to_set() == s.to_set().remove(x),
{
    let t = s.remove(i);
    assert forall|a: int, b: int| 0 <= a < b < t.len() implies crate::order::before(
        #[trigger] t[a],
        #[trigger] t[b],
    ) by {
        assert(t[a] == s[if a < i { a } else { a + 1 }]);
        assert(t[b] == s[if b < i { b } else { b + 1 }]);
    }
    assert forall|y: Seq<char>| t.to_set().contains(y) == s.to_set().remove(x).contains(y) by {
        if t.contains(y) {
            let k = choose|k: int| 0 <= k < t.len() && t[k] == y;
            let m = if k < i { k } else { k + 1 };
            assert(s[m] == y);
            assert(s.contains(y));
            if y == x {
                if m < i {
                    assert(crate::order::before(s[m], s[i]));
                } else {
                    assert(crate::order::before(s[i], s[m]));
                }
                crate::order::lemma_before_irreflexive(x);
            }
        }
        if s.contains(y) && y != x {
            let m = choose|m: int| 0 <= m < s.len() && s[m] == y;
            assert(t[if m < i { m } else { m - 1 }] == y);
            assert(t.contains(y));
        }
    }
    assert(t.to_set() =~= s.to_set().remove(x));
}

/// Takes a text out of an ascending list.
fn remove_text(list: &mut Vec<String>, s: &str)
    requires
        ascending(texts(old(list)@)),
    ensures
        ascending(texts(final(list)@)),
        texts(final(list)@).to_set() == texts(old(list)@).to_set().remove(s@),
{
    let ghost all = texts(list@);
    let mut i: usize = 0;
    while i < list.len()
        invariant
            i <= list@.len(),
            list@ == old(list)@,
            all == texts(list@),
            ascending(all),
            forall|j: int| 0 <= j < i ==> #[trigger] all[j] != s@,
        decreases list.len() - i,
    {
        assert(all[i as int] == list@[i as int]@);
        if str_eq(list[i].as_str(), s) {
            proof {
                lemma_without(all, i as int, s@);
            }
            list.remove(i);
            assert(texts(list@) =~= all.remove(i as int));
            return;
        }
        i = i + 1;
    }
    assert(!all.contains(s@));
    assert(all.to_set().remove(s@) =~= all.to_set());
}

impl AssetIndex {
    /// Each name has a list of its own, and every list is in order.
    pub closed spec fn wf(self) -> bool {
        &&& forall|k: Seq<char>| #[trigger]
            self.places@.contains_key(k) ==> self.places@[k] < self.lists@.len()
        &&& forall|a: Seq<char>, b: Seq<char>|
            #![trigger self.places@.contains_key(a), self.places@.contains_key(b)]
            self.places@.contains_key(a) && self.places@.contains_key(b) && a != b
                ==> self.places@[a] != self.places@[b]
        &&& forall|i: int| 0 <= i < self.lists@.len() ==> ascending(texts(#[trigger] self.lists@[i]@))
    }

    /// An index without names.
    pub fn new() -> (r: AssetIndex)
        ensures
            r.wf(),
            r@ == Map::<Seq<char>, Set<Seq<char>>>::empty(),
    {
        let r = AssetIndex { places: StringHashMap::new(), lists: Vec::new() };
        assert(r@ =~= Map::empty());
        r
    }

    /// The assets of a name, in order.
    pub fn get(&self, name: &str) -> (r: Option<&Vec<String>>)
        requires
            self.wf(),
        ensures
            match r {
                Some(list) => self@.contains_key(name@) && ascending(texts(list@)) && texts(
                    list@,
                ).to_set() == self@[name@],
                None => !self@.contains_key(name@),
            },
    {
        match self.places.get(name) {
            Some(k) => Some(&self.lists[*k]),
            None => None,
        }
    }

    /// Puts an asset under a name.
    pub fn add_asset(&mut self, name: &str, asset: &str)
        requires
            old(self).wf(),
        ensures
            final(self).wf(),
            final(self)@ == with_asset(old(self)@, name@, asset@),
    {
        let ghost before = *self;
        let place: Option<usize> = match self.places.get(name) {
            Some(k) => Some(*k),
            None => None,
        };
        match place {
            Some(k) => {
                let ghost had = self.lists@[k as int]@;
                insert_ascending(&mut self.lists[k], owned(asset));
                assert(self.lists@ =~= before.lists@.update(k as int, self.lists@[k as int]));
                assert forall|n: Seq<char>| #[trigger] self@.contains_key(n) implies self@[n]
                    == with_asset(before@, name@, asset@)[n] by {
                    if n != name@ {
                        assert(self.places@.contains_key(name@));
                    }
                }
                assert(self@ =~= with_asset(before@, name@, asset@));
            },
            None => {
                let k: usize = self.lists.len();
                let mut list: Vec<String> = Vec::new();
                assert(texts(list@) =~= Seq::<Seq<char>>::empty());
                insert_ascending(&mut list, owned(asset));
                assert(Seq::<Seq<char>>::empty().to_set() =~= Set::empty());
                self.lists.push(list);
                self.places.insert(owned(name), k);
                assert(self@ =~= with_asset(before@, name@, asset@));
            },
        }
    }

    /// Takes an asset out of every list.
    pub fn remove_asset(&mut self, asset: &str)
        requires
            old(self).wf(),
        ensures
            final(self).wf(),
            final(self)@ == without_asset(old(self)@, asset@),
    {
        let ghost before = *self;
        let mut i: usize = 0;
        while i < self.lists.len()
            invariant
                i <= self.lists@.len(),
                before.wf(),
                self.places == before.places,
                self.lists@.len() == before.lists@.len(),
                forall|j: int|
                    0 <= j < self.lists@.len() ==> ascending(texts(#[trigger] self.lists@[j]@)),
                forall|j: int|
                    0 <= j < i ==> texts((#[trigger] self.lists@[j])@).to_set() == texts(
                        before.lists@[j]@,
                    ).to_set().remove(asset@),
                forall|j: int| i <= j < self.lists@.len() ==> #[trigger] self.lists@[j]
                    == before.lists@[j],
            decreases self.lists.len() - i,
        {
            remove_text(&mut self.lists[i], asset);
            i = i + 1;
        }
        assert(self@ =~= without_asset(before@, asset@));
    }
}

// ---------------------------------------------------------------------------
// The graph
// ---------------------------------------------------------------------------
/// Which assets refer to what, derive from what, and call what.
pub struct AssetGraph {
    /// By what they refer to.
    pub references: AssetIndex,
    /// By the class they derive from.
    pub derived: AssetIndex,
    /// By the functions they name.
    pub functions: AssetIndex,
}

/// Which assets refer to what, derive from what, and call what.
pub struct GraphView {
    pub references: Map<Seq<char>, Set<Seq<char>>>,
    pub derived: Map<Seq<char>, Set<Seq<char>>>,
    pub functions: Map<Seq<char>, Set<Seq<char>>>,
}

impl View for AssetGraph {
    type V = GraphView;

    open spec fn view(&self) -> GraphView {
        GraphView {
            references: self.references@,
            derived: self.derived@,
            functions: self.functions@,
        }
    }
}

impl GraphView {
    /// The graph without assets.
    pub open spec fn empty() -> GraphView {
        GraphView { references: Map::empty(), derived: Map::empty(), functions: Map::empty() }
    }

    /// The graph once the asset of the record is in it.
    pub open spec fn with_record(self, r: RecordView) -> GraphView {
        let asset = lower(r.asset_path);
        GraphView {
            references: with_names(self.references, r.imports, asset, r.imports.len() as int),
            derived: match r.parent_class {
                Some(p) => with_asset(self.derived, lower(p), asset),
                None => self.derived,
            },
            functions: with_names(self.functions, r.functions, asset, r.functions.len() as int),
        }
    }

    /// The graph without the asset.
    pub open spec fn without(self, asset: Seq<char>) -> GraphView {
        GraphView {
            references: without_asset(self.references, asset),
            derived: without_asset(self.derived, asset),
            functions: without_asset(self.functions, asset),
        }
    }

    /// The graph with the asset of the record as it is now.
    pub open spec fn updated(self, r: RecordView) -> GraphView {
        self.without(lower(r.asset_path)).with_record(r)
    }
}

/// The graph of the first `n` records.
pub open spec fn graph_of(rs: Seq<AssetRecord>, n: int) -> GraphView
    decreases n,
{
    if n <= 0 {
        GraphView::empty()
    } else {
        graph_of(rs, n - 1).with_record(rs[n - 1]@)
    }
}

/// Puts an asset under each of the names, case aside.
fn add_names(index: &mut AssetIndex, names: &Vec<String>, asset: &str)
    requires
        old(index).wf(),
    ensures
        final(index).wf(),
        final(index)@ == with_names(old(index)@, texts(names@), asset@, names@.len() as int),
{
    let ghost before = index@;
    let ghost all = texts(names@);
    let mut i: usize = 0;
    while i < names.len()
        invariant
            i <= names@.len(),
            all == texts(names@),
            index.wf(),
            index@ == with_names(before, all, asset@, i as int),
        decreases names.len() - i,
    {
        assert(all[i as int] == names@[i as int]@);
        let name = lower_text(names[i].as_str());
        index.add_asset(name.as_str(), asset);
        i = i + 1;
    }
}

impl AssetGraph {
    /// Every index is in order.
    pub open spec fn wf(self) -> bool {
        self.references.wf() && self.derived.wf() && self.functions.wf()
    }

    /// A graph without assets.
    pub fn new() -> (r: AssetGraph)
        ensures
            r.wf(),
            r@ == GraphView::empty(),
    {
        AssetGraph {
            references: AssetIndex::new(),
            derived: AssetIndex::new(),
            functions: AssetIndex::new(),
        }
    }
}

impl Default for AssetGraph {
    fn default() -> (r: AssetGraph)
        ensures
            r.wf(),
            r@ == GraphView::empty(),
    {
        AssetGraph::new()
    }
}

/// Puts an asset into the graph.
pub fn insert_asset_record(graph: &mut AssetGraph, record: &AssetRecord)
    requires
        old(graph).wf(),
    ensures
        final(graph).wf(),
        final(graph)@ == old(graph)@.with_record(record@),
{
    let asset = lower_text(record.asset_path.as_str());
    match &record.parent_class {
        Some(p) => {
            let name = lower_text(p.as_str());
            graph.derived.add_asset(name.as_str(), asset.as_str());
        },
        None => {},
    }
    add_names(&mut graph.references, &record.imports, asset.as_str());
    add_names(&mut graph.functions, &record.functions, asset.as_str());
}

/// Takes an asset out of the graph.
pub fn remove_asset_from_graph(graph: &mut AssetGraph, asset_path: &str)
    requires
        old(graph).wf(),
    ensures
        final(graph).wf(),
        final(graph)@ == old(graph)@.without(lower(asset_path@)),
{
    let asset = lower_text(asset_path);
    graph.derived.remove_asset(asset.as_str());
    graph.references.remove_asset(asset.as_str());
    graph.functions.remove_asset(asset.as_str());
}

/// Puts an asset into the graph as it is now.
pub fn update_asset(graph: &mut AssetGraph, record: &AssetRecord)
    requires
        old(graph).wf(),
    ensures
        final(graph).wf(),
        final(graph)@ == old(graph)@.updated(record@),
{
    remove_asset_from_graph(graph, record.asset_path.as_str());
    insert_asset_record(graph, record);
}

/// The graph of the records.
pub fn build_asset_graph(records: &Vec<AssetRecord>) -> (r: AssetGraph)
    ensures
        r.wf(),
        r@ == graph_of(records@, records@.len() as int),
{
    let mut graph = AssetGraph::new();
    let mut i: usize = 0;
    while i < records.len()
        invariant
            i <= records@.len(),
            graph.wf(),
            graph@ == graph_of(records@, i as int),
        decreases records.len() - i,
    {
        insert_asset_record(&mut graph, &records[i]);
        i = i + 1;
    }
    graph
}

// ---------------------------------------------------------------------------
// Laws
// ---------------------------------------------------------------------------
/// The name is one of the names, case aside.
pub open spec fn named(names: Seq<Seq<char>>, name: Seq<char>, n: int) -> bool {
    exists|i: int| 0 <= i < n && lower(#[trigger] names[i]) == name
}

proof fn lemma_with_names(
    m: Map<Seq<char>, Set<Seq<char>>>,
    names: Seq<Seq<char>>,
    asset: Seq<char>,
    n: int,
    name: Seq<char>,
)
    requires
        0 <= n <= names.len(),
    ensures
        assets_of(with_names(m, names, asset, n), name) == (if named(names, name, n) {
            assets_of(m, name).insert(asset)
        } else {
            assets_of(m, name)
        }),
    decreases n,
{
    if n > 0 {
        lemma_with_names(m, names, asset, n - 1, name);
        let last = lower(names[n - 1]);
        if named(names, name, n - 1) {
            let i = choose|i: int| 0 <= i < n - 1 && lower(#[trigger] names[i]) == name;
            assert(lower(names[i]) == name);
            assert(named(names, name, n));
        }
        if last == name {
            assert(named(names, name, n));
        } else if named(names, name, n) {
            let i = choose|i: int| 0 <= i < n && lower(#[trigger] names[i]) == name;
            assert(i < n - 1);
            assert(named(names, name, n - 1));
        }
        assert(assets_of(m, name).insert(asset).insert(asset) =~= assets_of(m, name).insert(asset));
    }
}

/// An asset that was taken out stands under no name, and every other stands where
/// it stood.
pub proof fn law_removed_asset(g: GraphView, asset: Seq<char>, other: Seq<char>, name: Seq<char>)
    ensures
        ({
            let h = g.without(asset);
            &&& assets_of(h.references, name).contains(other) == (other != asset && assets_of(
                g.references,
                name,
            ).contains(other))
            &&& assets_of(h.derived, name).contains(other) == (other != asset && assets_of(
                g.derived,
                name,
            ).contains(other))
            &&& assets_of(h.functions, name).contains(other) == (other != asset && assets_of(
                g.functions,
                name,
            ).contains(other))
        }),
{
}

/// An asset that was put in stands under the names of its record, and every other
/// asset stands where it stood.
pub proof fn law_inserted_asset(g: GraphView, r: RecordView, other: Seq<char>, name: Seq<char>)
    ensures
        ({
            let h = g.with_record(r);
            let asset = lower(r.asset_path);
            &&& assets_of(h.references, name).contains(other) == (assets_of(
                g.references,
                name,
            ).contains(other) || other == asset && named(r.imports, name, r.imports.len() as int))
            &&& assets_of(h.functions, name).contains(other) == (assets_of(
                g.functions,
                name,
            ).contains(other) || other == asset && named(
                r.functions,
                name,
                r.functions.len() as int,
            ))
            &&& assets_of(h.derived, name).contains(other) == (assets_of(g.derived, name).contains(
                other,
            ) || other == asset && (match r.parent_class {
                Some(p) => lower(p) == name,
                None => false,
            }))
        }),
{
    lemma_with_names(
        g.references,
        r.imports,
        lower(r.asset_path),
        r.imports.len() as int,
        name,
    );
    lemma_with_names(
        g.functions,
        r.functions,
        lower(r.asset_path),
        r.functions.len() as int,
        name,
    );
}

/// After an update the asset stands under exactly the names of its record, whatever
/// the graph said of it before, and every other asset stands where it stood.
pub proof fn law_updated_asset(g: GraphView, r: RecordView, other: Seq<char>, name: Seq<char>)
    ensures
        ({
            let h = g.updated(r);
            let asset = lower(r.asset_path);
            &&& assets_of(h.references, name).contains(other) == (if other == asset {
                named(r.imports, name, r.imports.len() as int)
            } else {
                assets_of(g.references, name).contains(other)
            })
            &&& assets_of(h.functions, name).contains(other) == (if other == asset {
                named(r.functions, name, r.functions.len() as int)
            } else {
                assets_of(g.functions, name).contains(other)
            })
            &&& assets_of(h.derived, name).contains(other) == (if other == asset {
                match r.parent_class {
                    Some(p) => lower(p) == name,
                    None => false,
                }
            } else {
                assets_of(g.derived, name).contains(other)
            })
        }),
{
    let asset = lower(r.asset_path);
    law_removed_asset(g, asset, other, name);
    law_inserted_asset(g.without(asset), r, other, name);
}

} // verus!
