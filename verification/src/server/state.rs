//! What the server keeps in memory: its projects, and completions that were
//! computed before.

use lru::LruCache;
use std::num::NonZeroUsize;
use vstd::hash_map::StringHashMap;
use vstd::prelude::*;

pub use super::graph::AssetGraph;
#[allow(unused_imports)]
use crate::text::trim;
use crate::text::{str_eq, trim_string};

verus! {

/// What the server knows of a project.
#[derive(Debug, Clone)]
pub struct ProjectContext {
    pub db_path: String,
    pub cache_db_path: Option<String>,
    pub vcs_hash: Option<String>,
    /// When it was last refreshed, in nanoseconds since the server started.
    pub last_refresh_at: u64,
}

/// How many completions are kept.
pub const COMPLETION_CACHE_CAPACITY: usize = 50_000;

// ---------------------------------------------------------------------------
// The cache of entries
// ---------------------------------------------------------------------------
/// The `lru` crate's cache.
#[verifier::external_type_specification]
#[verifier::external_body]
#[verifier::reject_recursive_types(K)]
#[verifier::reject_recursive_types(V)]
#[verifier::reject_recursive_types(S)]
pub struct ExLruCache<K, V, S>(lru::LruCache<K, V, S>);

/// The hasher that the `lru` crate uses unless told otherwise.
#[verifier::external_type_specification]
#[verifier::external_body]
pub struct ExDefaultHasher(lru::DefaultHasher);

/// What the cache holds, the entry that was used last at the front: the class and
/// the prefix, then the value and how often it was asked for.
pub uninterp spec fn lru_entries(c: LruCache<(String, String), (String, u64)>) -> Seq<
    ((Seq<char>, Seq<char>), (Seq<char>, u64)),
>;

/// How many entries the cache was made for.
pub uninterp spec fn lru_limit(c: LruCache<(String, String), (String, u64)>) -> usize;

/// The place of a key among the entries from `i` on.
pub open spec fn place_from(
    s: Seq<((Seq<char>, Seq<char>), (Seq<char>, u64))>,
    key: (Seq<char>, Seq<char>),
    i: int,
) -> Option<int>
    decreases s.len() - i,
{
    if i < 0 || i >= s.len() {
        None
    } else if s[i].0 == key {
        Some(i)
    } else {
        place_from(s, key, i + 1)
    }
}

/// The place of a key.
pub open spec fn place(
    s: Seq<((Seq<char>, Seq<char>), (Seq<char>, u64))>,
    key: (Seq<char>, Seq<char>),
) -> Option<int> {
    place_from(s, key, 0)
}

/// The entries once the key has got the given value: it stands in front, and where
/// it is new and there are `limit` others, the last of them is gone.
pub open spec fn after_put(
    s: Seq<((Seq<char>, Seq<char>), (Seq<char>, u64))>,
    limit: int,
    key: (Seq<char>, Seq<char>),
    entry: (Seq<char>, u64),
) -> Seq<((Seq<char>, Seq<char>), (Seq<char>, u64))> {
    let front = seq![(key, entry)];
    match place(s, key) {
        Some(i) => front + s.remove(i),
        None => if s.len() == limit {
            front + s.drop_last()
        } else {
            front + s
        },
    }
}

/// The entries without the key.
pub open spec fn after_pop(
    s: Seq<((Seq<char>, Seq<char>), (Seq<char>, u64))>,
    key: (Seq<char>, Seq<char>),
) -> Seq<((Seq<char>, Seq<char>), (Seq<char>, u64))> {
    match place(s, key) {
        Some(i) => s.remove(i),
        None => s,
    }
}

/// `lru::LruCache::new`: an empty cache for so many entries.
#[verifier::external_body]
fn lru_new(capacity: usize) -> (r: LruCache<(String, String), (String, u64)>)
    requires
        0 < capacity <= COMPLETION_CACHE_CAPACITY,
    ensures
        lru_entries(r) == Seq::<((Seq<char>, Seq<char>), (Seq<char>, u64))>::empty(),
        lru_limit(r) == capacity,
{
    LruCache::new(NonZeroUsize::new(capacity).unwrap())
}

/// `lru::LruCache::get_mut`: the entry of the key, open to change, which moves to
/// the front; nothing where there is none.
#[verifier::external_body]
fn lru_get_mut<'a>(
    c: &'a mut LruCache<(String, String), (String, u64)>,
    key: &(String, String),
) -> (r: Option<&'a mut (String, u64)>)
    ensures
        lru_limit(*final(c)) == lru_limit(*old(c)),
        r is Some == place(lru_entries(*old(c)), (key.0@, key.1@)) is Some,
        match r {
            Some(e) => {
                let s = lru_entries(*old(c));
                let i = place(s, (key.0@, key.1@)).unwrap();
                &&& s[i].1 == ((*e).0@, (*e).1)
                &&& lru_entries(*final(c)) == seq![
                    ((key.0@, key.1@), ((*final(e)).0@, (*final(e)).1)),
                ] + s.remove(i)
            },
            None => lru_entries(*final(c)) == lru_entries(*old(c)),
        },
{
    c.get_mut(key)
}

/// `lru::LruCache::put`: the key gets the entry and stands in front; where it is
/// new and the cache is full, the entry used longest ago is dropped.
#[verifier::external_body]
fn lru_put(
    c: &mut LruCache<(String, String), (String, u64)>,
    key: (String, String),
    entry: (String, u64),
)
    ensures
        lru_limit(*final(c)) == lru_limit(*old(c)),
        lru_entries(*final(c)) == after_put(
            lru_entries(*old(c)),
            lru_limit(*old(c)) as int,
            (key.0@, key.1@),
            (entry.0@, entry.1),
        ),
{
    c.put(key, entry);
}

/// `lru::LruCache::pop`: the key is removed, if it is there.
#[verifier::external_body]
fn lru_pop(c: &mut LruCache<(String, String), (String, u64)>, key: &(String, String))
    ensures
        lru_limit(*final(c)) == lru_limit(*old(c)),
        lru_entries(*final(c)) == after_pop(lru_entries(*old(c)), (key.0@, key.1@)),
{
    c.pop(key);
}

/// `lru::LruCache::clear`: every entry is removed.
#[verifier::external_body]
fn lru_clear(c: &mut LruCache<(String, String), (String, u64)>)
    ensures
        lru_limit(*final(c)) == lru_limit(*old(c)),
        lru_entries(*final(c)) == Seq::<((Seq<char>, Seq<char>), (Seq<char>, u64))>::empty(),
{
    c.clear();
}

/// `lru::LruCache::len`: how many entries there are.
#[verifier::external_body]
fn lru_len(c: &LruCache<(String, String), (String, u64)>) -> (r: usize)
    ensures
        r == lru_entries(*c).len(),
{
    c.len()
}

// ---------------------------------------------------------------------------
// Completions
// ---------------------------------------------------------------------------
/// The completions of the classes, each for what was typed.
pub struct CompletionCache {
    lru: LruCache<(String, String), (String, u64)>,
    class_to_keys: StringHashMap<Vec<(String, String)>>,
}

/// What is cached, and which keys were put in for each class.
pub struct CacheView {
    pub entries: Seq<((Seq<char>, Seq<char>), (Seq<char>, u64))>,
    pub limit: int,
    pub classes: Map<Seq<char>, Seq<(Seq<char>, Seq<char>)>>,
}

/// The keys as texts.
pub open spec fn keys_view(v: Seq<(String, String)>) -> Seq<(Seq<char>, Seq<char>)> {
    v.map_values(|k: (String, String)| (k.0@, k.1@))
}

/// The key of a class and of what was typed: blanks around them do not count.
pub open spec fn completion_key(class_name: Seq<char>, prefix: Seq<char>) -> (Seq<char>, Seq<char>) {
    (trim(class_name), trim(prefix))
}

/// The entries without the first `n` of the keys.
pub open spec fn after_pops(
    s: Seq<((Seq<char>, Seq<char>), (Seq<char>, u64))>,
    keys: Seq<(Seq<char>, Seq<char>)>,
    n: int,
) -> Seq<((Seq<char>, Seq<char>), (Seq<char>, u64))>
    decreases n,
{
    if n <= 0 {
        s
    } else {
        after_pop(after_pops(s, keys, n - 1), keys[n - 1])
    }
}

impl CacheView {
    /// No key stands twice, there are no more entries than the limit, every entry
    /// is listed under its class, and only keys of a class are listed under it.
    pub open spec fn consistent(self) -> bool {
        &&& self.limit > 0
        &&& self.entries.len() <= self.limit
        &&& forall|i: int, j: int|
            0 <= i < j < self.entries.len() ==> (#[trigger] self.entries[i]).0 != (
            #[trigger] self.entries[j]).0
        &&& forall|i: int|
            0 <= i < self.entries.len() ==> self.registered((#[trigger] self.entries[i]).0)
        &&& forall|c: Seq<char>, key: (Seq<char>, Seq<char>)|
            self.classes.contains_key(c) && #[trigger] self.classes[c].contains(key) ==> key.0 == c
    }

    /// The key is listed under its class.
    pub open spec fn registered(self, key: (Seq<char>, Seq<char>)) -> bool {
        self.classes.contains_key(key.0) && self.classes[key.0].contains(key)
    }

    /// The value that is cached for the key.
    pub open spec fn value_of(self, key: (Seq<char>, Seq<char>)) -> Option<Seq<char>> {
        match place(self.entries, key) {
            Some(i) => Some(self.entries[i].1.0),
            None => None,
        }
    }

    /// The cache once the key was asked for.
    pub open spec fn asked(self, key: (Seq<char>, Seq<char>)) -> CacheView {
        match place(self.entries, key) {
            Some(i) => CacheView {
                entries: seq![
                    (key, (self.entries[i].1.0, self.entries[i].1.1.wrapping_add(1))),
                ] + self.entries.remove(i),
                ..self
            },
            None => self,
        }
    }

    /// The keys that are listed under the class.
    pub open spec fn keys_for(self, class_name: Seq<char>) -> Seq<(Seq<char>, Seq<char>)> {
        if self.classes.contains_key(class_name) {
            self.classes[class_name]
        } else {
            seq![]
        }
    }

    /// The cache once a value was put in.
    pub open spec fn with_value(
        self,
        class_name: Seq<char>,
        prefix: Seq<char>,
        value: Seq<char>,
    ) -> CacheView {
        let key = completion_key(class_name, prefix);
        let keys = self.keys_for(key.0);
        CacheView {
            entries: after_put(self.entries, self.limit, key, (value, 1)),
            limit: self.limit,
            classes: self.classes.insert(
                key.0,
                if keys.contains(key) {
                    keys
                } else {
                    keys.push(key)
                },
            ),
        }
    }

    /// The cache without what was put in for the class. Blanks around its name do
    /// not count.
    pub open spec fn without_class(self, class_name: Seq<char>) -> CacheView {
        let keys = self.keys_for(trim(class_name));
        CacheView {
            entries: after_pops(self.entries, keys, keys.len() as int),
            limit: self.limit,
            classes: self.classes.remove(trim(class_name)),
        }
    }
}

impl View for CompletionCache {
    type V = CacheView;

    closed spec fn view(&self) -> CacheView {
        CacheView {
            entries: lru_entries(self.lru),
            limit: lru_limit(self.lru) as int,
            classes: self.class_to_keys@.map_values(|v: Vec<(String, String)>| keys_view(v@)),
        }
    }
}

/// The key of a class and of what was typed.
fn make_completion_key(class_name: &str, prefix: &str) -> (r: (String, String))
    ensures
        (r.0@, r.1@) == completion_key(class_name@, prefix@),
{
    (trim_string(class_name), trim_string(prefix))
}

/// Whether the list has the key.
fn has_key(keys: &Vec<(String, String)>, key: &(String, String)) -> (r: bool)
    ensures
        r == keys_view(keys@).contains((key.0@, key.1@)),
{
    let ghost all = keys_view(keys@);
    let mut i: usize = 0;
    while i < keys.len()
        invariant
            i <= keys@.len(),
            all == keys_view(keys@),
            forall|j: int| 0 <= j < i ==> #[trigger] all[j] != (key.0@, key.1@),
        decreases keys.len() - i,
    {
        assert(all[i as int] == (keys@[i as int].0@, keys@[i as int].1@));
        if str_eq(keys[i].0.as_str(), key.0.as_str()) && str_eq(
            keys[i].1.as_str(),
            key.1.as_str(),
        ) {
            return true;
        }
        i = i + 1;
    }
    false
}

/// A copy of a key.
fn copy_key(key: &(String, String)) -> (r: (String, String))
    ensures
        r.0@ == key.0@,
        r.1@ == key.1@,
{
    (key.0.clone(), key.1.clone())
}

/// A copy of a list of keys.
fn copy_keys(keys: &Vec<(String, String)>) -> (r: Vec<(String, String)>)
    ensures
        keys_view(r@) == keys_view(keys@),
{
    let mut out: Vec<(String, String)> = Vec::new();
    let mut i: usize = 0;
    assert(keys_view(out@) =~= keys_view(keys@).take(0));
    while i < keys.len()
        invariant
            i <= keys@.len(),
            keys_view(out@) == keys_view(keys@).take(i as int),
        decreases keys.len() - i,
    {
        let k = copy_key(&keys[i]);
        let ghost before = keys_view(out@);
        out.push(k);
        assert(keys_view(out@) =~= before.push((k.0@, k.1@)));
        assert(keys_view(out@) =~= keys_view(keys@).take(i + 1));
        i = i + 1;
    }
    assert(keys_view(keys@).take(keys@.len() as int) =~= keys_view(keys@));
    out
}

impl CompletionCache {
    /// An empty cache.
    pub fn new() -> (r: CompletionCache)
        ensures
            r@.consistent(),
            r@.entries.len() == 0,
            r@.limit == COMPLETION_CACHE_CAPACITY,
            r@.classes == Map::<Seq<char>, Seq<(Seq<char>, Seq<char>)>>::empty(),
    {
        let r = CompletionCache {
            lru: lru_new(COMPLETION_CACHE_CAPACITY),
            class_to_keys: StringHashMap::new(),
        };
        assert(r@.classes =~= Map::empty());
        r
    }

    /// The value that is cached for a class and what was typed.
    pub fn get(&mut self, class_name: &str, prefix: &str) -> (r: Option<String>)
        ensures
            final(self)@ == old(self)@.asked(completion_key(class_name@, prefix@)),
            old(self)@.consistent() ==> final(self)@.consistent(),
            match r {
                Some(v) => old(self)@.value_of(completion_key(class_name@, prefix@)) == Some(v@),
                None => old(self)@.value_of(completion_key(class_name@, prefix@)) is None,
            },
    {
        let key = make_completion_key(class_name, prefix);
        proof {
            let kv = completion_key(class_name@, prefix@);
            if self@.consistent() {
                law_asking_keeps_values(self@, kv, kv);
            }
        }
        match lru_get_mut(&mut self.lru, &key) {
            Some(entry) => {
                entry.1 = entry.1.wrapping_add(1);
                Some(entry.0.clone())
            },
            None => None,
        }
    }

    /// Puts in the value for a class and what was typed.
    pub fn put(&mut self, class_name: &str, prefix: &str, value: String)
        ensures
            final(self)@ == old(self)@.with_value(class_name@, prefix@, value@),
            old(self)@.consistent() ==> final(self)@.consistent(),
    {
        let key = make_completion_key(class_name, prefix);
        let ghost kv = (key.0@, key.1@);
        let ghost before = self@;
        proof {
            if before.consistent() {
                law_found_after_put(before, class_name@, prefix@, value@, kv);
            }
        }
        let mut keys: Vec<(String, String)> = match self.class_to_keys.get(key.0.as_str()) {
            Some(keys) => copy_keys(keys),
            None => Vec::new(),
        };
        assert(keys_view(keys@) =~= before.keys_for(kv.0));
        let ghost listed = keys_view(keys@);
        if !has_key(&keys, &key) {
            let k = copy_key(&key);
            keys.push(k);
            assert(keys_view(keys@) =~= listed.push(kv));
        }
        self.class_to_keys.insert(key.0.clone(), keys);
        assert(self@.classes =~= before.with_value(class_name@, prefix@, value@).classes);
        lru_put(&mut self.lru, key, (value, 1));
        assert(self@.classes =~= before.with_value(class_name@, prefix@, value@).classes);
    }

    /// Drops what was put in for a class.
    pub fn invalidate_class(&mut self, class_name: &str)
        ensures
            final(self)@ == old(self)@.without_class(class_name@),
            old(self)@.consistent() ==> final(self)@.consistent(),
            old(self)@.consistent() ==> forall|key: (Seq<char>, Seq<char>)| #[trigger]
                final(self)@.value_of(key) == (if key.0 == trim(class_name@) {
                    None
                } else {
                    old(self)@.value_of(key)
                }),
    {
        let ghost before = self@;
        proof {
            if before.consistent() {
                assert forall|key: (Seq<char>, Seq<char>)| #[trigger]
                    before.without_class(class_name@).value_of(key) == (if key.0 == trim(
                        class_name@,
                    ) {
                        None
                    } else {
                        before.value_of(key)
                    }) by {
                    law_dropped_class(before, class_name@, key);
                }
                law_dropped_class(before, class_name@, (class_name@, class_name@));
            }
        }
        let name = trim_string(class_name);
        let keys: Vec<(String, String)> = match self.class_to_keys.get(name.as_str()) {
            Some(keys) => copy_keys(keys),
            None => {
                assert(self@.without_class(class_name@).classes =~= self@.classes);
                return;
            },
        };
        assert(keys_view(keys@) =~= before.keys_for(name@));
        self.class_to_keys.remove(name.as_str());
        let ghost removed = before.classes.remove(name@);
        assert(self@.classes =~= removed);
        let ghost kv = keys_view(keys@);
        let mut i: usize = 0;
        while i < keys.len()
            invariant
                i <= keys@.len(),
                kv == keys_view(keys@),
                self@.entries == after_pops(before.entries, kv, i as int),
                self@.limit == before.limit,
                self@.classes == removed,
            decreases keys.len() - i,
        {
            assert(kv[i as int] == (keys@[i as int].0@, keys@[i as int].1@));
            lru_pop(&mut self.lru, &keys[i]);
            i = i + 1;
        }
    }

    /// Drops everything.
    pub fn clear(&mut self)
        ensures
            final(self)@.entries.len() == 0,
            old(self)@.consistent() ==> final(self)@.consistent(),
            final(self)@.limit == old(self)@.limit,
            final(self)@.classes == Map::<Seq<char>, Seq<(Seq<char>, Seq<char>)>>::empty(),
    {
        lru_clear(&mut self.lru);
        self.class_to_keys.clear();
        assert(self@.classes =~= Map::empty());
    }

    /// How many values are cached.
    pub fn len(&self) -> (r: usize)
        ensures
            r == self@.entries.len(),
    {
        lru_len(&self.lru)
    }

    /// Whether nothing is cached.
    pub fn is_empty(&self) -> (r: bool)
        ensures
            r == (self@.entries.len() == 0),
    {
        lru_len(&self.lru) == 0
    }
}

// ---------------------------------------------------------------------------
// Laws
// ---------------------------------------------------------------------------
proof fn lemma_place(
    s: Seq<((Seq<char>, Seq<char>), (Seq<char>, u64))>,
    key: (Seq<char>, Seq<char>),
    i: int,
)
    requires
        0 <= i <= s.len(),
    ensures
        match place_from(s, key, i) {
            Some(k) => i <= k < s.len() && s[k].0 == key && (forall|j: int|
                i <= j < k ==> (#[trigger] s[j]).0 != key),
            None => forall|j: int| i <= j < s.len() ==> (#[trigger] s[j]).0 != key,
        },
    decreases s.len() - i,
{
    if i < s.len() && s[i].0 != key {
        lemma_place(s, key, i + 1);
    }
}

/// No key stands twice.
pub open spec fn distinct_keys(s: Seq<((Seq<char>, Seq<char>), (Seq<char>, u64))>) -> bool {
    forall|i: int, j: int|
        0 <= i < j < s.len() ==> (#[trigger] s[i]).0 != (#[trigger] s[j]).0
}

proof fn lemma_found(
    s: Seq<((Seq<char>, Seq<char>), (Seq<char>, u64))>,
    key: (Seq<char>, Seq<char>),
    k: int,
)
    requires
        distinct_keys(s),
        0 <= k < s.len(),
        s[k].0 == key,
    ensures
        place(s, key) == Some(k),
{
    lemma_place(s, key, 0);
}

/// The entries without the one at `i` have distinct keys, and every other key has
/// the value that it had.
proof fn lemma_remove(s: Seq<((Seq<char>, Seq<char>), (Seq<char>, u64))>, i: int)
    requires
        distinct_keys(s),
        0 <= i < s.len(),
    ensures
        distinct_keys(s.remove(i)),
        place(s.remove(i), s[i].0) is None,
        forall|j: int|
            0 <= j < s.len() && j != i ==> #[trigger] s[j] == s.remove(i)[if j < i {
                j
            } else {
                j - 1
            }],
        forall|j: int|
            0 <= j < s.len() - 1 ==> #[trigger] s.remove(i)[j] == s[if j < i {
                j
            } else {
                j + 1
            }],
{
    let t = s.remove(i);
    lemma_place(t, s[i].0, 0);
    if let Some(k) = place(t, s[i].0) {
        assert(t[k] == s[if k < i { k } else { k + 1 }]);
    }
}

/// The value of a key among the entries.
pub open spec fn value_in(
    s: Seq<((Seq<char>, Seq<char>), (Seq<char>, u64))>,
    key: (Seq<char>, Seq<char>),
) -> Option<Seq<char>> {
    match place(s, key) {
        Some(i) => Some(s[i].1.0),
        None => None,
    }
}

proof fn lemma_remove_value(
    s: Seq<((Seq<char>, Seq<char>), (Seq<char>, u64))>,
    i: int,
    other: (Seq<char>, Seq<char>),
)
    requires
        distinct_keys(s),
        0 <= i < s.len(),
        other != s[i].0,
    ensures
        value_in(s.remove(i), other) == value_in(s, other),
{
    let t = s.remove(i);
    lemma_remove(s, i);
    lemma_place(s, other, 0);
    lemma_place(t, other, 0);
    match place(s, other) {
        Some(k) => {
            let m = if k < i { k } else { k - 1 };
            assert(t[m] == s[k]);
            lemma_found(t, other, m);
        },
        None => {
            if let Some(m) = place(t, other) {
                assert(t[m] == s[if m < i { m } else { m + 1 }]);
            }
        },
    }
}

proof fn lemma_front(
    s: Seq<((Seq<char>, Seq<char>), (Seq<char>, u64))>,
    e: ((Seq<char>, Seq<char>), (Seq<char>, u64)),
    other: (Seq<char>, Seq<char>),
)
    requires
        distinct_keys(s),
        place(s, e.0) is None,
    ensures
        distinct_keys(seq![e] + s),
        value_in(seq![e] + s, other) == (if other == e.0 {
            Some(e.1.0)
        } else {
            value_in(s, other)
        }),
{
    let t = seq![e] + s;
    lemma_place(s, e.0, 0);
    lemma_place(s, other, 0);
    lemma_place(t, other, 0);
    assert forall|i: int, j: int| 0 <= i < j < t.len() implies (#[trigger] t[i]).0 != (
    #[trigger] t[j]).0 by {
        assert(t[j] == s[j - 1]);
        if i > 0 {
            assert(t[i] == s[i - 1]);
        }
    }
    if other == e.0 {
        assert(t[0] == e);
        lemma_found(t, other, 0);
    } else {
        match place(s, other) {
            Some(k) => {
                assert(t[k + 1] == s[k]);
                lemma_found(t, other, k + 1);
            },
            None => {
                if let Some(m) = place(t, other) {
                    if m == 0 {
                        assert(t[0] == e);
                    } else {
                        assert(t[m] == s[m - 1]);
                    }
                }
            },
        }
    }
}

/// Asking for a value changes no value, and keeps the cache consistent.
pub proof fn law_asking_keeps_values(
    v: CacheView,
    key: (Seq<char>, Seq<char>),
    other: (Seq<char>, Seq<char>),
)
    requires
        v.consistent(),
    ensures
        v.asked(key).value_of(other) == v.value_of(other),
        v.asked(key).consistent(),
{
    lemma_place(v.entries, key, 0);
    match place(v.entries, key) {
        Some(i) => {
            let s = v.entries;
            let e = (key, (s[i].1.0, s[i].1.1.wrapping_add(1)));
            lemma_remove(s, i);
            lemma_front(s.remove(i), e, other);
            if other != key {
                lemma_remove_value(s, i, other);
            }
            let w = v.asked(key);
            assert forall|j: int| 0 <= j < w.entries.len() implies w.registered(
                (#[trigger] w.entries[j]).0,
            ) by {
                let from = if j == 0 {
                    i
                } else if j - 1 < i {
                    j - 1
                } else {
                    j
                };
                assert(w.entries[j].0 == s[from].0);
                assert(v.registered(s[from].0));
            }
        },
        None => {},
    }
}

/// What was put in is what is found; every other value stays, but for the one used
/// longest ago where the cache is full and the key is new.
pub proof fn law_found_after_put(
    v: CacheView,
    class_name: Seq<char>,
    prefix: Seq<char>,
    value: Seq<char>,
    other: (Seq<char>, Seq<char>),
)
    requires
        v.consistent(),
    ensures
        ({
            let key = completion_key(class_name, prefix);
            let w = v.with_value(class_name, prefix, value);
            &&& w.consistent()
            &&& w.value_of(key) == Some(value)
            &&& other != key && (v.value_of(key) is Some || v.entries.len() < v.limit
                || v.entries.last().0 != other) ==> w.value_of(other) == v.value_of(other)
        }),
{
    let key = completion_key(class_name, prefix);
    let w = v.with_value(class_name, prefix, value);
    let s = v.entries;
    let e = (key, (value, 1u64));
    lemma_place(s, key, 0);
    match place(s, key) {
        Some(i) => {
            lemma_remove(s, i);
            lemma_front(s.remove(i), e, key);
            lemma_front(s.remove(i), e, other);
            if other != key {
                lemma_remove_value(s, i, other);
            }
        },
        None => {
            if s.len() == v.limit {
                let n = s.len() - 1;
                assert(s.drop_last() =~= s.remove(n));
                lemma_remove(s, n);
                lemma_place(s.remove(n), key, 0);
                if let Some(k) = place(s.remove(n), key) {
                    assert(s.remove(n)[k] == s[k]);
                }
                lemma_front(s.remove(n), e, key);
                lemma_front(s.remove(n), e, other);
                if other != key && s.last().0 != other {
                    lemma_remove_value(s, n, other);
                }
            } else {
                lemma_front(s, e, key);
                lemma_front(s, e, other);
            }
        },
    }
    lemma_put_registered(v, class_name, prefix, value);
}

proof fn lemma_put_registered(
    v: CacheView,
    class_name: Seq<char>,
    prefix: Seq<char>,
    value: Seq<char>,
)
    requires
        v.consistent(),
    ensures
        ({
            let w = v.with_value(class_name, prefix, value);
            &&& forall|j: int|
                0 <= j < w.entries.len() ==> w.registered((#[trigger] w.entries[j]).0)
            &&& w.registered(completion_key(class_name, prefix))
            &&& w.entries.len() <= w.limit
            &&& forall|c: Seq<char>, key: (Seq<char>, Seq<char>)|
                w.classes.contains_key(c) && #[trigger] w.classes[c].contains(key) ==> key.0 == c
        }),
{
    let key = completion_key(class_name, prefix);
    let w = v.with_value(class_name, prefix, value);
    let s = v.entries;
    let keys = v.keys_for(key.0);
    lemma_place(s, key, 0);
    if !keys.contains(key) {
        assert(keys.push(key)[keys.len() as int] == key);
    }
    assert(w.classes[key.0].contains(key));
    assert forall|c: Seq<char>, k: (Seq<char>, Seq<char>)|
        w.classes.contains_key(c) && #[trigger] w.classes[c].contains(k) implies k.0 == c by {
        if c == key.0 {
            if k != key {
                let m = choose|m: int| 0 <= m < w.classes[c].len() && w.classes[c][m] == k;
                assert(keys[m] == k);
                assert(v.classes.contains_key(c) && v.classes[c].contains(k));
            }
        } else {
            assert(v.classes[c].contains(k));
        }
    }
    assert forall|j: int| 0 <= j < w.entries.len() implies w.registered(
        (#[trigger] w.entries[j]).0,
    ) by {
        if j == 0 {
            assert(w.entries[0].0 == key);
        } else {
            let from = match place(s, key) {
                Some(i) => if j - 1 < i {
                    j - 1
                } else {
                    j
                },
                None => j - 1,
            };
            assert(w.entries[j].0 == s[from].0);
            let c = s[from].0.0;
            assert(v.registered(s[from].0));
            if c == key.0 && !keys.contains(key) {
                let m = choose|m: int| 0 <= m < keys.len() && keys[m] == s[from].0;
                assert(w.classes[c][m] == s[from].0);
            }
        }
    }
}

proof fn lemma_after_pops(
    s: Seq<((Seq<char>, Seq<char>), (Seq<char>, u64))>,
    keys: Seq<(Seq<char>, Seq<char>)>,
    n: int,
    other: (Seq<char>, Seq<char>),
)
    requires
        distinct_keys(s),
        0 <= n <= keys.len(),
    ensures
        distinct_keys(after_pops(s, keys, n)),
        after_pops(s, keys, n).len() <= s.len(),
        value_in(after_pops(s, keys, n), other) == (if keys.take(n).contains(other) {
            None
        } else {
            value_in(s, other)
        }),
        forall|j: int|
            0 <= j < after_pops(s, keys, n).len() ==> s.contains(
                #[trigger] after_pops(s, keys, n)[j],
            ),
    decreases n,
{
    if n > 0 {
        lemma_after_pops(s, keys, n - 1, other);
        let b = after_pops(s, keys, n - 1);
        let a = after_pops(s, keys, n);
        let key = keys[n - 1];
        lemma_place(b, key, 0);
        let few = keys.take(n - 1);
        let more = keys.take(n);
        assert(more =~= few.push(key));
        assert(more.contains(other) == (few.contains(other) || other == key)) by {
            if few.contains(other) {
                let k = choose|k: int| 0 <= k < few.len() && few[k] == other;
                assert(more[k] == other);
            }
            if other == key {
                assert(more[n - 1] == other);
            }
            if more.contains(other) && other != key {
                let k = choose|k: int| 0 <= k < more.len() && more[k] == other;
                assert(few[k] == other);
            }
        }
        match place(b, key) {
            Some(i) => {
                lemma_remove(b, i);
                if other != key {
                    lemma_remove_value(b, i, other);
                }
                assert forall|j: int| 0 <= j < a.len() implies s.contains(#[trigger] a[j]) by {
                    assert(a[j] == b[if j < i { j } else { j + 1 }]);
                }
            },
            None => {},
        }
    } else {
        assert(!keys.take(0).contains(other));
        assert forall|j: int| 0 <= j < s.len() implies s.contains(#[trigger] s[j]) by {}
    }
}

/// Nothing of a class is found once the class was dropped, and every other value
/// stays.
pub proof fn law_dropped_class(
    v: CacheView,
    class_name: Seq<char>,
    key: (Seq<char>, Seq<char>),
)
    requires
        v.consistent(),
    ensures
        ({
            let w = v.without_class(class_name);
            &&& w.consistent()
            &&& w.value_of(key) == (if key.0 == trim(class_name) {
                None
            } else {
                v.value_of(key)
            })
        }),
{
    let w = v.without_class(class_name);
    let name = trim(class_name);
    let keys = v.keys_for(name);
    assert(keys.take(keys.len() as int) =~= keys);
    lemma_after_pops(v.entries, keys, keys.len() as int, key);
    assert(keys.contains(key) ==> key.0 == name) by {
        if keys.contains(key) {
            assert(v.classes[name].contains(key));
        }
    }
    if key.0 == name && !keys.contains(key) {
        lemma_place(v.entries, key, 0);
        if let Some(i) = place(v.entries, key) {
            assert(v.registered(v.entries[i].0));
        }
    }
    assert forall|c: Seq<char>, k: (Seq<char>, Seq<char>)|
        w.classes.contains_key(c) && #[trigger] w.classes[c].contains(k) implies k.0 == c by {
        assert(v.classes[c].contains(k));
    }
    assert forall|j: int| 0 <= j < w.entries.len() implies w.registered(
        (#[trigger] w.entries[j]).0,
    ) by {
        let k = w.entries[j].0;
        lemma_after_pops(v.entries, keys, keys.len() as int, k);
        lemma_found(w.entries, k, j);
        assert(v.entries.contains(w.entries[j]));
        let i = choose|i: int| 0 <= i < v.entries.len() && v.entries[i] == w.entries[j];
        assert(v.registered(v.entries[i].0));
        assert(k.0 != name);
    }
}

/// What was put in for a class is not found once the class was dropped.
pub proof fn law_put_then_dropped(
    v: CacheView,
    class_name: Seq<char>,
    prefix: Seq<char>,
    value: Seq<char>,
)
    requires
        v.consistent(),
    ensures
        v.with_value(class_name, prefix, value).without_class(class_name).value_of(
            completion_key(class_name, prefix),
        ) is None,
{
    let key = completion_key(class_name, prefix);
    law_found_after_put(v, class_name, prefix, value, key);
    lemma_put_registered(v, class_name, prefix, value);
    law_dropped_class(v.with_value(class_name, prefix, value), class_name, key);
}

} // verus!
