//! Paths in the index: the parts of which directories are made, and the path
//! that the parts give back.

use vstd::prelude::*;

use crate::text::{chars_of, concat, owned, push_str, replace_char, str_eq, string_of};
#[allow(unused_imports)]
use crate::text::{swap_char, texts};

verus! {

/// What separates the parts of a path in the index.
pub const DB_PATH_SEPARATOR: &'static str = "/";

/// The paths of all directories, as a query that others begin with.
pub const PATH_CTE: &'static str = "
    WITH RECURSIVE dir_paths(id, full_path) AS (
        SELECT
            d.id,
            s.text
        FROM directories d
        JOIN strings s ON d.name_id = s.id
        WHERE d.parent_id IS NULL

        UNION ALL

        SELECT
            d.id,
            CASE
                WHEN dp.full_path = '/'
                    THEN '/' || s.text
                WHEN s.text = '/'
                    THEN dp.full_path || '/'
                ELSE dp.full_path || '/' || s.text
            END
        FROM directories d
        JOIN dir_paths dp ON d.parent_id = dp.id
        JOIN strings s ON d.name_id = s.id
    )
";

/// The files with their paths, as a query that follows the paths of the
/// directories.
pub const FILE_PATH_SELECT: &'static str = "
    SELECT
        f.*,
        CASE
            WHEN dp.full_path = ''
                THEN sn.text
            WHEN dp.full_path = '/'
                THEN '/' || sn.text
            WHEN substr(dp.full_path, -1) = '/'
                THEN dp.full_path || sn.text
            ELSE dp.full_path || '/' || sn.text
        END AS path
    FROM files f
    JOIN dir_paths dp ON f.directory_id = dp.id
    JOIN strings sn ON f.filename_id = sn.id
";

// ---------------------------------------------------------------------------
// Parts of a path
// ---------------------------------------------------------------------------
/// One component of a path of the file system.
#[derive(Debug, Clone)]
pub enum PathComponent {
    /// A drive or a share.
    Prefix(String),
    /// The root.
    Root,
    /// The directory itself.
    Current,
    /// The directory above.
    Parent,
    /// A name.
    Name(String),
}

/// The part that a component adds.
pub open spec fn part_of(c: PathComponent) -> Option<Seq<char>> {
    match c {
        PathComponent::Prefix(p) => Some(p@),
        PathComponent::Root => Some(DB_PATH_SEPARATOR@),
        PathComponent::Name(n) => if n@.len() > 0 {
            Some(n@)
        } else {
            None
        },
        PathComponent::Current => None,
        PathComponent::Parent => None,
    }
}

/// The parts of the first `n` components.
pub open spec fn parts_of(cs: Seq<PathComponent>, n: int) -> Seq<Seq<char>>
    decreases n,
{
    if n <= 0 {
        seq![]
    } else {
        match part_of(cs[n - 1]) {
            Some(p) => parts_of(cs, n - 1).push(p),
            None => parts_of(cs, n - 1),
        }
    }
}

/// The parts under which a directory is stored, the outermost first. References
/// to the directory itself and to the one above are left out.
pub fn normalize_path_components(components: &Vec<PathComponent>) -> (r: Vec<String>)
    ensures
        texts(r@) == parts_of(components@, components@.len() as int),
{
    let mut out: Vec<String> = Vec::new();
    assert(texts(out@) =~= Seq::<Seq<char>>::empty());
    let mut i: usize = 0;
    while i < components.len()
        invariant
            i <= components@.len(),
            texts(out@) == parts_of(components@, i as int),
        decreases components.len() - i,
    {
        let part: Option<String> = match &components[i] {
            PathComponent::Prefix(p) => Some(p.clone()),
            PathComponent::Root => Some(owned(DB_PATH_SEPARATOR)),
            PathComponent::Name(n) => {
                let v = chars_of(n.as_str());
                if v.len() > 0 {
                    Some(n.clone())
                } else {
                    None
                }
            },
            PathComponent::Current => None,
            PathComponent::Parent => None,
        };
        match part {
            Some(p) => {
                let ghost before = texts(out@);
                out.push(p);
                assert(texts(out@) =~= before.push(p@));
            },
            None => {},
        }
        i = i + 1;
    }
    out
}

// ---------------------------------------------------------------------------
// Single slashes
// ---------------------------------------------------------------------------
/// The text with one slash in place of each run of them.
pub open spec fn single(s: Seq<char>) -> Seq<char>
    decreases s.len(),
{
    if s.len() == 0 {
        s
    } else {
        let t = single(s.drop_last());
        if s.last() == '/' && t.len() > 0 && t.last() == '/' {
            t
        } else {
            t.push(s.last())
        }
    }
}

/// The path with slashes only, and none of them twice in a row.
pub open spec fn clean_path(s: Seq<char>) -> Seq<char> {
    single(swap_char(s, '\\', '/'))
}

/// The path with slashes only, and none of them twice in a row.
pub fn normalize_slashes(path: &str) -> (r: String)
    ensures
        r@ == clean_path(path@),
{
    let v = chars_of(path);
    let v = replace_char(v.as_slice(), '\\', '/');
    let mut out: Vec<char> = Vec::new();
    let mut i: usize = 0;
    assert(single(v@.take(0)) =~= out@);
    while i < v.len()
        invariant
            i <= v@.len(),
            out@ == single(v@.take(i as int)),
        decreases v.len() - i,
    {
        assert(v@.take(i + 1).drop_last() =~= v@.take(i as int));
        if !(v[i] == '/' && out.len() > 0 && out[out.len() - 1] == '/') {
            out.push(v[i]);
        }
        i = i + 1;
    }
    assert(v@.take(v@.len() as int) =~= v@);
    string_of(out.as_slice())
}

/// No two slashes follow each other, and there is no backslash.
pub open spec fn is_clean(s: Seq<char>) -> bool {
    &&& forall|i: int| 0 <= i < s.len() ==> #[trigger] s[i] != '\\'
    &&& forall|i: int, j: int|
        0 <= i && j == i + 1 && j < s.len() ==> !(#[trigger] s[i] == '/' && #[trigger] s[j] == '/')
}

/// A run of slashes is gone.
proof fn lemma_single_clean(s: Seq<char>)
    requires
        forall|i: int| 0 <= i < s.len() ==> #[trigger] s[i] != '\\',
    ensures
        is_clean(single(s)),
    decreases s.len(),
{
    if s.len() > 0 {
        lemma_single_clean(s.drop_last());
    }
}

/// What is clean stays as it is.
proof fn lemma_single_fixed(s: Seq<char>)
    requires
        is_clean(s),
    ensures
        single(s) == s,
    decreases s.len(),
{
    if s.len() > 0 {
        let d = s.drop_last();
        assert(is_clean(d)) by {
            assert forall|i: int, j: int| 0 <= i && j == i + 1 && j < d.len() implies !(#[trigger] d[i]
                == '/' && #[trigger] d[j] == '/') by {
                assert(d[i] == s[i] && d[j] == s[j]);
            }
        }
        lemma_single_fixed(d);
        assert(s =~= d.push(s.last()));
        if d.len() > 0 {
            assert(d.last() == s[s.len() - 2]);
        }
    }
}

/// A clean path is left alone.
proof fn lemma_clean_fixed(s: Seq<char>)
    requires
        is_clean(s),
    ensures
        clean_path(s) == s,
{
    assert(swap_char(s, '\\', '/') =~= s);
    lemma_single_fixed(s);
}

/// Cleaning a path yields a clean one, and cleaning it again changes nothing.
pub proof fn law_clean_path_idempotent(s: Seq<char>)
    ensures
        is_clean(clean_path(s)),
        clean_path(clean_path(s)) == clean_path(s),
{
    lemma_single_clean(swap_char(s, '\\', '/'));
    lemma_clean_fixed(clean_path(s));
}

// ---------------------------------------------------------------------------
// Paths from parts
// ---------------------------------------------------------------------------
/// The path that ends with a slash, or is the given one with a slash.
pub open spec fn ends_slash(s: Seq<char>) -> bool {
    s.len() > 0 && s.last() == '/'
}

/// The path once the first `n` parts have been put together.
pub open spec fn assembled(parts: Seq<Seq<char>>, n: int) -> Seq<char>
    decreases n,
{
    if n <= 0 {
        seq![]
    } else {
        let out = assembled(parts, n - 1);
        let p = parts[n - 1];
        if p == DB_PATH_SEPARATOR@ {
            if ends_slash(out) {
                out
            } else {
                out + DB_PATH_SEPARATOR@
            }
        } else if out.len() == 0 || ends_slash(out) {
            out + p
        } else {
            out + DB_PATH_SEPARATOR@ + p
        }
    }
}

/// The path that the parts of a directory give back.
pub open spec fn restored(parts: Seq<Seq<char>>) -> Seq<char> {
    clean_path(assembled(parts, parts.len() as int))
}

/// The path that the parts of a directory give back.
pub fn normalize_db_path_parts(parts: &Vec<String>) -> (r: String)
    ensures
        r@ == restored(texts(parts@)),
{
    let ghost all = texts(parts@);
    let mut out: Vec<char> = Vec::new();
    let mut i: usize = 0;
    assert(out@ =~= Seq::<char>::empty());
    while i < parts.len()
        invariant
            i <= parts@.len(),
            all == texts(parts@),
            out@ == assembled(all, i as int),
        decreases parts.len() - i,
    {
        assert(all[i as int] == parts@[i as int]@);
        let slash = out.len() > 0 && out[out.len() - 1] == '/';
        if str_eq(parts[i].as_str(), DB_PATH_SEPARATOR) {
            if !slash {
                push_str(&mut out, DB_PATH_SEPARATOR);
            }
        } else {
            if out.len() > 0 && !slash {
                push_str(&mut out, DB_PATH_SEPARATOR);
            }
            push_str(&mut out, parts[i].as_str());
        }
        i = i + 1;
    }
    let s = string_of(out.as_slice());
    normalize_slashes(s.as_str())
}

/// The path of a file in a directory.
pub open spec fn full_path(directory: Seq<char>, filename: Seq<char>) -> Seq<char> {
    if directory.len() == 0 {
        clean_path(filename)
    } else if directory == DB_PATH_SEPARATOR@ {
        "/"@ + filename
    } else if ends_slash(directory) {
        clean_path(directory + filename)
    } else {
        clean_path(directory + "/"@ + filename)
    }
}

/// The path of a file in a directory.
pub fn join_db_path(directory: &str, filename: &str) -> (r: String)
    ensures
        r@ == full_path(directory@, filename@),
{
    let v = chars_of(directory);
    if v.len() == 0 {
        normalize_slashes(filename)
    } else if str_eq(directory, DB_PATH_SEPARATOR) {
        concat("/", filename)
    } else if v[v.len() - 1] == '/' {
        let s = concat(directory, filename);
        normalize_slashes(s.as_str())
    } else {
        let s = concat(directory, "/");
        let s = concat(s.as_str(), filename);
        normalize_slashes(s.as_str())
    }
}

/// The path of a file, from the parts of its directory and its name.
pub fn get_full_path(parts: &Vec<String>, filename: &str) -> (r: String)
    ensures
        r@ == full_path(restored(texts(parts@)), filename@),
{
    let directory = normalize_db_path_parts(parts);
    join_db_path(directory.as_str(), filename)
}

// ---------------------------------------------------------------------------
// What is stored comes back
// ---------------------------------------------------------------------------
/// A name without separators.
pub open spec fn plain(s: Seq<char>) -> bool {
    s.len() > 0 && forall|i: int| 0 <= i < s.len() ==> #[trigger] s[i] != '/' && s[i] != '\\'
}

/// The first `n` names with slashes between them.
pub open spec fn slash_joined(names: Seq<Seq<char>>, n: int) -> Seq<char>
    decreases n,
{
    if n <= 0 {
        seq![]
    } else if n == 1 {
        names[0]
    } else {
        slash_joined(names, n - 1) + "/"@ + names[n - 1]
    }
}

/// The parts of an absolute path: what stands before the root, the root, and
/// the names.
pub open spec fn absolute_parts(head: Seq<char>, names: Seq<Seq<char>>) -> Seq<Seq<char>> {
    (if head.len() > 0 {
        seq![head]
    } else {
        seq![]
    }) + seq![DB_PATH_SEPARATOR@] + names
}

/// The text of an absolute path with the first `n` names.
pub open spec fn absolute(head: Seq<char>, names: Seq<Seq<char>>, n: int) -> Seq<char> {
    head + "/"@ + slash_joined(names, n)
}

proof fn lemma_absolute(head: Seq<char>, names: Seq<Seq<char>>, n: int)
    requires
        head.len() == 0 || plain(head),
        forall|i: int| 0 <= i < names.len() ==> plain(#[trigger] names[i]),
        0 <= n <= names.len(),
    ensures
        ({
            let parts = absolute_parts(head, names);
            let k = parts.len() - names.len();
            &&& assembled(parts, k + n) == absolute(head, names, n)
            &&& is_clean(absolute(head, names, n))
            &&& ends_slash(absolute(head, names, n)) == (n == 0)
        }),
    decreases n,
{
    reveal_strlit("/");
    let parts = absolute_parts(head, names);
    let k = parts.len() - names.len();
    let out = absolute(head, names, n);
    if n == 0 {
        assert(assembled(parts, 0) =~= Seq::<char>::empty());
        if head.len() > 0 {
            assert(parts[0] == head);
            assert(parts[1] == DB_PATH_SEPARATOR@);
            assert(head != DB_PATH_SEPARATOR@) by {
                if head == DB_PATH_SEPARATOR@ {
                    assert(head[0] == '/');
                }
            }
            assert(assembled(parts, 1) =~= head);
            assert(head.last() != '/');
            assert(assembled(parts, 2) =~= head + "/"@);
        } else {
            assert(parts[0] == DB_PATH_SEPARATOR@);
            assert(assembled(parts, 1) =~= "/"@);
        }
        assert(out =~= head + "/"@);
        assert(is_clean(out)) by {
            assert forall|i: int, j: int| 0 <= i && j == i + 1 && j < out.len() implies !(
            #[trigger] out[i] == '/' && #[trigger] out[j] == '/') by {
                assert(out[i] == head[i]);
            }
        }
    } else {
        lemma_absolute(head, names, n - 1);
        let before = absolute(head, names, n - 1);
        let p = names[n - 1];
        assert(parts[k + n - 1] == p);
        assert(p != DB_PATH_SEPARATOR@) by {
            if p == DB_PATH_SEPARATOR@ {
                assert(p[0] == '/');
            }
        }
        assert(plain(p));
        assert(before.len() > 0);
        if n == 1 {
            assert(before =~= head + "/"@);
            assert(assembled(parts, k + n) =~= before + p);
            assert(out =~= before + p);
        } else {
            assert(assembled(parts, k + n) =~= before + "/"@ + p);
            assert(out =~= before + "/"@ + p);
        }
        let base = if n == 1 {
            before
        } else {
            before + "/"@
        };
        assert(out =~= base + p);
        assert(out.last() == p.last());
        assert forall|i: int| 0 <= i < out.len() implies #[trigger] out[i] != '\\' by {
            if i < before.len() {
                assert(out[i] == before[i]);
            } else if i >= base.len() {
                assert(out[i] == p[i - base.len()]);
            }
        }
        assert forall|i: int, j: int| 0 <= i && j == i + 1 && j < out.len() implies !(#[trigger] out[i]
            == '/' && #[trigger] out[j] == '/') by {
            if j >= base.len() {
                assert(out[j] == p[j - base.len()]);
            } else if j >= before.len() {
                assert(out[i] == before[i]);
                assert(i == before.len() - 1);
            } else {
                assert(out[i] == before[i] && out[j] == before[j]);
            }
        }
    }
}

/// An absolute path comes back from its parts as it was written with slashes.
pub proof fn law_directory_comes_back(head: Seq<char>, names: Seq<Seq<char>>)
    requires
        head.len() == 0 || plain(head),
        forall|i: int| 0 <= i < names.len() ==> plain(#[trigger] names[i]),
    ensures
        restored(absolute_parts(head, names)) == absolute(head, names, names.len() as int),
{
    lemma_absolute(head, names, names.len() as int);
    lemma_clean_fixed(absolute(head, names, names.len() as int));
}

/// The path of a file comes back from the parts of its directory and its name.
pub proof fn law_file_comes_back(head: Seq<char>, names: Seq<Seq<char>>, filename: Seq<char>)
    requires
        head.len() == 0 || plain(head),
        forall|i: int| 0 <= i < names.len() ==> plain(#[trigger] names[i]),
        plain(filename),
    ensures
        full_path(restored(absolute_parts(head, names)), filename) == absolute(
            head,
            names.push(filename),
            names.len() as int + 1,
        ),
{
    reveal_strlit("/");
    law_directory_comes_back(head, names);
    let n = names.len() as int;
    let all = names.push(filename);
    lemma_absolute(head, names, n);
    lemma_absolute(head, all, n + 1);
    lemma_same_names(names, all, n);
    let directory = absolute(head, names, n);
    let out = absolute(head, all, n + 1);
    assert(directory.len() > 0);
    if n == 0 {
        assert(out =~= directory + filename);
        if directory == DB_PATH_SEPARATOR@ {
            assert("/"@ + filename =~= out);
        } else {
            lemma_clean_fixed(out);
        }
    } else {
        assert(directory != DB_PATH_SEPARATOR@) by {
            if directory == DB_PATH_SEPARATOR@ {
                assert(directory.last() == '/');
            }
        }
        assert(out =~= directory + "/"@ + filename);
        lemma_clean_fixed(out);
    }
}

/// Further names do not change what the first `n` give.
proof fn lemma_same_names(a: Seq<Seq<char>>, b: Seq<Seq<char>>, n: int)
    requires
        n <= a.len() <= b.len(),
        forall|i: int| 0 <= i < n ==> a[i] == b[i],
    ensures
        slash_joined(a, n) == slash_joined(b, n),
    decreases n,
{
    if n > 0 {
        lemma_same_names(a, b, n - 1);
    }
}

} // verus!
