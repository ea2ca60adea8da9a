//! How a project is taken into the index.

#[allow(unused_imports)]
use crate::paths::{begins_with, file_name, joined_native, lower_extension, name_stem, parent};
#[allow(unused_imports)]
use crate::pattern::group_or;
#[allow(unused_imports)]
use crate::refresh::build_cs::{added_names, adds_to, listed_names, quoted_names, single_names};
#[allow(unused_imports)]
use crate::refresh::dependencies::{depends, graph_of, named_deps, names, reach, Graph};
#[allow(unused_imports)]
use crate::refresh::files::{changed, directory_at, global_module, holding_module, known_times, module_of_file,
    module_rooted, names_down_to, source_ext, to_parse, to_record, DirectoryRow, FoundFile, KnownFile, ModuleEntry,
    SourceView, UpsertView};
#[allow(unused_imports)]
use crate::refresh::project::{bare, build_file, by_depth, component_of, deduped, directory_module, first_components,
    first_modules, first_part, first_shorter, has_name, is_module_of, law_by_depth, module_files, native, owner_of,
    plugin_of, root_name, uproject_among, yields_module, BuildFile, ComponentView, ModuleView, BUILD_CS_SUFFIX};
#[allow(unused_imports)]
use crate::refresh::rows::{key_of, keys_of, signed_decimal, upsert_rows, UpsertRowView};
#[allow(unused_imports)]
use crate::text::{byte_len, decimal, ends, index_of, lemma_index_of_from, lower, swap_char, texts};
#[allow(unused_imports)]
use crate::types::ModuleDef;
#[allow(unused_imports)]
use crate::order::ascending;
#[allow(unused_imports)]
use crate::refresh::build_cs::group_texts;
#[allow(unused_imports)]
use crate::refresh::dependencies::is_closure;
#[allow(unused_imports)]
use crate::refresh::project::RefreshContext;
#[allow(unused_imports)]
use crate::refresh::rows::slashed_opt;
#[allow(unused_imports)]
use crate::types::{default_excludes, default_extensions, RefreshRequest};
use vstd::prelude::*;

verus! {

// ---------------------------------------------------------------------------
// Paths and names
// ---------------------------------------------------------------------------
/// A path gets the separators of the platform and keeps everything else.
pub proof fn law_native(s: Seq<char>, i: int)
    requires
        0 <= i < s.len(),
    ensures
        native(s, true).len() == s.len(),
        native(s, false).len() == s.len(),
        s[i] == '/' || s[i] == '\\' ==> native(s, true)[i] == '\\' && native(s, false)[i] == '/',
        s[i] != '/' && s[i] != '\\' ==> native(s, true)[i] == s[i] && native(s, false)[i] == s[i],
{
}

/// Extensions count without leading dots and in lower case.
pub proof fn law_bare(s: Seq<char>)
    ensures
        bare(seq!['.'] + s) == bare(s),
        s.len() == 0 || s[0] != '.' ==> bare(s) == lower(s),
{
    assert((seq!['.'] + s).skip(1) =~= s);
}

/// A directory is named by the last part of its path.
pub proof fn law_root_name(path: Seq<char>, windows: bool, n: Seq<char>)
    ensures
        file_name(path, windows) == Some(n) ==> root_name(path, windows) == n,
        file_name(path, windows) is None ==> root_name(path, windows) == "Unknown"@,
{
}

/// The name of a module is that of its build file up to the first dot.
pub proof fn law_first_part(a: Seq<char>, b: Seq<char>)
    requires
        !a.contains('.'),
    ensures
        first_part(a) == a,
        first_part(a + seq!['.'] + b) == a,
{
    lemma_index_of_from(a, '.', 0);
    match index_of(a, '.') {
        Some(i) => {
            assert(a.contains(a[i]));
        },
        None => {},
    }
    let s = a + seq!['.'] + b;
    lemma_index_of_from(s, '.', 0);
    assert(s[a.len() as int] == '.');
    assert forall|j: int| 0 <= j < a.len() implies s[j] != '.' by {
        assert(s[j] == a[j]);
        assert(a.contains(a[j]));
    }
    assert(index_of(s, '.') == Some(a.len() as int));
    assert(s.take(a.len() as int) =~= a);
}

/// A build file is known by the end of its name, in any case.
pub proof fn law_build_file(path: Seq<char>, windows: bool, n: Seq<char>)
    ensures
        file_name(path, windows) == Some(n) ==> (build_file(path, windows) <==> ends(
            lower(n),
            ".build.cs"@,
        )),
        file_name(path, windows) is None ==> !build_file(path, windows),
{
}

// ---------------------------------------------------------------------------
// Components
// ---------------------------------------------------------------------------
/// Every project has the game as its first component and, where it is known, the
/// engine as its second.
pub proof fn law_first_components(
    project: Seq<char>,
    engine: Seq<char>,
    uproject: Option<Seq<char>>,
    windows: bool,
)
    ensures
        first_components(project, None, uproject, windows).len() == 1,
        ({
            let cs = first_components(project, Some(engine), uproject, windows);
            &&& cs.len() == 2
            &&& cs[0] == first_components(project, None, uproject, windows)[0]
            &&& cs[0].comp_type == "Game"@
            &&& cs[0].root_path == project
            &&& cs[0].name == root_name(project, windows)
            &&& cs[0].display_name == root_name(project, windows)
            &&& cs[0].owner_name == root_name(project, windows)
            &&& cs[0].uproject_path == uproject
            &&& cs[0].uplugin_path is None
            &&& cs[1].comp_type == "Engine"@
            &&& cs[1].root_path == engine
            &&& cs[1].name == root_name(engine, windows)
            &&& cs[1].display_name == "Engine"@
            &&& cs[1].owner_name == root_name(engine, windows)
            &&& cs[1].uproject_path is None
            &&& cs[1].uplugin_path is None
        }),
{
}

/// Every project has a module for its configuration and, where the engine is known,
/// ones for the engine's configuration and shaders.
pub proof fn law_first_modules(project: Seq<char>, engine: Seq<char>, windows: bool)
    ensures
        first_modules(project, None, windows).len() == 1,
        ({
            let ms = first_modules(project, Some(engine), windows);
            &&& ms.len() == 3
            &&& ms[0] == first_modules(project, None, windows)[0]
            &&& ms[0].name == "_GameConfig"@ && ms[0].mod_type == "Config"@
            &&& ms[0].root == joined_native(project, "Config"@, windows)
            &&& ms[0].owner_name == root_name(project, windows)
            &&& ms[1].name == "_EngineConfig"@ && ms[1].mod_type == "Config"@
            &&& ms[1].root == joined_native(engine, "Engine/Config"@, windows)
            &&& ms[1].owner_name == root_name(engine, windows)
            &&& ms[2].name == "_EngineShaders"@ && ms[2].mod_type == "Shader"@
            &&& ms[2].root == joined_native(engine, "Engine/Shaders"@, windows)
            &&& ms[2].owner_name == root_name(engine, windows)
        }),
{
}

/// A module without a build file has no dependencies and belongs to its owner.
pub proof fn law_directory_module(
    name: Seq<char>,
    path: Seq<char>,
    kind: Seq<char>,
    owner: Seq<char>,
)
    ensures
        ({
            let m = directory_module(name, path, kind, owner);
            &&& m.name == name && m.path == path && m.root == path && m.mod_type == kind
            &&& m.owner_name == owner && m.component_name == Some(owner)
            &&& m.public_deps.len() == 0 && m.private_deps.len() == 0
        }),
{
}

/// The project file is the first of the paths with its extension, in any case.
pub proof fn law_uproject(paths: Seq<Seq<char>>, windows: bool, i: int, k: int)
    requires
        0 <= i <= k < paths.len(),
        lower_extension(paths[k], windows) == Some("uproject"@),
        forall|j: int|
            i <= j < k ==> lower_extension(#[trigger] paths[j], windows) != Some("uproject"@),
    ensures
        uproject_among(paths, windows, i) == Some(paths[k]),
    decreases k - i,
{
    if i < k {
        assert(lower_extension(paths[i], windows) != Some("uproject"@));
        law_uproject(paths, windows, i + 1, k);
    }
}

/// A plugin lies in the directory of its description; it is the project's where that
/// directory lies in the project, else the engine's.
pub proof fn law_plugin(
    path: Seq<char>,
    project: Seq<char>,
    engine: Seq<char>,
    windows: bool,
    root: Seq<char>,
    name: Seq<char>,
)
    requires
        parent(path, windows) == Some(root),
        file_name(path, windows) == Some(name),
    ensures
        plugin_of(path, project, Some(engine), windows) matches Some(c) && c.root_path == root
            && c.name == root_name(root, windows) && c.display_name == name_stem(name) && c.comp_type
            == "Plugin"@ && c.uplugin_path == Some(path) && c.uproject_path is None && (begins_with(
            root,
            project,
            windows,
        ) ==> c.owner_name == root_name(project, windows)) && (!begins_with(root, project, windows)
            ==> c.owner_name == root_name(engine, windows)),
        !begins_with(root, project, windows) ==> (plugin_of(path, project, None, windows) matches Some(c)
            && c.owner_name == "Engine"@),
{
}

/// What lies in the engine is the engine's, else what lies in the project is the
/// project's.
pub proof fn law_owner(path: Seq<char>, project: Seq<char>, engine: Seq<char>, windows: bool)
    ensures
        begins_with(path, engine, windows) ==> owner_of(path, project, Some(engine), windows)
            == root_name(engine, windows),
        !begins_with(path, engine, windows) ==> owner_of(path, project, Some(engine), windows)
            == owner_of(path, project, None, windows),
        begins_with(path, project, windows) ==> owner_of(path, project, None, windows) == root_name(
            project,
            windows,
        ),
        !begins_with(path, project, windows) ==> owner_of(path, project, None, windows)
            == "Unknown"@,
{
}

/// Of several components of one name the first counts, and the others stay in order.
pub proof fn law_deduped_step(cs: Seq<ComponentView>, n: int)
    requires
        0 <= n < cs.len(),
    ensures
        deduped(cs, 0).len() == 0,
        (exists|i: int| 0 <= i < n && (#[trigger] cs[i]).name == cs[n].name) ==> deduped(cs, n + 1)
            == deduped(cs, n),
        (forall|i: int| 0 <= i < n ==> (#[trigger] cs[i]).name != cs[n].name) ==> deduped(cs, n + 1)
            == deduped(cs, n) + seq![cs[n]],
{
    lemma_deduped_from(cs, n);
    crate::refresh::project::law_deduped(cs, n);
    let before = deduped(cs, n);
    if exists|i: int| 0 <= i < n && (#[trigger] cs[i]).name == cs[n].name {
        let i = choose|i: int| 0 <= i < n && (#[trigger] cs[i]).name == cs[n].name;
        assert(has_name(before, cs[i].name));
    } else {
        if has_name(before, cs[n].name) {
            let j = choose|j: int| 0 <= j < before.len() && (#[trigger] before[j]).name == cs[n].name;
            let i = choose|i: int| 0 <= i < n && #[trigger] cs[i] == before[j];
            assert(cs[i].name == cs[n].name);
        }
        assert(before.push(cs[n]) =~= before + seq![cs[n]]);
    }
}

proof fn lemma_deduped_from(cs: Seq<ComponentView>, n: int)
    requires
        0 <= n <= cs.len(),
    ensures
        forall|j: int|
            0 <= j < deduped(cs, n).len() ==> exists|i: int|
                0 <= i < n && #[trigger] cs[i] == #[trigger] deduped(cs, n)[j],
    decreases n,
{
    if n > 0 {
        lemma_deduped_from(cs, n - 1);
        let before = deduped(cs, n - 1);
        let after = deduped(cs, n);
        assert forall|j: int| 0 <= j < after.len() implies exists|i: int|
            0 <= i < n && #[trigger] cs[i] == #[trigger] after[j] by {
            if j < before.len() {
                assert(after[j] == before[j]);
                let i = choose|i: int| 0 <= i < n - 1 && #[trigger] cs[i] == before[j];
                assert(cs[i] == after[j]);
            } else {
                assert(cs[n - 1] == after[j]);
            }
        }
    }
}

/// Components with longer roots come first; one that comes later stands behind all
/// those of the same length.
pub proof fn law_depth_step(cs: Seq<ComponentView>, n: int)
    requires
        0 <= n < cs.len(),
    ensures
        ({
            let before = by_depth(cs, n);
            let len = byte_len(cs[n].root_path);
            exists|k: int|
                0 <= k <= before.len() && by_depth(cs, n + 1) == #[trigger] before.insert(k, cs[n])
                    && (forall|i: int| 0 <= i < k ==> byte_len((#[trigger] before[i]).root_path) >= len)
                    && (forall|i: int|
                    k <= i < before.len() ==> byte_len((#[trigger] before[i]).root_path) < len)
        }),
{
    let before = by_depth(cs, n);
    let len = byte_len(cs[n].root_path);
    let k = first_shorter(before, len, 0);
    lemma_first_shorter(before, len, 0);
    law_by_depth(cs, n);
    assert forall|i: int| k <= i < before.len() implies byte_len((#[trigger] before[i]).root_path)
        < len by {
        if i > k {
            assert(byte_len(before[k].root_path) >= byte_len(before[i].root_path));
        }
    }
    assert(by_depth(cs, n + 1) == before.insert(k, cs[n]));
}

proof fn lemma_first_shorter(cs: Seq<ComponentView>, len: nat, i: int)
    requires
        0 <= i <= cs.len(),
    ensures
        i <= first_shorter(cs, len, i) <= cs.len(),
        forall|j: int|
            i <= j < first_shorter(cs, len, i) ==> byte_len((#[trigger] cs[j]).root_path) >= len,
        first_shorter(cs, len, i) < cs.len() ==> byte_len(
            cs[first_shorter(cs, len, i)].root_path,
        ) < len,
    decreases cs.len() - i,
{
    if i < cs.len() && byte_len(cs[i].root_path) >= len {
        lemma_first_shorter(cs, len, i + 1);
    }
}

/// A module belongs to the first component that holds its directory.
pub proof fn law_component_of(
    cs: Seq<ComponentView>,
    root: Seq<char>,
    windows: bool,
    i: int,
    k: int,
)
    requires
        0 <= i <= k < cs.len(),
        begins_with(root, cs[k].root_path, windows),
        forall|j: int| i <= j < k ==> !begins_with(root, (#[trigger] cs[j]).root_path, windows),
    ensures
        component_of(cs, root, windows, i) == Some(cs[k].name),
    decreases k - i,
{
    if i < k {
        assert(!begins_with(root, cs[i].root_path, windows));
        law_component_of(cs, root, windows, i + 1, k);
    }
}

/// A directory that no component holds belongs to none.
pub proof fn law_no_component(cs: Seq<ComponentView>, root: Seq<char>, windows: bool, i: int)
    requires
        0 <= i <= cs.len(),
        forall|j: int| i <= j < cs.len() ==> !begins_with(root, (#[trigger] cs[j]).root_path, windows),
    ensures
        component_of(cs, root, windows, i) is None,
    decreases cs.len() - i,
{
    if i < cs.len() {
        assert(!begins_with(root, cs[i].root_path, windows));
        law_no_component(cs, root, windows, i + 1);
    }
}

/// What a module is, from its build file.
pub proof fn law_module(
    m: ModuleView,
    path: Seq<char>,
    owner: Seq<char>,
    content: Seq<char>,
    cs: Seq<ComponentView>,
    windows: bool,
    name: Seq<char>,
)
    requires
        is_module_of(m, path, owner, content, cs, windows),
        file_name(path, windows) == Some(name),
    ensures
        m.name == first_part(name),
        m.path == path,
        parent(path, windows) == Some(m.root),
        m.mod_type == "Runtime"@,
        m.owner_name == owner,
        m.component_name == component_of(cs, m.root, windows, 0),
{
}

/// Every build file with a directory and a name yields a module, in order.
pub proof fn law_module_files(bs: Seq<BuildFile>, windows: bool, n: int)
    requires
        0 <= n < bs.len(),
    ensures
        module_files(bs, windows, 0).len() == 0,
        parent(bs[n].path@, windows) is Some && file_name(bs[n].path@, windows) is Some
            ==> module_files(bs, windows, n + 1) == module_files(bs, windows, n) + seq![bs[n]],
        parent(bs[n].path@, windows) is None || file_name(bs[n].path@, windows) is None
            ==> module_files(bs, windows, n + 1) == module_files(bs, windows, n),
{
    assert(module_files(bs, windows, n).push(bs[n]) =~= module_files(bs, windows, n) + seq![bs[n]]);
}

// ---------------------------------------------------------------------------
// Build files
// ---------------------------------------------------------------------------
/// What is added to the public dependencies is not added to the private ones, and
/// the other way round.
pub proof fn law_public_or_private(c: Seq<Option<Seq<char>>>)
    ensures
        c.len() > 1 && c[1] == Some("Public"@) ==> adds_to(c, true) && !adds_to(c, false),
        c.len() > 1 && c[1] == Some("Private"@) ==> adds_to(c, false) && !adds_to(c, true),
{
    reveal_strlit("Public");
    reveal_strlit("Private");
    assert("Public"@.len() == 6 && "Private"@.len() == 7);
}

/// A list adds all its names, a single addition its one name, each where it is said.
pub proof fn law_added(c: Seq<Seq<Option<Seq<char>>>>, public: bool, n: int, t: Seq<char>)
    requires
        0 <= n < c.len(),
        c[n].len() > 2,
        c[n][2] == Some(t),
    ensures
        listed_names(c, public, 0).len() == 0,
        single_names(c, public, 0).len() == 0,
        adds_to(c[n], public) ==> listed_names(c, public, n + 1) == listed_names(c, public, n)
            + quoted_names(t),
        !adds_to(c[n], public) ==> listed_names(c, public, n + 1) == listed_names(c, public, n),
        adds_to(c[n], public) ==> single_names(c, public, n + 1) == single_names(c, public, n)
            + seq![t],
        !adds_to(c[n], public) ==> single_names(c, public, n + 1) == single_names(c, public, n),
{
    assert(single_names(c, public, n).push(t) =~= single_names(c, public, n) + seq![t]);
}

/// A build file adds what its lists and its single additions add, all of them.
pub proof fn law_all_added(
    lists: Seq<Seq<Option<Seq<char>>>>,
    singles: Seq<Seq<Option<Seq<char>>>>,
    public: bool,
    x: Seq<char>,
)
    ensures
        added_names(lists, singles, public).contains(x) <==> listed_names(
            lists,
            public,
            lists.len() as int,
        ).contains(x) || single_names(singles, public, singles.len() as int).contains(x),
{
    let a = listed_names(lists, public, lists.len() as int);
    let b = single_names(singles, public, singles.len() as int);
    let all = a + b;
    if a.contains(x) {
        let i = choose|i: int| 0 <= i < a.len() && a[i] == x;
        assert(all[i] == x);
    }
    if b.contains(x) {
        let i = choose|i: int| 0 <= i < b.len() && b[i] == x;
        assert(all[a.len() + i] == x);
    }
    if all.contains(x) {
        let i = choose|i: int| 0 <= i < all.len() && all[i] == x;
        if i < a.len() {
            assert(a[i] == x);
        } else {
            assert(b[i - a.len()] == x);
        }
    }
}

// ---------------------------------------------------------------------------
// Dependencies
// ---------------------------------------------------------------------------
/// A module names its public and its private dependencies; of several modules of one
/// name the last counts.
pub proof fn law_graph(ms: Seq<ModuleDef>, m: ModuleDef, other: Seq<char>, b: Seq<char>)
    ensures
        names(graph_of(ms.push(m)), m.name@, b) <==> texts(m.public_deps@).contains(b) || texts(
            m.private_deps@,
        ).contains(b),
        other != m.name@ ==> (names(graph_of(ms.push(m)), other, b) <==> names(
            graph_of(ms),
            other,
            b,
        )),
        !names(graph_of(Seq::<ModuleDef>::empty()), other, b),
{
    assert(ms.push(m).drop_last() =~= ms);
    let p = texts(m.public_deps@);
    let q = texts(m.private_deps@);
    let all = named_deps(m);
    if p.contains(b) {
        let i = choose|i: int| 0 <= i < p.len() && p[i] == b;
        assert(all[i] == b);
    }
    if q.contains(b) {
        let i = choose|i: int| 0 <= i < q.len() && q[i] == b;
        assert(all[p.len() + i] == b);
    }
    if all.contains(b) {
        let i = choose|i: int| 0 <= i < all.len() && all[i] == b;
        if i < p.len() {
            assert(p[i] == b);
        } else {
            assert(q[i - p.len()] == b);
        }
    }
}

/// A module depends on what it names, on what that depends on, and on nothing else.
pub proof fn law_depends(g: Graph, a: Seq<char>, b: Seq<char>)
    ensures
        depends(g, a, b) <==> names(g, a, b) || exists|c: Seq<char>|
            #[trigger] names(g, a, c) && depends(g, c, b),
{
    if names(g, a, b) {
        assert(reach(g, a, b, 1));
    }
    if exists|c: Seq<char>| #[trigger] names(g, a, c) && depends(g, c, b) {
        let c = choose|c: Seq<char>| #[trigger] names(g, a, c) && depends(g, c, b);
        let n = choose|n: nat| reach(g, c, b, n);
        assert(((n + 1) - 1) as nat == n);
        assert(reach(g, a, b, n + 1));
    }
    if depends(g, a, b) && !names(g, a, b) {
        let n = choose|n: nat| reach(g, a, b, n);
        let c = choose|c: Seq<char>|
            #[trigger] names(g, a, c) && reach(g, c, b, (n - 1) as nat);
        assert(depends(g, c, b));
    }
}

// ---------------------------------------------------------------------------
// Files
// ---------------------------------------------------------------------------
/// Of several directories with one number the last counts.
pub proof fn law_directory_at(ds: Seq<DirectoryRow>, id: i64, n: int, k: int)
    requires
        0 <= k < n <= ds.len(),
        ds[k].id == id,
        forall|j: int| k < j < n ==> (#[trigger] ds[j]).id != id,
    ensures
        directory_at(ds, id, n) == Some(k),
    decreases n,
{
    if n - 1 > k {
        assert(ds[n - 1].id != id);
        law_directory_at(ds, id, n - 1, k);
    }
}

/// The name of a directory stands behind the names of those that it lies in.
pub proof fn law_names_down_to(ds: Seq<DirectoryRow>, id: i64, fuel: nat, k: int)
    requires
        fuel > 0,
        directory_at(ds, id, ds.len() as int) == Some(k),
    ensures
        ds[k].parent is None ==> names_down_to(ds, id, fuel) == seq![ds[k].name@],
        ds[k].parent matches Some(p) ==> names_down_to(ds, id, fuel) == names_down_to(
            ds,
            p,
            (fuel - 1) as nat,
        ) + seq![ds[k].name@],
{
    match ds[k].parent {
        Some(p) => {
            assert(names_down_to(ds, p, (fuel - 1) as nat).push(ds[k].name@) =~= names_down_to(
                ds,
                p,
                (fuel - 1) as nat,
            ) + seq![ds[k].name@]);
        },
        None => {},
    }
}

/// The extensions of source files.
pub proof fn law_source_ext(e: Seq<char>)
    ensures
        source_ext(e) <==> seq!["h"@, "hh"@, "hpp"@, "cpp"@, "cc"@, "c"@, "cxx"@, "inl"@].contains(e),
{
    let all = seq!["h"@, "hh"@, "hpp"@, "cpp"@, "cc"@, "c"@, "cxx"@, "inl"@];
    assert(all[0] == "h"@ && all[1] == "hh"@ && all[2] == "hpp"@ && all[3] == "cpp"@);
    assert(all[4] == "cc"@ && all[5] == "c"@ && all[6] == "cxx"@ && all[7] == "inl"@);
}

/// A file has changed unless its last record has its time.
pub proof fn law_changed(f: FoundFile, ks: Seq<KnownFile>, n: int, k: int)
    requires
        0 <= n <= ks.len(),
    ensures
        0 <= k < n && ks[k].path@ == f.path@ && (forall|j: int|
            k < j < n ==> (#[trigger] ks[j]).path@ != f.path@) ==> (changed(f, known_times(ks, n))
            <==> ks[k].mtime != f.mtime),
        (forall|j: int| 0 <= j < n ==> (#[trigger] ks[j]).path@ != f.path@) ==> changed(
            f,
            known_times(ks, n),
        ),
    decreases n,
{
    if n > 0 {
        law_changed(f, ks, n - 1, k);
        if 0 <= k < n && ks[k].path@ == f.path@ && (forall|j: int|
            k < j < n ==> (#[trigger] ks[j]).path@ != f.path@) {
            if k < n - 1 {
                assert(ks[n - 1].path@ != f.path@);
            }
        }
        if forall|j: int| 0 <= j < n ==> (#[trigger] ks[j]).path@ != f.path@ {
            assert(ks[n - 1].path@ != f.path@);
        }
    }
}

/// A file belongs to the module that holds it, else to that of the project.
pub proof fn law_module_of_file(
    ms: Seq<ModuleEntry>,
    project_root: Seq<char>,
    path: Seq<char>,
    k: int,
)
    ensures
        holding_module(ms, path, ms.len() as int) == Some(k) ==> module_of_file(
            ms,
            project_root,
            path,
        ) == ms[k].id,
        holding_module(ms, path, ms.len() as int) is None ==> module_of_file(ms, project_root, path)
            == global_module(ms, project_root),
{
}

/// The module of the project is the last one at its root; without one there is none.
pub proof fn law_global_module(ms: Seq<ModuleEntry>, project_root: Seq<char>, k: int)
    requires
        0 <= k < ms.len(),
        ms[k].root@ == swap_char(project_root, '\\', '/'),
        forall|j: int|
            k < j < ms.len() ==> (#[trigger] ms[j]).root@ != swap_char(project_root, '\\', '/'),
    ensures
        global_module(ms, project_root) == ms[k].id,
{
    lemma_module_rooted(ms, swap_char(project_root, '\\', '/'), ms.len() as int, k);
}

proof fn lemma_module_rooted(ms: Seq<ModuleEntry>, root: Seq<char>, n: int, k: int)
    requires
        0 <= k < n <= ms.len(),
        ms[k].root@ == root,
        forall|j: int| k < j < n ==> (#[trigger] ms[j]).root@ != root,
    ensures
        module_rooted(ms, root, n) == Some(k),
    decreases n,
{
    if n - 1 > k {
        assert(ms[n - 1].root@ != root);
        lemma_module_rooted(ms, root, n - 1, k);
    }
}

/// A changed source file is read, every other file is recorded as it is, both with
/// their modules and times and in order.
pub proof fn law_file_step(
    fs: Seq<FoundFile>,
    known: Map<Seq<char>, i64>,
    ms: Seq<ModuleEntry>,
    project_root: Seq<char>,
    n: int,
)
    requires
        0 <= n < fs.len(),
    ensures
        to_parse(fs, known, ms, project_root, 0).len() == 0,
        to_record(fs, known, ms, project_root, 0).len() == 0,
        ({
            let f = fs[n];
            let parsed = to_parse(fs, known, ms, project_root, n);
            let parsed_next = to_parse(fs, known, ms, project_root, n + 1);
            let recorded = to_record(fs, known, ms, project_root, n);
            let recorded_next = to_record(fs, known, ms, project_root, n + 1);
            let read = changed(f, known) && source_ext(f.extension@);
            &&& read ==> recorded_next == recorded && parsed_next.len() == parsed.len() + 1
                && parsed_next.drop_last() == parsed && parsed_next.last().path == f.path@
                && parsed_next.last().mtime == f.mtime as u64 && parsed_next.last().old_hash is None
                && parsed_next.last().module_id == Some(module_of_file(ms, project_root, f.path@))
            &&& !read ==> parsed_next == parsed && recorded_next.len() == recorded.len() + 1
                && recorded_next.drop_last() == recorded && recorded_next.last().path == f.path@
                && recorded_next.last().extension == f.extension@ && recorded_next.last().mtime
                == f.mtime && recorded_next.last().module_id == module_of_file(
                ms,
                project_root,
                f.path@,
            )
        }),
{
    let f = fs[n];
    if changed(f, known) && source_ext(f.extension@) {
        assert(to_parse(fs, known, ms, project_root, n + 1).drop_last() =~= to_parse(
            fs,
            known,
            ms,
            project_root,
            n,
        ));
    } else {
        assert(to_record(fs, known, ms, project_root, n + 1).drop_last() =~= to_record(
            fs,
            known,
            ms,
            project_root,
            n,
        ));
    }
}

// ---------------------------------------------------------------------------
// Rows
// ---------------------------------------------------------------------------
/// A file is recorded by its directory and its name.
pub proof fn law_file_key(path: Seq<char>, windows: bool, n: Seq<char>, p: Seq<char>)
    ensures
        file_name(path, windows) == Some(n) && n.len() > 0 && parent(path, windows) == Some(p)
            ==> key_of(path, windows) == Some((p, n)),
        file_name(path, windows) is None ==> key_of(path, windows) is None,
{
}

/// Every path with a key is deleted by it, in order.
pub proof fn law_deleted_keys(paths: Seq<Seq<char>>, windows: bool, n: int)
    requires
        0 <= n < paths.len(),
    ensures
        keys_of(paths, windows, 0).len() == 0,
        key_of(paths[n], windows) is None ==> keys_of(paths, windows, n + 1) == keys_of(
            paths,
            windows,
            n,
        ),
        key_of(paths[n], windows) matches Some(k) ==> keys_of(paths, windows, n + 1) == keys_of(
            paths,
            windows,
            n,
        ) + seq![k],
{
    match key_of(paths[n], windows) {
        Some(k) => {
            assert(keys_of(paths, windows, n).push(k) =~= keys_of(paths, windows, n) + seq![k]);
        },
        None => {},
    }
}

/// A file that is recorded keeps its extension, its time and its module.
pub proof fn law_upsert_rows(fs: Seq<UpsertView>, windows: bool, n: int)
    requires
        0 <= n < fs.len(),
    ensures
        upsert_rows(fs, windows, 0).len() == 0,
        key_of(fs[n].path, windows) is None ==> upsert_rows(fs, windows, n + 1) == upsert_rows(
            fs,
            windows,
            n,
        ),
        key_of(fs[n].path, windows) matches Some(k) ==> {
            let row = upsert_rows(fs, windows, n + 1).last();
            &&& upsert_rows(fs, windows, n + 1).drop_last() == upsert_rows(fs, windows, n)
            &&& row.key == k
            &&& row.extension == fs[n].extension
            &&& row.mtime == fs[n].mtime
            &&& row.module_id == fs[n].module_id
            &&& row.is_header <==> fs[n].extension == "h"@ || fs[n].extension == "hh"@
                || fs[n].extension == "hpp"@ || fs[n].extension == "inl"@
        },
{
    match key_of(fs[n].path, windows) {
        Some(k) => {
            assert(upsert_rows(fs, windows, n + 1).drop_last() =~= upsert_rows(fs, windows, n));
        },
        None => {},
    }
}

/// A negative number has a sign before its digits.
pub proof fn law_signed(n: nat)
    ensures
        signed_decimal(n as int) == decimal(n),
        n > 0 ==> signed_decimal(-(n as int)) == seq!['-'] + decimal(n),
{
    reveal_strlit("-");
    assert("-"@ =~= seq!['-']);
}

/// What a module depends on is listed for it, and nothing else, in order.
pub proof fn law_closure(g: Graph, name: Seq<char>, list: Seq<Seq<char>>, x: Seq<char>)
    requires
        is_closure(g, name, list),
    ensures
        depends(g, name, x) <==> list.contains(x),
        ascending(list),
{
}

/// A refresh is carried out as it was asked for: with native paths, directories in
/// lower case and extensions without dots.
pub proof fn law_refresh_context(c: RefreshContext, req: RefreshRequest, windows: bool, i: int)
    requires
        c.is_for(req, windows),
    ensures
        c.project_root@ == native(req.project_root@, windows),
        req.db_path matches Some(db) && c.db_path_native@ == native(db@, windows),
        req.scope matches Some(s) ==> c.scope@ == s@,
        req.scope is None ==> c.scope@ == "Full"@,
        req.engine_root is None ==> c.engine_root is None,
        req.engine_root matches Some(e) ==> (c.engine_root matches Some(r) && r@ == native(
            e@,
            windows,
        )),
        c.excludes@.len() == req.config.excludes_directory@.len(),
        0 <= i < c.excludes@.len() ==> c.excludes@[i]@ == lower(
            req.config.excludes_directory@[i]@,
        ),
        c.include_extensions@.len() == req.config.include_extensions@.len(),
        0 <= i < c.include_extensions@.len() ==> c.include_extensions@[i]@ == bare(
            req.config.include_extensions@[i]@,
        ),
{
    assert(texts(c.excludes@).len() == c.excludes@.len());
    assert(texts(c.include_extensions@).len() == c.include_extensions@.len());
    if 0 <= i < c.excludes@.len() {
        assert(texts(c.excludes@)[i] == c.excludes@[i]@);
    }
    if 0 <= i < c.include_extensions@.len() {
        assert(texts(c.include_extensions@)[i] == c.include_extensions@[i]@);
    }
}

/// A path that is recorded has slashes only.
pub proof fn law_slashed_opt(p: Seq<char>)
    ensures
        slashed_opt(None) is None,
        slashed_opt(Some(p)) == Some(swap_char(p, '\\', '/')),
{
}

/// The names of a list are those that its quotes hold, in order.
pub proof fn law_group_texts(c: Seq<Seq<Option<Seq<char>>>>, k: int, n: int, t: Seq<char>)
    requires
        0 <= n < c.len(),
        0 <= k < c[n].len(),
        c[n][k] == Some(t),
    ensures
        group_texts(c, k, 0).len() == 0,
        group_texts(c, k, n + 1) == group_texts(c, k, n) + seq![t],
{
    assert(group_texts(c, k, n).push(t) =~= group_texts(c, k, n) + seq![t]);
}

/// What is indexed by default.
pub proof fn law_defaults()
    ensures
        default_excludes() == seq![
            "Intermediate"@,
            "Binaries"@,
            "Build"@,
            "Saved"@,
            ".git"@,
            ".vs"@,
        ],
        default_extensions().len() == 13,
        default_extensions().contains("h"@),
        default_extensions().contains("cpp"@),
        default_extensions().contains("cs"@),
        default_extensions().contains("ini"@),
        default_extensions().contains("uasset"@),
        default_extensions().contains("umap"@),
        default_extensions().contains("uproject"@),
        default_extensions().contains("uplugin"@),
{
    let e = default_extensions();
    assert(e[0] == "h"@ && e[3] == "cpp"@ && e[7] == "cs"@ && e[8] == "ini"@);
    assert(e[9] == "uasset"@ && e[10] == "umap"@ && e[11] == "uproject"@ && e[12] == "uplugin"@);
}

} // verus!
