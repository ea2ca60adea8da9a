//! How the server answers and watches.

#[allow(unused_imports)]
use crate::cli::{asks_status, step_of, takes_payload, CliStep, Command};
#[allow(unused_imports)]
use crate::paths::{file_name, lower_extension};
#[allow(unused_imports)]
use crate::server::asset::{asset_file, asset_path, each_once, ignored_dir, important_asset, parsed_among,
    same_path_among, single_slashed, telling_name, without_extension, AssetRecord, RecordView};
#[allow(unused_imports)]
use crate::server::frame::{framed, first_frame, FrameView};
#[allow(unused_imports)]
use crate::server::graph::{assets_of, graph_of, with_asset, with_names, without_asset, GraphView};
#[allow(unused_imports)]
use crate::server::lifecycle::{after_change, port_of, running, too_soon};
#[allow(unused_imports)]
use crate::server::rpc::{method_named, reply_of, request_frame_of, request_of, response_frame_of, ReplyView,
    RpcMethod};
#[allow(unused_imports)]
use crate::server::state::{after_pop, after_pops, after_put, completion_key, place, place_from, CacheView};
#[allow(unused_imports)]
use crate::server::utils::{below, drive_upper, inside, native_path, path_key, trim_slashes, unix_path, upper_char,
    without_unc};
#[allow(unused_imports)]
use crate::server::watcher::{change_of, class_names, project_at, within, ChangeKind, ProjectEntry};
#[allow(unused_imports)]
use crate::text::{byte_len, decimal, find, find_from, last_index_before, last_index_of, law_decimal_comes_back,
    lemma_find_from, lemma_last_index_before, lower, occurs_at, parse_decimal, starts, swap_char, trim};
#[allow(unused_imports)]
use crate::server::asset::records;
#[allow(unused_imports)]
use crate::text::{opt_text, texts};
#[allow(unused_imports)]
use crate::types::ParseResult;
#[allow(unused_imports)]
use crate::uasset::{import_refers, parent_class_of, PackageView};
use vstd::prelude::*;

verus! {

// ---------------------------------------------------------------------------
// The cache of completions
// ---------------------------------------------------------------------------
/// Blanks around the class and what was typed do not count.
pub proof fn law_completion_key(class_name: Seq<char>, prefix: Seq<char>)
    ensures
        completion_key(class_name, prefix) == (trim(class_name), trim(prefix)),
{
}

/// A key stands at its first place.
pub proof fn law_place(
    s: Seq<((Seq<char>, Seq<char>), (Seq<char>, u64))>,
    key: (Seq<char>, Seq<char>),
    i: int,
)
    requires
        0 <= i <= s.len(),
    ensures
        match place_from(s, key, i) {
            Some(k) => {
                let (found, _) = s[k];
                i <= k < s.len() && found == key
            },
            None => forall|k: int|
                i <= k < s.len() ==> {
                    let (found, _) = #[trigger] s[k];
                    found != key
                },
        },
    decreases s.len() - i,
{
    if i < s.len() {
        law_place(s, key, i + 1);
    }
}

/// What is put in stands in front and is counted once; where the cache is full the
/// entry that was not used for the longest time goes, the others stay in order.
pub proof fn law_put(v: CacheView, class_name: Seq<char>, prefix: Seq<char>, value: Seq<char>, i: int)
    ensures
        ({
            let key = completion_key(class_name, prefix);
            let w = v.with_value(class_name, prefix, value);
            &&& w.limit == v.limit
            &&& w.entries[0] == (key, (value, 1u64))
            &&& place(v.entries, key) is None && v.entries.len() < v.limit ==> w.entries.len()
                == v.entries.len() + 1 && (0 <= i < v.entries.len() ==> w.entries[i + 1]
                == v.entries[i])
            &&& place(v.entries, key) is None && v.entries.len() == v.limit && v.limit > 0
                ==> w.entries.len() == v.entries.len() && (0 <= i < v.entries.len() - 1
                ==> w.entries[i + 1] == v.entries[i])
            &&& place(v.entries, key) matches Some(k) ==> w.entries.len() == v.entries.len() && (0
                <= i < k ==> w.entries[i + 1] == v.entries[i]) && (k < i < v.entries.len()
                ==> w.entries[i] == v.entries[i])
        }),
{
    let key = completion_key(class_name, prefix);
    law_place(v.entries, key, 0);
}

/// What is asked for moves to the front and is counted once more; nothing else
/// changes, and an unknown key changes nothing.
pub proof fn law_asked(v: CacheView, key: (Seq<char>, Seq<char>), i: int)
    ensures
        place(v.entries, key) is None ==> v.asked(key) == v,
        place(v.entries, key) matches Some(k) ==> {
            let (_, (value, n)) = v.entries[k];
            let w = v.asked(key);
            &&& w.limit == v.limit && w.classes == v.classes
            &&& w.entries.len() == v.entries.len()
            &&& w.entries[0] == (key, (value, n.wrapping_add(1)))
            &&& 0 <= i < k ==> w.entries[i + 1] == v.entries[i]
            &&& k < i < v.entries.len() ==> w.entries[i] == v.entries[i]
        },
{
    law_place(v.entries, key, 0);
}

// ---------------------------------------------------------------------------
// Assets
// ---------------------------------------------------------------------------
/// The engine knows an asset by what stands behind its content directory, without the
/// extension.
pub proof fn law_asset_path(path: Seq<char>, before: Seq<char>, name: Seq<char>, ext: Seq<char>)
    requires
        !ext.contains('.'),
        single_slashed(path) == before + "/Content/"@ + name + seq!['.'] + ext,
        find(single_slashed(path), "/Content/"@) == Some(before.len() as int),
    ensures
        asset_path(path) == "/Game/"@ + name,
{
    reveal_strlit("/Content/");
    let s = single_slashed(path);
    let rest = name + seq!['.'] + ext;
    assert(s.skip(before.len() as int + 9) =~= rest);
    lemma_last_index_before(rest, '.', rest.len() as int);
    let at = name.len() as int;
    assert(rest[at] == '.');
    assert forall|j: int| at < j < rest.len() implies rest[j] != '.' by {
        assert(rest[j] == ext[j - at - 1]);
        assert(ext.contains(ext[j - at - 1]));
    }
    assert(last_index_of(rest, '.') == Some(at));
    assert(rest.take(at) =~= name);
}

/// A path outside of a content directory stays as it is, but for its slashes.
pub proof fn law_other_path(path: Seq<char>)
    requires
        forall|i: int| !#[trigger] occurs_at(single_slashed(path), "/Content/"@, i),
    ensures
        asset_path(path) == single_slashed(path),
{
    lemma_find_from(single_slashed(path), "/Content/"@, 0);
}

/// The directories that a scan leaves out.
pub proof fn law_ignored_dir(path: Seq<char>, windows: bool, n: Seq<char>)
    requires
        file_name(path, windows) == Some(n),
    ensures
        ignored_dir(path, windows) <==> seq![
            "Intermediate"@,
            "Binaries"@,
            "Build"@,
            "Saved"@,
            ".git"@,
            ".vs"@,
            "DerivedDataCache"@,
        ].contains(n),
{
    let all = seq![
        "Intermediate"@,
        "Binaries"@,
        "Build"@,
        "Saved"@,
        ".git"@,
        ".vs"@,
        "DerivedDataCache"@,
    ];
    assert(all[0] == "Intermediate"@ && all[1] == "Binaries"@ && all[2] == "Build"@);
    assert(all[3] == "Saved"@ && all[4] == ".git"@ && all[5] == ".vs"@);
    assert(all[6] == "DerivedDataCache"@);
}

/// A map is always worth reading, another asset by the beginning of its name.
pub proof fn law_important_asset(path: Seq<char>, windows: bool, n: Seq<char>, e: Seq<char>)
    requires
        file_name(path, windows) == Some(n),
        lower_extension(path, windows) == Some(e),
    ensures
        asset_file(path, windows) <==> e == "uasset"@ || e == "umap"@,
        e == "umap"@ ==> important_asset(path, windows),
        e != "umap"@ ==> (important_asset(path, windows) <==> starts(n, "BP_"@) || starts(n, "ABP_"@)
            || starts(n, "WBP_"@) || starts(n, "AM_"@) || starts(n, "DA_"@) || starts(n, "DT_"@)),
{
}

/// A path counts once, however its slashes are written; the first one stays.
pub proof fn law_each_once(paths: Seq<Seq<char>>, n: int)
    requires
        0 <= n < paths.len(),
    ensures
        each_once(paths, 0).len() == 0,
        (exists|i: int|
            0 <= i < each_once(paths, n).len() && single_slashed(#[trigger] each_once(paths, n)[i])
                == single_slashed(paths[n])) ==> each_once(paths, n + 1) == each_once(paths, n),
        (forall|i: int|
            0 <= i < each_once(paths, n).len() ==> single_slashed(#[trigger] each_once(paths, n)[i])
                != single_slashed(paths[n])) ==> each_once(paths, n + 1) == each_once(paths, n)
            + seq![paths[n]],
{
    assert(each_once(paths, n).push(paths[n]) =~= each_once(paths, n) + seq![paths[n]]);
}

/// The records that were read are those of a scan, in order.
pub proof fn law_parsed_among(rs: Seq<Option<AssetRecord>>, n: int)
    requires
        0 <= n < rs.len(),
    ensures
        parsed_among(rs, 0).len() == 0,
        rs[n] is None ==> parsed_among(rs, n + 1) == parsed_among(rs, n),
        rs[n] matches Some(a) ==> parsed_among(rs, n + 1) == parsed_among(rs, n) + seq![a],
{
    match rs[n] {
        Some(a) => {
            assert(parsed_among(rs, n).push(a) =~= parsed_among(rs, n) + seq![a]);
        },
        None => {},
    }
}

/// An asset stands under a name once it was put there; other names and other assets
/// stay as they are.
pub proof fn law_with_asset(
    m: Map<Seq<char>, Set<Seq<char>>>,
    name: Seq<char>,
    asset: Seq<char>,
    other: Seq<char>,
    x: Seq<char>,
)
    ensures
        assets_of(with_asset(m, name, asset), name).contains(asset),
        x != asset ==> (assets_of(with_asset(m, name, asset), name).contains(x) <==> assets_of(
            m,
            name,
        ).contains(x)),
        other != name ==> assets_of(with_asset(m, name, asset), other) == assets_of(m, other),
        !assets_of(without_asset(m, asset), name).contains(asset),
        x != asset ==> (assets_of(without_asset(m, asset), name).contains(x) <==> assets_of(
            m,
            name,
        ).contains(x)),
{
}

/// Records go into the graph one after the other, from an empty one on.
pub proof fn law_graph_in_order(rs: Seq<AssetRecord>, n: int, name: Seq<char>)
    requires
        0 <= n < rs.len(),
    ensures
        !graph_of(rs, 0).references.contains_key(name),
        !graph_of(rs, 0).derived.contains_key(name),
        !graph_of(rs, 0).functions.contains_key(name),
        graph_of(rs, n + 1) == graph_of(rs, n).with_record(rs[n]@),
{
}

// ---------------------------------------------------------------------------
// Clients and changes
// ---------------------------------------------------------------------------
/// The port is the one that was named; without one, or with a text that names none,
/// it is the usual one.
pub proof fn law_port(n: nat, s: Seq<char>)
    ensures
        n <= u16::MAX ==> port_of(Some(decimal(n))) == n,
        parse_decimal(s, u16::MAX as nat) is None ==> port_of(Some(s)) == 30110,
        port_of(None) == 30110,
{
    if n <= u16::MAX {
        law_decimal_comes_back(n, u16::MAX as nat);
    }
}

/// A change within fifty milliseconds of one that was taken is left alone; any other
/// one is taken, and its time counts from then on.
pub proof fn law_debounce(
    seen: Map<Seq<char>, u64>,
    path: Seq<char>,
    other: Seq<char>,
    now: u64,
)
    ensures
        !seen.contains_key(path) ==> !too_soon(seen, path, now),
        seen.contains_key(path) ==> (too_soon(seen, path, now) <==> now < seen[path] + 50_000_000),
        too_soon(seen, path, now) ==> after_change(seen, path, now) == seen,
        !too_soon(seen, path, now) ==> after_change(seen, path, now).contains_key(path)
            && after_change(seen, path, now)[path] == now,
        other != path ==> (after_change(seen, path, now).contains_key(other) <==> seen.contains_key(
            other,
        )),
        other != path && seen.contains_key(other) ==> after_change(seen, path, now)[other]
            == seen[other],
{
}

/// The processes that still run stay listed, in order.
pub proof fn law_running(pids: Seq<u32>, alive: Seq<u32>, n: int)
    requires
        0 <= n < pids.len(),
    ensures
        running(pids, alive, 0).len() == 0,
        alive.contains(pids[n]) ==> running(pids, alive, n + 1) == running(pids, alive, n) + seq![
            pids[n],
        ],
        !alive.contains(pids[n]) ==> running(pids, alive, n + 1) == running(pids, alive, n),
{
    assert(running(pids, alive, n).push(pids[n]) =~= running(pids, alive, n) + seq![pids[n]]);
}

/// What a change calls for, by the extension of the file.
pub proof fn law_change(path: Seq<char>, windows: bool, e: Seq<char>)
    ensures
        lower_extension(path, windows) is None ==> change_of(path, windows) == ChangeKind::Nothing,
        lower_extension(path, windows) == Some(e) ==> {
            let asset = e == "uasset"@ || e == "umap"@;
            let source = e == "h"@ || e == "hh"@ || e == "hpp"@ || e == "cpp"@ || e == "cc"@ || e
                == "cxx"@ || e == "inl"@ || e == "cs"@;
            &&& e == "ini"@ ==> change_of(path, windows) == ChangeKind::Config
            &&& asset && important_asset(path, windows) ==> change_of(path, windows)
                == ChangeKind::Asset
            &&& asset && !important_asset(path, windows) ==> change_of(path, windows)
                == ChangeKind::Nothing
            &&& source ==> change_of(path, windows) == ChangeKind::Source
            &&& e != "ini"@ && !asset && !source ==> change_of(path, windows) == ChangeKind::Nothing
        },
{
    reveal_strlit("ini");
    reveal_strlit("uasset");
    reveal_strlit("umap");
    reveal_strlit("h");
    reveal_strlit("hh");
    reveal_strlit("hpp");
    reveal_strlit("cpp");
    reveal_strlit("cc");
    reveal_strlit("cxx");
    reveal_strlit("inl");
    reveal_strlit("cs");
    assert("ini"@[2] == 'i' && "inl"@[2] == 'l' && "hpp"@[0] == 'h' && "cpp"@[0] == 'c' && "cxx"@[0]
        == 'c');
    assert("uasset"@.len() == 6 && "umap"@.len() == 4);
    assert("h"@.len() == 1 && "hh"@.len() == 2 && "cc"@.len() == 2 && "cs"@.len() == 2);
    assert("hpp"@.len() == 3 && "cpp"@.len() == 3 && "cxx"@.len() == 3 && "inl"@.len() == 3);
    assert("ini"@.len() == 3 && "ini"@[0] == 'i');
}

/// Of several projects that a path lies in the deepest one counts, of equally deep
/// ones the last.
pub proof fn law_last_project(ps: Seq<ProjectEntry>, path: Seq<char>, n: int, k: int)
    requires
        0 <= k < n <= ps.len(),
        inside(path, ps[k].root@),
        forall|j: int|
            0 <= j < k && inside(path, (#[trigger] ps[j]).root@) ==> byte_len(ps[j].root@)
                <= byte_len(ps[k].root@),
        forall|j: int|
            k < j < n && inside(path, (#[trigger] ps[j]).root@) ==> byte_len(ps[j].root@) < byte_len(
                ps[k].root@,
            ),
    ensures
        project_at(ps, path, n) == Some(k),
    decreases n,
{
    if n - 1 > k {
        law_last_project(ps, path, n - 1, k);
        if within(ps[n - 1], path) {
            assert(inside(path, ps[n - 1].root@));
            assert(byte_len(ps[n - 1].root@) < byte_len(ps[k].root@));
        }
    } else {
        crate::server::watcher::law_project_at(ps, path, n - 1);
        match project_at(ps, path, n - 1) {
            Some(b) => {
                assert(inside(path, ps[b].root@));
                assert(byte_len(ps[b].root@) <= byte_len(ps[k].root@));
            },
            None => {},
        }
    }
}

// ---------------------------------------------------------------------------
// Paths
// ---------------------------------------------------------------------------
/// The mark of an extended Windows path is taken away, in either notation; slashes
/// become those of the platform.
pub proof fn law_server_paths(s: Seq<char>, i: int)
    ensures
        without_unc("\\\\?\\"@ + s) == s,
        without_unc("//?/"@ + s) == s,
        !starts(s, "\\\\?\\"@) && !starts(s, "//?/"@) ==> without_unc(s) == s,
        unix_path(s).len() == without_unc(s).len(),
        0 <= i < without_unc(s).len() ==> unix_path(s)[i] == (if without_unc(s)[i] == '\\' {
            '/'
        } else {
            without_unc(s)[i]
        }),
        native_path(s, false) == unix_path(s),
        0 <= i < without_unc(s).len() ==> native_path(s, true)[i] == (if without_unc(s)[i] == '/' {
            '\\'
        } else {
            without_unc(s)[i]
        }),
{
    reveal_strlit("\\\\?\\");
    reveal_strlit("//?/");
    let a = "\\\\?\\"@ + s;
    let b = "//?/"@ + s;
    assert(a.subrange(0, 4) =~= "\\\\?\\"@);
    assert(a.skip(4) =~= s);
    assert(b.subrange(0, 4) =~= "//?/"@);
    assert(b.skip(4) =~= s);
}

/// On Windows a drive letter is written in upper case; nothing else changes.
pub proof fn law_drive_letter(s: Seq<char>, c: char, i: int)
    ensures
        drive_upper(s, false) == s,
        s.len() < 2 || s[1] != ':' ==> drive_upper(s, true) == s,
        s.len() >= 2 && s[1] == ':' ==> drive_upper(s, true).len() == s.len() && drive_upper(s, true)[0]
            == upper_char(s[0]) && (0 < i < s.len() ==> drive_upper(s, true)[i] == s[i]),
        'a' <= c && c <= 'z' ==> upper_char(c) as u32 == c as u32 - 32,
        c < 'a' || c > 'z' ==> upper_char(c) == c,
{
}

/// A path lies in a directory when it is that directory or begins with it and a slash.
pub proof fn law_inside(child: Seq<char>, parent: Seq<char>)
    ensures
        ({
            let c = lower(path_key(child, false));
            let p = lower(path_key(parent, false));
            &&& c == p ==> inside(child, parent)
            &&& c != p && (p.len() == 0 || p.last() != '/') ==> (inside(child, parent) <==> starts(
                c,
                p + seq!['/'],
            ))
            &&& c != p && p.len() > 0 && p.last() == '/' ==> (inside(child, parent) <==> starts(c, p))
        }),
{
    let p = lower(path_key(parent, false));
    assert(p.push('/') =~= p + seq!['/']);
}

// ---------------------------------------------------------------------------
// Messages
// ---------------------------------------------------------------------------
/// Each method is known by one name, and by no other.
pub proof fn law_methods(name: Seq<char>)
    ensures
        method_named(name) == Some(RpcMethod::Ping) <==> name == "ping"@,
        method_named(name) == Some(RpcMethod::Setup) <==> name == "setup"@,
        method_named(name) == Some(RpcMethod::Refresh) <==> name == "refresh"@,
        method_named(name) == Some(RpcMethod::Watch) <==> name == "watch"@,
        method_named(name) == Some(RpcMethod::Query) <==> name == "query"@,
        method_named(name) == Some(RpcMethod::Scan) <==> name == "scan"@,
        method_named(name) == Some(RpcMethod::Status) <==> name == "status"@,
        method_named(name) == Some(RpcMethod::ListProjects) <==> name == "list_projects"@,
        method_named(name) == Some(RpcMethod::DeleteProject) <==> name == "delete_project"@,
        method_named(name) == Some(RpcMethod::ModifyUprojectAddModule) <==> name
            == "modify_uproject_add_module"@,
        method_named(name) == Some(RpcMethod::ModifyTargetAddModule) <==> name
            == "modify_target_add_module"@,
{
    reveal_strlit("ping");
    reveal_strlit("setup");
    reveal_strlit("refresh");
    reveal_strlit("watch");
    reveal_strlit("query");
    reveal_strlit("scan");
    reveal_strlit("status");
    reveal_strlit("list_projects");
    reveal_strlit("delete_project");
    reveal_strlit("modify_uproject_add_module");
    reveal_strlit("modify_target_add_module");
    assert("ping"@[0] == 'p' && "scan"@[0] == 's' && "ping"@.len() == 4 && "scan"@.len() == 4);
    assert("setup"@[0] == 's' && "watch"@[0] == 'w' && "query"@[0] == 'q');
    assert("setup"@.len() == 5 && "watch"@.len() == 5 && "query"@.len() == 5);
    assert("refresh"@.len() == 7 && "status"@.len() == 6 && "list_projects"@.len() == 13);
    assert("delete_project"@.len() == 14 && "modify_uproject_add_module"@.len() == 26);
    assert("modify_target_add_module"@.len() == 24);
}

/// A request keeps its number, its name and its parameters, whatever kind it says it
/// is; one of an unknown name is told so.
pub proof fn law_request(kind: u32, id: u64, name: Seq<char>, params: Seq<char>, e: Seq<char>)
    ensures
        ({
            let r = request_of(
                Ok::<(u32, u64, Seq<char>, Seq<char>), Seq<char>>((kind, id, name, params)),
            );
            r matches Ok(q) && q.msgid == id && q.name == name && q.params == params && (match method_named(
                name,
            ) {
                Some(m) => q.method == Ok::<RpcMethod, Seq<char>>(m),
                None => q.method == Err::<RpcMethod, Seq<char>>("Unknown RPC method: "@ + name),
            })
        }),
        request_of(Err::<(u32, u64, Seq<char>, Seq<char>), Seq<char>>(e)) matches Err(f) && f == e,
{
}

/// What was packed is sent behind its length; what could not be packed is reported.
pub proof fn law_sent(bytes: Seq<u8>, e: Seq<char>)
    ensures
        request_frame_of(Ok::<Seq<u8>, Seq<char>>(bytes)) == Ok::<Seq<u8>, Seq<char>>(
            framed(bytes),
        ),
        response_frame_of(Ok::<Seq<u8>, Seq<char>>(bytes)) == Ok::<Seq<u8>, Seq<char>>(
            framed(bytes),
        ),
        request_frame_of(Err::<Seq<u8>, Seq<char>>(e)) == Err::<Seq<u8>, Seq<char>>(
            "JSON parse error: "@ + e,
        ),
        response_frame_of(Err::<Seq<u8>, Seq<char>>(e)) == Err::<Seq<u8>, Seq<char>>(e),
{
}

/// A client waits until an answer comes; it reports the error of the answer, else it
/// shows its value.
pub proof fn law_reply(ps: Seq<(Seq<char>, Seq<char>)>, e: Seq<char>)
    ensures
        reply_of(Err::<Seq<(Seq<char>, Seq<char>)>, Seq<char>>(e)) == ReplyView::Unreadable(e),
        ps.len() == 0 ==> reply_of(Ok::<Seq<(Seq<char>, Seq<char>)>, Seq<char>>(ps))
            == ReplyView::Wait,
        ps.len() > 0 ==> {
            let r = reply_of(Ok::<Seq<(Seq<char>, Seq<char>)>, Seq<char>>(ps));
            let (kind, _) = ps[0];
            let (error, _) = ps[2];
            let (_, value) = ps[3];
            &&& kind != "1"@ ==> r == ReplyView::Wait
            &&& kind == "1"@ && ps.len() > 2 && error != "null"@ ==> r == ReplyView::Fail(
                "Server error: "@ + error,
            )
            &&& kind == "1"@ && ps.len() > 3 && error == "null"@ ==> r == ReplyView::Finish(value)
        },
{
}

// ---------------------------------------------------------------------------
// The command line
// ---------------------------------------------------------------------------
/// With a server a request goes to it, with its payload; without one only a refresh is
/// carried out, and everything else fails.
pub proof fn law_command(method: String, payload: String, step: CliStep)
    ensures
        step_of(Some(Command::Proxy { method, payload }), true, step) ==> (step matches CliStep::AskServer {
            method: m,
            payload: p,
        } && m@ == method@ && p@ == payload@),
        method@ == "refresh"@ ==> (step_of(Some(Command::Proxy { method, payload }), false, step) ==> (step
            matches CliStep::RefreshHere { payload: p } && p@ == payload@)),
        method@ != "refresh"@ ==> (step_of(Some(Command::Proxy { method, payload }), false, step) ==> (step
            matches CliStep::Fail { message } && message@ == "Server is not running for command: "@
            + method@)),
        step_of(Some(Command::ServerStatus { method }), true, step) ==> (step matches CliStep::AskServer {
            method: m,
            payload: p,
        } && m@ == method@ && p@ == "{}"@),
        step_of(Some(Command::ServerStatus { method }), false, step) <==> step is SayNotRunning,
        step_of(Some(Command::ScanStdin), true, step) <==> step is ReadScan,
        step_of(Some(Command::ScanStdin), false, step) <==> step is ReadScan,
        step_of(None, true, step) <==> step is ReadScan,
{
}

/// Which commands take a payload, and which only ask for the state of the server.
pub proof fn law_commands(c: Seq<char>)
    ensures
        takes_payload(c) <==> seq!["refresh"@, "watch"@, "query"@, "setup"@].contains(c),
        asks_status(c) <==> seq!["status"@, "list_projects"@].contains(c),
{
    let a = seq!["refresh"@, "watch"@, "query"@, "setup"@];
    let b = seq!["status"@, "list_projects"@];
    assert(a[0] == "refresh"@ && a[1] == "watch"@ && a[2] == "query"@ && a[3] == "setup"@);
    assert(b[0] == "status"@ && b[1] == "list_projects"@);
}

/// What is recorded of an asset: its path, its parent, and what it refers to, functions
/// apart from the rest.
pub proof fn law_record(r: AssetRecord, path: Seq<char>, v: PackageView, x: Seq<char>)
    requires
        records(r, path, v),
    ensures
        r.asset_path@ == asset_path(path),
        opt_text(r.parent_class) == parent_class_of(v.imports, v.exports, v.asset_name),
        texts(r.imports@).contains(x) <==> exists|i: int|
            0 <= i < v.imports.len() && #[trigger] import_refers(v.imports, i, false, x),
        texts(r.functions@).contains(x) <==> exists|i: int|
            0 <= i < v.imports.len() && #[trigger] import_refers(v.imports, i, true, x),
{
}

/// The classes that a file holds are forgotten one by one, by their names.
pub proof fn law_class_names(r: ParseResult, i: int)
    ensures
        r.data is None ==> class_names(r).len() == 0,
        r.data matches Some(d) ==> class_names(r).len() == d.classes@.len() && (0 <= i
            < d.classes@.len() ==> class_names(r)[i] == d.classes@[i].class_name@),
{
}

} // verus!
