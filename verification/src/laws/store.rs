//! What the index holds, and under which paths.

#[allow(unused_imports)]
use crate::db::project_path::{assembled, clean_path, full_path, part_of, parts_of, restored, single, PathComponent};
#[allow(unused_imports)]
use crate::db::store::{best_owner, call_rows, class_rows, classes_rows, compared, file_row, header_ext, include_rows,
    is_version, last_row, law_longest_root, member_rows, members_rows, owns, parent_rows, percent, result_rows,
    same_file, version_step, ModuleRoot, OpView, VersionStep, DB_VERSION};
#[allow(unused_imports)]
use crate::paths::{file_name, lower_extension, parent};
#[allow(unused_imports)]
use crate::text::{contains, decimal, law_decimal_comes_back, lower, lower_char, parse_decimal, starts, swap_char,
    texts, views};
#[allow(unused_imports)]
use crate::types::{CallView, ClassView, MemberView, ParseResult};
use vstd::prelude::*;

verus! {

// ---------------------------------------------------------------------------
// Versions and progress
// ---------------------------------------------------------------------------
/// An index is made where there is none, kept where it is of the current version, and
/// made anew where it is of another one or of none.
pub proof fn law_version_step(stored: Option<Seq<char>>, v: nat)
    requires
        v <= u32::MAX,
    ensures
        version_step(false, stored) == VersionStep::Create,
        version_step(true, None) == VersionStep::Rebuild,
        version_step(true, Some(decimal(v))) == (if v == DB_VERSION {
            VersionStep::Keep
        } else {
            VersionStep::Rebuild
        }),
{
    law_decimal_comes_back(v, u32::MAX as nat);
}

/// The percentage is that of the total, rounded down, and never more than a hundred;
/// of nothing everything is done.
pub proof fn law_percentage(current: int, total: int)
    ensures
        percent(current, 0) == 100,
        total > 0 && current >= total ==> percent(current, total) == 100,
        0 <= current < total ==> percent(current, total) * total <= current * 100 < (percent(
            current,
            total,
        ) + 1) * total,
{
    if total > 0 && current >= total {
        assert(current * 100 / total >= 100) by (nonlinear_arith)
            requires
                total > 0,
                current >= total,
        ;
    }
    if 0 <= current < total {
        let q = current * 100 / total;
        assert(q < 100) by (nonlinear_arith)
            requires
                q == current * 100 / total,
                0 <= current < total,
        ;
        assert(q * total <= current * 100 < (q + 1) * total) by (nonlinear_arith)
            requires
                q == current * 100 / total,
                total > 0,
        ;
    }
}

// ---------------------------------------------------------------------------
// Rows
// ---------------------------------------------------------------------------
/// A value of an enumeration is recorded as such; any other member with its details,
/// and for the search.
pub proof fn law_member_rows(m: MemberView, class_name: Seq<char>)
    ensures
        m.mem_type == "enum_item"@ ==> member_rows(m, class_name) == seq![
            OpView::EnumValue { name: m.name, line: m.line as i64 },
        ],
        m.mem_type != "enum_item"@ ==> {
            let rs = member_rows(m, class_name);
            &&& rs.len() == 2
            &&& rs[0] matches OpView::Member {
                name,
                kind,
                flags,
                access,
                detail,
                return_type,
                is_static,
                line,
            } && name == m.name && kind == m.mem_type && flags == m.flags && access == m.access
                && detail == m.detail && return_type == m.return_type && (is_static <==> contains(
                m.flags,
                "static"@,
            )) && line == m.line as i64
            &&& rs[1] == OpView::Search { name: m.name, kind: m.mem_type, class_name }
        },
{
}

/// The rows of a class begin with its own and that for the search; its parents follow,
/// then its members.
pub proof fn law_class_rows(c: ClassView, i: int)
    ensures
        ({
            let rs = class_rows(c);
            let bases = c.base_classes.len();
            let ms = members_rows(c, c.members.len() as int);
            &&& rs.len() == 2 + bases + ms.len()
            &&& rs[0] matches OpView::Class {
                name,
                namespace,
                base_class,
                line,
                symbol_type,
                end_line,
            } && name == c.class_name && namespace == c.namespace && line == c.line as i64
                && symbol_type == c.symbol_type && end_line == c.end_line as i64 && (bases > 0
                ==> base_class == Some(c.base_classes[0])) && (bases == 0 ==> base_class is None)
            &&& rs[1] == OpView::Search {
                name: c.class_name,
                kind: c.symbol_type,
                class_name: c.class_name,
            }
            &&& 0 <= i < bases ==> rs[2 + i] == (OpView::Parent { name: c.base_classes[i] })
            &&& 0 <= i < ms.len() ==> rs[2 + bases + i] == ms[i]
        }),
{
}

/// The rows of members and of classes follow each other in order.
pub proof fn law_rows_in_order(c: ClassView, cs: Seq<ClassView>, n: int, k: int)
    ensures
        members_rows(c, 0).len() == 0,
        0 <= n < c.members.len() ==> members_rows(c, n + 1) == members_rows(c, n) + member_rows(
            c.members[n],
            c.class_name,
        ),
        classes_rows(cs, 0).len() == 0,
        0 <= k < cs.len() ==> classes_rows(cs, k + 1) == classes_rows(cs, k) + class_rows(cs[k]),
{
}

/// Every call is recorded with its line and its name, every named file with its path
/// and the last part of it.
pub proof fn law_call_rows(cs: Seq<CallView>, ps: Seq<Seq<char>>, windows: bool, i: int, b: Seq<char>)
    ensures
        call_rows(cs).len() == cs.len(),
        0 <= i < cs.len() ==> call_rows(cs)[i] == (OpView::Call {
            line: cs[i].line as i64,
            name: cs[i].name,
        }),
        include_rows(ps, windows).len() == ps.len(),
        0 <= i < ps.len() && file_name(ps[i], windows) == Some(b) ==> include_rows(ps, windows)[i]
            == (OpView::Include { path: ps[i], base_name: b }),
{
}

/// A file is recorded by its directory and its name, with its extension in lower case.
pub proof fn law_file_row(
    path: Seq<char>,
    windows: bool,
    mtime: u64,
    hash: Seq<char>,
    module_id: Option<i64>,
    dir: Seq<char>,
    name: Seq<char>,
    ext: Seq<char>,
)
    requires
        parent(path, windows) == Some(dir),
        file_name(path, windows) == Some(name),
        lower_extension(path, windows) == Some(ext),
    ensures
        file_row(path, windows, mtime, hash, module_id) matches OpView::File {
            directory,
            filename,
            extension,
            mtime: m,
            file_hash,
            module_id: i,
            is_header,
        } && directory == dir && filename == name && extension == ext && m == mtime as i64
            && file_hash == hash && i == module_id && (is_header <==> ext == "h"@ || ext == "hpp"@
            || ext == "hh"@ || ext == "inl"@),
{
}

/// The rows of a parsed file begin with its own; its classes, its calls and the files
/// that it names follow.
pub proof fn law_result_rows(r: ParseResult, windows: bool)
    requires
        r.status@ == "parsed"@,
    ensures
        r.data matches Some(d) ==> {
            let rs = result_rows(r, windows);
            let classes = classes_rows(views(d.classes@), d.classes@.len() as int);
            let calls = call_rows(views(d.calls@));
            let files = include_rows(texts(d.includes@), windows);
            &&& rs.len() == 1 + classes.len() + calls.len() + files.len()
            &&& rs[0] == file_row(r.path@, windows, r.mtime, d.new_hash@, r.module_id)
            &&& rs.skip(1) == classes + calls + files
        },
{
    match r.data {
        Some(d) => {
            let classes = classes_rows(views(d.classes@), d.classes@.len() as int);
            let calls = call_rows(views(d.calls@));
            let files = include_rows(texts(d.includes@), windows);
            assert(result_rows(r, windows).skip(1) =~= classes + calls + files);
        },
        None => {},
    }
}

// ---------------------------------------------------------------------------
// Modules of files
// ---------------------------------------------------------------------------
/// Paths are compared without regard to case and to the kind of slash.
pub proof fn law_compared(s: Seq<char>, i: int)
    requires
        0 <= i < s.len(),
    ensures
        compared(s).len() == s.len(),
        s[i] == '\\' ==> compared(s)[i] == '/',
        s[i] != '\\' ==> compared(s)[i] == lower_char(s[i]),
{
}

/// A module with a root owns the paths that begin with it.
pub proof fn law_owns(m: ModuleRoot, path: Seq<char>)
    ensures
        m.root@.len() == 0 ==> !owns(m, path),
        m.root@.len() > 0 ==> (owns(m, path) <==> starts(compared(path), compared(m.root@))),
{
}

/// Of several modules whose roots are equally long the first owns the path.
pub proof fn law_first_owner(ms: Seq<ModuleRoot>, path: Seq<char>, n: int, k: int)
    requires
        0 <= k < n <= ms.len(),
        owns(ms[k], path),
        forall|j: int|
            0 <= j < k && owns(#[trigger] ms[j], path) ==> compared(ms[j].root@).len() < compared(
                ms[k].root@,
            ).len(),
        forall|j: int|
            k < j < n && owns(#[trigger] ms[j], path) ==> compared(ms[j].root@).len() <= compared(
                ms[k].root@,
            ).len(),
    ensures
        best_owner(ms, path, n) == Some(k),
    decreases n,
{
    if n - 1 > k {
        law_first_owner(ms, path, n - 1, k);
        if owns(ms[n - 1], path) {
            assert(compared(ms[n - 1].root@).len() <= compared(ms[k].root@).len());
        }
    } else {
        law_longest_root(ms, path, n - 1);
        match best_owner(ms, path, n - 1) {
            Some(b) => {
                assert(compared(ms[b].root@).len() < compared(ms[k].root@).len());
            },
            None => {},
        }
    }
}

// ---------------------------------------------------------------------------
// Paths
// ---------------------------------------------------------------------------
/// A drive, the root and names are parts of a path; the directory itself and the one
/// above are not.
pub proof fn law_path_part(c: PathComponent)
    ensures
        c matches PathComponent::Prefix(p) ==> part_of(c) == Some(p@),
        c is Root ==> part_of(c) == Some("/"@),
        c is Current || c is Parent ==> part_of(c) is None,
        c matches PathComponent::Name(n) ==> (n@.len() > 0 ==> part_of(c) == Some(n@)),
{
}

/// The parts of a path stand in the order of its components.
pub proof fn law_path_parts(cs: Seq<PathComponent>, n: int)
    requires
        0 <= n < cs.len(),
    ensures
        parts_of(cs, 0).len() == 0,
        part_of(cs[n]) is None ==> parts_of(cs, n + 1) == parts_of(cs, n),
        part_of(cs[n]) matches Some(p) ==> parts_of(cs, n + 1) == parts_of(cs, n) + seq![p],
{
    match part_of(cs[n]) {
        Some(p) => {
            assert(parts_of(cs, n).push(p) =~= parts_of(cs, n) + seq![p]);
        },
        None => {},
    }
}

/// A path keeps every character but the second and later ones of a run of slashes.
pub proof fn law_clean_path(s: Seq<char>, c: char)
    ensures
        clean_path(Seq::<char>::empty()).len() == 0,
        c != '/' && c != '\\' ==> clean_path(s.push(c)) == clean_path(s).push(c),
        c == '/' || c == '\\' ==> {
            let t = clean_path(s);
            &&& t.len() > 0 && t.last() == '/' ==> clean_path(s.push(c)) == t
            &&& t.len() == 0 || t.last() != '/' ==> clean_path(s.push(c)) == t.push('/')
        },
{
    let t = swap_char(s.push(c), '\\', '/');
    assert(t.drop_last() =~= swap_char(s, '\\', '/'));
    assert(single(swap_char(Seq::<char>::empty(), '\\', '/')) =~= Seq::<char>::empty());
}

/// A file lies in its directory: a slash stands between them, one and no more.
pub proof fn law_full_path(dir: Seq<char>, name: Seq<char>)
    ensures
        dir.len() == 0 ==> full_path(dir, name) == clean_path(name),
        full_path("/"@, name) == "/"@ + name,
        dir.len() > 1 ==> full_path(dir, name) == clean_path(dir + "/"@ + name),
{
    reveal_strlit("/");
    if dir.len() > 1 {
        assert("/"@ =~= seq!['/']);
        assert(dir != "/"@);
        if dir.last() == '/' {
            lemma_double_slash(dir, name);
        }
    }
}

proof fn lemma_double_slash(dir: Seq<char>, name: Seq<char>)
    requires
        dir.len() > 0,
        dir.last() == '/',
    ensures
        clean_path(dir + "/"@ + name) == clean_path(dir + name),
    decreases name.len(),
{
    reveal_strlit("/");
    let long = dir + "/"@ + name;
    let short = dir + name;
    if name.len() == 0 {
        assert(long =~= dir.push('/'));
        assert(short =~= dir);
        law_clean_path(dir, '/');
        assert(dir =~= dir.drop_last().push('/'));
        law_clean_path(dir.drop_last(), '/');
    } else {
        let c = name.last();
        let rest = name.drop_last();
        lemma_double_slash(dir, rest);
        assert(long =~= (dir + "/"@ + rest).push(c));
        assert(short =~= (dir + rest).push(c));
        law_clean_path(dir + "/"@ + rest, c);
        law_clean_path(dir + rest, c);
    }
}

} // verus!
