//! How configuration files are read and merged.

#[allow(unused_imports)]
use crate::laws::texts::lemma_trim_stays;
#[allow(unused_imports)]
use crate::paths::{file_name, joined, parent};
#[allow(unused_imports)]
use crate::query::config::{applied, config_places, engine_places, ini_items, ini_name, items_from, key_op, known,
    line_item, merge_item, merge_items, merge_sources, op_sign, platform_marks, platform_roots, project_places,
    section_header, shown, source_name, truncated, uncommented, usual_platforms, without, ConfigOp, HistoryView,
    ItemView, Merged, PlaceView, SourceView, ValueView};
#[allow(unused_imports)]
use crate::text::{decimal, index_of, lemma_index_of_from, lines, swap_char, trim, trim_start, ws};
#[allow(unused_imports)]
use crate::order::before;
#[allow(unused_imports)]
use crate::paths::extension;
#[allow(unused_imports)]
use crate::query::config::{listed, sections_show};
#[allow(unused_imports)]
use crate::text::views;
#[allow(unused_imports)]
use crate::types::ConfigSection;
use vstd::prelude::*;

verus! {

// ---------------------------------------------------------------------------
// Lines
// ---------------------------------------------------------------------------
/// A sign before a key says what is done to its value; without one it is set.
pub proof fn law_key_sign(key: Seq<char>)
    ensures
        key_op(seq!['+'] + key) == (ConfigOp::Add, key),
        key_op(seq!['-'] + key) == (ConfigOp::Remove, key),
        key_op(seq!['!'] + key) == (ConfigOp::Clear, key),
        key.len() == 0 || (key[0] != '+' && key[0] != '-' && key[0] != '!') ==> key_op(key) == (
            ConfigOp::Assign,
            key,
        ),
{
    assert((seq!['+'] + key).skip(1) =~= key);
    assert((seq!['-'] + key).skip(1) =~= key);
    assert((seq!['!'] + key).skip(1) =~= key);
}

/// A line is a comment only as a whole: a mark behind other text stays.
pub proof fn law_comment(line: Seq<char>)
    ensures
        trim_start(line).len() > 0 && (trim_start(line)[0] == ';' || trim_start(line)[0] == '#')
            ==> uncommented(line).len() == 0,
        trim_start(line).len() == 0 || (trim_start(line)[0] != ';' && trim_start(line)[0] != '#')
            ==> uncommented(line) == line,
{
}

/// A name in square brackets opens a section; nothing else does.
pub proof fn law_section_header(name: Seq<char>, line: Seq<char>)
    ensures
        section_header(seq!['['] + name + seq![']']) == Some(name),
        section_header(line) matches Some(n) ==> line == seq!['['] + n + seq![']'],
{
    let s = seq!['['] + name + seq![']'];
    assert(s.subrange(1, s.len() - 1) =~= name);
    match section_header(line) {
        Some(n) => {
            assert(line =~= seq!['['] + n + seq![']']);
        },
        None => {},
    }
}

/// What stands before the first equals sign is the key, what stands behind it the
/// value, both without white space around them.
pub proof fn law_assignment(section: Seq<char>, key: Seq<char>, value: Seq<char>, number: int)
    requires
        !key.contains('='),
    ensures
        ({
            let r = line_item(section, key + seq!['='] + value, number);
            let (op, name) = key_op(trim(key));
            &&& name.len() == 0 ==> r is None
            &&& name.len() > 0 ==> (r matches Some(item) && item.section == section && item.key == name
                && item.op == op && item.value == trim(value) && item.line == number)
        }),
{
    let s = key + seq!['='] + value;
    lemma_index_of_from(s, '=', 0);
    assert(s[key.len() as int] == '=');
    assert forall|j: int| 0 <= j < key.len() implies s[j] != '=' by {
        assert(s[j] == key[j]);
        assert(key.contains(key[j]));
    }
    assert(index_of(s, '=') == Some(key.len() as int));
    assert(s.take(key.len() as int) =~= key);
    assert(s.skip(key.len() as int + 1) =~= value);
}

/// A line without an equals sign assigns nothing.
pub proof fn law_no_assignment(section: Seq<char>, line: Seq<char>, number: int)
    requires
        !line.contains('='),
    ensures
        line_item(section, line, number) is None,
{
    lemma_index_of_from(line, '=', 0);
    match index_of(line, '=') {
        Some(i) => {
            assert(line.contains(line[i]));
        },
        None => {},
    }
}

/// Assignments stand in the order of their lines, numbered from one; a header holds
/// for the lines behind it, and before the first one the section has a usual name.
pub proof fn law_lines_in_order(content: Seq<char>, ls: Seq<Seq<char>>, i: int, section: Seq<char>)
    requires
        0 <= i < ls.len(),
    ensures
        ini_items(content) == items_from(lines(content), 0, "Default"@),
        items_from(ls, ls.len() as int, section).len() == 0,
        ({
            let line = trim(uncommented(ls[i]));
            &&& line.len() == 0 ==> items_from(ls, i, section) == items_from(ls, i + 1, section)
            &&& line.len() > 0 ==> (section_header(line) matches Some(name) ==> items_from(
                ls,
                i,
                section,
            ) == items_from(ls, i + 1, name))
            &&& line.len() > 0 && section_header(line) is None ==> (line_item(section, line, i + 1)
                is None ==> items_from(ls, i, section) == items_from(ls, i + 1, section))
            &&& line.len() > 0 && section_header(line) is None ==> (line_item(section, line, i + 1)
                matches Some(item) ==> items_from(ls, i, section) == seq![item] + items_from(
                ls,
                i + 1,
                section,
            ))
        }),
{
}

// ---------------------------------------------------------------------------
// Values
// ---------------------------------------------------------------------------
/// What each operation makes of each value.
pub proof fn law_operations(x: Seq<char>, y: Seq<char>, list: Seq<Seq<char>>, v: ValueView)
    ensures
        applied(v, ConfigOp::Assign, x) == ValueView::Text(x),
        applied(v, ConfigOp::Clear, x) == ValueView::Null,
        applied(ValueView::Null, ConfigOp::Add, x) == ValueView::List(seq![x]),
        applied(ValueView::Text(y), ConfigOp::Add, x) == ValueView::List(seq![y, x]),
        applied(ValueView::List(list), ConfigOp::Add, x) == ValueView::List(list + seq![x]),
        applied(ValueView::Null, ConfigOp::Remove, x) == ValueView::Null,
        applied(ValueView::Text(x), ConfigOp::Remove, x) == ValueView::Null,
        x != y ==> applied(ValueView::Text(y), ConfigOp::Remove, x) == ValueView::Text(y),
{
    assert(list + seq![x] =~= list.push(x));
}

/// Removing takes every occurrence of a text out of a list and keeps the others.
pub proof fn law_removed(list: Seq<Seq<char>>, x: Seq<char>, y: Seq<char>)
    ensures
        !without(list, x).contains(x),
        y != x ==> (without(list, x).contains(y) <==> list.contains(y)),
        without(list, x).len() <= list.len(),
        !list.contains(x) ==> without(list, x) == list,
    decreases list.len(),
{
    if list.len() > 0 {
        let rest = list.drop_last();
        law_removed(rest, x, y);
        let w = without(rest, x);
        assert(list =~= rest.push(list.last()));
        assert(list.contains(list.last()));
        if list.contains(y) {
            let i = choose|i: int| 0 <= i < list.len() && list[i] == y;
            if i < rest.len() {
                assert(rest[i] == y);
            }
        }
        if rest.contains(y) {
            let i = choose|i: int| 0 <= i < rest.len() && rest[i] == y;
            assert(list[i] == y);
        }
        if rest.contains(x) {
            let i = choose|i: int| 0 <= i < rest.len() && rest[i] == x;
            assert(list[i] == x);
        }
        if list.last() != x {
            let p = w.push(list.last());
            assert(without(list, x) == p);
            if p.contains(x) {
                let i = choose|i: int| 0 <= i < p.len() && p[i] == x;
                assert(w[i] == x);
            }
            if w.contains(y) {
                let i = choose|i: int| 0 <= i < w.len() && w[i] == y;
                assert(p[i] == y);
            }
            if p.contains(y) {
                let i = choose|i: int| 0 <= i < p.len() && p[i] == y;
                if i < w.len() {
                    assert(w[i] == y);
                }
            }
            assert(p[w.len() as int] == list.last());
        }
    }
}

/// Removing keeps the order of the texts that stay.
pub proof fn law_removed_in_order(a: Seq<Seq<char>>, b: Seq<Seq<char>>, x: Seq<char>)
    ensures
        without(a + b, x) == without(a, x) + without(b, x),
    decreases b.len(),
{
    if b.len() == 0 {
        assert(a + b =~= a);
        assert(without(a, x) + without(b, x) =~= without(a, x));
    } else {
        let rest = b.drop_last();
        law_removed_in_order(a, rest, x);
        assert((a + b).drop_last() =~= a + rest);
        assert((a + b).last() == b.last());
        assert((without(a, x) + without(rest, x)).push(b.last()) =~= without(a, x) + without(
            rest,
            x,
        ).push(b.last()));
    }
}

/// A list from which everything was removed is no value.
pub proof fn law_remove_from_list(list: Seq<Seq<char>>, x: Seq<char>)
    ensures
        without(list, x).len() > 0 ==> applied(ValueView::List(list), ConfigOp::Remove, x)
            == ValueView::List(without(list, x)),
        (forall|i: int| 0 <= i < list.len() ==> list[i] == x) ==> applied(
            ValueView::List(list),
            ConfigOp::Remove,
            x,
        ) == ValueView::Null,
{
    if forall|i: int| 0 <= i < list.len() ==> list[i] == x {
        if without(list, x).len() > 0 {
            let y = without(list, x)[0];
            law_removed(list, x, y);
            assert(without(list, x).contains(y));
        }
    }
}

/// A text of up to fifty characters is displayed whole, a longer one by its first
/// characters and a mark, in fifty characters.
pub proof fn law_display(s: Seq<char>)
    ensures
        s.len() <= 50 ==> truncated(s) == s,
        s.len() > 50 ==> truncated(s).len() == 50 && (forall|i: int|
            0 <= i < 47 ==> truncated(s)[i] == s[i]) && (forall|i: int|
            47 <= i < 50 ==> truncated(s)[i] == '.'),
{
    reveal_strlit("...");
}

/// How values are displayed: a list by its length and its last text.
pub proof fn law_shown(s: Seq<char>, list: Seq<Seq<char>>)
    ensures
        shown(ValueView::Null) == "nil"@,
        shown(ValueView::Text(s)) == truncated(s),
        list.len() == 0 ==> shown(ValueView::List(list)) == "[]"@,
        shown(ValueView::List(list.push(s))) == "[Array x"@ + decimal(list.len() + 1) + "] "@ + s,
{
    assert(list.push(s).last() == s);
}

// ---------------------------------------------------------------------------
// Merging
// ---------------------------------------------------------------------------
/// An assignment changes the value of its key alone, and adds one step to its
/// history.
pub proof fn law_merge_step(
    m: Merged,
    s: SourceView,
    item: ItemView,
    at: (Seq<char>, Seq<char>),
)
    ensures
        ({
            let (section, key) = at;
            let (old_value, old_steps) = known(m, at);
            let (value, steps) = known(merge_item(m, s, item), at);
            &&& section != item.section || key != item.key ==> value == old_value && steps
                == old_steps && (m.dom().contains(at) <==> merge_item(m, s, item).dom().contains(at))
            &&& section == item.section && key == item.key ==> {
                &&& value == applied(old_value, item.op, item.value)
                &&& steps.len() == old_steps.len() + 1
                &&& forall|i: int| 0 <= i < old_steps.len() ==> steps[i] == old_steps[i]
                &&& steps.last().file == s.name
                &&& steps.last().full_path == swap_char(s.path, '\\', '/')
                &&& steps.last().value == shown(value)
                &&& steps.last().op == op_sign(item.op)
                &&& steps.last().line == item.line
            }
        }),
{
}

/// A key of which nothing is known has no value and no history.
pub proof fn law_unknown_key(m: Merged, at: (Seq<char>, Seq<char>))
    requires
        !m.dom().contains(at),
    ensures
        known(m, at) == (ValueView::Null, Seq::<HistoryView>::empty()),
{
    assert(known(m, at).1 =~= Seq::<HistoryView>::empty());
}

/// The assignments of a file work one after the other.
pub proof fn law_items_in_order(m: Merged, s: SourceView, items: Seq<ItemView>, n: int)
    requires
        0 <= n < items.len(),
    ensures
        merge_items(m, s, items, 0) == m,
        merge_items(m, s, items, n + 1) == merge_item(merge_items(m, s, items, n), s, items[n]),
{
}

/// A later file overrides an earlier one: where its last assignment to a key sets
/// it, that is the value, whatever the files before it say.
pub proof fn law_later_file_wins(
    sources: Seq<SourceView>,
    n: int,
    at: (Seq<char>, Seq<char>),
    k: int,
)
    requires
        0 < n <= sources.len(),
        ({
            let items = ini_items(sources[n - 1].content);
            &&& 0 <= k < items.len()
            &&& (items[k].section, items[k].key) == at
            &&& items[k].op == ConfigOp::Assign
            &&& forall|j: int|
                k < j < items.len() ==> ((#[trigger] items[j]).section, items[j].key) != at
        }),
    ensures
        ({
            let (value, _) = known(merge_sources(sources, n), at);
            value == ValueView::Text(ini_items(sources[n - 1].content)[k].value)
        }),
{
    let items = ini_items(sources[n - 1].content);
    lemma_last_set(
        merge_sources(sources, n - 1),
        sources[n - 1],
        items,
        items.len() as int,
        at,
        k,
    );
}

proof fn lemma_last_set(
    m: Merged,
    s: SourceView,
    items: Seq<ItemView>,
    n: int,
    at: (Seq<char>, Seq<char>),
    k: int,
)
    requires
        0 <= k < n <= items.len(),
        (items[k].section, items[k].key) == at,
        items[k].op == ConfigOp::Assign,
        forall|j: int| k < j < items.len() ==> ((#[trigger] items[j]).section, items[j].key) != at,
    ensures
        ({
            let (value, _) = known(merge_items(m, s, items, n), at);
            value == ValueView::Text(items[k].value)
        }),
    decreases n,
{
    if n - 1 > k {
        lemma_last_set(m, s, items, n - 1, at, k);
        assert((items[n - 1].section, items[n - 1].key) != at);
    }
}

/// A file that does not name a key leaves what is known of it.
pub proof fn law_other_files_keep(sources: Seq<SourceView>, n: int, at: (Seq<char>, Seq<char>))
    requires
        0 < n <= sources.len(),
        forall|j: int|
            0 <= j < ini_items(sources[n - 1].content).len() ==> ((#[trigger] ini_items(
                sources[n - 1].content,
            )[j]).section, ini_items(sources[n - 1].content)[j].key) != at,
    ensures
        known(merge_sources(sources, n), at) == known(merge_sources(sources, n - 1), at),
        known(merge_sources(sources, 0), at) == (ValueView::Null, Seq::<HistoryView>::empty()),
{
    let items = ini_items(sources[n - 1].content);
    lemma_untouched(
        merge_sources(sources, n - 1),
        sources[n - 1],
        items,
        items.len() as int,
        at,
    );
    law_unknown_key(merge_sources(sources, 0), at);
}

proof fn lemma_untouched(
    m: Merged,
    s: SourceView,
    items: Seq<ItemView>,
    n: int,
    at: (Seq<char>, Seq<char>),
)
    requires
        0 <= n <= items.len(),
        forall|j: int| 0 <= j < items.len() ==> ((#[trigger] items[j]).section, items[j].key) != at,
    ensures
        known(merge_items(m, s, items, n), at) == known(m, at),
    decreases n,
{
    if n > 0 {
        lemma_untouched(m, s, items, n - 1, at);
        assert((items[n - 1].section, items[n - 1].key) != at);
    }
}

// ---------------------------------------------------------------------------
// Places
// ---------------------------------------------------------------------------
/// The engine's places come before the project's; without an engine only the
/// project's count.
pub proof fn law_engine_first(project: Seq<char>, engine: Seq<char>, platform: Seq<char>, i: int)
    ensures
        ({
            let e = engine_places(engine, platform);
            let p = project_places(project, platform);
            let all = config_places(project, Some(engine), platform);
            &&& config_places(project, None, platform) == p
            &&& all.len() == e.len() + p.len()
            &&& 0 <= i < e.len() ==> all[i] == e[i]
            &&& 0 <= i < p.len() ==> all[e.len() + i] == p[i]
        }),
{
}

/// The base of the engine comes first, what is the platform's own last.
pub proof fn law_engine_places(root: Seq<char>, platform: Seq<char>)
    ensures
        ({
            let ps = engine_places(root, platform);
            let apple = platform == "Mac"@ || platform == "IOS"@ || platform == "TVOS"@ || platform
                == "Apple"@;
            let unix = platform == "Linux"@ || platform == "Unix"@;
            &&& ps[0] == PlaceView::File(joined(root, "Engine/Config/Base.ini"@))
            &&& ps[1] == PlaceView::File(joined(root, "Engine/Config/BaseEngine.ini"@))
            &&& apple ==> ps[2] == PlaceView::File(
                joined(root, "Engine/Config/Apple/AppleEngine.ini"@),
            )
            &&& unix ==> ps[2] == PlaceView::File(
                joined(root, "Engine/Config/Unix/UnixEngine.ini"@),
            )
            &&& platform == "Default"@ ==> ps.len() == 2
            &&& platform != "Default"@ ==> ps.len() == (if apple || unix {
                5int
            } else {
                4int
            }) && ps[ps.len() - 2] == PlaceView::File(
                joined(
                    joined(joined(root, "Engine/Config"@), platform),
                    platform + "Engine.ini"@,
                ),
            ) && ps.last() == PlaceView::Directory(
                joined(joined(joined(root, "Engine/Platforms"@), platform), "Config"@),
            )
        }),
{
    reveal_strlit("Mac");
    reveal_strlit("IOS");
    reveal_strlit("TVOS");
    reveal_strlit("Apple");
    reveal_strlit("Linux");
    reveal_strlit("Unix");
    reveal_strlit("Default");
    assert("Linux"@[0] == 'L' && "Apple"@[0] == 'A' && "Default"@[0] == 'D');
    assert("Mac"@[0] == 'M' && "IOS"@[0] == 'I' && "TVOS"@[0] == 'T' && "Unix"@[0] == 'U');
}

/// The project's own file comes first, what is the platform's own last.
pub proof fn law_project_places(root: Seq<char>, platform: Seq<char>)
    ensures
        ({
            let ps = project_places(root, platform);
            &&& ps[0] == PlaceView::File(joined(root, "Config/DefaultEngine.ini"@))
            &&& ps[1] == PlaceView::Directory(joined(root, "Platforms/Config"@))
            &&& platform == "Default"@ ==> ps.len() == 2
            &&& platform != "Default"@ ==> ps.len() == 4 && ps[2] == PlaceView::File(
                joined(joined(joined(root, "Config"@), platform), platform + "Engine.ini"@),
            ) && ps[3] == PlaceView::Directory(
                joined(joined(joined(root, "Platforms"@), platform), "Config"@),
            )
        }),
{
}

/// Platforms are looked for in the engine and in the project; hidden directories are
/// none.
pub proof fn law_platform_dirs(
    project: Seq<char>,
    engine: Seq<char>,
    dir: Seq<char>,
    name: Seq<char>,
)
    ensures
        platform_roots(project, None) == seq![
            joined(project, "Config"@),
            joined(project, "Platforms"@),
        ],
        platform_roots(project, Some(engine)) == seq![
            joined(engine, "Engine/Config"@),
            joined(engine, "Engine/Platforms"@),
            joined(project, "Config"@),
            joined(project, "Platforms"@),
        ],
        platform_marks(dir, seq!['.'] + name).len() == 0,
        name.len() > 0 && name[0] != '.' ==> platform_marks(dir, name) == seq![
            joined(joined(dir, name), name + "Engine.ini"@),
            joined(joined(dir, name), "DataDrivenPlatformInfo.ini"@),
            joined(joined(dir, name), "Config"@),
        ],
{
    assert(platform_roots(project, Some(engine)) =~= seq![
        joined(engine, "Engine/Config"@),
        joined(engine, "Engine/Platforms"@),
        joined(project, "Config"@),
        joined(project, "Platforms"@),
    ]);
}

/// A file in the configuration directory is displayed by its name, one elsewhere
/// with its directory.
pub proof fn law_source_name(
    path: Seq<char>,
    windows: bool,
    file: Seq<char>,
    dir: Seq<char>,
    dir_name: Seq<char>,
)
    requires
        file_name(path, windows) == Some(file),
        parent(path, windows) == Some(dir),
        file_name(dir, windows) == Some(dir_name),
    ensures
        dir_name == "Config"@ ==> source_name(path, windows) == file,
        dir_name != "Config"@ ==> source_name(path, windows) == dir_name + "/"@ + file,
{
}

/// What a configuration shows: each key that is known stands in its section, with its
/// value and its history; nothing else stands there; sections and keys are in order.
pub proof fn law_shown_config(
    secs: Seq<ConfigSection>,
    m: Merged,
    section: Seq<char>,
    key: Seq<char>,
    i: int,
    j: int,
)
    requires
        sections_show(secs, m),
    ensures
        m.dom().contains((section, key)) ==> exists|a: int, b: int|
            0 <= a < secs.len() && 0 <= b < secs[a].parameters@.len() && secs[a].name@ == section
                && #[trigger] secs[a].parameters@[b].key@ == key && secs[a].parameters@[b].value@
                == shown(m[(section, key)].0) && views(secs[a].parameters@[b].history@) == m[(
                section,
                key,
            )].1,
        0 <= i < secs.len() && 0 <= j < secs[i].parameters@.len() ==> m.dom().contains(
            (secs[i].name@, secs[i].parameters@[j].key@),
        ),
        0 <= i < j < secs.len() ==> before(secs[i].name@, secs[j].name@),
{
    if m.dom().contains((section, key)) {
        assert(listed(secs, (section, key)));
        let (a, b) = choose|a: int, b: int|
            0 <= a < secs.len() && 0 <= b < secs[a].parameters@.len() && secs[a].name@ == section
                && #[trigger] secs[a].parameters@[b].key@ == key;
        assert(crate::query::config::section_shows(secs[a], m));
        let p = secs[a].parameters@[b];
        assert(crate::query::config::parameter_shows(p, m[(secs[a].name@, p.key@)]));
    }
    if 0 <= i < secs.len() && 0 <= j < secs[i].parameters@.len() {
        assert(crate::query::config::section_shows(secs[i], m));
        let p = secs[i].parameters@[j];
        assert(m.dom().contains((secs[i].name@, p.key@)));
    }
}

/// A configuration file is known by its extension.
pub proof fn law_ini_name(name: Seq<char>, windows: bool, e: Seq<char>)
    ensures
        extension(name, windows) == Some(e) ==> (ini_name(name, windows) <==> e == "ini"@),
        extension(name, windows) is None ==> !ini_name(name, windows),
{
}

/// The platforms that are looked for by name.
pub proof fn law_usual_platforms(p: Seq<char>)
    ensures
        usual_platforms().contains(p) <==> p == "Windows"@ || p == "Mac"@ || p == "Linux"@ || p
            == "Android"@ || p == "IOS"@ || p == "TVOS"@ || p == "Apple"@ || p == "Unix"@,
{
    let u = usual_platforms();
    assert(u[0] == "Windows"@ && u[1] == "Mac"@ && u[2] == "Linux"@ && u[3] == "Android"@);
    assert(u[4] == "IOS"@ && u[5] == "TVOS"@ && u[6] == "Apple"@ && u[7] == "Unix"@);
}

} // verus!
