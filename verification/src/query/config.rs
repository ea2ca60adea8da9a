//! Configuration: `.ini` files and how they are merged per platform.

use vstd::prelude::*;
use vstd::slice::slice_subrange;

use crate::order::{insert_ascending, str_before};
use crate::paths::{extension_of, file_name_of, join_path, parent_of};
use crate::text::{chars_of, concat, decimal_of, find_char_at, is_str, owned, push_all, push_str,
    replace_char, split_lines, str_eq, string_of, to_vec, trimmed, trimmed_start};
use crate::types::{ConfigCache, ConfigHistory, ConfigParameter, ConfigPlatform, ConfigSection};
#[allow(unused_imports)]
use crate::order::{ascending, before, lemma_before_irreflexive, lemma_before_total,
    lemma_before_transitive};
#[allow(unused_imports)]
use crate::paths::{extension, file_name, joined, parent};
#[allow(unused_imports)]
use crate::text::{decimal, index_of, lines, rows, swap_char, texts, trim, trim_start, views};

verus! {

/// What an assignment does to the value of its key.
#[derive(Debug, Clone, Copy, PartialEq, Eq, Structural)]
pub enum ConfigOp {
    Assign,
    Add,
    Remove,
    Clear,
}

/// The operation that the first character of a key stands for, and the key
/// without that character.
pub open spec fn key_op(key: Seq<char>) -> (ConfigOp, Seq<char>) {
    if key.len() > 0 && key[0] == '+' {
        (ConfigOp::Add, key.skip(1))
    } else if key.len() > 0 && key[0] == '-' {
        (ConfigOp::Remove, key.skip(1))
    } else if key.len() > 0 && key[0] == '!' {
        (ConfigOp::Clear, key.skip(1))
    } else {
        (ConfigOp::Assign, key)
    }
}

/// The sign of an operation.
pub open spec fn op_sign(op: ConfigOp) -> Seq<char> {
    match op {
        ConfigOp::Assign => ""@,
        ConfigOp::Add => "+"@,
        ConfigOp::Remove => "-"@,
        ConfigOp::Clear => "!"@,
    }
}

impl ConfigOp {
    /// The operation that the first character of a key stands for, and the key
    /// without that character.
    pub fn parse(key: &[char]) -> (r: (ConfigOp, &[char]))
        ensures
            (r.0, r.1@) == key_op(key@),
    {
        if key.len() > 0 && (key[0] == '+' || key[0] == '-' || key[0] == '!') {
            let rest = slice_subrange(key, 1, key.len());
            assert(rest@ =~= key@.skip(1));
            if key[0] == '+' {
                (ConfigOp::Add, rest)
            } else if key[0] == '-' {
                (ConfigOp::Remove, rest)
            } else {
                (ConfigOp::Clear, rest)
            }
        } else {
            (ConfigOp::Assign, key)
        }
    }

    /// The sign of an operation.
    pub fn as_str(self) -> (r: &'static str)
        ensures
            r@ == op_sign(self),
    {
        match self {
            ConfigOp::Assign => "",
            ConfigOp::Add => "+",
            ConfigOp::Remove => "-",
            ConfigOp::Clear => "!",
        }
    }
}

/// A key and its sign give back what was parsed.
pub proof fn law_op_sign(key: Seq<char>)
    ensures
        op_sign(key_op(key).0) + key_op(key).1 == key,
{
    reveal_strlit("");
    reveal_strlit("+");
    reveal_strlit("-");
    reveal_strlit("!");
    assert(op_sign(key_op(key).0) + key_op(key).1 =~= key);
}

// ---------------------------------------------------------------------------
// Reading a file
// ---------------------------------------------------------------------------
/// One assignment of an `.ini` file.
#[derive(Debug, Clone)]
pub struct IniItem {
    pub section: String,
    pub key: String,
    pub value: String,
    pub op: ConfigOp,
    pub line: usize,
}

/// What an assignment says.
pub struct ItemView {
    pub section: Seq<char>,
    pub key: Seq<char>,
    pub value: Seq<char>,
    pub op: ConfigOp,
    pub line: int,
}

impl View for IniItem {
    type V = ItemView;

    open spec fn view(&self) -> ItemView {
        ItemView {
            section: self.section@,
            key: self.key@,
            value: self.value@,
            op: self.op,
            line: self.line as int,
        }
    }
}

/// The line without a comment: only a whole line can be one.
pub open spec fn uncommented(line: Seq<char>) -> Seq<char> {
    let t = trim_start(line);
    if t.len() > 0 && (t[0] == ';' || t[0] == '#') {
        seq![]
    } else {
        line
    }
}

/// The section that a line opens.
pub open spec fn section_header(line: Seq<char>) -> Option<Seq<char>> {
    if line.len() >= 2 && line[0] == '[' && line.last() == ']' {
        Some(line.subrange(1, line.len() - 1))
    } else {
        None
    }
}

/// The assignment that a line makes in a section.
pub open spec fn line_item(section: Seq<char>, line: Seq<char>, number: int) -> Option<ItemView> {
    match index_of(line, '=') {
        None => None,
        Some(i) => {
            let k = key_op(trim(line.take(i)));
            if k.1.len() == 0 {
                None
            } else {
                Some(
                    ItemView {
                        section,
                        key: k.1,
                        value: trim(line.skip(i + 1)),
                        op: k.0,
                        line: number,
                    },
                )
            }
        },
    }
}

/// The assignments of the lines from `i` on, the given section being open.
pub open spec fn items_from(ls: Seq<Seq<char>>, i: int, section: Seq<char>) -> Seq<ItemView>
    decreases ls.len() - i,
{
    if i < 0 || i >= ls.len() {
        seq![]
    } else {
        let line = trim(uncommented(ls[i]));
        if line.len() == 0 {
            items_from(ls, i + 1, section)
        } else {
            match section_header(line) {
                Some(name) => items_from(ls, i + 1, name),
                None => match line_item(section, line, i + 1) {
                    Some(item) => seq![item] + items_from(ls, i + 1, section),
                    None => items_from(ls, i + 1, section),
                },
            }
        }
    }
}

/// The assignments of an `.ini` file, in order.
pub open spec fn ini_items(content: Seq<char>) -> Seq<ItemView> {
    items_from(lines(content), 0, "Default"@)
}

/// The line without a comment.
fn strip_inline_comment(line: &[char]) -> (r: &[char])
    ensures
        r@ == uncommented(line@),
{
    let t = trimmed_start(line);
    if t.len() > 0 && (t[0] == ';' || t[0] == '#') {
        let r = slice_subrange(line, 0, 0);
        assert(r@ =~= Seq::<char>::empty());
        r
    } else {
        line
    }
}

/// The section that a line opens.
fn parse_section_header(line: &[char]) -> (r: Option<&[char]>)
    ensures
        match r {
            Some(v) => section_header(line@) == Some(v@),
            None => section_header(line@) is None,
        },
{
    if line.len() >= 2 && line[0] == '[' && line[line.len() - 1] == ']' {
        Some(slice_subrange(line, 1, line.len() - 1))
    } else {
        None
    }
}

/// The assignment that a line makes in a section.
fn parse_line(section: &[char], line: &[char], number: usize) -> (r: Option<IniItem>)
    ensures
        match r {
            Some(item) => line_item(section@, line@, number as int) == Some(item@),
            None => line_item(section@, line@, number as int) is None,
        },
{
    match find_char_at(line, '=', 0) {
        None => None,
        Some(i) => {
            let left = slice_subrange(line, 0, i);
            assert(left@ =~= line@.take(i as int));
            let right = slice_subrange(line, i + 1, line.len());
            assert(right@ =~= line@.skip(i + 1));
            let (op, key) = ConfigOp::parse(trimmed(left));
            if key.len() == 0 {
                None
            } else {
                Some(
                    IniItem {
                        section: string_of(section),
                        key: string_of(key),
                        value: string_of(trimmed(right)),
                        op,
                        line: number,
                    },
                )
            }
        },
    }
}

/// The assignments of an `.ini` file, in order.
pub fn parse_ini(content: &str) -> (r: Vec<IniItem>)
    ensures
        views(r@) == ini_items(content@),
{
    let text = chars_of(content);
    let ls = split_lines(text.as_slice());
    let ghost all = lines(content@);
    let mut section = chars_of("Default");
    let mut out: Vec<IniItem> = Vec::new();
    let mut i: usize = 0;
    assert(views(out@) + ini_items(content@) =~= ini_items(content@));
    while i < ls.len()
        invariant
            i <= ls@.len(),
            rows(ls@) == all,
            views(out@) + items_from(all, i as int, section@) == ini_items(content@),
        decreases ls.len() - i,
    {
        assert(all[i as int] == ls@[i as int]@);
        let line = trimmed(strip_inline_comment(ls[i].as_slice()));
        if line.len() > 0 {
            match parse_section_header(line) {
                Some(name) => {
                    section = to_vec(name);
                },
                None => match parse_line(section.as_slice(), line, i + 1) {
                    Some(item) => {
                        let ghost before = views(out@);
                        let ghost rest = items_from(all, i + 1, section@);
                        out.push(item);
                        assert(views(out@) =~= before.push(item@));
                        assert(before + (seq![item@] + rest) =~= views(out@) + rest);
                    },
                    None => {},
                },
            }
        }
        i = i + 1;
    }
    assert(views(out@) + Seq::<ItemView>::empty() =~= views(out@));
    out
}

// ---------------------------------------------------------------------------
// Values
// ---------------------------------------------------------------------------
/// The value of a key: none, a text, or a list of texts.
#[derive(Debug, Clone)]
pub enum ConfigValue {
    Null,
    Text(String),
    List(Vec<String>),
}

/// What a value is.
pub enum ValueView {
    Null,
    Text(Seq<char>),
    List(Seq<Seq<char>>),
}

impl View for ConfigValue {
    type V = ValueView;

    open spec fn view(&self) -> ValueView {
        match self {
            ConfigValue::Null => ValueView::Null,
            ConfigValue::Text(s) => ValueView::Text(s@),
            ConfigValue::List(v) => ValueView::List(texts(v@)),
        }
    }
}

/// The list without the given text.
pub open spec fn without(list: Seq<Seq<char>>, x: Seq<char>) -> Seq<Seq<char>>
    decreases list.len(),
{
    if list.len() == 0 {
        seq![]
    } else if list.last() == x {
        without(list.drop_last(), x)
    } else {
        without(list.drop_last(), x).push(list.last())
    }
}

/// The value after an operation.
pub open spec fn applied(current: ValueView, op: ConfigOp, new: Seq<char>) -> ValueView {
    match op {
        ConfigOp::Clear => ValueView::Null,
        ConfigOp::Assign => ValueView::Text(new),
        ConfigOp::Remove => match current {
            ValueView::Null => ValueView::Null,
            ValueView::Text(s) => if s == new {
                ValueView::Null
            } else {
                ValueView::Text(s)
            },
            ValueView::List(list) => if without(list, new).len() == 0 {
                ValueView::Null
            } else {
                ValueView::List(without(list, new))
            },
        },
        ConfigOp::Add => match current {
            ValueView::Null => ValueView::List(seq![new]),
            ValueView::Text(s) => ValueView::List(seq![s, new]),
            ValueView::List(list) => ValueView::List(list.push(new)),
        },
    }
}

/// A list that does not hold the text loses nothing.
proof fn lemma_without_absent(list: Seq<Seq<char>>, x: Seq<char>)
    requires
        !list.contains(x),
    ensures
        without(list, x) == list,
    decreases list.len(),
{
    if list.len() > 0 {
        assert(list.contains(list.last()));
        assert forall|y: Seq<char>| list.drop_last().contains(y) implies list.contains(y) by {
            let k = choose|k: int| 0 <= k < list.drop_last().len() && list.drop_last()[k] == y;
            assert(list[k] == y);
        }
        lemma_without_absent(list.drop_last(), x);
        assert(list.drop_last().push(list.last()) =~= list);
    } else {
        assert(list =~= Seq::<Seq<char>>::empty());
    }
}

/// Removing what was just added gives back the value, unless that was a plain
/// text, an empty list, or a list that held the addition already.
pub proof fn law_remove_undoes_add(current: ValueView, new: Seq<char>)
    requires
        match current {
            ValueView::Null => true,
            ValueView::Text(_) => false,
            ValueView::List(list) => list.len() > 0 && !list.contains(new),
        },
    ensures
        applied(applied(current, ConfigOp::Add, new), ConfigOp::Remove, new) == current,
{
    match current {
        ValueView::List(list) => {
            assert(list.push(new).drop_last() =~= list);
            lemma_without_absent(list, new);
        },
        _ => {
            assert(seq![new].drop_last() =~= Seq::<Seq<char>>::empty());
            lemma_without_absent(seq![], new);
        },
    }
}

/// What was set stands, whatever stood before; what was cleared is gone.
pub proof fn law_set_and_clear_forget(a: ValueView, b: ValueView, new: Seq<char>)
    ensures
        applied(a, ConfigOp::Assign, new) == applied(b, ConfigOp::Assign, new),
        applied(a, ConfigOp::Clear, new) == ValueView::Null,
{
}

/// The list without the given text.
fn remove_text(list: &Vec<String>, x: &str) -> (r: Vec<String>)
    ensures
        texts(r@) == without(texts(list@), x@),
{
    let mut r: Vec<String> = Vec::new();
    let mut i: usize = 0;
    let ghost all = texts(list@);
    assert(texts(r@) =~= without(all.take(0), x@));
    while i < list.len()
        invariant
            i <= list@.len(),
            all == texts(list@),
            texts(r@) == without(all.take(i as int), x@),
        decreases list.len() - i,
    {
        assert(all[i as int] == list@[i as int]@);
        assert(all.take(i + 1).drop_last() =~= all.take(i as int));
        if !str_eq(list[i].as_str(), x) {
            let ghost before = texts(r@);
            r.push(list[i].clone());
            assert(texts(r@) =~= before.push(all[i as int]));
        }
        i = i + 1;
    }
    assert(all.take(i as int) =~= all);
    r
}

/// The value after an operation.
pub fn apply_op(current: ConfigValue, op: ConfigOp, new_value: &str) -> (r: ConfigValue)
    ensures
        r@ == applied(current@, op, new_value@),
{
    match op {
        ConfigOp::Clear => ConfigValue::Null,
        ConfigOp::Assign => ConfigValue::Text(owned(new_value)),
        ConfigOp::Remove => match current {
            ConfigValue::Null => ConfigValue::Null,
            ConfigValue::Text(s) => if str_eq(s.as_str(), new_value) {
                ConfigValue::Null
            } else {
                ConfigValue::Text(s)
            },
            ConfigValue::List(list) => {
                let kept = remove_text(&list, new_value);
                if kept.len() == 0 {
                    ConfigValue::Null
                } else {
                    ConfigValue::List(kept)
                }
            },
        },
        ConfigOp::Add => match current {
            ConfigValue::Null => {
                let list = vec![owned(new_value)];
                assert(texts(list@) =~= seq![new_value@]);
                ConfigValue::List(list)
            },
            ConfigValue::Text(s) => {
                let ghost first = s@;
                let list = vec![s, owned(new_value)];
                assert(texts(list@) =~= seq![first, new_value@]);
                ConfigValue::List(list)
            },
            ConfigValue::List(list) => {
                let mut list = list;
                let ghost before = texts(list@);
                list.push(owned(new_value));
                assert(texts(list@) =~= before.push(new_value@));
                ConfigValue::List(list)
            },
        },
    }
}

/// A text short enough for display: longer than fifty characters, it is cut and
/// marked.
pub open spec fn truncated(s: Seq<char>) -> Seq<char> {
    if s.len() <= 50 {
        s
    } else {
        s.take(47) + "..."@
    }
}

/// How a value is displayed.
pub open spec fn shown(v: ValueView) -> Seq<char> {
    match v {
        ValueView::Null => "nil"@,
        ValueView::Text(s) => truncated(s),
        ValueView::List(list) => if list.len() == 0 {
            "[]"@
        } else {
            "[Array x"@ + decimal(list.len()) + "] "@ + list.last()
        },
    }
}

/// A text short enough for display.
fn truncate_for_display(s: &str) -> (r: String)
    ensures
        r@ == truncated(s@),
{
    let v = chars_of(s);
    if v.len() <= 50 {
        owned(s)
    } else {
        let head = slice_subrange(v.as_slice(), 0, 47);
        assert(head@ =~= s@.take(47));
        let mut out = to_vec(head);
        push_str(&mut out, "...");
        string_of(out.as_slice())
    }
}

/// How a value is displayed.
pub fn format_value(value: &ConfigValue) -> (r: String)
    ensures
        r@ == shown(value@),
{
    match value {
        ConfigValue::Null => owned("nil"),
        ConfigValue::Text(s) => truncate_for_display(s.as_str()),
        ConfigValue::List(list) => {
            let n: usize = list.len();
            if n == 0 {
                owned("[]")
            } else {
                let mut out = chars_of("[Array x");
                let d = decimal_of(n as u64);
                push_all(&mut out, d.as_slice());
                push_str(&mut out, "] ");
                push_str(&mut out, list[n - 1].as_str());
                assert(texts(list@).last() == list@[n - 1]@);
                string_of(out.as_slice())
            }
        },
    }
}

// ---------------------------------------------------------------------------
// Merging
// ---------------------------------------------------------------------------
/// What a step in the history of a value says.
pub struct HistoryView {
    pub file: Seq<char>,
    pub full_path: Seq<char>,
    pub value: Seq<char>,
    pub op: Seq<char>,
    pub line: int,
}

impl View for ConfigHistory {
    type V = HistoryView;

    open spec fn view(&self) -> HistoryView {
        HistoryView {
            file: self.file@,
            full_path: self.full_path@,
            value: self.value@,
            op: self.op@,
            line: self.line as int,
        }
    }
}

/// A configuration file: its path, the name under which it is displayed, and
/// its text.
#[derive(Debug, Clone)]
pub struct ConfigSource {
    pub path: String,
    pub name: String,
    pub content: String,
}

/// What a configuration file says.
pub struct SourceView {
    pub path: Seq<char>,
    pub name: Seq<char>,
    pub content: Seq<char>,
}

impl View for ConfigSource {
    type V = SourceView;

    open spec fn view(&self) -> SourceView {
        SourceView { path: self.path@, name: self.name@, content: self.content@ }
    }
}

/// A merged configuration: for each section and key the value and how it came
/// about.
pub type Merged = Map<(Seq<char>, Seq<char>), (ValueView, Seq<HistoryView>)>;

/// What is known of a key.
pub open spec fn known(m: Merged, at: (Seq<char>, Seq<char>)) -> (ValueView, Seq<HistoryView>) {
    if m.dom().contains(at) {
        m[at]
    } else {
        (ValueView::Null, seq![])
    }
}

/// The configuration after one assignment of a file.
pub open spec fn merge_item(m: Merged, s: SourceView, item: ItemView) -> Merged {
    let at = (item.section, item.key);
    let value = applied(known(m, at).0, item.op, item.value);
    m.insert(
        at,
        (
            value,
            known(m, at).1.push(
                HistoryView {
                    file: s.name,
                    full_path: swap_char(s.path, '\\', '/'),
                    value: shown(value),
                    op: op_sign(item.op),
                    line: item.line,
                },
            ),
        ),
    )
}

/// The configuration after the first `n` assignments of a file.
pub open spec fn merge_items(m: Merged, s: SourceView, items: Seq<ItemView>, n: int) -> Merged
    decreases n,
{
    if n <= 0 {
        m
    } else {
        merge_item(merge_items(m, s, items, n - 1), s, items[n - 1])
    }
}

/// The configuration after the first `n` files.
pub open spec fn merge_sources(sources: Seq<SourceView>, n: int) -> Merged
    decreases n,
{
    if n <= 0 {
        Map::empty()
    } else {
        let items = ini_items(sources[n - 1].content);
        merge_items(merge_sources(sources, n - 1), sources[n - 1], items, items.len() as int)
    }
}

/// The order of keys: by section, then by key.
pub open spec fn at_before(a: (Seq<char>, Seq<char>), b: (Seq<char>, Seq<char>)) -> bool {
    before(a.0, b.0) || (a.0 == b.0 && before(a.1, b.1))
}

proof fn lemma_at_before(
    a: (Seq<char>, Seq<char>),
    b: (Seq<char>, Seq<char>),
    c: (Seq<char>, Seq<char>),
)
    ensures
        !at_before(a, a),
        at_before(a, b) && at_before(b, c) ==> at_before(a, c),
        a == b || at_before(a, b) || at_before(b, a),
{
    lemma_before_irreflexive(a.0);
    lemma_before_irreflexive(a.1);
    lemma_before_total(a.0, b.0);
    lemma_before_total(a.1, b.1);
    if before(a.0, b.0) && before(b.0, c.0) {
        lemma_before_transitive(a.0, b.0, c.0);
    }
    if before(a.1, b.1) && before(b.1, c.1) {
        lemma_before_transitive(a.1, b.1, c.1);
    }
}

/// A key of the merged configuration with all that is known of it.
struct Entry {
    section: String,
    key: String,
    value: ConfigValue,
    history: Vec<ConfigHistory>,
}

impl Entry {
    spec fn at(self) -> (Seq<char>, Seq<char>) {
        (self.section@, self.key@)
    }
}

/// The entries are those of the configuration, in order.
spec fn entries_hold(es: Seq<Entry>, m: Merged) -> bool {
    &&& forall|i: int, j: int|
        0 <= i < j < es.len() ==> at_before((#[trigger] es[i]).at(), (#[trigger] es[j]).at())
    &&& forall|i: int|
        0 <= i < es.len() ==> m.dom().contains((#[trigger] es[i]).at()) && m[es[i].at()] == (
            es[i].value@,
            views(es[i].history@),
        )
    &&& forall|at: (Seq<char>, Seq<char>)|
        m.dom().contains(at) ==> exists|i: int| 0 <= i < es.len() && (#[trigger] es[i]).at() == at
}

/// Whether one key comes before another.
fn entry_before(e: &Entry, section: &str, key: &str) -> (r: bool)
    ensures
        r == at_before(e.at(), (section@, key@)),
{
    str_before(e.section.as_str(), section) || (str_eq(e.section.as_str(), section) && str_before(
        e.key.as_str(),
        key,
    ))
}

/// Makes one assignment of a file.
fn merge_one(es: Vec<Entry>, s: &ConfigSource, item: &IniItem, Ghost(m): Ghost<Merged>) -> (r: Vec<
    Entry,
>)
    requires
        entries_hold(es@, m),
    ensures
        entries_hold(r@, merge_item(m, s@, item@)),
{
    let ghost at = (item.section@, item.key@);
    let ghost m2 = merge_item(m, s@, item@);
    let mut k: usize = 0;
    while k < es.len() && entry_before(&es[k], item.section.as_str(), item.key.as_str())
        invariant
            k <= es@.len(),
            at == (item.section@, item.key@),
            forall|j: int| 0 <= j < k ==> at_before((#[trigger] es@[j]).at(), at),
        decreases es.len() - k,
    {
        k = k + 1;
    }
    let path = chars_of(s.path.as_str());
    let path = replace_char(path.as_slice(), '\\', '/');
    let found = k < es.len() && str_eq(es[k].section.as_str(), item.section.as_str()) && str_eq(
        es[k].key.as_str(),
        item.key.as_str(),
    );
    let ghost old_es = es@;
    let mut out = es;
    if found {
        let e = out.remove(k);
        assert(e.at() == at);
        assert(known(m, at) == (e.value@, views(e.history@)));
        let value = apply_op(e.value, item.op, item.value.as_str());
        let mut history = e.history;
        let ghost h = views(history@);
        history.push(
            ConfigHistory {
                file: s.name.clone(),
                full_path: string_of(path.as_slice()),
                value: format_value(&value),
                op: owned(item.op.as_str()),
                line: item.line,
            },
        );
        assert(views(history@) =~= h.push(history@[history@.len() - 1]@));
        let new = Entry { section: e.section, key: e.key, value, history };
        let ghost new_e = new;
        out.insert(k, new);
        proof {
            assert(out@ =~= old_es.update(k as int, new_e));
            assert(m2[at] == (new_e.value@, views(new_e.history@)));
            assert forall|i: int, j: int| 0 <= i < j < out@.len() implies at_before(
                (#[trigger] out@[i]).at(),
                (#[trigger] out@[j]).at(),
            ) by {
                assert(out@[i].at() == old_es[i].at());
                assert(out@[j].at() == old_es[j].at());
            }
            assert forall|i: int| 0 <= i < out@.len() implies m2.dom().contains(
                (#[trigger] out@[i]).at(),
            ) && m2[out@[i].at()] == (out@[i].value@, views(out@[i].history@)) by {
                if i != k {
                    assert(out@[i] == old_es[i]);
                    lemma_at_before(old_es[i].at(), at, at);
                    if i < k {
                        assert(at_before(old_es[i].at(), old_es[k as int].at()));
                    } else {
                        assert(at_before(old_es[k as int].at(), old_es[i].at()));
                    }
                }
            }
            assert forall|a: (Seq<char>, Seq<char>)| m2.dom().contains(a) implies exists|i: int|
                0 <= i < out@.len() && (#[trigger] out@[i]).at() == a by {
                if a == at {
                    assert(out@[k as int].at() == a);
                } else {
                    let i = choose|i: int| 0 <= i < old_es.len() && (#[trigger] old_es[i]).at() == a;
                    assert(out@[i].at() == a);
                }
            }
        }
    } else {
        proof {
            assert forall|j: int| k <= j < old_es.len() implies at_before(
                at,
                (#[trigger] old_es[j]).at(),
            ) by {
                lemma_at_before(old_es[k as int].at(), at, at);
                if j > k {
                    lemma_at_before(at, old_es[k as int].at(), old_es[j].at());
                }
            }
            if m.dom().contains(at) {
                let i = choose|i: int| 0 <= i < old_es.len() && (#[trigger] old_es[i]).at() == at;
                lemma_at_before(at, at, at);
                if i < k {
                    assert(at_before(old_es[i].at(), at));
                } else {
                    assert(at_before(at, old_es[i].at()));
                }
                assert(false);
            }
        }
        let value = apply_op(ConfigValue::Null, item.op, item.value.as_str());
        let mut history: Vec<ConfigHistory> = Vec::new();
        history.push(
            ConfigHistory {
                file: s.name.clone(),
                full_path: string_of(path.as_slice()),
                value: format_value(&value),
                op: owned(item.op.as_str()),
                line: item.line,
            },
        );
        assert(views(history@) =~= Seq::<HistoryView>::empty().push(history@[0]@));
        let new = Entry {
            section: item.section.clone(),
            key: item.key.clone(),
            value,
            history,
        };
        let ghost new_e = new;
        out.insert(k, new);
        proof {
            assert(out@ =~= old_es.insert(k as int, new_e));
            assert(m2[at] == (new_e.value@, views(new_e.history@)));
            assert forall|i: int, j: int| 0 <= i < j < out@.len() implies at_before(
                (#[trigger] out@[i]).at(),
                (#[trigger] out@[j]).at(),
            ) by {
                if j < k {
                    assert(out@[i] == old_es[i] && out@[j] == old_es[j]);
                } else if j == k {
                    assert(out@[i] == old_es[i]);
                } else if i < k {
                    assert(out@[i] == old_es[i] && out@[j] == old_es[j - 1]);
                } else if i == k {
                    assert(out@[j] == old_es[j - 1]);
                } else {
                    assert(out@[i] == old_es[i - 1] && out@[j] == old_es[j - 1]);
                }
            }
            assert forall|i: int| 0 <= i < out@.len() implies m2.dom().contains(
                (#[trigger] out@[i]).at(),
            ) && m2[out@[i].at()] == (out@[i].value@, views(out@[i].history@)) by {
                if i < k {
                    assert(out@[i] == old_es[i]);
                    assert(m.dom().contains(old_es[i].at()));
                } else if i > k {
                    assert(out@[i] == old_es[i - 1]);
                    assert(m.dom().contains(old_es[i - 1].at()));
                }
            }
            assert forall|a: (Seq<char>, Seq<char>)| m2.dom().contains(a) implies exists|i: int|
                0 <= i < out@.len() && (#[trigger] out@[i]).at() == a by {
                if a == at {
                    assert(out@[k as int].at() == a);
                } else {
                    let i = choose|i: int| 0 <= i < old_es.len() && (#[trigger] old_es[i]).at() == a;
                    if i < k {
                        assert(out@[i].at() == a);
                    } else {
                        assert(out@[i + 1].at() == a);
                    }
                }
            }
        }
    }
    out
}

/// The entries of the configuration that the files make.
fn merge_all(sources: &Vec<ConfigSource>) -> (r: Vec<Entry>)
    ensures
        entries_hold(r@, merge_sources(views(sources@), sources@.len() as int)),
{
    let ghost all = views(sources@);
    let mut es: Vec<Entry> = Vec::new();
    let mut i: usize = 0;
    while i < sources.len()
        invariant
            i <= sources@.len(),
            all == views(sources@),
            entries_hold(es@, merge_sources(all, i as int)),
        decreases sources.len() - i,
    {
        let s = &sources[i];
        assert(all[i as int] == s@);
        let items = parse_ini(s.content.as_str());
        let ghost m = merge_sources(all, i as int);
        let ghost iv = views(items@);
        let mut k: usize = 0;
        while k < items.len()
            invariant
                k <= items@.len(),
                iv == views(items@),
                entries_hold(es@, merge_items(m, s@, iv, k as int)),
            decreases items.len() - k,
        {
            assert(iv[k as int] == items@[k as int]@);
            es = merge_one(es, s, &items[k], Ghost(merge_items(m, s@, iv, k as int)));
            k = k + 1;
        }
        i = i + 1;
    }
    es
}

/// The parameter shows what is known of its key.
pub open spec fn parameter_shows(p: ConfigParameter, known_: (ValueView, Seq<HistoryView>)) -> bool {
    p.value@ == shown(known_.0) && views(p.history@) == known_.1
}

/// The section stands in the list, with the key.
pub open spec fn listed(secs: Seq<ConfigSection>, at: (Seq<char>, Seq<char>)) -> bool {
    exists|i: int, j: int|
        0 <= i < secs.len() && 0 <= j < secs[i].parameters@.len() && secs[i].name@ == at.0
            && #[trigger] secs[i].parameters@[j].key@ == at.1
}

/// The section is that of the configuration: its keys in order, each with what
/// is known of it.
pub open spec fn section_shows(sec: ConfigSection, m: Merged) -> bool {
    &&& sec.parameters@.len() > 0
    &&& forall|j: int, k: int|
        0 <= j < k < sec.parameters@.len() ==> before(
            (#[trigger] sec.parameters@[j]).key@,
            (#[trigger] sec.parameters@[k]).key@,
        )
    &&& forall|j: int|
        0 <= j < sec.parameters@.len() ==> m.dom().contains(
            (sec.name@, (#[trigger] sec.parameters@[j]).key@),
        ) && parameter_shows(sec.parameters@[j], m[(sec.name@, sec.parameters@[j].key@)])
}

/// The sections are those of the configuration, in order: each key of the
/// configuration is listed once, with what is known of it, and nothing else.
pub open spec fn sections_show(secs: Seq<ConfigSection>, m: Merged) -> bool {
    &&& forall|i: int, j: int|
        0 <= i < j < secs.len() ==> before((#[trigger] secs[i]).name@, (#[trigger] secs[j]).name@)
    &&& forall|i: int| 0 <= i < secs.len() ==> section_shows(#[trigger] secs[i], m)
    &&& forall|at: (Seq<char>, Seq<char>)| m.dom().contains(at) ==> #[trigger] listed(secs, at)
}

/// A copy of a history.
fn copy_history(h: &Vec<ConfigHistory>) -> (r: Vec<ConfigHistory>)
    ensures
        views(r@) == views(h@),
{
    let mut r: Vec<ConfigHistory> = Vec::new();
    let mut i: usize = 0;
    while i < h.len()
        invariant
            i <= h@.len(),
            r@.len() == i,
            forall|j: int| 0 <= j < i ==> (#[trigger] r@[j])@ == h@[j]@,
        decreases h.len() - i,
    {
        r.push(
            ConfigHistory {
                file: h[i].file.clone(),
                full_path: h[i].full_path.clone(),
                value: h[i].value.clone(),
                op: h[i].op.clone(),
                line: h[i].line,
            },
        );
        i = i + 1;
    }
    assert(views(r@) =~= views(h@));
    r
}

/// The entries, grouped by section.
fn group_entries(es: &Vec<Entry>, Ghost(m): Ghost<Merged>) -> (r: Vec<ConfigSection>)
    requires
        entries_hold(es@, m),
    ensures
        sections_show(r@, m),
{
    let mut secs: Vec<ConfigSection> = Vec::new();
    let mut e: usize = 0;
    while e < es.len()
        invariant
            e <= es@.len(),
            entries_hold(es@, m),
            forall|i: int, j: int|
                0 <= i < j < secs@.len() ==> before(
                    (#[trigger] secs@[i]).name@,
                    (#[trigger] secs@[j]).name@,
                ),
            forall|i: int| 0 <= i < secs@.len() ==> section_shows(#[trigger] secs@[i], m),
            forall|t: int| 0 <= t < e ==> listed(secs@, (#[trigger] es@[t]).at()),
            secs@.len() > 0 ==> e > 0 && secs@.last().name@ == es@[e - 1].section@,
            e > 0 && e < es@.len() ==> es@[e - 1].section@ != es@[e as int].section@,
            e > 0 ==> secs@.len() > 0,
        decreases es.len() - e,
    {
        let start: usize = e;
        let name = es[e].section.clone();
        let mut params: Vec<ConfigParameter> = Vec::new();
        while e < es.len() && str_eq(es[e].section.as_str(), name.as_str())
            invariant
                start <= e <= es@.len(),
                start < es@.len(),
                entries_hold(es@, m),
                name@ == es@[start as int].section@,
                params@.len() == e - start,
                forall|j: int|
                    0 <= j < params@.len() ==> (#[trigger] params@[j]).key@ == es@[start + j].key@
                        && es@[start + j].section@ == name@ && parameter_shows(
                        params@[j],
                        m[(name@, params@[j].key@)],
                    ),
            decreases es.len() - e,
        {
            assert(m[es@[e as int].at()] == (es@[e as int].value@, views(es@[e as int].history@)));
            params.push(
                ConfigParameter {
                    key: es[e].key.clone(),
                    value: format_value(&es[e].value),
                    history: copy_history(&es[e].history),
                },
            );
            e = e + 1;
        }
        let ghost before_secs = secs@;
        let sec = ConfigSection { name, parameters: params };
        let ghost new = sec;
        proof {
            assert forall|j: int, k: int| 0 <= j < k < new.parameters@.len() implies before(
                (#[trigger] new.parameters@[j]).key@,
                (#[trigger] new.parameters@[k]).key@,
            ) by {
                assert(at_before(es@[start + j].at(), es@[start + k].at()));
                lemma_before_irreflexive(new.name@);
            }
            assert forall|j: int| 0 <= j < new.parameters@.len() implies m.dom().contains(
                (new.name@, (#[trigger] new.parameters@[j]).key@),
            ) by {
                assert(m.dom().contains(es@[start + j].at()));
            }
            assert(section_shows(new, m));
            assert forall|i: int| 0 <= i < before_secs.len() implies before(
                (#[trigger] before_secs[i]).name@,
                new.name@,
            ) by {
                let last = before_secs.last().name@;
                assert(at_before(es@[start - 1].at(), es@[start as int].at()));
                assert(before(last, new.name@));
                if i < before_secs.len() - 1 {
                    assert(before(before_secs[i].name@, before_secs[before_secs.len() - 1].name@));
                    lemma_before_transitive(before_secs[i].name@, last, new.name@);
                }
            }
        }
        secs.push(sec);
        proof {
            assert(secs@ =~= before_secs.push(new));
            assert forall|t: int| 0 <= t < e implies listed(secs@, (#[trigger] es@[t]).at()) by {
                if t < start {
                    assert(listed(before_secs, es@[t].at()));
                    let (i, j) = choose|i: int, j: int|
                        0 <= i < before_secs.len() && 0 <= j < before_secs[i].parameters@.len()
                            && before_secs[i].name@ == es@[t].at().0
                            && #[trigger] before_secs[i].parameters@[j].key@ == es@[t].at().1;
                    assert(secs@[i] == before_secs[i]);
                    assert(secs@[i].parameters@[j].key@ == es@[t].at().1);
                } else {
                    let i = before_secs.len() as int;
                    let j = t - start;
                    assert(secs@[i] == new);
                    assert(new.parameters@[j].key@ == es@[start + j].key@);
                    assert(secs@[i].parameters@[j].key@ == es@[t].at().1);
                }
            }
            assert(es@[e - 1].section@ == new.name@) by {
                assert(new.parameters@[e - 1 - start].key@ == es@[start + (e - 1 - start)].key@);
            }
        }
    }
    proof {
        assert forall|at: (Seq<char>, Seq<char>)| m.dom().contains(at) implies #[trigger] listed(
            secs@,
            at,
        ) by {
            let t = choose|t: int| 0 <= t < es@.len() && (#[trigger] es@[t]).at() == at;
            assert(listed(secs@, es@[t].at()));
        }
    }
    secs
}

/// The configuration of a platform: what its files make when they are merged
/// in order.
pub fn resolve_platform(
    name: &str,
    platform: &str,
    is_profile: bool,
    sources: &Vec<ConfigSource>,
) -> (r: ConfigPlatform)
    ensures
        r.name@ == name@,
        r.platform@ == platform@,
        r.is_profile == is_profile,
        sections_show(r.sections@, merge_sources(views(sources@), sources@.len() as int)),
{
    let es = merge_all(sources);
    let sections = group_entries(
        &es,
        Ghost(merge_sources(views(sources@), sources@.len() as int)),
    );
    ConfigPlatform { name: owned(name), platform: owned(platform), is_profile, sections }
}

/// The names of sections.
pub open spec fn section_names(secs: Seq<ConfigSection>) -> Seq<Seq<char>> {
    secs.map_values(|s: ConfigSection| s.name@)
}

/// Two lists of sections that show the same configuration name the same
/// sections in the same order.
pub proof fn law_sections_determined(a: Seq<ConfigSection>, b: Seq<ConfigSection>, m: Merged)
    requires
        sections_show(a, m),
        sections_show(b, m),
    ensures
        section_names(a) == section_names(b),
{
    let na = section_names(a);
    let nb = section_names(b);
    lemma_names_within(a, b, m);
    lemma_names_within(b, a, m);
    assert(na.to_set() =~= nb.to_set());
    crate::order::law_ascending_unique(na, nb);
}

proof fn lemma_names_within(a: Seq<ConfigSection>, b: Seq<ConfigSection>, m: Merged)
    requires
        sections_show(a, m),
        sections_show(b, m),
    ensures
        forall|x: Seq<char>| #[trigger]
            section_names(a).contains(x) ==> section_names(b).contains(x),
{
    let na = section_names(a);
    let nb = section_names(b);
    assert forall|x: Seq<char>| na.contains(x) implies nb.contains(x) by {
        let i = choose|i: int| 0 <= i < na.len() && na[i] == x;
        assert(section_shows(a[i], m));
        let at = (a[i].name@, a[i].parameters@[0].key@);
        assert(m.dom().contains(at));
        assert(listed(b, at));
        let (k, j) = choose|k: int, j: int|
            0 <= k < b.len() && 0 <= j < b[k].parameters@.len() && b[k].name@ == at.0
                && #[trigger] b[k].parameters@[j].key@ == at.1;
        assert(nb[k] == x);
    }
}

// ---------------------------------------------------------------------------
// Which files
// ---------------------------------------------------------------------------
/// A place where configuration may be: one file, or all `.ini` files of a
/// directory.
#[derive(Debug, Clone)]
pub enum ConfigPlace {
    File(String),
    Directory(String),
}

/// What a place is.
pub enum PlaceView {
    File(Seq<char>),
    Directory(Seq<char>),
}

impl View for ConfigPlace {
    type V = PlaceView;

    open spec fn view(&self) -> PlaceView {
        match self {
            ConfigPlace::File(s) => PlaceView::File(s@),
            ConfigPlace::Directory(s) => PlaceView::Directory(s@),
        }
    }
}

/// The engine's part of the places of a platform.
pub open spec fn engine_places(root: Seq<char>, platform: Seq<char>) -> Seq<PlaceView> {
    let base = seq![
        PlaceView::File(joined(root, "Engine/Config/Base.ini"@)),
        PlaceView::File(joined(root, "Engine/Config/BaseEngine.ini"@)),
    ];
    let apple = if platform == "Mac"@ || platform == "IOS"@ || platform == "TVOS"@ || platform
        == "Apple"@ {
        seq![PlaceView::File(joined(root, "Engine/Config/Apple/AppleEngine.ini"@))]
    } else {
        seq![]
    };
    let unix = if platform == "Linux"@ || platform == "Unix"@ {
        seq![PlaceView::File(joined(root, "Engine/Config/Unix/UnixEngine.ini"@))]
    } else {
        seq![]
    };
    let own = if platform != "Default"@ {
        seq![
            PlaceView::File(
                joined(
                    joined(joined(root, "Engine/Config"@), platform),
                    platform + "Engine.ini"@,
                ),
            ),
            PlaceView::Directory(
                joined(joined(joined(root, "Engine/Platforms"@), platform), "Config"@),
            ),
        ]
    } else {
        seq![]
    };
    base + apple + unix + own
}

/// The project's part of the places of a platform.
pub open spec fn project_places(root: Seq<char>, platform: Seq<char>) -> Seq<PlaceView> {
    let base = seq![
        PlaceView::File(joined(root, "Config/DefaultEngine.ini"@)),
        PlaceView::Directory(joined(root, "Platforms/Config"@)),
    ];
    let own = if platform != "Default"@ {
        seq![
            PlaceView::File(
                joined(joined(joined(root, "Config"@), platform), platform + "Engine.ini"@),
            ),
            PlaceView::Directory(joined(joined(joined(root, "Platforms"@), platform), "Config"@)),
        ]
    } else {
        seq![]
    };
    base + own
}

/// The places of a platform, in the order in which their files are merged: the
/// engine's before the project's.
pub open spec fn config_places(
    project: Seq<char>,
    engine: Option<Seq<char>>,
    platform: Seq<char>,
) -> Seq<PlaceView> {
    match engine {
        Some(e) => engine_places(e, platform) + project_places(project, platform),
        None => project_places(project, platform),
    }
}

/// Appends the engine's part of the places of a platform.
fn push_engine_places(out: &mut Vec<ConfigPlace>, root: &str, platform: &str)
    ensures
        views(final(out)@) == views(old(out)@) + engine_places(root@, platform@),
{
    let ghost v0 = views(out@);
    out.push(ConfigPlace::File(join_path(root, "Engine/Config/Base.ini")));
    out.push(ConfigPlace::File(join_path(root, "Engine/Config/BaseEngine.ini")));
    let ghost v1 = views(out@);
    if str_eq(platform, "Mac") || str_eq(platform, "IOS") || str_eq(platform, "TVOS") || str_eq(
        platform,
        "Apple",
    ) {
        out.push(ConfigPlace::File(join_path(root, "Engine/Config/Apple/AppleEngine.ini")));
    }
    let ghost v2 = views(out@);
    if str_eq(platform, "Linux") || str_eq(platform, "Unix") {
        out.push(ConfigPlace::File(join_path(root, "Engine/Config/Unix/UnixEngine.ini")));
    }
    let ghost v3 = views(out@);
    if !str_eq(platform, "Default") {
        let dir = join_path(root, "Engine/Config");
        let dir = join_path(dir.as_str(), platform);
        let file = concat(platform, "Engine.ini");
        out.push(ConfigPlace::File(join_path(dir.as_str(), file.as_str())));
        let dir = join_path(root, "Engine/Platforms");
        let dir = join_path(dir.as_str(), platform);
        out.push(ConfigPlace::Directory(join_path(dir.as_str(), "Config")));
    }
    assert(views(out@) =~= v0 + engine_places(root@, platform@));
}

/// Appends the project's part of the places of a platform.
fn push_project_places(out: &mut Vec<ConfigPlace>, root: &str, platform: &str)
    ensures
        views(final(out)@) == views(old(out)@) + project_places(root@, platform@),
{
    let ghost v0 = views(out@);
    out.push(ConfigPlace::File(join_path(root, "Config/DefaultEngine.ini")));
    out.push(ConfigPlace::Directory(join_path(root, "Platforms/Config")));
    if !str_eq(platform, "Default") {
        let dir = join_path(root, "Config");
        let dir = join_path(dir.as_str(), platform);
        let file = concat(platform, "Engine.ini");
        out.push(ConfigPlace::File(join_path(dir.as_str(), file.as_str())));
        let dir = join_path(root, "Platforms");
        let dir = join_path(dir.as_str(), platform);
        out.push(ConfigPlace::Directory(join_path(dir.as_str(), "Config")));
    }
    assert(views(out@) =~= v0 + project_places(root@, platform@));
}

/// The places of a platform, in the order in which their files are merged.
pub fn get_config_stack(project_root: &str, engine_root: Option<&str>, platform: &str) -> (r: Vec<
    ConfigPlace,
>)
    ensures
        views(r@) == config_places(project_root@, crate::text::opt_str(engine_root), platform@),
{
    let mut out: Vec<ConfigPlace> = Vec::new();
    assert(views(out@) =~= Seq::<PlaceView>::empty());
    match engine_root {
        Some(e) => {
            push_engine_places(&mut out, e, platform);
            assert(views(out@) =~= engine_places(e@, platform@));
        },
        None => {},
    }
    push_project_places(&mut out, project_root, platform);
    assert(views(out@) =~= config_places(
        project_root@,
        crate::text::opt_str(engine_root),
        platform@,
    ));
    out
}

/// The file name ends in the extension of configuration files.
pub open spec fn ini_name(name: Seq<char>, windows: bool) -> bool {
    extension(name, windows) == Some("ini"@)
}

/// Whether the file name ends in the extension of configuration files.
fn is_ini_name(name: &str, windows: bool) -> (r: bool)
    ensures
        r == ini_name(name@, windows),
{
    let v = chars_of(name);
    match extension_of(v.as_slice(), windows) {
        Some(e) => is_str(e, "ini"),
        None => false,
    }
}

/// The configuration files of a directory, given the names of its files: in
/// the order of their names.
pub fn ini_files_in(names: &Vec<String>, windows: bool) -> (r: Vec<String>)
    ensures
        ascending(texts(r@)),
        forall|x: Seq<char>| #[trigger]
            texts(r@).contains(x) <==> texts(names@).contains(x) && ini_name(x, windows),
{
    let mut r: Vec<String> = Vec::new();
    let mut i: usize = 0;
    let ghost all = texts(names@);
    while i < names.len()
        invariant
            i <= names@.len(),
            all == texts(names@),
            ascending(texts(r@)),
            forall|x: Seq<char>| #[trigger]
                texts(r@).contains(x) <==> all.take(i as int).contains(x) && ini_name(x, windows),
        decreases names.len() - i,
    {
        let ghost before_r = texts(r@);
        let ghost a = all.take(i as int);
        let ghost b = all.take(i + 1);
        let ghost x0 = names@[i as int]@;
        let yes = is_ini_name(names[i].as_str(), windows);
        if yes {
            insert_ascending(&mut r, names[i].clone());
        }
        proof {
            assert(b =~= a.push(x0));
            assert forall|x: Seq<char>| #[trigger] texts(r@).contains(x) <==> b.contains(x) && ini_name(
                x,
                windows,
            ) by {
                assert(b.contains(x) == (a.contains(x) || x == x0)) by {
                    if a.contains(x) {
                        let j = choose|j: int| 0 <= j < a.len() && a[j] == x;
                        assert(b[j] == x);
                    }
                    if x == x0 {
                        assert(b[i as int] == x);
                    }
                }
                if yes {
                    assert(texts(r@).to_set().contains(x) == texts(r@).contains(x));
                    assert(before_r.to_set().contains(x) == before_r.contains(x));
                }
            }
        }
        i = i + 1;
    }
    assert(all.take(i as int) =~= all);
    r
}

/// The directories that may hold directories of platforms.
pub open spec fn platform_roots(project: Seq<char>, engine: Option<Seq<char>>) -> Seq<Seq<char>> {
    let own = seq![joined(project, "Config"@), joined(project, "Platforms"@)];
    match engine {
        Some(e) => seq![joined(e, "Engine/Config"@), joined(e, "Engine/Platforms"@)] + own,
        None => own,
    }
}

/// The directories that may hold directories of platforms.
pub fn platform_root_dirs(project_root: &str, engine_root: Option<&str>) -> (r: Vec<String>)
    ensures
        texts(r@) == platform_roots(project_root@, crate::text::opt_str(engine_root)),
{
    let mut r: Vec<String> = Vec::new();
    match engine_root {
        Some(e) => {
            r.push(join_path(e, "Engine/Config"));
            r.push(join_path(e, "Engine/Platforms"));
        },
        None => {},
    }
    r.push(join_path(project_root, "Config"));
    r.push(join_path(project_root, "Platforms"));
    assert(texts(r@) =~= platform_roots(project_root@, crate::text::opt_str(engine_root)));
    r
}

/// The platforms that are looked for by name.
pub open spec fn usual_platforms() -> Seq<Seq<char>> {
    seq![
        "Windows"@,
        "Mac"@,
        "Linux"@,
        "Android"@,
        "IOS"@,
        "TVOS"@,
        "Apple"@,
        "Unix"@,
    ]
}

/// The platforms that are looked for by name.
pub fn usual_platform_names() -> (r: Vec<&'static str>)
    ensures
        r@.map_values(|s: &'static str| s@) == usual_platforms(),
{
    let r: Vec<&'static str> = vec![
        "Windows",
        "Mac",
        "Linux",
        "Android",
        "IOS",
        "TVOS",
        "Apple",
        "Unix",
    ];
    assert(r@.map_values(|s: &'static str| s@) =~= usual_platforms());
    r
}

/// The paths of which one exists in the directory of a platform; none for a
/// hidden directory.
pub open spec fn platform_marks(dir: Seq<char>, name: Seq<char>) -> Seq<Seq<char>> {
    let at = joined(dir, name);
    if name.len() > 0 && name[0] == '.' {
        seq![]
    } else {
        seq![
            joined(at, name + "Engine.ini"@),
            joined(at, "DataDrivenPlatformInfo.ini"@),
            joined(at, "Config"@),
        ]
    }
}

/// The paths of which one exists in the directory of a platform.
pub fn platform_checks(dir: &str, name: &str) -> (r: Vec<String>)
    ensures
        texts(r@) == platform_marks(dir@, name@),
{
    let mut r: Vec<String> = Vec::new();
    let v = chars_of(name);
    if !(v.len() > 0 && v[0] == '.') {
        let at = join_path(dir, name);
        let file = concat(name, "Engine.ini");
        r.push(join_path(at.as_str(), file.as_str()));
        r.push(join_path(at.as_str(), "DataDrivenPlatformInfo.ini"));
        r.push(join_path(at.as_str(), "Config"));
    }
    assert(texts(r@) =~= platform_marks(dir@, name@));
    r
}

/// The platforms of a project, given those that were found: in order, each
/// once.
pub fn get_available_platforms(found: &Vec<String>) -> (r: Vec<String>)
    ensures
        ascending(texts(r@)),
        texts(r@).to_set() == texts(found@).to_set(),
{
    crate::order::sorted_set(found)
}

/// The name under which a configuration file is displayed: that of the file,
/// after that of its directory unless this is the configuration directory.
pub open spec fn source_name(path: Seq<char>, windows: bool) -> Seq<char> {
    let file = match file_name(path, windows) {
        Some(s) => s,
        None => path,
    };
    match parent(path, windows) {
        None => file,
        Some(p) => match file_name(p, windows) {
            None => "/"@ + file,
            Some(d) => if d == "Config"@ {
                file
            } else {
                d + "/"@ + file
            },
        },
    }
}

/// The name under which a configuration file is displayed.
pub fn display_config_source_name(path: &str, windows: bool) -> (r: String)
    ensures
        r@ == source_name(path@, windows),
{
    let v = chars_of(path);
    let file = match file_name_of(v.as_slice(), windows) {
        Some(s) => to_vec(s),
        None => to_vec(v.as_slice()),
    };
    match parent_of(v.as_slice(), windows) {
        None => string_of(file.as_slice()),
        Some(p) => match file_name_of(p, windows) {
            None => {
                let mut out = chars_of("/");
                push_all(&mut out, file.as_slice());
                string_of(out.as_slice())
            },
            Some(d) => if is_str(d, "Config") {
                string_of(file.as_slice())
            } else {
                let mut out = to_vec(d);
                push_str(&mut out, "/");
                push_all(&mut out, file.as_slice());
                string_of(out.as_slice())
            },
        },
    }
}

/// Whether a cached configuration can be used as it is.
pub fn cache_is_fresh(cache: Option<&ConfigCache>) -> (r: bool)
    ensures
        r == match cache {
            Some(c) => !c.is_dirty,
            None => false,
        },
{
    match cache {
        Some(c) => !c.is_dirty,
        None => false,
    }
}

} // verus!
