//! Registration of a module in a `.uproject` or `.uplugin` file.

use vstd::prelude::*;
use vstd::slice::slice_subrange;

use crate::edit::layout::{detect_newline, escape, indent_unit_of, insert_lines, join_lines,
    validate_field, FieldFault};
use crate::edit::target::has_capture;
use crate::grammar::{line_start_of, locate_all, place_of, query_json, row_of, top_of_json, Capture};
use crate::text::{chars_of, push_all, push_str, split_lines, str_eq, to_vec};
#[allow(unused_imports)]
use crate::edit::layout::{escaped, field_fault, indent_unit, joined, newline_of};
#[allow(unused_imports)]
use crate::edit::target::captured;
#[allow(unused_imports)]
use crate::grammar::{captures_at, json_matches, json_top, kinds_view, line_start, matches_view, place,
    row_at, spans_view, CaptureView};
#[allow(unused_imports)]
use crate::text::{lines, rows, texts, views};

verus! {

/// The tree query that finds the pairs of the root object, the objects of the
/// list of modules, and the names that they give.
pub const MODULES_QUERY: &'static str = r#"
(document (object (pair key: (string (string_content) @root.key) value: (_) @root.value) @root.pair))

(document (object (pair key: (string (string_content) @modules.key) value: (array (object) @modules.item))))

(document (object (pair key: (string (string_content) @modules.name.array.key) value: (array (object (pair key: (string (string_content) @module.name.key) value: (string (string_content) @module.name.value)))))))
"#;

/// Why a module cannot be registered.
#[derive(Debug, Clone, Copy, PartialEq, Eq, Structural)]
pub enum UprojectError {
    /// The name of the module cannot be written.
    Name(FieldFault),
    /// The type of the module cannot be written.
    Type(FieldFault),
    /// The loading phase cannot be written.
    Phase(FieldFault),
    /// The file cannot be parsed.
    Parse,
    /// The file does not hold an object.
    RootNotObject,
    /// The list of modules has no object to follow.
    NoModuleObject,
    /// The root object has no pair to follow.
    NoRootPair,
    /// A row lies outside of the file.
    RowOutOfRange(usize),
    /// A column lies outside of its line.
    ColumnOutOfRange(usize),
}

/// What is known of the modules of a project file. Places are the row and the
/// column at which something ends.
pub struct ModulesInfo {
    pub modules_found: bool,
    pub last_module: Option<(usize, usize)>,
    pub last_root_pair: Option<(usize, usize)>,
    pub root_pair_indent: Option<String>,
    pub module_object_indent: Option<String>,
    pub module_names: Vec<String>,
}

/// What is known of the modules of a project file.
pub struct ModulesView {
    pub modules_found: bool,
    pub last_module: Option<(usize, usize)>,
    pub last_root_pair: Option<(usize, usize)>,
    pub root_pair_indent: Option<Seq<char>>,
    pub module_object_indent: Option<Seq<char>>,
    pub module_names: Seq<Seq<char>>,
}

impl View for ModulesInfo {
    type V = ModulesView;

    open spec fn view(&self) -> ModulesView {
        ModulesView {
            modules_found: self.modules_found,
            last_module: self.last_module,
            last_root_pair: self.last_root_pair,
            root_pair_indent: match self.root_pair_indent {
                Some(s) => Some(s@),
                None => None,
            },
            module_object_indent: match self.module_object_indent {
                Some(s) => Some(s@),
                None => None,
            },
            module_names: texts(self.module_names@),
        }
    }
}

/// Nothing is known yet.
pub open spec fn modules_start() -> ModulesView {
    ModulesView {
        modules_found: false,
        last_module: None,
        last_root_pair: None,
        root_pair_indent: None,
        module_object_indent: None,
        module_names: seq![],
    }
}

/// What one capture of a match adds.
pub open spec fn note(info: ModulesView, m: Seq<CaptureView>, c: CaptureView) -> ModulesView {
    let end = Some((c.end_row as usize, c.end_column as usize));
    if c.name == "root.pair"@ {
        ModulesView { last_root_pair: end, root_pair_indent: Some(c.indent), ..info }
    } else if c.name == "root.value"@ {
        ModulesView {
            modules_found: info.modules_found || captured(m, "root.key"@, "Modules"@),
            ..info
        }
    } else if c.name == "modules.item"@ {
        if captured(m, "modules.key"@, "Modules"@) {
            ModulesView { last_module: end, module_object_indent: Some(c.indent), ..info }
        } else {
            info
        }
    } else if c.name == "module.name.value"@ {
        if captured(m, "modules.name.array.key"@, "Modules"@) && captured(
            m,
            "module.name.key"@,
            "Name"@,
        ) {
            ModulesView { module_names: info.module_names.push(c.text), ..info }
        } else {
            info
        }
    } else {
        info
    }
}

/// What the first `n` captures of a match add.
pub open spec fn note_captures(info: ModulesView, m: Seq<CaptureView>, n: int) -> ModulesView
    decreases n,
{
    if n <= 0 {
        info
    } else {
        note(note_captures(info, m, n - 1), m, m[n - 1])
    }
}

/// What the first `n` matches say.
pub open spec fn note_matches(
    source: Seq<char>,
    ms: Seq<Seq<(Seq<char>, int, int)>>,
    n: int,
) -> ModulesView
    decreases n,
{
    if n <= 0 {
        modules_start()
    } else {
        let m = captures_at(source, ms[n - 1]);
        note_captures(note_matches(source, ms, n - 1), m, m.len() as int)
    }
}

/// Adds what one capture of a match says.
fn note_capture(info: &mut ModulesInfo, m: &Vec<Capture>, c: &Capture)
    ensures
        final(info)@ == note(old(info)@, views(m@), c@),
{
    let name = c.name.as_str();
    if str_eq(name, "root.pair") {
        info.last_root_pair = Some((c.end_row, c.end_column));
        info.root_pair_indent = Some(c.indent.clone());
    } else if str_eq(name, "root.value") {
        if has_capture(m, "root.key", "Modules") {
            info.modules_found = true;
        }
    } else if str_eq(name, "modules.item") {
        if has_capture(m, "modules.key", "Modules") {
            info.last_module = Some((c.end_row, c.end_column));
            info.module_object_indent = Some(c.indent.clone());
        }
    } else if str_eq(name, "module.name.value") {
        if has_capture(m, "modules.name.array.key", "Modules") && has_capture(
            m,
            "module.name.key",
            "Name",
        ) {
            let ghost before = texts(info.module_names@);
            info.module_names.push(c.text.clone());
            assert(texts(info.module_names@) =~= before.push(c.text@));
        }
    }
}

/// What the matches of the query say of the modules of a project file.
pub fn collect_modules_info(source: &[char], ms: &Vec<Vec<(String, usize, usize)>>) -> (r:
    ModulesInfo)
    ensures
        r@ == note_matches(source@, matches_view(ms@), ms@.len() as int),
{
    let mut info = ModulesInfo {
        modules_found: false,
        last_module: None,
        last_root_pair: None,
        root_pair_indent: None,
        module_object_indent: None,
        module_names: Vec::new(),
    };
    assert(texts(info.module_names@) =~= Seq::<Seq<char>>::empty());
    let ghost all = matches_view(ms@);
    let mut i: usize = 0;
    while i < ms.len()
        invariant
            i <= ms@.len(),
            all == matches_view(ms@),
            info@ == note_matches(source@, all, i as int),
        decreases ms.len() - i,
    {
        let m = locate_all(source, &ms[i]);
        assert(all[i as int] == spans_view(ms@[i as int]@));
        let ghost before = info@;
        let mut k: usize = 0;
        while k < m.len()
            invariant
                k <= m@.len(),
                info@ == note_captures(before, views(m@), k as int),
            decreases m.len() - k,
        {
            assert(views(m@)[k as int] == m@[k as int]@);
            note_capture(&mut info, &m, &m[k]);
            k = k + 1;
        }
        i = i + 1;
    }
    info
}

// ---------------------------------------------------------------------------
// The new lines
// ---------------------------------------------------------------------------
/// A field with a text value.
pub open spec fn field_line(indent: Seq<char>, key: Seq<char>, value: Seq<char>, end: Seq<char>) -> Seq<
    char,
> {
    indent + "\""@ + key + "\": \""@ + escaped(value) + "\""@ + end
}

/// The object that describes the module.
pub open spec fn module_lines(
    item: Seq<char>,
    field: Seq<char>,
    name: Seq<char>,
    kind: Seq<char>,
    phase: Seq<char>,
) -> Seq<Seq<char>> {
    seq![
        item + "{"@,
        field_line(field, "Name"@, name, ","@),
        field_line(field, "Type"@, kind, ","@),
        field_line(field, "LoadingPhase"@, phase, ""@),
        item + "}"@,
    ]
}

/// A field with a text value.
fn field_line_of(indent: &[char], key: &str, value: &str, end: &str) -> (r: Vec<char>)
    ensures
        r@ == field_line(indent@, key@, value@, end@),
{
    let mut r = to_vec(indent);
    push_str(&mut r, "\"");
    push_str(&mut r, key);
    push_str(&mut r, "\": \"");
    let e = escape(value);
    push_all(&mut r, e.as_slice());
    push_str(&mut r, "\"");
    push_str(&mut r, end);
    r
}

/// `indent` followed by the text.
fn line1(indent: &[char], text: &str) -> (r: Vec<char>)
    ensures
        r@ == indent@ + text@,
{
    let mut r = to_vec(indent);
    push_str(&mut r, text);
    r
}

/// One indentation after another.
fn deeper(a: &[char], b: &[char]) -> (r: Vec<char>)
    ensures
        r@ == a@ + b@,
{
    let mut r = to_vec(a);
    push_all(&mut r, b);
    r
}

/// Appends the object that describes the module.
fn push_module_lines(
    out: &mut Vec<Vec<char>>,
    item: &[char],
    field: &[char],
    name: &str,
    kind: &str,
    phase: &str,
)
    ensures
        rows(final(out)@) == rows(old(out)@) + module_lines(item@, field@, name@, kind@, phase@),
{
    let ghost before = rows(out@);
    out.push(line1(item, "{"));
    out.push(field_line_of(field, "Name", name, ","));
    out.push(field_line_of(field, "Type", kind, ","));
    out.push(field_line_of(field, "LoadingPhase", phase, ""));
    out.push(line1(item, "}"));
    assert(rows(out@) =~= before + module_lines(item@, field@, name@, kind@, phase@));
}

/// The list of modules as a pair of the root object.
pub open spec fn block_lines(
    root: Seq<char>,
    indent: Seq<char>,
    name: Seq<char>,
    kind: Seq<char>,
    phase: Seq<char>,
) -> Seq<Seq<char>> {
    seq![root + "\"Modules\": ["@] + module_lines(
        root + indent,
        root + indent + indent,
        name,
        kind,
        phase,
    ) + seq![root + "]"@]
}

/// The lines with a comma put in at a place and other lines below it; what
/// follows the place on its line goes below them.
pub open spec fn after_place(
    ls: Seq<Seq<char>>,
    at: (usize, usize),
    new: Seq<Seq<char>>,
) -> Result<Seq<Seq<char>>, UprojectError> {
    let row = at.0 as int;
    let col = at.1 as int;
    if row >= ls.len() {
        Err(UprojectError::RowOutOfRange(at.0))
    } else if col > ls[row].len() {
        Err(UprojectError::ColumnOutOfRange(at.1))
    } else {
        let rest = if col < ls[row].len() {
            seq![ls[row].skip(col)]
        } else {
            seq![]
        };
        Ok(ls.take(row) + seq![ls[row].take(col).push(',')] + new + rest + ls.skip(row + 1))
    }
}

/// The lines with a comma put in at a place and other lines below it.
fn insert_after_place(ls: Vec<Vec<char>>, at: (usize, usize), new: Vec<Vec<char>>) -> (r: Result<
    Vec<Vec<char>>,
    UprojectError,
>)
    ensures
        match r {
            Ok(out) => after_place(rows(ls@), at, rows(new@)) == Ok::<
                Seq<Seq<char>>,
                UprojectError,
            >(rows(out@)),
            Err(e) => after_place(rows(ls@), at, rows(new@)) == Err::<
                Seq<Seq<char>>,
                UprojectError,
            >(e),
        },
{
    let row: usize = at.0;
    let col: usize = at.1;
    let ghost all = rows(ls@);
    let ghost add = rows(new@);
    if row >= ls.len() {
        return Err(UprojectError::RowOutOfRange(row));
    }
    assert(all[row as int] == ls@[row as int]@);
    let len: usize = ls[row].len();
    if col > len {
        return Err(UprojectError::ColumnOutOfRange(col));
    }
    let line = ls[row].as_slice();
    let ghost whole = line@;
    let mut head = to_vec(slice_subrange(line, 0, col));
    head.push(',');
    assert(head@ =~= whole.take(col as int).push(','));
    let tail = to_vec(slice_subrange(line, col, len));
    assert(tail@ =~= whole.skip(col as int));
    let mut out = ls;
    out.set(row, head);
    let ghost first = rows(out@);
    assert(first =~= all.update(row as int, whole.take(col as int).push(',')));
    let mut block = new;
    if col < len {
        block.push(tail);
        assert(rows(block@) =~= add.push(whole.skip(col as int)));
    }
    insert_lines(&mut out, row + 1, block);
    let ghost rest = if col < len {
        seq![whole.skip(col as int)]
    } else {
        Seq::<Seq<char>>::empty()
    };
    assert(rows(block@) =~= add + rest);
    assert(rows(out@) =~= all.take(row as int) + seq![whole.take(col as int).push(',')] + add + rest
        + all.skip(row + 1));
    Ok(out)
}

// ---------------------------------------------------------------------------
// Registration
// ---------------------------------------------------------------------------
/// The row and the column of byte `n` of the source.
pub open spec fn spot(s: Seq<char>, n: int) -> (usize, usize) {
    let i = place(s, n);
    (row_at(s, i) as usize, (i - line_start(s, i)) as usize)
}

/// The place at which the last pair among the given nodes ends, of the first
/// `n` of them.
pub open spec fn last_pair(s: Seq<char>, nodes: Seq<(Seq<char>, int)>, n: int) -> Option<
    (usize, usize),
>
    decreases n,
{
    if n <= 0 {
        None
    } else if nodes[n - 1].0 == "pair"@ {
        Some(spot(s, nodes[n - 1].1))
    } else {
        last_pair(s, nodes, n - 1)
    }
}

/// The text of the file with the module registered: `Ok(None)` where it is
/// registered already.
pub open spec fn registered(
    raw: Seq<char>,
    name: Seq<char>,
    kind: Seq<char>,
    phase: Seq<char>,
    top: Option<(Seq<(Seq<char>, int)>, Seq<(Seq<char>, int)>)>,
    ms: Option<Seq<Seq<(Seq<char>, int, int)>>>,
) -> Result<Option<Seq<char>>, UprojectError> {
    if field_fault(name) is Some {
        Err(UprojectError::Name(field_fault(name)->0))
    } else if field_fault(kind) is Some {
        Err(UprojectError::Type(field_fault(kind)->0))
    } else if field_fault(phase) is Some {
        Err(UprojectError::Phase(field_fault(phase)->0))
    } else {
        match top {
            None => Err(UprojectError::Parse),
            Some((outer, inner)) => if !(outer.len() > 0 && outer[0].0 == "object"@) {
                Err(UprojectError::RootNotObject)
            } else {
                match ms {
                    None => Err(UprojectError::Parse),
                    Some(ms) => registered_in(
                        raw,
                        name,
                        kind,
                        phase,
                        inner,
                        note_matches(raw, ms, ms.len() as int),
                    ),
                }
            },
        }
    }
}

/// The text of the file with the module registered, given what is known of its
/// modules and the nodes of its root object.
pub open spec fn registered_in(
    raw: Seq<char>,
    name: Seq<char>,
    kind: Seq<char>,
    phase: Seq<char>,
    inner: Seq<(Seq<char>, int)>,
    info: ModulesView,
) -> Result<Option<Seq<char>>, UprojectError> {
    let ls = lines(raw);
    let indent = indent_unit(ls);
    if info.module_names.contains(name) {
        Ok(None)
    } else if info.modules_found {
        match info.last_module {
            None => Err(UprojectError::NoModuleObject),
            Some(at) => {
                let item = match info.module_object_indent {
                    Some(s) => s,
                    None => indent + indent,
                };
                written(raw, after_place(ls, at, module_lines(item, item + indent, name, kind, phase)))
            },
        }
    } else {
        let at = match info.last_root_pair {
            Some(at) => Some(at),
            None => last_pair(raw, inner, inner.len() as int),
        };
        match at {
            None => Err(UprojectError::NoRootPair),
            Some(at) => {
                let root = match info.root_pair_indent {
                    Some(s) => s,
                    None => indent,
                };
                written(raw, after_place(ls, at, block_lines(root, indent, name, kind, phase)))
            },
        }
    }
}

/// The lines as a file with the line ends of `raw`.
pub open spec fn written(raw: Seq<char>, out: Result<Seq<Seq<char>>, UprojectError>) -> Result<
    Option<Seq<char>>,
    UprojectError,
> {
    match out {
        Err(e) => Err(e),
        Ok(out) => Ok(Some(joined(out, newline_of(raw)))),
    }
}

/// The view of a result.
pub open spec fn result_view(r: Result<Option<String>, UprojectError>) -> Result<
    Option<Seq<char>>,
    UprojectError,
> {
    match r {
        Err(e) => Err(e),
        Ok(None) => Ok(None),
        Ok(Some(s)) => Ok(Some(s@)),
    }
}

/// Whether a module of that name is registered.
fn has_module(names: &Vec<String>, name: &str) -> (r: bool)
    ensures
        r == texts(names@).contains(name@),
{
    let mut i: usize = 0;
    while i < names.len()
        invariant
            i <= names@.len(),
            forall|j: int| 0 <= j < i ==> texts(names@)[j] != name@,
        decreases names.len() - i,
    {
        assert(texts(names@)[i as int] == names@[i as int]@);
        if str_eq(names[i].as_str(), name) {
            return true;
        }
        i = i + 1;
    }
    false
}

/// The place at which the last pair among the given nodes ends.
fn last_child_of_kind(s: &[char], nodes: &Vec<(String, usize)>) -> (r: Option<(usize, usize)>)
    ensures
        r == last_pair(s@, kinds_view(nodes@), nodes@.len() as int),
{
    let mut n: usize = nodes.len();
    let ghost all = kinds_view(nodes@);
    while n > 0
        invariant
            n <= nodes@.len(),
            all == kinds_view(nodes@),
            last_pair(s@, all, nodes@.len() as int) == last_pair(s@, all, n as int),
        decreases n,
    {
        assert(all[n - 1] == (nodes@[n - 1].0@, nodes@[n - 1].1 as int));
        if str_eq(nodes[n - 1].0.as_str(), "pair") {
            let i: usize = place_of(s, nodes[n - 1].1);
            let start: usize = line_start_of(s, i);
            return Some((row_of(s, i), i - start));
        }
        n = n - 1;
    }
    None
}

/// The text of the file with the module registered, given what is known of its
/// modules and the nodes of its root object.
fn write_module(
    raw: &str,
    module_name: &str,
    module_type: &str,
    loading_phase: &str,
    inner: &Vec<(String, usize)>,
    info: &ModulesInfo,
) -> (r: Result<Option<String>, UprojectError>)
    ensures
        result_view(r) == registered_in(
            raw@,
            module_name@,
            module_type@,
            loading_phase@,
            kinds_view(inner@),
            info@,
        ),
{
    if has_module(&info.module_names, module_name) {
        return Ok(None);
    }
    let source = chars_of(raw);
    let newline = detect_newline(source.as_slice());
    let ls = split_lines(source.as_slice());
    let indent = indent_unit_of(&ls);
    if info.modules_found {
        match info.last_module {
            None => Err(UprojectError::NoModuleObject),
            Some(at) => {
                let item = match &info.module_object_indent {
                    Some(s) => chars_of(s.as_str()),
                    None => deeper(indent.as_slice(), indent.as_slice()),
                };
                let field = deeper(item.as_slice(), indent.as_slice());
                let mut new: Vec<Vec<char>> = Vec::new();
                push_module_lines(
                    &mut new,
                    item.as_slice(),
                    field.as_slice(),
                    module_name,
                    module_type,
                    loading_phase,
                );
                assert(rows(new@) =~= module_lines(
                    item@,
                    field@,
                    module_name@,
                    module_type@,
                    loading_phase@,
                ));
                match insert_after_place(ls, at, new) {
                    Ok(out) => Ok(Some(join_lines(&out, newline))),
                    Err(e) => Err(e),
                }
            },
        }
    } else {
        let at = match info.last_root_pair {
            Some(at) => Some(at),
            None => last_child_of_kind(source.as_slice(), inner),
        };
        match at {
            None => Err(UprojectError::NoRootPair),
            Some(at) => {
                let root = match &info.root_pair_indent {
                    Some(s) => chars_of(s.as_str()),
                    None => to_vec(indent.as_slice()),
                };
                let item = deeper(root.as_slice(), indent.as_slice());
                let field = deeper(item.as_slice(), indent.as_slice());
                let mut new: Vec<Vec<char>> = Vec::new();
                new.push(line1(root.as_slice(), "\"Modules\": ["));
                assert(rows(new@) =~= seq![root@ + "\"Modules\": ["@]);
                push_module_lines(
                    &mut new,
                    item.as_slice(),
                    field.as_slice(),
                    module_name,
                    module_type,
                    loading_phase,
                );
                let ghost before = rows(new@);
                new.push(line1(root.as_slice(), "]"));
                assert(rows(new@) =~= before.push(root@ + "]"@));
                assert(rows(new@) =~= block_lines(
                    root@,
                    indent@,
                    module_name@,
                    module_type@,
                    loading_phase@,
                ));
                match insert_after_place(ls, at, new) {
                    Ok(out) => Ok(Some(join_lines(&out, newline))),
                    Err(e) => Err(e),
                }
            },
        }
    }
}

/// What is wrong with the texts that are to be written.
fn validate(module_name: &str, module_type: &str, loading_phase: &str) -> (r: Option<UprojectError>)
    ensures
        r == (if field_fault(module_name@) is Some {
            Some(UprojectError::Name(field_fault(module_name@)->0))
        } else if field_fault(module_type@) is Some {
            Some(UprojectError::Type(field_fault(module_type@)->0))
        } else if field_fault(loading_phase@) is Some {
            Some(UprojectError::Phase(field_fault(loading_phase@)->0))
        } else {
            None
        }),
{
    match validate_field(module_name) {
        Some(fault) => Some(UprojectError::Name(fault)),
        None => match validate_field(module_type) {
            Some(fault) => Some(UprojectError::Type(fault)),
            None => match validate_field(loading_phase) {
                Some(fault) => Some(UprojectError::Phase(fault)),
                None => None,
            },
        },
    }
}

/// The text of the file with the module registered, given the nodes at the top
/// of its tree and the matches of the query.
pub fn add_module_at(
    raw: &str,
    module_name: &str,
    module_type: &str,
    loading_phase: &str,
    top: &(Vec<(String, usize)>, Vec<(String, usize)>),
    ms: &Vec<Vec<(String, usize, usize)>>,
) -> (r: Result<Option<String>, UprojectError>)
    ensures
        result_view(r) == registered(
            raw@,
            module_name@,
            module_type@,
            loading_phase@,
            Some((kinds_view(top.0@), kinds_view(top.1@))),
            Some(matches_view(ms@)),
        ),
{
    match validate(module_name, module_type, loading_phase) {
        Some(e) => {
            return Err(e);
        },
        None => {},
    }
    if top.0.len() == 0 {
        return Err(UprojectError::RootNotObject);
    }
    assert(kinds_view(top.0@)[0].0 == top.0@[0].0@);
    if !str_eq(top.0[0].0.as_str(), "object") {
        return Err(UprojectError::RootNotObject);
    }
    let source = chars_of(raw);
    let info = collect_modules_info(source.as_slice(), ms);
    write_module(raw, module_name, module_type, loading_phase, &top.1, &info)
}

/// The text of a `.uproject` or `.uplugin` file with the module registered;
/// `Ok(None)` where a module of that name is registered already.
pub fn add_module(raw: &str, module_name: &str, module_type: &str, loading_phase: &str) -> (r: Result<
    Option<String>,
    UprojectError,
>)
    ensures
        result_view(r) == registered(
            raw@,
            module_name@,
            module_type@,
            loading_phase@,
            json_top(raw@),
            json_matches(MODULES_QUERY@, raw@),
        ),
{
    match validate(module_name, module_type, loading_phase) {
        Some(e) => {
            return Err(e);
        },
        None => {},
    }
    let top = match top_of_json(raw) {
        Some(top) => top,
        None => {
            return Err(UprojectError::Parse);
        },
    };
    let ms = match query_json(MODULES_QUERY, raw) {
        Some(ms) => ms,
        None => {
            if top.0.len() == 0 {
                return Err(UprojectError::RootNotObject);
            }
            assert(kinds_view(top.0@)[0].0 == top.0@[0].0@);
            if !str_eq(top.0[0].0.as_str(), "object") {
                return Err(UprojectError::RootNotObject);
            }
            return Err(UprojectError::Parse);
        },
    };
    add_module_at(raw, module_name, module_type, loading_phase, &top, &ms)
}

/// A module that is registered stays registered once: the file is left alone.
pub proof fn law_registered_once(
    raw: Seq<char>,
    name: Seq<char>,
    kind: Seq<char>,
    phase: Seq<char>,
    inner: Seq<(Seq<char>, int)>,
    info: ModulesView,
)
    requires
        info.module_names.contains(name),
    ensures
        registered_in(raw, name, kind, phase, inner, info) == Ok::<
            Option<Seq<char>>,
            UprojectError,
        >(None),
{
}

/// What stood in the file before the new lines and after them still stands
/// there; the line that held the place has its two parts.
pub proof fn law_after_place_keeps(ls: Seq<Seq<char>>, at: (usize, usize), new: Seq<Seq<char>>)
    requires
        at.0 < ls.len(),
        at.1 < ls[at.0 as int].len(),
    ensures
        match after_place(ls, at, new) {
            Ok(out) => {
                let row = at.0 as int;
                let next = row + 1 + new.len();
                &&& out.take(row) == ls.take(row)
                &&& out.subrange(row + 1, next) == new
                &&& out[row].drop_last() + out[next] == ls[row]
                &&& out.skip(next + 1) == ls.skip(row + 1)
            },
            Err(_) => false,
        },
{
    let row = at.0 as int;
    let col = at.1 as int;
    let next = row + 1 + new.len();
    match after_place(ls, at, new) {
        Ok(out) => {
            assert(out.take(row) =~= ls.take(row));
            assert(out.subrange(row + 1, next) =~= new);
            assert(out[row].drop_last() =~= ls[row].take(col));
            assert(out[row].drop_last() + out[next] =~= ls[row]);
            assert(out.skip(next + 1) =~= ls.skip(row + 1));
        },
        Err(_) => {},
    }
}

} // verus!
