//! How project files are edited.

#[allow(unused_imports)]
use crate::edit::layout::{blanks, escape_char, escaped, field_fault, first_indent, indent_unit, inserted, joined,
    newline_of, unescape_char, FieldFault};
#[allow(unused_imports)]
use crate::edit::target::{self, after_comma, bottom_up, call_edit, cut_at, edited, edited_from, head_of, item_line,
    list_lines, list_place, list_start, listed, literal_of, method_lines, module_edit, of_list, put_in, tail_of,
    target_edits, target_indent, target_start, with_edit, Cut, EditView, ListStart, TargetError, TargetView};
#[allow(unused_imports)]
use crate::edit::uproject::{self, after_place, block_lines, field_line, last_pair, module_lines, modules_start, spot,
    written, ModulesView, UprojectError};
#[allow(unused_imports)]
use crate::grammar::{captures_at, CaptureView};
#[allow(unused_imports)]
use crate::text::{contains, join, lines, trim, trim_start};
#[allow(unused_imports)]
use crate::grammar::{blanks_end, capture_at, indent_before, line_start, row_at};
#[allow(unused_imports)]
use crate::text::at_byte;
use vstd::prelude::*;

verus! {

// ---------------------------------------------------------------------------
// Layout
// ---------------------------------------------------------------------------
/// A file keeps its kind of line ends, and every line gets one.
pub proof fn law_line_ends(raw: Seq<char>, ls: Seq<Seq<char>>, last: Seq<char>, newline: Seq<char>)
    ensures
        contains(raw, "\r\n"@) ==> newline_of(raw) == "\r\n"@,
        !contains(raw, "\r\n"@) ==> newline_of(raw) == "\n"@,
        joined(seq![last], newline) == last + newline,
        ls.len() > 0 ==> joined(ls.push(last), newline) == joined(ls, newline) + last + newline,
{
    assert(ls.push(last).drop_last() =~= ls);
    if ls.len() > 0 {
        assert(joined(ls.push(last), newline) =~= joined(ls, newline) + last + newline);
    }
}

/// The blanks of a line are those before its first other character.
pub proof fn law_blanks(s: Seq<char>)
    ensures
        blanks(s) <= s.len(),
        forall|i: int| 0 <= i < blanks(s) ==> #[trigger] s[i] == ' ' || s[i] == '\t',
        blanks(s) < s.len() ==> s[blanks(s) as int] != ' ' && s[blanks(s) as int] != '\t',
    decreases s.len(),
{
    if s.len() > 0 && (s[0] == ' ' || s[0] == '\t') {
        let t = s.skip(1);
        law_blanks(t);
        assert forall|i: int| 0 <= i < blanks(s) implies #[trigger] s[i] == ' ' || s[i] == '\t' by {
            if i > 0 {
                assert(s[i] == t[i - 1]);
            }
        }
    }
}

/// A file is indented as its first indented line is.
pub proof fn law_indent_unit(ls: Seq<Seq<char>>, k: int)
    requires
        0 <= k < ls.len(),
        blanks(ls[k]) > 0,
        forall|j: int| 0 <= j < k ==> blanks(#[trigger] ls[j]) == 0,
    ensures
        indent_unit(ls) == ls[k].take(blanks(ls[k]) as int),
{
    lemma_first_indent(ls, 0, k);
}

proof fn lemma_first_indent(ls: Seq<Seq<char>>, i: int, k: int)
    requires
        0 <= i <= k < ls.len(),
        blanks(ls[k]) > 0,
        forall|j: int| 0 <= j < k ==> blanks(#[trigger] ls[j]) == 0,
    ensures
        first_indent(ls, i) == Some(ls[k].take(blanks(ls[k]) as int)),
    decreases k - i,
{
    if i < k {
        assert(blanks(ls[i]) == 0);
        lemma_first_indent(ls, i + 1, k);
    }
}

/// A file without an indented line is indented by four blanks.
pub proof fn law_no_indent(ls: Seq<Seq<char>>)
    requires
        forall|j: int| 0 <= j < ls.len() ==> blanks(#[trigger] ls[j]) == 0,
    ensures
        indent_unit(ls) == seq![' ', ' ', ' ', ' '],
{
    lemma_no_indent(ls, 0);
    reveal_strlit("    ");
    assert("    "@ =~= seq![' ', ' ', ' ', ' ']);
}

proof fn lemma_no_indent(ls: Seq<Seq<char>>, i: int)
    requires
        0 <= i <= ls.len(),
        forall|j: int| 0 <= j < ls.len() ==> blanks(#[trigger] ls[j]) == 0,
    ensures
        first_indent(ls, i) is None,
    decreases ls.len() - i,
{
    if i < ls.len() {
        assert(blanks(ls[i]) == 0);
        lemma_no_indent(ls, i + 1);
    }
}

/// What is escaped in a string: backslashes, quotes, line ends and tabs, each by its
/// own sign.
pub proof fn law_escapes(s: Seq<char>, c: char)
    ensures
        escaped(s.push(c)) == escaped(s) + escape_char(c),
        escape_char('\\') == seq!['\\', '\\'],
        escape_char('"') == seq!['\\', '"'],
        escape_char('\n') == seq!['\\', 'n'],
        escape_char('\r') == seq!['\\', 'r'],
        escape_char('\t') == seq!['\\', 't'],
        c != '\\' && c != '"' && c != '\n' && c != '\r' && c != '\t' ==> escape_char(c) == seq![c],
{
    assert(s.push(c).drop_last() =~= s);
}

/// A text can be written unless it is blank or holds a zero.
pub proof fn law_field_fault(s: Seq<char>)
    ensures
        trim(s).len() == 0 ==> field_fault(s) == Some(FieldFault::Empty),
        trim(s).len() > 0 && s.contains('\0') ==> field_fault(s) == Some(FieldFault::Nul),
        trim(s).len() > 0 && !s.contains('\0') ==> field_fault(s) is None,
{
}

/// Lines are put in at a place; those before it and those behind it stay in order.
pub proof fn law_inserted(ls: Seq<Seq<char>>, at: int, new: Seq<Seq<char>>, i: int)
    requires
        0 <= at <= ls.len(),
    ensures
        inserted(ls, at, new).len() == ls.len() + new.len(),
        0 <= i < at ==> inserted(ls, at, new)[i] == ls[i],
        0 <= i < new.len() ==> inserted(ls, at, new)[at + i] == new[i],
        at <= i < ls.len() ==> inserted(ls, at, new)[new.len() + i] == ls[i],
{
}

// ---------------------------------------------------------------------------
// Project files
// ---------------------------------------------------------------------------
/// What a capture of a project file says.
pub proof fn law_project_note(info: ModulesView, m: Seq<CaptureView>, c: CaptureView)
    ensures
        c.name == "root.pair"@ ==> {
            let r = uproject::note(info, m, c);
            &&& r.last_root_pair == Some((c.end_row as usize, c.end_column as usize))
            &&& r.root_pair_indent == Some(c.indent)
            &&& r.modules_found == info.modules_found
            &&& r.module_names == info.module_names
            &&& r.last_module == info.last_module
        },
        c.name == "root.value"@ ==> {
            let r = uproject::note(info, m, c);
            &&& r.modules_found <==> info.modules_found || exists|i: int|
                0 <= i < m.len() && (#[trigger] m[i]).name == "root.key"@ && m[i].text == "Modules"@
            &&& r.module_names == info.module_names
            &&& r.last_module == info.last_module
            &&& r.last_root_pair == info.last_root_pair
        },
        c.name == "modules.item"@ && target::captured(m, "modules.key"@, "Modules"@) ==> {
            let r = uproject::note(info, m, c);
            &&& r.last_module == Some((c.end_row as usize, c.end_column as usize))
            &&& r.module_object_indent == Some(c.indent)
            &&& r.module_names == info.module_names
            &&& r.modules_found == info.modules_found
        },
        c.name == "modules.item"@ && !target::captured(m, "modules.key"@, "Modules"@)
            ==> uproject::note(info, m, c) == info,
        c.name == "module.name.value"@ && target::captured(
            m,
            "modules.name.array.key"@,
            "Modules"@,
        ) && target::captured(m, "module.name.key"@, "Name"@) ==> uproject::note(
            info,
            m,
            c,
        ).module_names == info.module_names + seq![c.text] && uproject::note(
            info,
            m,
            c,
        ).modules_found == info.modules_found,
{
    reveal_strlit("root.pair");
    reveal_strlit("root.value");
    reveal_strlit("modules.item");
    reveal_strlit("module.name.value");
    assert("root.pair"@.len() == 9 && "root.value"@.len() == 10 && "modules.item"@.len() == 12
        && "module.name.value"@.len() == 17);
    assert(info.module_names.push(c.text) =~= info.module_names + seq![c.text]);
}

/// Captures and matches are taken up in order, from nothing on.
pub proof fn law_project_notes(
    info: ModulesView,
    m: Seq<CaptureView>,
    source: Seq<char>,
    ms: Seq<Seq<(Seq<char>, int, int)>>,
    n: int,
    k: int,
)
    ensures
        uproject::note_captures(info, m, 0) == info,
        0 <= n < m.len() ==> uproject::note_captures(info, m, n + 1) == uproject::note(
            uproject::note_captures(info, m, n),
            m,
            m[n],
        ),
        !uproject::note_matches(source, ms, 0).modules_found,
        uproject::note_matches(source, ms, 0).module_names.len() == 0,
        0 <= k < ms.len() ==> uproject::note_matches(source, ms, k + 1) == uproject::note_captures(
            uproject::note_matches(source, ms, k),
            captures_at(source, ms[k]),
            captures_at(source, ms[k]).len() as int,
        ),
{
}

/// A module is written as an object with its name, its type and its loading phase.
pub proof fn law_module_lines(
    item: Seq<char>,
    field: Seq<char>,
    name: Seq<char>,
    kind: Seq<char>,
    phase: Seq<char>,
)
    ensures
        ({
            let ls = module_lines(item, field, name, kind, phase);
            &&& ls.len() == 5
            &&& ls[0] == item + "{"@
            &&& ls[1] == field + "\""@ + "Name"@ + "\": \""@ + escaped(name) + "\""@ + ","@
            &&& ls[2] == field + "\""@ + "Type"@ + "\": \""@ + escaped(kind) + "\""@ + ","@
            &&& ls[3] == field + "\""@ + "LoadingPhase"@ + "\": \""@ + escaped(phase) + "\""@ + ""@
            &&& ls[4] == item + "}"@
        }),
{
}

/// A new list of modules stands around the module.
pub proof fn law_block_lines(
    root: Seq<char>,
    indent: Seq<char>,
    name: Seq<char>,
    kind: Seq<char>,
    phase: Seq<char>,
)
    ensures
        ({
            let ls = block_lines(root, indent, name, kind, phase);
            &&& ls.len() == 7
            &&& ls[0] == root + "\"Modules\": ["@
            &&& ls.subrange(1, 6) == module_lines(
                root + indent,
                root + indent + indent,
                name,
                kind,
                phase,
            )
            &&& ls[6] == root + "]"@
        }),
{
    assert(block_lines(root, indent, name, kind, phase).subrange(1, 6) =~= module_lines(
        root + indent,
        root + indent + indent,
        name,
        kind,
        phase,
    ));
}

/// New lines go below a place, with a comma behind what stands before it; what stands
/// behind it goes below them.
pub proof fn law_after_place(ls: Seq<Seq<char>>, row: usize, col: usize, new: Seq<Seq<char>>)
    ensures
        row >= ls.len() ==> after_place(ls, (row, col), new) == Err::<Seq<Seq<char>>, UprojectError>(
            UprojectError::RowOutOfRange(row),
        ),
        row < ls.len() && col > ls[row as int].len() ==> after_place(ls, (row, col), new) == Err::<
            Seq<Seq<char>>,
            UprojectError,
        >(UprojectError::ColumnOutOfRange(col)),
        row < ls.len() && col == ls[row as int].len() ==> (after_place(ls, (row, col), new) matches Ok(
            out,
        ) && out.len() == ls.len() + new.len() && out[row as int] == ls[row as int] + seq![','] && (
        forall|i: int| 0 <= i < row ==> out[i] == ls[i]) && (forall|i: int|
            0 <= i < new.len() ==> out[row + 1 + i] == new[i]) && (forall|i: int|
            row < i < ls.len() ==> out[new.len() + i] == ls[i])),
        row < ls.len() && col < ls[row as int].len() ==> (after_place(ls, (row, col), new) matches Ok(
            out,
        ) && out.len() == ls.len() + new.len() + 1 && out[row as int] == ls[row as int].take(
            col as int,
        ) + seq![','] && out[row + 1 + new.len()] == ls[row as int].skip(col as int) && (forall|i: int|
            0 <= i < row ==> out[i] == ls[i]) && (forall|i: int|
            0 <= i < new.len() ==> out[row + 1 + i] == new[i]) && (forall|i: int|
            row < i < ls.len() ==> out[new.len() + 1 + i] == ls[i])),
{
    if row < ls.len() && col <= ls[row as int].len() {
        let line = ls[row as int];
        assert(line.take(col as int).push(',') =~= line.take(col as int) + seq![',']);
        if col == line.len() {
            assert(line.take(col as int) =~= line);
        }
    }
}

/// What cannot be written, and what cannot be read, is refused, the name first.
pub proof fn law_project_refused(
    raw: Seq<char>,
    name: Seq<char>,
    kind: Seq<char>,
    phase: Seq<char>,
    top: Option<(Seq<(Seq<char>, int)>, Seq<(Seq<char>, int)>)>,
    ms: Option<Seq<Seq<(Seq<char>, int, int)>>>,
    f: FieldFault,
)
    ensures
        ({
            let r = uproject::registered(raw, name, kind, phase, top, ms);
            let named = field_fault(name) is None;
            let typed = named && field_fault(kind) is None;
            let whole = typed && field_fault(phase) is None;
            &&& field_fault(name) == Some(f) ==> r == Err::<Option<Seq<char>>, UprojectError>(
                UprojectError::Name(f),
            )
            &&& named && field_fault(kind) == Some(f) ==> r == Err::<
                Option<Seq<char>>,
                UprojectError,
            >(UprojectError::Type(f))
            &&& typed && field_fault(phase) == Some(f) ==> r == Err::<
                Option<Seq<char>>,
                UprojectError,
            >(UprojectError::Phase(f))
            &&& whole && top is None ==> r == Err::<Option<Seq<char>>, UprojectError>(
                UprojectError::Parse,
            )
        }),
{
}

/// A module that is registered stays as it is; a new one goes behind the last of the
/// list, or in a list of its own behind the last pair of the file.
pub proof fn law_project_registered(
    raw: Seq<char>,
    name: Seq<char>,
    kind: Seq<char>,
    phase: Seq<char>,
    inner: Seq<(Seq<char>, int)>,
    info: ModulesView,
)
    ensures
        ({
            let r = uproject::registered_in(raw, name, kind, phase, inner, info);
            let unit = indent_unit(lines(raw));
            let known = info.module_names.contains(name);
            &&& known ==> r == Ok::<Option<Seq<char>>, UprojectError>(None)
            &&& !known && info.modules_found && info.last_module is None ==> r == Err::<
                Option<Seq<char>>,
                UprojectError,
            >(UprojectError::NoModuleObject)
            &&& !known && info.modules_found ==> (info.last_module matches Some(at) ==> (
            info.module_object_indent matches Some(item) ==> r == written(
                raw,
                after_place(
                    lines(raw),
                    at,
                    module_lines(item, item + unit, name, kind, phase),
                ),
            )))
            &&& !known && !info.modules_found ==> (info.last_root_pair matches Some(at) ==> (
            info.root_pair_indent matches Some(root) ==> r == written(
                raw,
                after_place(lines(raw), at, block_lines(root, unit, name, kind, phase)),
            )))
            &&& !known && !info.modules_found && info.last_root_pair is None && last_pair(
                raw,
                inner,
                inner.len() as int,
            ) is None ==> r == Err::<Option<Seq<char>>, UprojectError>(UprojectError::NoRootPair)
        }),
{
}

/// Of the pairs of the root object the last counts.
pub proof fn law_last_pair(s: Seq<char>, kinds: Seq<Seq<char>>, ends: Seq<int>, n: int, k: int)
    requires
        kinds.len() == ends.len(),
        0 <= k < n <= kinds.len(),
        kinds[k] == "pair"@,
        forall|j: int| k < j < n ==> #[trigger] kinds[j] != "pair"@,
    ensures
        last_pair(s, Seq::new(kinds.len(), |i: int| (kinds[i], ends[i])), n) == Some(
            spot(s, ends[k]),
        ),
    decreases n,
{
    if n - 1 > k {
        assert(kinds[n - 1] != "pair"@);
        law_last_pair(s, kinds, ends, n - 1, k);
    }
}

// ---------------------------------------------------------------------------
// Target files
// ---------------------------------------------------------------------------
/// What a capture of a target file says of the constructor and the class.
pub proof fn law_target_note(info: TargetView, m: Seq<CaptureView>, c: CaptureView)
    ensures
        ({
            let r = target::note(info, m, c);
            &&& c.name == "constructor.decl"@ ==> r == (TargetView {
                constructor_indent: Some(c.indent),
                ..info
            })
            &&& c.name == "constructor.statement"@ ==> r == (TargetView {
                constructor_last_statement: Some(c.end_row as usize),
                ..info
            })
            &&& c.name == "constructor.call"@ && c.text == "RegisterModulesCreatedByNeovim"@ ==> r
                == (TargetView { constructor_has_register_call: true, ..info })
            &&& c.name == "constructor.call"@ && c.text != "RegisterModulesCreatedByNeovim"@ ==> r
                == info
            &&& c.name == "target.member"@ ==> r == (TargetView {
                last_target_member: Some(c.end_row as usize),
                ..info
            })
        }),
{
    lemma_target_names();
}

/// What a capture of a target file says of the registration method; those of other
/// methods say nothing.
pub proof fn law_method_note(info: TargetView, m: Seq<CaptureView>, c: CaptureView)
    ensures
        ({
            let r = target::note(info, m, c);
            let named = target::captured(
                m,
                "register.method.name"@,
                "RegisterModulesCreatedByNeovim"@,
            );
            let empty = target::captured(
                m,
                "register.empty.method.name"@,
                "RegisterModulesCreatedByNeovim"@,
            );
            &&& c.name == "register.method.statement"@ && named ==> r == (TargetView {
                register_method_found: true,
                register_method_last_statement: Some(c.end_row as usize),
                ..info
            })
            &&& c.name == "register.method.statement"@ && !named ==> r == info
            &&& c.name == "register.method.body"@ && empty ==> r == (TargetView {
                register_method_found: true,
                register_method_body: Some(c.end_row as usize),
                ..info
            })
            &&& c.name == "register.method.body"@ && !empty ==> r == info
            &&& c.name == "module.literal"@ && of_list(m) ==> r == (TargetView {
                last_module_literal: Some((c.end_row as usize, c.end_column as usize)),
                module_literals: info.module_literals + seq![c.text],
                ..info
            })
            &&& c.name == "module.literal"@ && !of_list(m) ==> r == info
            &&& c.name == "initializer.expr"@ && of_list(m) ==> r == (TargetView {
                initializer_expr: Some(list_start(c)),
                ..info
            })
            &&& c.name == "initializer.expr"@ && !of_list(m) ==> r == info
        }),
{
    lemma_target_names();
    assert(info.module_literals.push(c.text) =~= info.module_literals + seq![c.text]);
}

proof fn lemma_target_names()
    ensures
        "constructor.decl"@.len() == 16,
        "constructor.statement"@.len() == 21,
        "constructor.call"@.len() == 16,
        "constructor.decl"@[12] == 'd',
        "constructor.call"@[12] == 'c',
        "target.member"@.len() == 13,
        "register.method.statement"@.len() == 25,
        "register.method.body"@.len() == 20,
        "addrange.call"@.len() == 13,
        "target.member"@[0] == 't',
        "addrange.call"@[0] == 'a',
        "initializer.expr"@.len() == 16,
        "initializer.expr"@[12] == 'e',
        "module.literal"@.len() == 14,
        "module.addrange.call"@.len() == 20,
        "register.method.body"@[0] == 'r',
        "module.addrange.call"@[0] == 'm',
{
    reveal_strlit("constructor.decl");
    reveal_strlit("constructor.statement");
    reveal_strlit("constructor.call");
    reveal_strlit("target.member");
    reveal_strlit("register.method.statement");
    reveal_strlit("register.method.body");
    reveal_strlit("addrange.call");
    reveal_strlit("initializer.expr");
    reveal_strlit("module.literal");
    reveal_strlit("module.addrange.call");
}

/// Only matches in a class that derives from `TargetRules` count, in order, and each
/// with all its captures.
pub proof fn law_target_notes(
    info: TargetView,
    m: Seq<CaptureView>,
    source: Seq<char>,
    ms: Seq<Seq<(Seq<char>, int, int)>>,
    n: int,
    k: int,
)
    ensures
        target::note_captures(info, m, 0) == info,
        0 <= n < m.len() ==> target::note_captures(info, m, n + 1) == target::note(
            target::note_captures(info, m, n),
            m,
            m[n],
        ),
        target::captured(m, "class.base"@, "TargetRules"@) ==> target::note_match(info, m)
            == target::note_captures(info, m, m.len() as int),
        !target::captured(m, "class.base"@, "TargetRules"@) ==> target::note_match(info, m) == info,
        target::note_matches(source, ms, 0) == target_start(),
        0 <= k < ms.len() ==> target::note_matches(source, ms, k + 1) == target::note_match(
            target::note_matches(source, ms, k),
            captures_at(source, ms[k]),
        ),
        !target_start().constructor_has_register_call,
        !target_start().register_method_found,
        !target_start().add_range_found,
        target_start().module_literals.len() == 0,
{
}

/// A list that closes on its own row is entered before its closing bracket, a longer
/// one below its first row.
pub proof fn law_list_start(c: CaptureView)
    ensures
        list_start(c).row == c.start_row as usize,
        c.start_row == c.end_row && c.end_column > 0 ==> list_start(c).close == Some(
            (c.end_column - 1) as usize,
        ),
        c.start_row != c.end_row ==> list_start(c).close is None,
{
}

/// A new module goes behind the last one of the list, with a comma; into an empty list
/// it goes where the list begins.
pub proof fn law_list_place(info: TargetView, row: usize, col: usize)
    ensures
        info.last_module_literal == Some((row, col)) ==> list_place(info) == Some(
            (row, Some(Cut { col, comma: true })),
        ),
        info.last_module_literal is None && info.initializer_expr == Some(
            ListStart { row, close: Some(col) },
        ) ==> list_place(info) == Some((row, Some(Cut { col, comma: false }))),
        info.last_module_literal is None && info.initializer_expr == Some(
            ListStart { row, close: None },
        ) ==> list_place(info) == Some((row, None::<Cut>)),
        info.last_module_literal is None && info.initializer_expr is None ==> list_place(info) is None,
{
}

/// The registration method is called from the constructor, behind its last statement,
/// unless it is called there already.
pub proof fn law_call_edit(info: TargetView, indent: Seq<char>, row: usize)
    ensures
        info.constructor_has_register_call ==> (call_edit(info, indent) matches Ok(es) && es.len() == 0),
        !info.constructor_has_register_call && info.constructor_last_statement == Some(row) ==> (
        call_edit(info, indent) matches Ok(es) && es.len() == 1 && es[0].row == row && es[0].cut
            is None && es[0].lines == seq![
            indent + indent + "RegisterModulesCreatedByNeovim"@ + "();"@,
        ]),
        !info.constructor_has_register_call && info.constructor_last_statement is None ==> call_edit(
            info,
            indent,
        ) == Err::<Seq<EditView>, TargetError>(TargetError::NoConstructorStatement),
{
}

/// A module is named in the list where there is one, else in a new list at the end of
/// the method, else in a new method at the end of the class; once is enough.
pub proof fn law_module_edit(info: TargetView, indent: Seq<char>, name: Seq<char>, row: usize)
    ensures
        ({
            let r = module_edit(info, indent, name);
            let known = info.register_method_found && info.add_range_found
                && info.module_literals.contains(literal_of(name));
            &&& known ==> r == Ok::<Option<EditView>, TargetError>(None)
            &&& !known && info.register_method_found && info.add_range_found ==> (match list_place(
                info,
            ) {
                Some((at, cut)) => r matches Ok(Some(e)) && e.row == at && e.cut == cut && e.lines
                    == seq![item_line(indent, name)],
                None => r == Err::<Option<EditView>, TargetError>(TargetError::NoInitializer),
            })
            &&& info.register_method_found && !info.add_range_found
                && info.register_method_last_statement == Some(row) ==> (r matches Ok(Some(e)) && e.row
                == row && e.cut is None && e.lines == list_lines(indent, name))
            &&& info.register_method_found && !info.add_range_found
                && info.register_method_last_statement is None && info.register_method_body == Some(
                row,
            ) ==> (r matches Ok(Some(e)) && e.row == row && e.cut is None && e.lines == list_lines(
                indent,
                name,
            ))
            &&& !info.register_method_found && info.last_target_member == Some(row) ==> (r matches Ok(
                Some(e),
            ) && e.row == row && e.cut is None && e.lines == method_lines(indent, name))
            &&& !info.register_method_found && info.last_target_member is None ==> r == Err::<
                Option<EditView>,
                TargetError,
            >(TargetError::NoMember)
        }),
{
}

/// What is written of a module: a literal, three units in; around it a list, two units
/// in; around that a method, one unit in, behind an empty line.
pub proof fn law_target_lines(indent: Seq<char>, name: Seq<char>)
    ensures
        literal_of(name) == seq!['"'] + escaped(name) + seq!['"'],
        item_line(indent, name) == indent + indent + indent + literal_of(name),
        list_lines(indent, name) == seq![
            indent + indent + "ExtraModuleNames.AddRange(new string[] {"@,
            item_line(indent, name),
            indent + indent + "});"@,
        ],
        ({
            let ls = method_lines(indent, name);
            &&& ls.len() == 7
            &&& ls[0].len() == 0
            &&& ls[1] == indent + "private void "@ + "RegisterModulesCreatedByNeovim"@ + "()"@
            &&& ls[2] == indent + "{"@
            &&& ls.subrange(3, 6) == list_lines(indent, name)
            &&& ls[6] == indent + "}"@
        }),
{
    reveal_strlit("\"");
    assert("\""@ =~= seq!['"']);
    assert(method_lines(indent, name).subrange(3, 6) =~= list_lines(indent, name));
}

/// The call comes before the module; both have to be possible.
pub proof fn law_target_edits(
    info: TargetView,
    indent: Seq<char>,
    name: Seq<char>,
    calls: Seq<EditView>,
    e: EditView,
)
    requires
        call_edit(info, indent) == Ok::<Seq<EditView>, TargetError>(calls),
    ensures
        module_edit(info, indent, name) == Ok::<Option<EditView>, TargetError>(Some(e))
            ==> target_edits(info, indent, name) == Ok::<Seq<EditView>, TargetError>(calls.push(e)),
        module_edit(info, indent, name) == Ok::<Option<EditView>, TargetError>(None) ==> target_edits(
            info,
            indent,
            name,
        ) == Ok::<Seq<EditView>, TargetError>(calls),
        module_edit(info, indent, name) is Err ==> target_edits(info, indent, name) is Err,
{
}

/// Lines are indented as the constructor is, else as the file is.
pub proof fn law_target_indent(info: TargetView, ls: Seq<Seq<char>>)
    ensures
        info.constructor_indent matches Some(s) ==> target_indent(info, ls) == s,
        info.constructor_indent is None ==> target_indent(info, ls) == indent_unit(ls),
{
}

/// A name that cannot be written is refused before the file is read; an unreadable
/// file is refused; nothing to edit leaves the file as it is.
pub proof fn law_target_registered(
    raw: Seq<char>,
    name: Seq<char>,
    ms: Option<Seq<Seq<(Seq<char>, int, int)>>>,
    info: TargetView,
)
    ensures
        field_fault(name) matches Some(f) ==> target::registered(raw, name, ms) == Err::<
            Seq<char>,
            TargetError,
        >(TargetError::Name(f)),
        field_fault(name) is None && ms is None ==> target::registered(raw, name, ms) == Err::<
            Seq<char>,
            TargetError,
        >(TargetError::Parse),
        info.constructor_has_register_call && listed(info, name) ==> target::registered_in(
            raw,
            name,
            info,
        ) == Ok::<Seq<char>, TargetError>(raw),
{
}

/// A row that is cut keeps what stands before the place, with a comma where one is
/// asked for; what stands behind it goes on, without a comma at its beginning.
pub proof fn law_cut(head: Seq<char>, tail: Seq<char>, comma: bool)
    requires
        head.len() <= u32::MAX,
    ensures
        ({
            let c = Cut { col: head.len() as usize, comma };
            let line = head + tail;
            &&& comma ==> head_of(line, c) == head.push(',')
            &&& !comma ==> head_of(line, c) == head
            &&& trim(after_comma(tail)).len() == 0 ==> tail_of(line, c).len() == 0
            &&& trim(after_comma(tail)).len() > 0 ==> tail_of(line, c) == seq![after_comma(tail)]
        }),
        after_comma(seq![','] + tail) == tail,
        trim_start(tail).len() == 0 || trim_start(tail)[0] != ',' ==> after_comma(tail) == tail,
{
    let line = head + tail;
    assert(line.take(head.len() as int) =~= head);
    assert(line.skip(head.len() as int) =~= tail);
    let t = seq![','] + tail;
    crate::text::lemma_ws_prefix(t);
    assert(trim_start(t) =~= t);
    assert(t.skip(1) =~= tail);
}

/// Lines go below their row; every other line stays.
pub proof fn law_edited(ls: Seq<Seq<char>>, e: EditView, i: int)
    requires
        e.row < ls.len(),
        e.cut is None,
    ensures
        edited(ls, e).len() == ls.len() + e.lines.len(),
        0 <= i <= e.row ==> edited(ls, e)[i] == ls[i],
        0 <= i < e.lines.len() ==> edited(ls, e)[e.row + 1 + i] == e.lines[i],
        e.row < i < ls.len() ==> edited(ls, e)[e.lines.len() + i] == ls[i],
{
}

/// A row that is cut holds its head; the new lines and its tail stand below it.
pub proof fn law_edited_cut(ls: Seq<Seq<char>>, e: EditView, c: Cut, i: int)
    requires
        e.row < ls.len(),
        e.cut == Some(c),
    ensures
        ({
            let tail = tail_of(ls[e.row as int], c);
            &&& edited(ls, e).len() == ls.len() + e.lines.len() + tail.len()
            &&& 0 <= i < e.row ==> edited(ls, e)[i] == ls[i]
            &&& edited(ls, e)[e.row as int] == head_of(ls[e.row as int], c)
            &&& 0 <= i < e.lines.len() ==> edited(ls, e)[e.row + 1 + i] == e.lines[i]
            &&& 0 <= i < tail.len() ==> edited(ls, e)[e.row + 1 + e.lines.len() + i] == tail[i]
            &&& e.row < i < ls.len() ==> edited(ls, e)[e.lines.len() + tail.len() + i] == ls[i]
        }),
{
}

/// Edits are made one after the other; one outside of the file is refused.
pub proof fn law_edited_from(ls: Seq<Seq<char>>, es: Seq<EditView>, i: int)
    requires
        0 <= i < es.len(),
    ensures
        edited_from(ls, es, es.len() as int) == Ok::<Seq<Seq<char>>, TargetError>(ls),
        es[i].row >= ls.len() ==> edited_from(ls, es, i) == Err::<Seq<Seq<char>>, TargetError>(
            TargetError::RowOutOfRange(es[i].row),
        ),
        es[i].row < ls.len() ==> edited_from(ls, es, i) == edited_from(
            edited(ls, es[i]),
            es,
            i + 1,
        ),
{
}

// ---------------------------------------------------------------------------
// Places in a source
// ---------------------------------------------------------------------------
/// A row begins behind each line feed.
pub proof fn law_row(s: Seq<char>, i: int)
    requires
        0 <= i < s.len(),
    ensures
        row_at(s, 0) == 0,
        s[i] == '\n' ==> row_at(s, i + 1) == row_at(s, i) + 1,
        s[i] != '\n' ==> row_at(s, i + 1) == row_at(s, i),
{
}

/// A line begins behind the last line feed before a position, or where the source
/// begins.
pub proof fn law_line_start(s: Seq<char>, i: int)
    requires
        0 <= i <= s.len(),
    ensures
        0 <= line_start(s, i) <= i,
        line_start(s, i) > 0 ==> s[line_start(s, i) - 1] == '\n',
        forall|j: int| line_start(s, i) <= j < i ==> #[trigger] s[j] != '\n',
    decreases i,
{
    if i > 0 && s[i - 1] != '\n' {
        law_line_start(s, i - 1);
    }
}

/// The indentation before a position is the blanks and tabs at the start of its line.
pub proof fn law_indent_before(s: Seq<char>, i: int)
    requires
        0 <= i <= s.len(),
    ensures
        ({
            let start = line_start(s, i);
            let indent = indent_before(s, i);
            &&& start + indent.len() <= i
            &&& forall|k: int|
                0 <= k < indent.len() ==> (#[trigger] indent[k] == ' ' || indent[k] == '\t')
                    && indent[k] == s[start + k]
            &&& start + indent.len() < i ==> s[start + indent.len()] != ' ' && s[start
                + indent.len()] != '\t'
        }),
{
    law_line_start(s, i);
    lemma_blanks_end(s, line_start(s, i), i);
}

proof fn lemma_blanks_end(s: Seq<char>, i: int, end: int)
    requires
        0 <= i <= end <= s.len(),
    ensures
        i <= blanks_end(s, i, end) <= end,
        forall|k: int| i <= k < blanks_end(s, i, end) ==> #[trigger] s[k] == ' ' || s[k] == '\t',
        blanks_end(s, i, end) < end ==> s[blanks_end(s, i, end)] != ' ' && s[blanks_end(s, i, end)]
            != '\t',
    decreases end - i,
{
    if i < end && (s[i] == ' ' || s[i] == '\t') {
        lemma_blanks_end(s, i + 1, end);
    }
}

/// A captured node has the text between its bytes, and the rows and the column of its
/// ends.
pub proof fn law_capture(s: Seq<char>, name: Seq<char>, from: int, to: int, a: int, b: int)
    requires
        at_byte(s, a) == Some(from),
        at_byte(s, b) == Some(to),
        from <= to,
    ensures
        ({
            let c = capture_at(s, (name, a, b));
            &&& c.name == name
            &&& c.text == s.subrange(from, to)
            &&& c.start_row == row_at(s, from)
            &&& c.end_row == row_at(s, to)
            &&& c.end_column == to - line_start(s, to)
            &&& c.indent == indent_before(s, from)
        }),
{
}

} // verus!
