//! Registration of a module in a `.Target.cs` file.

use vstd::prelude::*;
use vstd::slice::slice_subrange;

use crate::edit::layout::{detect_newline, escape, indent_unit_of, insert_lines, join_lines,
    validate_field, FieldFault};
use crate::grammar::{locate_all, query_csharp, Capture};
use crate::text::{chars_of, has_text, owned, push_all, push_str, split_lines, str_eq,
    string_of, to_vec, trimmed, trimmed_start};
#[allow(unused_imports)]
use crate::edit::layout::{escaped, field_fault, indent_unit, inserted, joined, newline_of};
#[allow(unused_imports)]
use crate::grammar::{captures_at, csharp_matches, matches_view, spans_view, CaptureView};
#[allow(unused_imports)]
use crate::text::{lines, rows, texts, trim, trim_start, views};

verus! {

/// The tree query that finds the places of a `.Target.cs` file that matter:
/// the constructor and its statements, the members of the class, and the
/// method that registers modules with the list that it holds.
pub const TARGET_QUERY: &'static str = r#"
(compilation_unit
  (class_declaration
    (base_list (identifier) @class.base)
    body: (declaration_list
      (constructor_declaration
        body: (block (_) @constructor.statement)
      ) @constructor.decl
    )
  )
)

(compilation_unit
  (class_declaration
    (base_list (identifier) @class.base)
    body: (declaration_list
      (constructor_declaration
        body: (block
          (expression_statement
            (invocation_expression
              function: (identifier) @constructor.call
            )
          )
        )
      )
    )
  )
)

(compilation_unit
  (class_declaration
    (base_list (identifier) @class.base)
    body: (declaration_list
      (_) @target.member
    )
  )
)

(compilation_unit
  (class_declaration
    (base_list (identifier) @class.base)
    body: (declaration_list
      (method_declaration
        name: (identifier) @register.method.name
        body: (block (_) @register.method.statement)
      ) @register.method.decl
    )
  )
)

(compilation_unit
  (class_declaration
    (base_list (identifier) @class.base)
    body: (declaration_list
      (method_declaration
        name: (identifier) @register.empty.method.name
        body: (block) @register.method.body
      )
    )
  )
)

(compilation_unit
  (class_declaration
    (base_list (identifier) @class.base)
    body: (declaration_list
      (method_declaration
        name: (identifier) @register.addrange.method.name
        body: (block
          (expression_statement
            (invocation_expression
              function: (member_access_expression) @addrange.call
              arguments: (argument_list
                (argument
                  (array_creation_expression
                    (initializer_expression
                      (string_literal)* @module.literal
                    ) @initializer.expr
                  )
                )
              )
            )
          )
        )
      )
    )
  )
)

(compilation_unit
  (class_declaration
    (base_list (identifier) @class.base)
    body: (declaration_list
      (method_declaration
        name: (identifier) @register.module.method.name
        body: (block
          (expression_statement
            (invocation_expression
              function: (member_access_expression) @module.addrange.call
              arguments: (argument_list
                (argument
                  (array_creation_expression
                    (initializer_expression
                      (string_literal
                        (string_literal_content) @module.name
                      )
                    )
                  )
                )
              )
            )
          )
        )
      )
    )
  )
)
"#;

/// The method that registers the modules.
pub const REGISTER_METHOD: &'static str = "RegisterModulesCreatedByNeovim";

/// Why a module cannot be registered.
#[derive(Debug, Clone, Copy, PartialEq, Eq, Structural)]
pub enum TargetError {
    /// The name of the module cannot be written.
    Name(FieldFault),
    /// The file cannot be parsed.
    Parse,
    /// The constructor has no statement.
    NoConstructorStatement,
    /// The registration method has no place for a statement.
    NoMethodBody,
    /// The class has no member.
    NoMember,
    /// The registration call has no list.
    NoInitializer,
    /// The row of an edit lies outside of the file.
    RowOutOfRange(usize),
}

/// What is known of a `.Target.cs` file.
pub struct TargetInfo {
    pub constructor_indent: Option<String>,
    pub constructor_has_register_call: bool,
    pub constructor_last_statement: Option<usize>,
    pub register_method_found: bool,
    pub register_method_body: Option<usize>,
    pub register_method_last_statement: Option<usize>,
    pub add_range_found: bool,
    pub initializer_expr: Option<ListStart>,
    pub last_module_literal: Option<(usize, usize)>,
    pub module_literals: Vec<String>,
    pub last_target_member: Option<usize>,
}

/// Where the list of the modules begins: on which row, and, where it ends on the
/// same row, the column of its closing bracket.
#[derive(Debug, Clone, Copy, PartialEq, Eq, Structural)]
pub struct ListStart {
    pub row: usize,
    pub close: Option<usize>,
}

/// What is known of a `.Target.cs` file. Places are given by their row, and those
/// in the list by their column too.
pub struct TargetView {
    pub constructor_indent: Option<Seq<char>>,
    pub constructor_has_register_call: bool,
    pub constructor_last_statement: Option<usize>,
    pub register_method_found: bool,
    pub register_method_body: Option<usize>,
    pub register_method_last_statement: Option<usize>,
    pub add_range_found: bool,
    pub initializer_expr: Option<ListStart>,
    pub last_module_literal: Option<(usize, usize)>,
    pub module_literals: Seq<Seq<char>>,
    pub last_target_member: Option<usize>,
}

impl View for TargetInfo {
    type V = TargetView;

    open spec fn view(&self) -> TargetView {
        TargetView {
            constructor_indent: match self.constructor_indent {
                Some(s) => Some(s@),
                None => None,
            },
            constructor_has_register_call: self.constructor_has_register_call,
            constructor_last_statement: self.constructor_last_statement,
            register_method_found: self.register_method_found,
            register_method_body: self.register_method_body,
            register_method_last_statement: self.register_method_last_statement,
            add_range_found: self.add_range_found,
            initializer_expr: self.initializer_expr,
            last_module_literal: self.last_module_literal,
            module_literals: texts(self.module_literals@),
            last_target_member: self.last_target_member,
        }
    }
}

/// Nothing is known yet.
pub open spec fn target_start() -> TargetView {
    TargetView {
        constructor_indent: None,
        constructor_has_register_call: false,
        constructor_last_statement: None,
        register_method_found: false,
        register_method_body: None,
        register_method_last_statement: None,
        add_range_found: false,
        initializer_expr: None,
        last_module_literal: None,
        module_literals: seq![],
        last_target_member: None,
    }
}

/// The match captured a node of the given text under the given name.
pub open spec fn captured(m: Seq<CaptureView>, name: Seq<char>, text: Seq<char>) -> bool {
    exists|i: int| 0 <= i < m.len() && (#[trigger] m[i]).name == name && m[i].text == text
}

/// Whether the match captured a node of the given text under the given name.
pub fn has_capture(m: &Vec<Capture>, name: &str, text: &str) -> (r: bool)
    ensures
        r == captured(views(m@), name@, text@),
{
    let mut i: usize = 0;
    while i < m.len()
        invariant
            i <= m@.len(),
            forall|j: int|
                0 <= j < i ==> !((#[trigger] views(m@)[j]).name == name@ && views(m@)[j].text
                    == text@),
        decreases m.len() - i,
    {
        assert(views(m@)[i as int] == m@[i as int]@);
        if str_eq(m[i].name.as_str(), name) && str_eq(m[i].text.as_str(), text) {
            return true;
        }
        i = i + 1;
    }
    false
}

/// The match is one of the list of modules in the registration method.
pub open spec fn of_list(m: Seq<CaptureView>) -> bool {
    captured(m, "register.addrange.method.name"@, REGISTER_METHOD@) && captured(
        m,
        "addrange.call"@,
        "ExtraModuleNames.AddRange"@,
    )
}

/// Where a list begins.
pub open spec fn list_start(c: CaptureView) -> ListStart {
    ListStart {
        row: c.start_row as usize,
        close: if c.start_row == c.end_row && c.end_column > 0 {
            Some((c.end_column - 1) as usize)
        } else {
            None
        },
    }
}

/// What one capture of a match adds.
pub open spec fn note(info: TargetView, m: Seq<CaptureView>, c: CaptureView) -> TargetView {
    let row = c.end_row as usize;
    if c.name == "constructor.decl"@ {
        TargetView { constructor_indent: Some(c.indent), ..info }
    } else if c.name == "constructor.statement"@ {
        TargetView { constructor_last_statement: Some(row), ..info }
    } else if c.name == "constructor.call"@ {
        TargetView {
            constructor_has_register_call: info.constructor_has_register_call || c.text
                == REGISTER_METHOD@,
            ..info
        }
    } else if c.name == "target.member"@ {
        TargetView { last_target_member: Some(row), ..info }
    } else if c.name == "register.method.statement"@ {
        if captured(m, "register.method.name"@, REGISTER_METHOD@) {
            TargetView {
                register_method_found: true,
                register_method_last_statement: Some(row),
                ..info
            }
        } else {
            info
        }
    } else if c.name == "register.method.body"@ {
        if captured(m, "register.empty.method.name"@, REGISTER_METHOD@) {
            TargetView { register_method_found: true, register_method_body: Some(row), ..info }
        } else {
            info
        }
    } else if c.name == "addrange.call"@ {
        TargetView {
            add_range_found: info.add_range_found || (captured(
                m,
                "register.addrange.method.name"@,
                REGISTER_METHOD@,
            ) && c.text == "ExtraModuleNames.AddRange"@),
            ..info
        }
    } else if c.name == "initializer.expr"@ {
        if of_list(m) {
            TargetView { initializer_expr: Some(list_start(c)), ..info }
        } else {
            info
        }
    } else if c.name == "module.literal"@ {
        if of_list(m) {
            TargetView {
                last_module_literal: Some((row, c.end_column as usize)),
                module_literals: info.module_literals.push(c.text),
                ..info
            }
        } else {
            info
        }
    } else if c.name == "module.addrange.call"@ {
        TargetView {
            add_range_found: info.add_range_found || (captured(
                m,
                "register.module.method.name"@,
                REGISTER_METHOD@,
            ) && c.text == "ExtraModuleNames.AddRange"@),
            ..info
        }
    } else {
        info
    }
}

/// What the first `n` captures of a match add.
pub open spec fn note_captures(info: TargetView, m: Seq<CaptureView>, n: int) -> TargetView
    decreases n,
{
    if n <= 0 {
        info
    } else {
        note(note_captures(info, m, n - 1), m, m[n - 1])
    }
}

/// What a match adds: nothing unless the class derives from `TargetRules`.
pub open spec fn note_match(info: TargetView, m: Seq<CaptureView>) -> TargetView {
    if captured(m, "class.base"@, "TargetRules"@) {
        note_captures(info, m, m.len() as int)
    } else {
        info
    }
}

/// What the first `n` matches say.
pub open spec fn note_matches(
    source: Seq<char>,
    ms: Seq<Seq<(Seq<char>, int, int)>>,
    n: int,
) -> TargetView
    decreases n,
{
    if n <= 0 {
        target_start()
    } else {
        note_match(note_matches(source, ms, n - 1), captures_at(source, ms[n - 1]))
    }
}

/// Whether the match is one of the list of modules in the registration method.
fn is_of_list(m: &Vec<Capture>) -> (r: bool)
    ensures
        r == of_list(views(m@)),
{
    has_capture(m, "register.addrange.method.name", REGISTER_METHOD) && has_capture(
        m,
        "addrange.call",
        "ExtraModuleNames.AddRange",
    )
}

/// Adds what one capture of a match says.
fn note_capture(info: &mut TargetInfo, m: &Vec<Capture>, c: &Capture)
    ensures
        final(info)@ == note(old(info)@, views(m@), c@),
{
    let name = c.name.as_str();
    if str_eq(name, "constructor.decl") {
        info.constructor_indent = Some(c.indent.clone());
    } else if str_eq(name, "constructor.statement") {
        info.constructor_last_statement = Some(c.end_row);
    } else if str_eq(name, "constructor.call") {
        if str_eq(c.text.as_str(), REGISTER_METHOD) {
            info.constructor_has_register_call = true;
        }
    } else if str_eq(name, "target.member") {
        info.last_target_member = Some(c.end_row);
    } else if str_eq(name, "register.method.statement") {
        if has_capture(m, "register.method.name", REGISTER_METHOD) {
            info.register_method_found = true;
            info.register_method_last_statement = Some(c.end_row);
        }
    } else if str_eq(name, "register.method.body") {
        if has_capture(m, "register.empty.method.name", REGISTER_METHOD) {
            info.register_method_found = true;
            info.register_method_body = Some(c.end_row);
        }
    } else if str_eq(name, "addrange.call") {
        if has_capture(m, "register.addrange.method.name", REGISTER_METHOD) && str_eq(
            c.text.as_str(),
            "ExtraModuleNames.AddRange",
        ) {
            info.add_range_found = true;
        }
    } else if str_eq(name, "initializer.expr") {
        if is_of_list(m) {
            let close: Option<usize> = if c.start_row == c.end_row && c.end_column > 0 {
                Some(c.end_column - 1)
            } else {
                None
            };
            info.initializer_expr = Some(ListStart { row: c.start_row, close });
        }
    } else if str_eq(name, "module.literal") {
        if is_of_list(m) {
            let ghost before = texts(info.module_literals@);
            info.last_module_literal = Some((c.end_row, c.end_column));
            info.module_literals.push(c.text.clone());
            assert(texts(info.module_literals@) =~= before.push(c.text@));
        }
    } else if str_eq(name, "module.addrange.call") {
        if has_capture(m, "register.module.method.name", REGISTER_METHOD) && str_eq(
            c.text.as_str(),
            "ExtraModuleNames.AddRange",
        ) {
            info.add_range_found = true;
        }
    }
}

/// What the matches of the query say of a `.Target.cs` file.
pub fn collect_target_info(source: &[char], ms: &Vec<Vec<(String, usize, usize)>>) -> (r: TargetInfo)
    ensures
        r@ == note_matches(source@, matches_view(ms@), ms@.len() as int),
{
    let mut info = TargetInfo {
        constructor_indent: None,
        constructor_has_register_call: false,
        constructor_last_statement: None,
        register_method_found: false,
        register_method_body: None,
        register_method_last_statement: None,
        add_range_found: false,
        initializer_expr: None,
        last_module_literal: None,
        module_literals: Vec::new(),
        last_target_member: None,
    };
    assert(texts(info.module_literals@) =~= Seq::<Seq<char>>::empty());
    let ghost all = matches_view(ms@);
    let mut i: usize = 0;
    while i < ms.len()
        invariant
            i <= ms@.len(),
            all == matches_view(ms@),
            info@ == note_matches(source@, all, i as int),
        decreases ms.len() - i,
    {
        let m = locate_all(source, &ms[i]);
        assert(all[i as int] == spans_view(ms@[i as int]@));
        let ghost before = info@;
        if has_capture(&m, "class.base", "TargetRules") {
            let mut k: usize = 0;
            while k < m.len()
                invariant
                    k <= m@.len(),
                    info@ == note_captures(before, views(m@), k as int),
                decreases m.len() - k,
            {
                assert(views(m@)[k as int] == m@[k as int]@);
                note_capture(&mut info, &m, &m[k]);
                k = k + 1;
            }
        }
        i = i + 1;
    }
    info
}

// ---------------------------------------------------------------------------
// Edits
// ---------------------------------------------------------------------------
/// Where a row is cut: the column, and whether a comma goes behind what stands
/// before it.
#[derive(Debug, Clone, Copy, PartialEq, Eq, Structural)]
pub struct Cut {
    pub col: usize,
    pub comma: bool,
}

/// Lines to be put in below a row, or between the two parts of a row that is cut.
pub struct Edit {
    pub row: usize,
    pub cut: Option<Cut>,
    pub lines: Vec<Vec<char>>,
}

/// What an edit says.
pub struct EditView {
    pub row: usize,
    pub cut: Option<Cut>,
    pub lines: Seq<Seq<char>>,
}

impl View for Edit {
    type V = EditView;

    open spec fn view(&self) -> EditView {
        EditView { row: self.row, cut: self.cut, lines: rows(self.lines@) }
    }
}

/// Where a line is cut: at the column, or at its end.
pub open spec fn cut_at(line: Seq<char>, col: int) -> int {
    if col <= line.len() {
        col
    } else {
        line.len() as int
    }
}

/// What stays on the row that is cut.
pub open spec fn head_of(line: Seq<char>, c: Cut) -> Seq<char> {
    let head = line.take(cut_at(line, c.col as int));
    if c.comma {
        head.push(',')
    } else {
        head
    }
}

/// The text without a comma that it begins with.
pub open spec fn after_comma(s: Seq<char>) -> Seq<char> {
    let t = trim_start(s);
    if t.len() > 0 && t[0] == ',' {
        t.skip(1)
    } else {
        s
    }
}

/// What goes behind the new lines when a row is cut: the rest of the row, without
/// its comma, unless that is blank.
pub open spec fn tail_of(line: Seq<char>, c: Cut) -> Seq<Seq<char>> {
    let tail = after_comma(line.skip(cut_at(line, c.col as int)));
    if trim(tail).len() == 0 {
        seq![]
    } else {
        seq![tail]
    }
}

/// The lines that an edit puts in behind its row.
pub open spec fn put_in(ls: Seq<Seq<char>>, e: EditView) -> Seq<Seq<char>> {
    match e.cut {
        Some(c) => e.lines + tail_of(ls[e.row as int], c),
        None => e.lines,
    }
}

/// The lines after one edit.
pub open spec fn edited(ls: Seq<Seq<char>>, e: EditView) -> Seq<Seq<char>> {
    let out = inserted(ls, e.row + 1, put_in(ls, e));
    match e.cut {
        Some(c) => out.update(e.row as int, head_of(ls[e.row as int], c)),
        None => out,
    }
}

/// The list of edits, the lowest row of the file first, with one more: it
/// comes before those at the same row.
pub open spec fn with_edit(es: Seq<EditView>, e: EditView) -> Seq<EditView>
    decreases es.len(),
{
    if es.len() == 0 || es[0].row <= e.row {
        seq![e] + es
    } else {
        seq![es[0]] + with_edit(es.skip(1), e)
    }
}

/// The edits in the order in which they are made: from the bottom of the file
/// to its top, so that no edit moves the row of another.
pub open spec fn bottom_up(es: Seq<EditView>) -> Seq<EditView>
    decreases es.len(),
{
    if es.len() == 0 {
        seq![]
    } else {
        with_edit(bottom_up(es.drop_last()), es.last())
    }
}

/// The lines after the edits from `i` on.
pub open spec fn edited_from(ls: Seq<Seq<char>>, es: Seq<EditView>, i: int) -> Result<
    Seq<Seq<char>>,
    TargetError,
>
    decreases es.len() - i,
{
    if i < 0 || i >= es.len() {
        Ok(ls)
    } else if es[i].row >= ls.len() {
        Err(TargetError::RowOutOfRange(es[i].row))
    } else {
        edited_from(edited(ls, es[i]), es, i + 1)
    }
}

/// The rows of the edits in order never grow.
pub open spec fn rows_fall(es: Seq<EditView>) -> bool {
    forall|i: int, j: int| 0 <= i <= j < es.len() ==> (#[trigger] es[i]).row >= (#[trigger] es[j]).row
}

proof fn lemma_with_edit(es: Seq<EditView>, e: EditView)
    requires
        rows_fall(es),
    ensures
        rows_fall(with_edit(es, e)),
        with_edit(es, e).to_multiset() =~= es.to_multiset().insert(e),
        with_edit(es, e).len() == es.len() + 1,
        with_edit(es, e)[0] == e || (es.len() > 0 && with_edit(es, e)[0] == es[0]),
    decreases es.len(),
{
    broadcast use vstd::seq_lib::group_to_multiset_ensures;

    if es.len() == 0 || es[0].row <= e.row {
        let r = seq![e] + es;
        assert forall|i: int, j: int| 0 <= i <= j < r.len() implies (#[trigger] r[i]).row >= (
        #[trigger] r[j]).row by {
            if i > 0 {
                assert(r[i] == es[i - 1] && r[j] == es[j - 1]);
            } else if j > 0 {
                assert(r[j] == es[j - 1]);
                assert(es[0].row >= es[j - 1].row);
            }
        }
        assert(r =~= es.insert(0, e));
        vstd::seq_lib::to_multiset_insert(es, 0, e);
    } else {
        let rest = es.skip(1);
        assert forall|i: int, j: int| 0 <= i <= j < rest.len() implies (#[trigger] rest[i]).row >= (
        #[trigger] rest[j]).row by {
            assert(rest[i] == es[i + 1] && rest[j] == es[j + 1]);
        }
        lemma_with_edit(rest, e);
        let w = with_edit(rest, e);
        let r = seq![es[0]] + w;
        assert forall|j: int| 0 <= j < w.len() implies es[0].row >= (#[trigger] w[j]).row by {
            assert(w[0].row >= w[j].row);
            if rest.len() > 0 {
                assert(es[0].row >= es[1].row);
                assert(rest[0] == es[1]);
            }
        }
        assert forall|i: int, j: int| 0 <= i <= j < r.len() implies (#[trigger] r[i]).row >= (
        #[trigger] r[j]).row by {
            if i > 0 {
                assert(r[i] == w[i - 1] && r[j] == w[j - 1]);
            } else if j > 0 {
                assert(r[j] == w[j - 1]);
            }
        }
        assert(r =~= w.insert(0, es[0]));
        vstd::seq_lib::to_multiset_insert(w, 0, es[0]);
        assert(es =~= rest.insert(0, es[0]));
        vstd::seq_lib::to_multiset_insert(rest, 0, es[0]);
        assert(r.to_multiset() =~= es.to_multiset().insert(e));
    }
}

/// The edits are made from the bottom of the file to its top, each of them
/// once.
pub proof fn law_bottom_up(es: Seq<EditView>)
    ensures
        rows_fall(bottom_up(es)),
        bottom_up(es).to_multiset() == es.to_multiset(),
        bottom_up(es).len() == es.len(),
    decreases es.len(),
{
    broadcast use vstd::seq_lib::group_to_multiset_ensures;

    if es.len() > 0 {
        law_bottom_up(es.drop_last());
        lemma_with_edit(bottom_up(es.drop_last()), es.last());
        assert(es =~= es.drop_last().push(es.last()));
        assert(bottom_up(es).to_multiset() =~= es.to_multiset());
    }
}

/// An edit leaves the lines above its row as they are, and keeps those below
/// it behind the new ones. Unless its row is cut, that stays too.
pub proof fn law_edit_keeps_lines(ls: Seq<Seq<char>>, e: EditView)
    requires
        e.row < ls.len(),
    ensures
        edited(ls, e).len() == ls.len() + put_in(ls, e).len(),
        edited(ls, e).take(e.row as int) == ls.take(e.row as int),
        edited(ls, e).skip(e.row + 1 + put_in(ls, e).len()) == ls.skip(e.row + 1),
        edited(ls, e).subrange(e.row + 1, e.row + 1 + e.lines.len()) == e.lines,
        e.cut is None ==> edited(ls, e)[e.row as int] == ls[e.row as int],
{
    let out = edited(ls, e);
    assert(out.take(e.row as int) =~= ls.take(e.row as int));
    assert(out.skip(e.row + 1 + put_in(ls, e).len()) =~= ls.skip(e.row + 1));
    assert(out.subrange(e.row + 1, e.row + 1 + e.lines.len()) =~= e.lines);
}

/// Where the line is cut: what stays on the row, and the line of what goes behind
/// the new ones, if there is one.
fn cut_line(line: &[char], c: Cut) -> (r: (Vec<char>, Option<Vec<char>>))
    ensures
        r.0@ == head_of(line@, c),
        tail_of(line@, c) == (match r.1 {
            Some(t) => seq![t@],
            None => seq![],
        }),
{
    let at: usize = if c.col <= line.len() {
        c.col
    } else {
        line.len()
    };
    let mut head = to_vec(slice_subrange(line, 0, at));
    assert(line@.subrange(0, at as int) =~= line@.take(at as int));
    if c.comma {
        head.push(',');
    }
    let rest = slice_subrange(line, at, line.len());
    assert(rest@ =~= line@.skip(at as int));
    let t = trimmed_start(rest);
    let tail: &[char] = if t.len() > 0 && t[0] == ',' {
        assert(t@.subrange(1, t@.len() as int) =~= t@.skip(1));
        slice_subrange(t, 1, t.len())
    } else {
        rest
    };
    if trimmed(tail).len() == 0 {
        (head, None)
    } else {
        (head, Some(to_vec(tail)))
    }
}

/// The list of edits with one more.
fn add_edit(es: Vec<Edit>, e: Edit) -> (r: Vec<Edit>)
    ensures
        views(r@) == with_edit(views(es@), e@),
{
    let ghost all = views(es@);
    let mut k: usize = 0;
    assert(all.skip(0) =~= all);
    assert(all.take(0) + with_edit(all, e@) =~= with_edit(all, e@));
    while k < es.len() && es[k].row > e.row
        invariant
            k <= es@.len(),
            all == views(es@),
            with_edit(all, e@) == all.take(k as int) + with_edit(all.skip(k as int), e@),
        decreases es.len() - k,
    {
        let ghost rest = all.skip(k as int);
        assert(rest[0] == es@[k as int]@);
        assert(rest.skip(1) =~= all.skip(k + 1));
        assert(all.take(k as int) + (seq![rest[0]] + with_edit(all.skip(k + 1), e@)) =~= all.take(
            k + 1,
        ) + with_edit(all.skip(k + 1), e@));
        k = k + 1;
    }
    let ghost rest = all.skip(k as int);
    assert(k < es@.len() ==> rest[0] == es@[k as int]@);
    let ghost ev = e@;
    let mut out = es;
    out.insert(k, e);
    assert(views(out@) =~= all.take(k as int) + (seq![ev] + rest));
    out
}

/// The lines after the edits, or the row of one that lies outside of them.
pub fn apply_edits(lines: Vec<Vec<char>>, edits: Vec<Edit>) -> (r: Result<
    Vec<Vec<char>>,
    TargetError,
>)
    ensures
        match r {
            Ok(ls) => edited_from(rows(lines@), bottom_up(views(edits@)), 0) == Ok::<
                Seq<Seq<char>>,
                TargetError,
            >(rows(ls@)),
            Err(e) => edited_from(rows(lines@), bottom_up(views(edits@)), 0) == Err::<
                Seq<Seq<char>>,
                TargetError,
            >(e),
        },
{
    let ghost all = views(edits@);
    let mut rest = edits;
    let mut sorted: Vec<Edit> = Vec::new();
    let ghost mut done: int = 0;
    assert(views(sorted@) =~= Seq::<EditView>::empty());
    assert(all.take(0) =~= Seq::<EditView>::empty());
    assert(all.skip(0) =~= all);
    while rest.len() > 0
        invariant
            0 <= done <= all.len(),
            rest@.len() == all.len() - done,
            views(rest@) == all.skip(done),
            views(sorted@) == bottom_up(all.take(done)),
        decreases rest.len(),
    {
        let ghost before = views(rest@);
        let e = rest.remove(0);
        assert(e@ == before[0]);
        assert(views(rest@) =~= before.skip(1));
        assert(before.skip(1) =~= all.skip(done + 1));
        assert(e@ == all[done]);
        assert(all.take(done + 1).drop_last() =~= all.take(done));
        sorted = add_edit(sorted, e);
        proof {
            done = done + 1;
        }
    }
    assert(all.take(done) =~= all);
    let ghost order = views(sorted@);
    let mut ls = lines;
    let mut i: usize = 0;
    while i < sorted.len()
        invariant
            i <= sorted@.len(),
            order == views(sorted@),
            order == bottom_up(views(edits@)),
            edited_from(rows(lines@), order, 0) == edited_from(rows(ls@), order, i as int),
        decreases sorted.len() - i,
    {
        let row: usize = sorted[i].row;
        assert(order[i as int] == sorted@[i as int]@);
        if row >= ls.len() {
            return Err(TargetError::RowOutOfRange(row));
        }
        let ghost before = rows(ls@);
        let mut new: Vec<Vec<char>> = Vec::new();
        let mut k: usize = 0;
        while k < sorted[i].lines.len()
            invariant
                i < sorted@.len(),
                k <= sorted@[i as int].lines@.len(),
                rows(new@) == rows(sorted@[i as int].lines@).take(k as int),
            decreases sorted[i as int].lines.len() - k,
        {
            let ghost b2 = rows(new@);
            let line = to_vec(sorted[i].lines[k].as_slice());
            new.push(line);
            assert(rows(new@) =~= b2.push(line@));
            assert(rows(sorted@[i as int].lines@).take(k + 1) =~= b2.push(line@));
            k = k + 1;
        }
        assert(rows(new@) =~= rows(sorted@[i as int].lines@));
        let ghost added = rows(new@);
        match sorted[i].cut {
            Some(c) => {
                assert(ls@[row as int]@ == before[row as int]);
                let (head, tail) = cut_line(ls[row].as_slice(), c);
                match tail {
                    Some(t) => {
                        new.push(t);
                        assert(rows(new@) =~= added + seq![t@]);
                    },
                    None => {
                        assert(added + Seq::<Seq<char>>::empty() =~= added);
                    },
                }
                insert_lines(&mut ls, row + 1, new);
                let ghost out = rows(ls@);
                assert(before.take(row + 1).len() == row + 1);
                assert(out.len() == ls@.len());
                ls.set(row, head);
                assert(rows(ls@) =~= out.update(row as int, head@));
            },
            None => {
                insert_lines(&mut ls, row + 1, new);
            },
        }
        assert(rows(ls@) =~= edited(before, order[i as int]));
        i = i + 1;
    }
    Ok(ls)
}

// ---------------------------------------------------------------------------
// Registration
// ---------------------------------------------------------------------------
/// The literal that names the module.
pub open spec fn literal_of(name: Seq<char>) -> Seq<char> {
    "\""@ + escaped(name) + "\""@
}

/// The list item that names the module.
pub open spec fn item_line(indent: Seq<char>, name: Seq<char>) -> Seq<char> {
    indent + indent + indent + literal_of(name)
}

/// The list in the registration method names the module.
pub open spec fn listed(info: TargetView, name: Seq<char>) -> bool {
    info.register_method_found && info.add_range_found && info.module_literals.contains(
        literal_of(name),
    )
}

/// The call that adds the list with the module.
pub open spec fn list_lines(indent: Seq<char>, name: Seq<char>) -> Seq<Seq<char>> {
    seq![
        indent + indent + "ExtraModuleNames.AddRange(new string[] {"@,
        item_line(indent, name),
        indent + indent + "});"@,
    ]
}

/// The method that adds the list with the module, after an empty line.
pub open spec fn method_lines(indent: Seq<char>, name: Seq<char>) -> Seq<Seq<char>> {
    seq![
        Seq::<char>::empty(),
        indent + "private void "@ + REGISTER_METHOD@ + "()"@,
        indent + "{"@,
    ] + list_lines(indent, name) + seq![indent + "}"@]
}

/// The edit that calls the registration method, unless it is called already.
pub open spec fn call_edit(info: TargetView, indent: Seq<char>) -> Result<
    Seq<EditView>,
    TargetError,
> {
    if info.constructor_has_register_call {
        Ok(seq![])
    } else {
        match info.constructor_last_statement {
            Some(row) => Ok(
                seq![
                    EditView {
                        row,
                        cut: None,
                        lines: seq![indent + indent + REGISTER_METHOD@ + "();"@],
                    },
                ],
            ),
            None => Err(TargetError::NoConstructorStatement),
        }
    }
}

/// The place behind the last module of the list, or at its beginning where it is
/// empty.
pub open spec fn list_place(info: TargetView) -> Option<(usize, Option<Cut>)> {
    match info.last_module_literal {
        Some((row, col)) => Some((row, Some(Cut { col, comma: true }))),
        None => match info.initializer_expr {
            Some(start) => Some(
                (
                    start.row,
                    match start.close {
                        Some(col) => Some(Cut { col, comma: false }),
                        None => None,
                    },
                ),
            ),
            None => None,
        },
    }
}

/// The edit that names the module: in the list, in a new list, or in a new
/// method. None where the list names it already.
pub open spec fn module_edit(info: TargetView, indent: Seq<char>, name: Seq<char>) -> Result<
    Option<EditView>,
    TargetError,
> {
    if listed(info, name) {
        Ok(None)
    } else if info.register_method_found && info.add_range_found {
        match list_place(info) {
            Some((row, cut)) => Ok(Some(EditView { row, cut, lines: seq![item_line(indent, name)] })),
            None => Err(TargetError::NoInitializer),
        }
    } else if info.register_method_found {
        match info.register_method_last_statement {
            Some(row) => Ok(Some(EditView { row, cut: None, lines: list_lines(indent, name) })),
            None => match info.register_method_body {
                Some(row) => Ok(Some(EditView { row, cut: None, lines: list_lines(indent, name) })),
                None => Err(TargetError::NoMethodBody),
            },
        }
    } else {
        match info.last_target_member {
            Some(row) => Ok(Some(EditView { row, cut: None, lines: method_lines(indent, name) })),
            None => Err(TargetError::NoMember),
        }
    }
}

/// The edits that register the module.
pub open spec fn target_edits(info: TargetView, indent: Seq<char>, name: Seq<char>) -> Result<
    Seq<EditView>,
    TargetError,
> {
    match call_edit(info, indent) {
        Err(e) => Err(e),
        Ok(calls) => match module_edit(info, indent, name) {
            Err(e) => Err(e),
            Ok(Some(edit)) => Ok(calls.push(edit)),
            Ok(None) => Ok(calls),
        },
    }
}

/// The unit of indentation: that of the constructor, else that of the file.
pub open spec fn target_indent(info: TargetView, ls: Seq<Seq<char>>) -> Seq<char> {
    match info.constructor_indent {
        Some(s) => s,
        None => indent_unit(ls),
    }
}

/// The file with the module registered, given what is known of it. It stays as it
/// is where there is nothing to edit.
pub open spec fn registered_in(raw: Seq<char>, name: Seq<char>, info: TargetView) -> Result<
    Seq<char>,
    TargetError,
> {
    let ls = lines(raw);
    match target_edits(info, target_indent(info, ls), name) {
        Err(e) => Err(e),
        Ok(es) => if es.len() == 0 {
            Ok(raw)
        } else {
            match edited_from(ls, bottom_up(es), 0) {
                Err(e) => Err(e),
                Ok(out) => Ok(joined(out, newline_of(raw))),
            }
        },
    }
}

/// The file with the module registered, given the matches of the query.
pub open spec fn registered(
    raw: Seq<char>,
    name: Seq<char>,
    ms: Option<Seq<Seq<(Seq<char>, int, int)>>>,
) -> Result<Seq<char>, TargetError> {
    match field_fault(name) {
        Some(fault) => Err(TargetError::Name(fault)),
        None => match ms {
            None => Err(TargetError::Parse),
            Some(ms) => registered_in(raw, name, note_matches(raw, ms, ms.len() as int)),
        },
    }
}

/// `indent` followed by the text.
fn line1(indent: &[char], text: &str) -> (r: Vec<char>)
    ensures
        r@ == indent@ + text@,
{
    let mut r = to_vec(indent);
    push_str(&mut r, text);
    r
}

/// `indent` twice, followed by the text.
fn line2(indent: &[char], text: &str) -> (r: Vec<char>)
    ensures
        r@ == indent@ + indent@ + text@,
{
    let mut r = to_vec(indent);
    push_all(&mut r, indent);
    push_str(&mut r, text);
    r
}

/// The literal that names the module.
fn literal_text(name: &str) -> (r: Vec<char>)
    ensures
        r@ == literal_of(name@),
{
    let mut r: Vec<char> = Vec::new();
    push_str(&mut r, "\"");
    let e = escape(name);
    push_all(&mut r, e.as_slice());
    push_str(&mut r, "\"");
    assert(r@ =~= literal_of(name@));
    r
}

/// The list item that names the module.
fn item_line_of(indent: &[char], name: &str) -> (r: Vec<char>)
    ensures
        r@ == item_line(indent@, name@),
{
    let mut r = to_vec(indent);
    push_all(&mut r, indent);
    push_all(&mut r, indent);
    let l = literal_text(name);
    push_all(&mut r, l.as_slice());
    r
}

/// The call that adds the list with the module.
fn list_lines_of(indent: &[char], name: &str) -> (r: Vec<Vec<char>>)
    ensures
        rows(r@) == list_lines(indent@, name@),
{
    let mut r: Vec<Vec<char>> = Vec::new();
    r.push(line2(indent, "ExtraModuleNames.AddRange(new string[] {"));
    r.push(item_line_of(indent, name));
    r.push(line2(indent, "});"));
    assert(rows(r@) =~= list_lines(indent@, name@));
    r
}

/// The method that adds the list with the module.
fn method_lines_of(indent: &[char], name: &str) -> (r: Vec<Vec<char>>)
    ensures
        rows(r@) == method_lines(indent@, name@),
{
    let mut r: Vec<Vec<char>> = Vec::new();
    r.push(Vec::new());
    let mut head = line1(indent, "private void ");
    push_str(&mut head, REGISTER_METHOD);
    push_str(&mut head, "()");
    r.push(head);
    r.push(line1(indent, "{"));
    r.push(line2(indent, "ExtraModuleNames.AddRange(new string[] {"));
    r.push(item_line_of(indent, name));
    r.push(line2(indent, "});"));
    r.push(line1(indent, "}"));
    assert(rows(r@) =~= method_lines(indent@, name@));
    r
}

/// One line as a list.
fn single(line: Vec<char>) -> (r: Vec<Vec<char>>)
    ensures
        rows(r@) == seq![line@],
{
    let mut r: Vec<Vec<char>> = Vec::new();
    r.push(line);
    assert(rows(r@) =~= seq![line@]);
    r
}

/// The edit that names the module, unless the list names it already.
fn build_module_edit(info: &TargetInfo, indent: &[char], name: &str) -> (r: Result<
    Option<Edit>,
    TargetError,
>)
    ensures
        match r {
            Ok(Some(e)) => module_edit(info@, indent@, name@) == Ok::<Option<EditView>, TargetError>(
                Some(e@),
            ),
            Ok(None) => module_edit(info@, indent@, name@) == Ok::<Option<EditView>, TargetError>(
                None,
            ),
            Err(e) => module_edit(info@, indent@, name@) == Err::<Option<EditView>, TargetError>(e),
        },
{
    if info.register_method_found {
        if info.add_range_found {
            let literal = literal_text(name);
            let literal = string_of(literal.as_slice());
            if has_text(&info.module_literals, literal.as_str()) {
                return Ok(None);
            }
            let (row, cut): (usize, Option<Cut>) = match info.last_module_literal {
                Some((row, col)) => (row, Some(Cut { col, comma: true })),
                None => match info.initializer_expr {
                    Some(start) => (
                        start.row,
                        match start.close {
                            Some(col) => Some(Cut { col, comma: false }),
                            None => None,
                        },
                    ),
                    None => {
                        return Err(TargetError::NoInitializer);
                    },
                },
            };
            Ok(Some(Edit { row, cut, lines: single(item_line_of(indent, name)) }))
        } else {
            let row: usize = match info.register_method_last_statement {
                Some(row) => row,
                None => match info.register_method_body {
                    Some(row) => row,
                    None => {
                        return Err(TargetError::NoMethodBody);
                    },
                },
            };
            Ok(Some(Edit { row, cut: None, lines: list_lines_of(indent, name) }))
        }
    } else {
        match info.last_target_member {
            Some(row) => Ok(Some(Edit { row, cut: None, lines: method_lines_of(indent, name) })),
            None => Err(TargetError::NoMember),
        }
    }
}

/// The edits that register the module.
fn build_edits(info: &TargetInfo, indent: &[char], name: &str) -> (r: Result<
    Vec<Edit>,
    TargetError,
>)
    ensures
        match r {
            Ok(es) => target_edits(info@, indent@, name@) == Ok::<Seq<EditView>, TargetError>(
                views(es@),
            ),
            Err(e) => target_edits(info@, indent@, name@) == Err::<Seq<EditView>, TargetError>(e),
        },
{
    let mut edits: Vec<Edit> = Vec::new();
    if !info.constructor_has_register_call {
        match info.constructor_last_statement {
            Some(row) => {
                let mut call = line2(indent, REGISTER_METHOD);
                push_str(&mut call, "();");
                edits.push(Edit { row, cut: None, lines: single(call) });
                assert(call@ == indent@ + indent@ + REGISTER_METHOD@ + "();"@);
            },
            None => {
                return Err(TargetError::NoConstructorStatement);
            },
        }
    }
    assert(call_edit(info@, indent@) == Ok::<Seq<EditView>, TargetError>(views(edits@))) by {
        match call_edit(info@, indent@) {
            Ok(v) => {
                assert(v =~= views(edits@));
            },
            Err(_) => {},
        }
    }
    match build_module_edit(info, indent, name) {
        Ok(Some(e)) => {
            let ghost before = views(edits@);
            edits.push(e);
            assert(views(edits@) =~= before.push(e@));
            Ok(edits)
        },
        Ok(None) => Ok(edits),
        Err(e) => Err(e),
    }
}

/// The file with the module registered, given the matches of the query.
pub fn add_module_at(
    raw: &str,
    module_name: &str,
    ms: &Vec<Vec<(String, usize, usize)>>,
) -> (r: Result<String, TargetError>)
    ensures
        match r {
            Ok(s) => registered(raw@, module_name@, Some(matches_view(ms@))) == Ok::<
                Seq<char>,
                TargetError,
            >(s@),
            Err(e) => registered(raw@, module_name@, Some(matches_view(ms@))) == Err::<
                Seq<char>,
                TargetError,
            >(e),
        },
{
    match validate_field(module_name) {
        Some(fault) => {
            return Err(TargetError::Name(fault));
        },
        None => {},
    }
    let source = chars_of(raw);
    let newline = detect_newline(source.as_slice());
    let ls = split_lines(source.as_slice());
    let info = collect_target_info(source.as_slice(), ms);
    let indent = match &info.constructor_indent {
        Some(s) => chars_of(s.as_str()),
        None => indent_unit_of(&ls),
    };
    match build_edits(&info, indent.as_slice(), module_name) {
        Ok(edits) => {
            if edits.len() == 0 {
                return Ok(owned(raw));
            }
            match apply_edits(ls, edits) {
                Ok(out) => Ok(join_lines(&out, newline)),
                Err(e) => Err(e),
            }
        },
        Err(e) => Err(e),
    }
}

/// The text of a `.Target.cs` file with the module registered: the
/// constructor calls the registration method, and that method names the
/// module. A file in which both stand already is left alone.
pub fn add_module(raw: &str, module_name: &str) -> (r: Result<String, TargetError>)
    ensures
        match r {
            Ok(s) => registered(raw@, module_name@, csharp_matches(TARGET_QUERY@, raw@)) == Ok::<
                Seq<char>,
                TargetError,
            >(s@),
            Err(e) => registered(raw@, module_name@, csharp_matches(TARGET_QUERY@, raw@)) == Err::<
                Seq<char>,
                TargetError,
            >(e),
        },
{
    match validate_field(module_name) {
        Some(fault) => {
            return Err(TargetError::Name(fault));
        },
        None => {},
    }
    match query_csharp(TARGET_QUERY, raw) {
        Some(ms) => add_module_at(raw, module_name, &ms),
        None => Err(TargetError::Parse),
    }
}

/// A module that is registered stays registered once: the file is left alone.
pub proof fn law_registered_once(raw: Seq<char>, name: Seq<char>, info: TargetView)
    requires
        info.constructor_has_register_call,
        listed(info, name),
    ensures
        registered_in(raw, name, info) == Ok::<Seq<char>, TargetError>(raw),
{
}

/// The list has an entry, and only at one place.
pub open spec fn once(ls: Seq<Seq<char>>, line: Seq<char>) -> bool {
    exists|i: int|
        0 <= i < ls.len() && (#[trigger] ls[i]) == line && forall|j: int|
            0 <= j < ls.len() && j != i ==> #[trigger] ls[j] != line
}

/// Where a list names no module of the name, the edit adds one line with the
/// literal by which the list is known to name it.
pub proof fn law_edit_names_module(info: TargetView, indent: Seq<char>, name: Seq<char>)
    requires
        !listed(info, name),
    ensures
        match module_edit(info, indent, name) {
            Ok(Some(e)) => once(e.lines, indent + indent + indent + literal_of(name)),
            Ok(None) => false,
            Err(_) => true,
        },
{
    reveal_strlit("\"");
    reveal_strlit("ExtraModuleNames.AddRange(new string[] {");
    reveal_strlit("});");
    reveal_strlit("()");
    reveal_strlit("{");
    reveal_strlit("}");
    let item = item_line(indent, name);
    assert(item.last() == '"');
    let list = list_lines(indent, name);
    assert(list[0].last() == '{');
    assert(list[2].last() == ';');
    let method = method_lines(indent, name);
    assert(method[0].len() == 0);
    assert(method[1].last() == ')');
    assert(method[2].last() == '{');
    assert(method[3] == list[0]);
    assert(method[4] == item);
    assert(method[5] == list[2]);
    assert(method[6].last() == '}');
    if let Ok(Some(e)) = module_edit(info, indent, name) {
        if info.register_method_found && info.add_range_found {
            assert(e.lines[0] == item);
        } else if info.register_method_found {
            assert(e.lines[1] == item);
        } else {
            assert(e.lines[4] == item);
        }
    }
}

/// Where the list names no module of the name, the lines that a call leaves behind
/// hold the line that names it.
pub proof fn law_call_names_module(raw: Seq<char>, name: Seq<char>, info: TargetView)
    requires
        !listed(info, name),
        registered_in(raw, name, info) is Ok,
    ensures
        exists|out: Seq<Seq<char>>|
            registered_in(raw, name, info) == Ok::<Seq<char>, TargetError>(
                #[trigger] joined(out, newline_of(raw)),
            ) && out.contains(item_line(target_indent(info, lines(raw)), name)),
{
    let ls = lines(raw);
    let indent = target_indent(info, ls);
    let item = item_line(indent, name);
    law_edit_names_module(info, indent, name);
    let es = target_edits(info, indent, name)->Ok_0;
    let e = module_edit(info, indent, name)->Ok_0->0;
    let order = bottom_up(es);
    assert(edited_from(ls, order, 0) is Ok);
    let out = edited_from(ls, order, 0)->Ok_0;
    let k = choose|k: int| 0 <= k < e.lines.len() && #[trigger] e.lines[k] == item;
    if info.constructor_has_register_call {
        assert(es =~= seq![e]);
        assert(es.drop_last() =~= Seq::<EditView>::empty());
        assert(bottom_up(es.drop_last()) =~= Seq::<EditView>::empty());
        assert(order =~= seq![e]);
        reveal_with_fuel(edited_from, 2);
        law_edit_keeps_lines(ls, e);
        assert(out.subrange(e.row + 1, e.row + 1 + e.lines.len())[k] == item);
        assert(out[e.row + 1 + k] == item);
    } else {
        let call = es[0];
        assert(es =~= seq![call, e]);
        assert(es.drop_last() =~= seq![call]);
        assert(es.drop_last().drop_last() =~= Seq::<EditView>::empty());
        reveal_with_fuel(bottom_up, 3);
        assert(bottom_up(seq![call]) =~= seq![call]);
        reveal_with_fuel(with_edit, 3);
        assert(seq![call].skip(1) =~= Seq::<EditView>::empty());
        assert(order =~= (if call.row <= e.row {
            seq![e, call]
        } else {
            seq![call, e]
        }));
        reveal_with_fuel(edited_from, 3);
        let half = edited(ls, order[0]);
        assert(out == edited(half, order[1]));
        if call.row <= e.row {
            law_edit_keeps_lines(ls, e);
            assert(half.subrange(e.row + 1, e.row + 1 + e.lines.len())[k] == item);
            let at = e.row + 1 + k;
            assert(half[at] == item);
            law_edit_keeps_lines(half, call);
            let more = call.row + 1 + call.lines.len();
            assert(out.skip(more)[at - call.row - 1] == half.skip(call.row + 1)[at - call.row - 1]);
            assert(out[at + call.lines.len()] == item);
        } else {
            law_edit_keeps_lines(half, e);
            assert(out.subrange(e.row + 1, e.row + 1 + e.lines.len())[k] == item);
            assert(out[e.row + 1 + k] == item);
        }
    }
}

// ---------------------------------------------------------------------------
// Two calls
// ---------------------------------------------------------------------------
/// A match of the file, in a class of targets, captured a node of the given text
/// under the given name.
pub open spec fn sees(
    source: Seq<char>,
    ms: Seq<Seq<(Seq<char>, int, int)>>,
    name: Seq<char>,
    text: Seq<char>,
) -> bool {
    exists|i: int|
        0 <= i < ms.len() && captured(
            #[trigger] captures_at(source, ms[i]),
            "class.base"@,
            "TargetRules"@,
        ) && captured(captures_at(source, ms[i]), name, text)
}

/// The matches of the file name the registration method, with a statement in it.
pub open spec fn sees_method(source: Seq<char>, ms: Seq<Seq<(Seq<char>, int, int)>>) -> bool {
    exists|i: int, statement: Seq<char>|
        0 <= i < ms.len() && captured(
            captures_at(source, ms[i]),
            "class.base"@,
            "TargetRules"@,
        ) && captured(captures_at(source, ms[i]), "register.method.name"@, REGISTER_METHOD@)
            && #[trigger] captured(
            captures_at(source, ms[i]),
            "register.method.statement"@,
            statement,
        )
}

/// The matches of the file name the literal of the module in the list of the
/// registration method.
pub open spec fn sees_literal(
    source: Seq<char>,
    ms: Seq<Seq<(Seq<char>, int, int)>>,
    name: Seq<char>,
) -> bool {
    exists|i: int|
        0 <= i < ms.len() && captured(
            #[trigger] captures_at(source, ms[i]),
            "class.base"@,
            "TargetRules"@,
        ) && of_list(captures_at(source, ms[i])) && captured(
            captures_at(source, ms[i]),
            "module.literal"@,
            literal_of(name),
        )
}

/// What is known once stays known: `b` knows of all that `a` does.
spec fn knows_more(a: TargetView, b: TargetView) -> bool {
    &&& a.constructor_has_register_call ==> b.constructor_has_register_call
    &&& a.register_method_found ==> b.register_method_found
    &&& a.add_range_found ==> b.add_range_found
    &&& forall|x: Seq<char>| a.module_literals.contains(x) ==> #[trigger] b.module_literals.contains(x)
}

/// The names of captures that matter here differ from one another.
proof fn lemma_names_differ()
    ensures
        "constructor.call"@ != "constructor.decl"@,
        "constructor.call"@ != "constructor.statement"@,
        "register.method.statement"@ != "constructor.decl"@,
        "register.method.statement"@ != "constructor.statement"@,
        "register.method.statement"@ != "constructor.call"@,
        "register.method.statement"@ != "target.member"@,
        "addrange.call"@ != "constructor.decl"@,
        "addrange.call"@ != "constructor.statement"@,
        "addrange.call"@ != "constructor.call"@,
        "addrange.call"@ != "target.member"@,
        "addrange.call"@ != "register.method.statement"@,
        "addrange.call"@ != "register.method.body"@,
        "module.literal"@ != "constructor.decl"@,
        "module.literal"@ != "constructor.statement"@,
        "module.literal"@ != "constructor.call"@,
        "module.literal"@ != "target.member"@,
        "module.literal"@ != "register.method.statement"@,
        "module.literal"@ != "register.method.body"@,
        "module.literal"@ != "addrange.call"@,
        "module.literal"@ != "initializer.expr"@,
{
    reveal_strlit("constructor.call");
    reveal_strlit("constructor.decl");
    reveal_strlit("constructor.statement");
    reveal_strlit("target.member");
    reveal_strlit("register.method.statement");
    reveal_strlit("register.method.body");
    reveal_strlit("addrange.call");
    reveal_strlit("module.literal");
    reveal_strlit("initializer.expr");
    assert("constructor.statement"@.len() == 21);
    assert("register.method.statement"@.len() == 25);
    assert("module.literal"@.len() == 14);
    assert("constructor.call"@[12] == 'c' && "constructor.decl"@[12] == 'd');
    assert("addrange.call"@[0] == 'a' && "target.member"@[0] == 't');
}

proof fn lemma_note(info: TargetView, m: Seq<CaptureView>, c: CaptureView)
    ensures
        knows_more(info, note(info, m, c)),
        c.name == "constructor.call"@ && c.text == REGISTER_METHOD@ ==> note(
            info,
            m,
            c,
        ).constructor_has_register_call,
        c.name == "register.method.statement"@ && captured(
            m,
            "register.method.name"@,
            REGISTER_METHOD@,
        ) ==> note(info, m, c).register_method_found,
        c.name == "addrange.call"@ && c.text == "ExtraModuleNames.AddRange"@ && of_list(m)
            ==> note(info, m, c).add_range_found,
        c.name == "module.literal"@ && of_list(m) ==> note(info, m, c).module_literals.contains(
            c.text,
        ),
{
    lemma_names_differ();
    let more = info.module_literals.push(c.text);
    assert(more.last() == c.text);
    assert forall|x: Seq<char>| info.module_literals.contains(x) implies #[trigger] more.contains(
        x,
    ) by {
        let k = choose|k: int| 0 <= k < info.module_literals.len() && info.module_literals[k] == x;
        assert(more[k] == x);
    }
}

proof fn lemma_note_captures(info: TargetView, m: Seq<CaptureView>, n: int, k: int)
    requires
        0 <= n <= m.len(),
        0 <= k <= n,
    ensures
        knows_more(info, note_captures(info, m, n)),
        k < n ==> knows_more(note(note_captures(info, m, k), m, m[k]), note_captures(info, m, n)),
    decreases n,
{
    if n > 0 {
        lemma_note_captures(
            info,
            m,
            n - 1,
            if k < n {
                k
            } else {
                n - 1
            },
        );
        lemma_note(note_captures(info, m, n - 1), m, m[n - 1]);
    }
}

/// What a capture of the match says is known behind the match.
proof fn lemma_note_match(info: TargetView, m: Seq<CaptureView>, k: int)
    requires
        0 <= k < m.len(),
        captured(m, "class.base"@, "TargetRules"@),
    ensures
        knows_more(
            note(note_captures(info, m, k), m, m[k]),
            note_match(info, m),
        ),
{
    lemma_note_captures(info, m, m.len() as int, k);
}

proof fn lemma_note_matches(
    source: Seq<char>,
    ms: Seq<Seq<(Seq<char>, int, int)>>,
    n: int,
    i: int,
)
    requires
        0 <= i < n <= ms.len(),
    ensures
        knows_more(
            note_match(note_matches(source, ms, i), captures_at(source, ms[i])),
            note_matches(source, ms, n),
        ),
    decreases n,
{
    if i < n - 1 {
        lemma_note_matches(source, ms, n - 1, i);
        let m = captures_at(source, ms[n - 1]);
        lemma_note_captures(note_matches(source, ms, n - 1), m, m.len() as int, 0);
    }
}

/// What a capture of one of the matches says is known behind all of them.
proof fn lemma_seen(
    source: Seq<char>,
    ms: Seq<Seq<(Seq<char>, int, int)>>,
    i: int,
    name: Seq<char>,
    text: Seq<char>,
) -> (at: (TargetView, int))
    requires
        0 <= i < ms.len(),
        captured(captures_at(source, ms[i]), "class.base"@, "TargetRules"@),
        captured(captures_at(source, ms[i]), name, text),
    ensures
        ({
            let m = captures_at(source, ms[i]);
            let c = m[at.1];
            &&& 0 <= at.1 < m.len()
            &&& c.name == name
            &&& c.text == text
            &&& knows_more(note(at.0, m, c), note_matches(source, ms, ms.len() as int))
        }),
{
    let m = captures_at(source, ms[i]);
    let k = choose|k: int| 0 <= k < m.len() && (#[trigger] m[k]).name == name && m[k].text == text;
    let info = note_matches(source, ms, i);
    lemma_note_match(info, m, k);
    lemma_note_matches(source, ms, ms.len() as int, i);
    (note_captures(info, m, k), k)
}

/// A file whose matches name the registration call and the literal of the module
/// is known to name the module.
pub proof fn law_seen_is_known(
    source: Seq<char>,
    ms: Seq<Seq<(Seq<char>, int, int)>>,
    name: Seq<char>,
)
    requires
        sees(source, ms, "constructor.call"@, REGISTER_METHOD@),
        sees_method(source, ms),
        sees_literal(source, ms, name),
    ensures
        note_matches(source, ms, ms.len() as int).constructor_has_register_call,
        listed(note_matches(source, ms, ms.len() as int), name),
{
    let i = choose|i: int|
        0 <= i < ms.len() && captured(
            #[trigger] captures_at(source, ms[i]),
            "class.base"@,
            "TargetRules"@,
        ) && captured(captures_at(source, ms[i]), "constructor.call"@, REGISTER_METHOD@);
    let m = captures_at(source, ms[i]);
    let (info, k) = lemma_seen(source, ms, i, "constructor.call"@, REGISTER_METHOD@);
    lemma_note(info, m, m[k]);
    let (j, statement) = choose|j: int, statement: Seq<char>|
        0 <= j < ms.len() && captured(
            captures_at(source, ms[j]),
            "class.base"@,
            "TargetRules"@,
        ) && captured(captures_at(source, ms[j]), "register.method.name"@, REGISTER_METHOD@)
            && #[trigger] captured(
            captures_at(source, ms[j]),
            "register.method.statement"@,
            statement,
        );
    let m = captures_at(source, ms[j]);
    let (info, k) = lemma_seen(source, ms, j, "register.method.statement"@, statement);
    lemma_note(info, m, m[k]);
    let l = choose|l: int|
        0 <= l < ms.len() && captured(
            #[trigger] captures_at(source, ms[l]),
            "class.base"@,
            "TargetRules"@,
        ) && of_list(captures_at(source, ms[l])) && captured(
            captures_at(source, ms[l]),
            "module.literal"@,
            literal_of(name),
        );
    let m = captures_at(source, ms[l]);
    let (info, k) = lemma_seen(source, ms, l, "module.literal"@, literal_of(name));
    lemma_note(info, m, m[k]);
    let (info, k) = lemma_seen(source, ms, l, "addrange.call"@, "ExtraModuleNames.AddRange"@);
    lemma_note(info, m, m[k]);
}

/// A second call adds nothing: where the matches of the file that the first call
/// leaves behind name the registration call and the literal of the module, the
/// second leaves that file as it is.
pub proof fn law_second_call_adds_nothing(
    raw: Seq<char>,
    name: Seq<char>,
    first: Seq<Seq<(Seq<char>, int, int)>>,
    text: Seq<char>,
    second: Seq<Seq<(Seq<char>, int, int)>>,
)
    requires
        registered(raw, name, Some(first)) == Ok::<Seq<char>, TargetError>(text),
        sees(text, second, "constructor.call"@, REGISTER_METHOD@),
        sees_method(text, second),
        sees_literal(text, second, name),
    ensures
        registered(text, name, Some(second)) == Ok::<Seq<char>, TargetError>(text),
{
    law_seen_is_known(text, second, name);
    law_registered_once(text, name, note_matches(text, second, second.len() as int));
}

/// After two calls the list names the module exactly once: where the first call
/// found a list without it, and the list of the file that it leaves behind has
/// the one literal more.
pub proof fn law_module_is_named_once(
    raw: Seq<char>,
    name: Seq<char>,
    first: Seq<Seq<(Seq<char>, int, int)>>,
    text: Seq<char>,
    second: Seq<Seq<(Seq<char>, int, int)>>,
)
    requires
        registered(raw, name, Some(first)) == Ok::<Seq<char>, TargetError>(text),
        sees(text, second, "constructor.call"@, REGISTER_METHOD@),
        sees_method(text, second),
        sees_literal(text, second, name),
        ({
            let before = note_matches(raw, first, first.len() as int).module_literals;
            let after = note_matches(text, second, second.len() as int).module_literals;
            &&& !before.contains(literal_of(name))
            &&& after.to_multiset() == before.to_multiset().insert(literal_of(name))
        }),
    ensures
        match registered(text, name, Some(second)) {
            Ok(again) => note_matches(
                again,
                second,
                second.len() as int,
            ).module_literals.to_multiset().count(literal_of(name)) == 1,
            Err(_) => false,
        },
{
    broadcast use vstd::seq_lib::group_to_multiset_ensures;

    law_second_call_adds_nothing(raw, name, first, text, second);
    let before = note_matches(raw, first, first.len() as int).module_literals;
    assert(before.to_multiset().count(literal_of(name)) == 0);
}

/// Where the grammar sees the registration call and the literal of the module in
/// the file that `add_module` leaves behind, `add_module` on that file changes
/// nothing.
pub proof fn law_add_module_twice(raw: Seq<char>, name: Seq<char>, text: Seq<char>)
    requires
        registered(raw, name, csharp_matches(TARGET_QUERY@, raw)) == Ok::<Seq<char>, TargetError>(
            text,
        ),
        match csharp_matches(TARGET_QUERY@, text) {
            Some(ms) => sees(text, ms, "constructor.call"@, REGISTER_METHOD@) && sees_method(
                text,
                ms,
            ) && sees_literal(text, ms, name),
            None => false,
        },
    ensures
        registered(text, name, csharp_matches(TARGET_QUERY@, text)) == Ok::<
            Seq<char>,
            TargetError,
        >(text),
{
    law_second_call_adds_nothing(
        raw,
        name,
        csharp_matches(TARGET_QUERY@, raw)->0,
        text,
        csharp_matches(TARGET_QUERY@, text)->0,
    );
}

} // verus!
