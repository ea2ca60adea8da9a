//! Diagnostics: reflection rules, missing definitions, build logs.

use vstd::prelude::*;
use vstd::slice::slice_subrange;

use crate::paths::lower_extension_of;
use crate::pattern::{find_captures, group_text, group_text_or};
use crate::syntax::SyntaxTree;
use crate::text::{has_char, byte_count, char_at_byte, chars_of, concat, ends_with_str, find_at, find_char_at, find_str,
    has, has_str, is_str, is_word_char, join_rows, leading_ws, owned, parse_u32, push_all, push_str,
    replace_char, replace_str, rfind_char, same, split_lines, split_words, starts_with_str, string_of, to_lower, to_vec,
    trimmed, trimmed_start};
#[allow(unused_imports)]
use crate::paths::lower_extension;
#[allow(unused_imports)]
use crate::syntax::{below_kind, child_field, class_name_node, descendant, name_node, NodeView};
#[allow(unused_imports)]
use crate::pattern::{captures_view, group, group_or, groups_view, regex_captures};
#[allow(unused_imports)]
use crate::text::{at_byte, byte_len, contains, ends, find, index_of, index_of_from, join, last_index_of, lines, lower,
    parse_decimal, replace_all, rows, starts, swap_char, trim, trim_start, views, word_char, words,
    ws, ws_prefix};
#[allow(unused_imports)]
use crate::spacing::{even, is_even, is_tight, lemma_even, lemma_even_add, lemma_even_is_even, lemma_even_solid,
    lemma_even_stays, lemma_tightened, lemma_tightened_add, lemma_tightened_blank, lemma_tightened_push,
    lemma_tightened_solid, lemma_tightened_stays, solid, tightened};

verus! {

/// How serious a diagnostic is.
#[derive(Debug, Clone, Copy, PartialEq, Eq, Structural)]
pub enum DiagnosticSeverity {
    Error,
    Warning,
    Information,
    Hint,
}

/// The name under which a severity is reported.
pub open spec fn severity_name(s: DiagnosticSeverity) -> Seq<char> {
    match s {
        DiagnosticSeverity::Error => "error"@,
        DiagnosticSeverity::Warning => "warning"@,
        DiagnosticSeverity::Information => "information"@,
        DiagnosticSeverity::Hint => "hint"@,
    }
}

impl DiagnosticSeverity {
    /// The name under which the severity is reported.
    pub fn as_str(self) -> (r: &'static str)
        ensures
            r@ == severity_name(self),
    {
        match self {
            DiagnosticSeverity::Error => "error",
            DiagnosticSeverity::Warning => "warning",
            DiagnosticSeverity::Information => "information",
            DiagnosticSeverity::Hint => "hint",
        }
    }
}

/// One finding in a file.
#[derive(Debug, Clone)]
pub struct DiagnosticItem {
    pub file_path: Option<String>,
    pub line: u32,
    pub character: u32,
    pub end_line: u32,
    pub end_character: u32,
    pub severity: DiagnosticSeverity,
    pub source: &'static str,
    pub code: &'static str,
    pub message: String,
}

/// What a diagnostic says.
pub struct DiagnosticView {
    pub file_path: Option<Seq<char>>,
    pub line: u32,
    pub character: u32,
    pub end_line: u32,
    pub end_character: u32,
    pub severity: DiagnosticSeverity,
    pub source: Seq<char>,
    pub code: Seq<char>,
    pub message: Seq<char>,
}

impl View for DiagnosticItem {
    type V = DiagnosticView;

    open spec fn view(&self) -> DiagnosticView {
        DiagnosticView {
            file_path: match self.file_path {
                Some(s) => Some(s@),
                None => None,
            },
            line: self.line,
            character: self.character,
            end_line: self.end_line,
            end_character: self.end_character,
            severity: self.severity,
            source: self.source@,
            code: self.code@,
            message: self.message@,
        }
    }
}

/// `n + 1`, or the greatest number.
pub open spec fn next_u32(n: u32) -> u32 {
    if n == u32::MAX {
        n
    } else {
        (n + 1) as u32
    }
}

/// The diagnostic at one character.
pub open spec fn item_at(
    path: Option<Seq<char>>,
    line: u32,
    character: u32,
    severity: DiagnosticSeverity,
    source: Seq<char>,
    code: Seq<char>,
    message: Seq<char>,
) -> DiagnosticView {
    DiagnosticView {
        file_path: match path {
            Some(p) => Some(swap_char(p, '\\', '/')),
            None => None,
        },
        line,
        character,
        end_line: line,
        end_character: next_u32(character),
        severity,
        source,
        code,
        message,
    }
}

/// The diagnostic with another end, which is never before its start.
pub open spec fn ending(d: DiagnosticView, end_line: u32, end_character: u32) -> DiagnosticView {
    DiagnosticView {
        end_line,
        end_character: if end_character > next_u32(d.character) {
            end_character
        } else {
            next_u32(d.character)
        },
        ..d
    }
}

impl DiagnosticItem {
    /// The diagnostic at one character.
    pub fn new(
        file_path: Option<&str>,
        line: u32,
        character: u32,
        severity: DiagnosticSeverity,
        source: &'static str,
        code: &'static str,
        message: String,
    ) -> (r: Self)
        ensures
            r@ == item_at(
                crate::text::opt_str(file_path),
                line,
                character,
                severity,
                source@,
                code@,
                message@,
            ),
    {
        let path = match file_path {
            Some(p) => {
                let v = chars_of(p);
                let w = replace_char(v.as_slice(), '\\', '/');
                Some(string_of(w.as_slice()))
            },
            None => None,
        };
        DiagnosticItem {
            file_path: path,
            line,
            character,
            end_line: line,
            end_character: character.saturating_add(1),
            severity,
            source,
            code,
            message,
        }
    }

    /// The diagnostic with another end, which is never before its start.
    pub fn with_end(self, end_line: u32, end_character: u32) -> (r: Self)
        ensures
            r@ == ending(self@, end_line, end_character),
    {
        let least: u32 = self.character.saturating_add(1);
        let mut r = self;
        r.end_line = end_line;
        r.end_character = if end_character > least {
            end_character
        } else {
            least
        };
        r
    }
}

// ---------------------------------------------------------------------------
// Reflection rules
// ---------------------------------------------------------------------------
/// The line opens a reflected type.
pub open spec fn type_macro(s: Seq<char>) -> bool {
    ||| starts(s, "UCLASS("@)
    ||| starts(s, "USTRUCT("@)
    ||| starts(s, "UENUM("@)
    ||| s == "UCLASS"@
    ||| s == "USTRUCT"@
    ||| s == "UENUM"@
}

/// Whether the line opens a reflected type.
fn starts_unreal_type_macro(s: &[char]) -> (r: bool)
    ensures
        r == type_macro(s@),
{
    starts_with_str(s, "UCLASS(") || starts_with_str(s, "USTRUCT(") || starts_with_str(s, "UENUM(")
        || is_str(s, "UCLASS") || is_str(s, "USTRUCT") || is_str(s, "UENUM")
}

/// The declaration is of the kind that the macro announces.
pub open spec fn macro_fits(macro_line: Seq<char>, declaration: Seq<char>) -> bool {
    if starts(macro_line, "UCLASS"@) {
        contains(declaration, "class "@)
    } else if starts(macro_line, "USTRUCT"@) {
        contains(declaration, "struct "@)
    } else if starts(macro_line, "UENUM"@) {
        contains(declaration, "enum "@)
    } else {
        true
    }
}

/// Whether the declaration is of the kind that the macro announces.
fn macro_matches_declaration(macro_line: &[char], declaration: &[char]) -> (r: bool)
    ensures
        r == macro_fits(macro_line@, declaration@),
{
    if starts_with_str(macro_line, "UCLASS") {
        has_str(declaration, "class ")
    } else if starts_with_str(macro_line, "USTRUCT") {
        has_str(declaration, "struct ")
    } else if starts_with_str(macro_line, "UENUM") {
        has_str(declaration, "enum ")
    } else {
        true
    }
}

/// The number of opening less that of closing round brackets.
pub open spec fn paren_balance(s: Seq<char>) -> int
    decreases s.len(),
{
    if s.len() == 0 {
        0
    } else {
        paren_balance(s.drop_last()) + (if s.last() == '(' {
            1int
        } else if s.last() == ')' {
            -1int
        } else {
            0int
        })
    }
}

/// The text with a line added to it, a blank between.
pub open spec fn add_line(text: Seq<char>, line: Seq<char>) -> Seq<char> {
    if text.len() > 0 {
        text.push(' ') + trim(line)
    } else {
        trim(line)
    }
}

/// The macro call that the lines from `i` on continue, and the line on which
/// its brackets close. Lines from `end` on are not looked at; where the call
/// does not close before, the line is `start`.
pub open spec fn macro_call_from(
    ls: Seq<Seq<char>>,
    start: int,
    i: int,
    end: int,
    text: Seq<char>,
    depth: int,
) -> (Seq<char>, int)
    decreases end - i,
{
    if i >= end {
        (text, start)
    } else {
        let text2 = add_line(text, ls[i]);
        let depth2 = depth + paren_balance(ls[i]);
        if depth2 <= 0 && text2.contains('(') {
            (text2, i)
        } else {
            macro_call_from(ls, start, i + 1, end, text2, depth2)
        }
    }
}

/// The lesser of two numbers.
pub open spec fn min(a: int, b: int) -> int {
    if a < b {
        a
    } else {
        b
    }
}

/// The macro call that begins on line `start`, joined from at most eight lines,
/// and the line on which its brackets close.
pub open spec fn macro_call(ls: Seq<Seq<char>>, start: int) -> (Seq<char>, int) {
    macro_call_from(ls, start, start, min(start + 8, ls.len() as int), seq![], 0)
}

/// The position `count` after `start`, within `len`.
fn window_end(start: usize, count: usize, len: usize) -> (r: usize)
    requires
        start <= len,
    ensures
        r == min(start + count, len as int),
{
    if len - start < count {
        len
    } else {
        start + count
    }
}

/// The number of opening less that of closing round brackets.
fn balance_of(s: &[char]) -> (r: i128)
    ensures
        r == paren_balance(s@),
        -0x1_0000_0000_0000_0000 < r < 0x1_0000_0000_0000_0000,
{
    let mut r: i128 = 0;
    let mut i: usize = 0;
    while i < s.len()
        invariant
            i <= s.len(),
            r == paren_balance(s@.take(i as int)),
            -(i as int) <= r <= i,
        decreases s.len() - i,
    {
        assert(s@.take(i + 1).drop_last() =~= s@.take(i as int));
        if s[i] == '(' {
            r = r + 1;
        } else if s[i] == ')' {
            r = r - 1;
        }
        i = i + 1;
    }
    assert(s@.take(i as int) =~= s@);
    r
}

/// The macro call that begins on line `start`, and the line on which its
/// brackets close.
fn macro_invocation_text(ls: &Vec<Vec<char>>, start: usize) -> (r: (Vec<char>, usize))
    requires
        start < ls@.len(),
    ensures
        (r.0@, r.1 as int) == macro_call(rows(ls@), start as int),
        start <= r.1 < ls@.len(),
{
    let mut text: Vec<char> = Vec::new();
    let mut depth: i128 = 0;
    let end: usize = window_end(start, 8, ls.len());
    let mut i: usize = start;
    let ghost all = rows(ls@);
    assert(text@ =~= Seq::<char>::empty());
    while i < end
        invariant
            start <= i <= end,
            end <= ls@.len(),
            end <= start + 8,
            start < ls@.len(),
            all == rows(ls@),
            -((i - start) * 0x1_0000_0000_0000_0000) <= depth <= (i - start)
                * 0x1_0000_0000_0000_0000,
            macro_call(all, start as int) == macro_call_from(
                all,
                start as int,
                i as int,
                end as int,
                text@,
                depth as int,
            ),
        decreases end - i,
    {
        let ghost before = text@;
        if text.len() > 0 {
            text.push(' ');
        }
        push_all(&mut text, trimmed(ls[i].as_slice()));
        assert(text@ =~= add_line(before, all[i as int]));
        let b: i128 = balance_of(ls[i].as_slice());
        depth = depth + b;
        if depth <= 0 && has_char(text.as_slice(), '(') {
            return (text, i);
        }
        i = i + 1;
    }
    (text, start)
}

/// The line holds text other than a comment.
pub open spec fn meaningful(line: Seq<char>) -> bool {
    trim(line).len() > 0 && !starts(trim(line), "//"@)
}

/// The first line at or after `from` that holds text other than a comment.
pub open spec fn meaningful_from(ls: Seq<Seq<char>>, from: int) -> Option<int>
    decreases ls.len() - from,
{
    if from < 0 || from >= ls.len() {
        None
    } else if meaningful(ls[from]) {
        Some(from)
    } else {
        meaningful_from(ls, from + 1)
    }
}

/// The first line at or after `start` that holds text other than a comment.
fn next_meaningful_line(ls: &Vec<Vec<char>>, start: usize) -> (r: Option<usize>)
    ensures
        match r {
            Some(i) => meaningful_from(rows(ls@), start as int) == Some(i as int) && start <= i
                < ls@.len(),
            None => meaningful_from(rows(ls@), start as int) is None,
        },
{
    let mut i: usize = start;
    while i < ls.len()
        invariant
            start <= i,
            meaningful_from(rows(ls@), start as int) == meaningful_from(rows(ls@), i as int),
        decreases ls.len() - i,
    {
        let t = trimmed(ls[i].as_slice());
        if t.len() > 0 && !starts_with_str(t, "//") {
            return Some(i);
        }
        i = i + 1;
    }
    None
}

/// One of the twenty lines from `at` on holds the body macro.
pub open spec fn body_macro_near(ls: Seq<Seq<char>>, at: int) -> bool {
    exists|i: int|
        at <= i < min(at + 20, ls.len() as int) && (contains(#[trigger] ls[i], "GENERATED_BODY"@)
            || contains(ls[i], "GENERATED_UCLASS_BODY"@))
}

/// Whether one of the twenty lines from `at` on holds the body macro.
fn declaration_block_has_generated_body(ls: &Vec<Vec<char>>, at: usize) -> (r: bool)
    requires
        at <= ls@.len(),
    ensures
        r == body_macro_near(rows(ls@), at as int),
{
    let end: usize = window_end(at, 20, ls.len());
    let mut i: usize = at;
    while i < end
        invariant
            at <= i <= end,
            end <= ls@.len(),
            end == min(at + 20, ls@.len() as int),
            forall|j: int|
                at <= j < i ==> !contains(#[trigger] rows(ls@)[j], "GENERATED_BODY"@) && !contains(
                    rows(ls@)[j],
                    "GENERATED_UCLASS_BODY"@,
                ),
        decreases end - i,
    {
        let line = ls[i].as_slice();
        assert(rows(ls@)[i as int] == line@);
        if has_str(line, "GENERATED_BODY") || has_str(line, "GENERATED_UCLASS_BODY") {
            return true;
        }
        i = i + 1;
    }
    false
}

/// The access section that a line opens.
pub open spec fn access_label(line: Seq<char>) -> Option<Seq<char>> {
    if trim(line) == "public:"@ {
        Some("public"@)
    } else if trim(line) == "protected:"@ {
        Some("protected"@)
    } else if trim(line) == "private:"@ {
        Some("private"@)
    } else {
        None
    }
}

/// The access section that the lines above `end`, down to `stop`, leave open.
pub open spec fn access_above(ls: Seq<Seq<char>>, end: int, stop: int) -> Seq<char>
    decreases end - stop,
{
    if end <= stop || end <= 0 {
        "private"@
    } else {
        match access_label(ls[end - 1]) {
            Some(label) => label,
            None => access_above(ls, end - 1, stop),
        }
    }
}

/// The access section that holds on a line: the label nearest above it, of the
/// eighty lines before it, else private.
pub open spec fn access_section(ls: Seq<Seq<char>>, line: int) -> Seq<char> {
    access_above(ls, line, line - 80)
}

/// The access section that holds on a line.
fn nearest_access_section(ls: &Vec<Vec<char>>, line: usize) -> (r: &'static str)
    requires
        line <= ls@.len(),
    ensures
        r@ == access_section(rows(ls@), line as int),
{
    let mut i: usize = line;
    let ghost all = rows(ls@);
    while i > 0 && line - i < 80
        invariant
            i <= line <= ls@.len(),
            all == rows(ls@),
            access_section(all, line as int) == access_above(all, i as int, line - 80),
        decreases i,
    {
        let t = trimmed(ls[i - 1].as_slice());
        assert(t@ == trim(all[i - 1]));
        if is_str(t, "public:") {
            return "public";
        }
        if is_str(t, "protected:") {
            return "protected";
        }
        if is_str(t, "private:") {
            return "private";
        }
        i = i - 1;
    }
    "private"
}

/// The number of bytes of white space at the start of a line.
pub open spec fn indent_bytes(line: Seq<char>) -> nat {
    byte_len(line.take(ws_prefix(line) as int))
}

/// The number of bytes of white space at the start of a line.
fn leading_spaces(line: &[char]) -> (r: u128)
    ensures
        r == indent_bytes(line@),
{
    let n: usize = leading_ws(line);
    assert(line@.subrange(0, n as int) =~= line@.take(n as int));
    byte_count(slice_subrange(line, 0, n))
}

/// A finding that spans one line from its first text to its end.
pub open spec fn line_item(
    ls: Seq<Seq<char>>,
    i: int,
    path: Option<Seq<char>>,
    severity: DiagnosticSeverity,
    code: Seq<char>,
    message: Seq<char>,
) -> DiagnosticView {
    ending(
        item_at(
            path,
            i as u32,
            indent_bytes(ls[i]) as u32,
            severity,
            "UCore"@,
            code,
            message,
        ),
        i as u32,
        byte_len(ls[i]) as u32,
    )
}

/// A finding that spans one line from its first text to its end.
fn line_diagnostic(
    ls: &Vec<Vec<char>>,
    i: usize,
    path: Option<&str>,
    severity: DiagnosticSeverity,
    code: &'static str,
    message: &str,
) -> (r: DiagnosticItem)
    requires
        i < ls@.len(),
    ensures
        r@ == line_item(
            rows(ls@),
            i as int,
            crate::text::opt_str(path),
            severity,
            code@,
            message@,
        ),
{
    let line = ls[i].as_slice();
    assert(rows(ls@)[i as int] == line@);
    let from: u32 = #[verifier::truncate]
    (leading_spaces(line) as u32);
    let to: u32 = #[verifier::truncate]
    (byte_count(line) as u32);
    let row: u32 = #[verifier::truncate]
    (i as u32);
    DiagnosticItem::new(path, row, from, severity, "UCore", code, owned(message)).with_end(row, to)
}

/// What is wrong with the reflected type that line `i` opens.
pub open spec fn type_findings(ls: Seq<Seq<char>>, i: int, path: Option<Seq<char>>) -> Seq<
    DiagnosticView,
> {
    let head = trim_start(ls[i]);
    let call = macro_call(ls, i);
    if !type_macro(head) {
        seq![]
    } else {
        match meaningful_from(ls, call.1 + 1) {
            None => seq![],
            Some(next) => {
                let wrong_kind = if !macro_fits(head, trim_start(ls[next])) {
                    seq![
                        line_item(
                            ls,
                            i,
                            path,
                            DiagnosticSeverity::Error,
                            "UHT001"@,
                            "Unreal reflection macro does not match the following declaration."@,
                        ),
                    ]
                } else {
                    seq![]
                };
                let no_body = if !starts(call.0, "UENUM"@) && !body_macro_near(ls, next) {
                    seq![
                        line_item(
                            ls,
                            next,
                            path,
                            DiagnosticSeverity::Error,
                            "UHT002"@,
                            "Reflected type is missing GENERATED_BODY()."@,
                        ),
                    ]
                } else {
                    seq![]
                };
                wrong_kind + no_body
            },
        }
    }
}

/// What is wrong with the reflected function that line `i` announces.
pub open spec fn function_findings(ls: Seq<Seq<char>>, i: int, path: Option<Seq<char>>) -> Seq<
    DiagnosticView,
> {
    let call = macro_call(ls, i).0;
    if starts(trim_start(ls[i]), "UFUNCTION("@) && contains(call, "BlueprintCallable"@)
        && !contains(call, "Category"@) {
        seq![
            line_item(
                ls,
                i,
                path,
                DiagnosticSeverity::Hint,
                "UEBP001"@,
                "BlueprintCallable functions should declare a Category."@,
            ),
        ]
    } else {
        seq![]
    }
}

/// What is wrong with the reflected property that line `i` announces.
pub open spec fn property_findings(ls: Seq<Seq<char>>, i: int, path: Option<Seq<char>>) -> Seq<
    DiagnosticView,
> {
    let call = macro_call(ls, i).0;
    if starts(trim_start(ls[i]), "UPROPERTY("@) && contains(call, "BlueprintReadWrite"@)
        && !contains(call, "AllowPrivateAccess"@) && access_section(ls, i) == "private"@ {
        seq![
            line_item(
                ls,
                i,
                path,
                DiagnosticSeverity::Warning,
                "UEBP002"@,
                "Private BlueprintReadWrite property should use meta=(AllowPrivateAccess=true)."@,
            ),
        ]
    } else {
        seq![]
    }
}

/// What breaks a reflection rule on line `i`.
pub open spec fn line_findings(ls: Seq<Seq<char>>, i: int, path: Option<Seq<char>>) -> Seq<
    DiagnosticView,
> {
    type_findings(ls, i, path) + function_findings(ls, i, path) + property_findings(ls, i, path)
}

/// What breaks a reflection rule on the first `n` lines, in the order of the
/// lines.
pub open spec fn rule_findings(ls: Seq<Seq<char>>, n: int, path: Option<Seq<char>>) -> Seq<
    DiagnosticView,
>
    decreases n,
{
    if n <= 0 {
        seq![]
    } else {
        rule_findings(ls, n - 1, path) + line_findings(ls, n - 1, path)
    }
}

/// What breaks a reflection rule on line `i`.
fn line_diagnostics(
    ls: &Vec<Vec<char>>,
    i: usize,
    path: Option<&str>,
    items: &mut Vec<DiagnosticItem>,
)
    requires
        i < ls@.len(),
    ensures
        views(final(items)@) == views(old(items)@) + line_findings(
            rows(ls@),
            i as int,
            crate::text::opt_str(path),
        ),
{
    let ghost all = rows(ls@);
    let ghost p = crate::text::opt_str(path);
    let ghost v0 = views(items@);
    assert(all[i as int] == ls@[i as int]@);
    let head = trimmed_start(ls[i].as_slice());
    let (call, call_end) = macro_invocation_text(ls, i);
    if starts_unreal_type_macro(head) {
        assert(call_end < ls.len());
        match next_meaningful_line(ls, call_end + 1) {
            Some(next) => {
                assert(all[next as int] == ls@[next as int]@);
                if !macro_matches_declaration(head, trimmed_start(ls[next].as_slice())) {
                    items.push(
                        line_diagnostic(
                            ls,
                            i,
                            path,
                            DiagnosticSeverity::Error,
                            "UHT001",
                            "Unreal reflection macro does not match the following declaration.",
                        ),
                    );
                }
                if !starts_with_str(call.as_slice(), "UENUM")
                    && !declaration_block_has_generated_body(ls, next) {
                    items.push(
                        line_diagnostic(
                            ls,
                            next,
                            path,
                            DiagnosticSeverity::Error,
                            "UHT002",
                            "Reflected type is missing GENERATED_BODY().",
                        ),
                    );
                }
            },
            None => {},
        }
    }
    let ghost v1 = views(items@);
    assert(v1 =~= v0 + type_findings(all, i as int, p));
    if starts_with_str(head, "UFUNCTION(") {
        if has_str(call.as_slice(), "BlueprintCallable") && !has_str(call.as_slice(), "Category") {
            items.push(
                line_diagnostic(
                    ls,
                    i,
                    path,
                    DiagnosticSeverity::Hint,
                    "UEBP001",
                    "BlueprintCallable functions should declare a Category.",
                ),
            );
        }
    }
    let ghost v2 = views(items@);
    assert(v2 =~= v1 + function_findings(all, i as int, p));
    if starts_with_str(head, "UPROPERTY(") {
        if has_str(call.as_slice(), "BlueprintReadWrite") && !has_str(
            call.as_slice(),
            "AllowPrivateAccess",
        ) && is_private(nearest_access_section(ls, i)) {
            items.push(
                line_diagnostic(
                    ls,
                    i,
                    path,
                    DiagnosticSeverity::Warning,
                    "UEBP002",
                    "Private BlueprintReadWrite property should use meta=(AllowPrivateAccess=true).",
                ),
            );
        }
    }
    assert(views(items@) =~= v2 + property_findings(all, i as int, p));
    assert(views(items@) =~= v0 + line_findings(all, i as int, p));
}

/// Whether an access section is the private one.
fn is_private(section: &str) -> (r: bool)
    ensures
        r == (section@ == "private"@),
{
    crate::text::str_eq(section, "private")
}

/// What breaks a reflection rule in a file.
pub fn unreal_rule_diagnostics(content: &str, file_path: Option<&str>) -> (r: Vec<DiagnosticItem>)
    ensures
        views(r@) == rule_findings(
            lines(content@),
            lines(content@).len() as int,
            crate::text::opt_str(file_path),
        ),
{
    let text = chars_of(content);
    let ls = split_lines(text.as_slice());
    let mut items: Vec<DiagnosticItem> = Vec::new();
    let mut i: usize = 0;
    assert(views(items@) =~= Seq::<DiagnosticView>::empty());
    while i < ls.len()
        invariant
            i <= ls@.len(),
            rows(ls@) == lines(content@),
            views(items@) == rule_findings(
                lines(content@),
                i as int,
                crate::text::opt_str(file_path),
            ),
        decreases ls.len() - i,
    {
        line_diagnostics(&ls, i, file_path, &mut items);
        i = i + 1;
    }
    items
}

// ---------------------------------------------------------------------------
// Signatures
// ---------------------------------------------------------------------------
/// The words of the text with one blank between each two.
pub open spec fn spaced(s: Seq<char>) -> Seq<char> {
    join(words(s), " "@)
}

/// The words of the text with one blank between each two.
pub fn normalize_space(text: &str) -> (r: String)
    ensures
        r@ == spaced(text@),
{
    let v = chars_of(text);
    let out = space_words(v.as_slice());
    string_of(out.as_slice())
}

/// The words of the text with one blank between each two.
fn space_words(s: &[char]) -> (out: Vec<char>)
    ensures
        out@ == spaced(s@),
{
    let ws = split_words(s);
    join_rows(&ws, " ")
}

/// Where a reader of a parameter list stands: the depths of the four kinds of
/// brackets, whether a default argument is being skipped, and what was kept.
pub struct SignatureState {
    pub paren: int,
    pub angle: int,
    pub brace: int,
    pub bracket: int,
    pub skipping: bool,
    pub kept: Seq<char>,
}

/// `n - 1`, but not below zero.
pub open spec fn down(n: int) -> int {
    if n <= 1 {
        0
    } else {
        n - 1
    }
}

impl SignatureState {
    /// No bracket of the inner kinds is open.
    pub open spec fn plain(self) -> bool {
        self.angle == 0 && self.brace == 0 && self.bracket == 0
    }

    /// The depths after one more character.
    pub open spec fn counted(self, c: char) -> SignatureState {
        if c == '(' {
            SignatureState { paren: self.paren + 1, ..self }
        } else if c == ')' {
            SignatureState { paren: self.paren - 1, ..self }
        } else if c == '<' {
            SignatureState { angle: self.angle + 1, ..self }
        } else if c == '>' {
            SignatureState { angle: down(self.angle), ..self }
        } else if c == '{' {
            SignatureState { brace: self.brace + 1, ..self }
        } else if c == '}' {
            SignatureState { brace: down(self.brace), ..self }
        } else if c == '[' {
            SignatureState { bracket: self.bracket + 1, ..self }
        } else if c == ']' {
            SignatureState { bracket: down(self.bracket), ..self }
        } else {
            self
        }
    }

    /// The state after one more character. A default argument begins at `=` in
    /// the list and outside of inner brackets; it ends before the comma or the
    /// bracket that ends its parameter.
    pub open spec fn step(self, c: char) -> SignatureState {
        let next = self.counted(c);
        if self.skipping {
            if (c == ')' || c == ',') && self.paren == 1 && self.plain() {
                SignatureState { skipping: false, kept: self.kept.push(c), ..next }
            } else {
                next
            }
        } else if c == '=' && self.paren >= 1 && self.plain() {
            SignatureState { skipping: true, ..self }
        } else {
            SignatureState { kept: self.kept.push(c), ..next }
        }
    }

    /// The state after the characters from `i` on.
    pub open spec fn run(self, s: Seq<char>, i: int) -> SignatureState
        decreases s.len() - i,
    {
        if i < 0 || i >= s.len() {
            self
        } else {
            self.step(s[i]).run(s, i + 1)
        }
    }
}

/// The state before a parameter list.
pub open spec fn signature_start() -> SignatureState {
    SignatureState { paren: 0, angle: 0, brace: 0, bracket: 0, skipping: false, kept: seq![] }
}

/// The parameter list without its default arguments.
pub open spec fn without_defaults(s: Seq<char>) -> Seq<char> {
    signature_start().run(s, 0).kept
}

/// The parameter list without default arguments, evenly spaced.
pub open spec fn signature(s: Seq<char>) -> Seq<char> {
    replace_all(replace_all(spaced(without_defaults(s)), " )"@, ")"@), " ,"@, ","@)
}

/// The parameter list without its default arguments.
fn strip_defaults(s: &[char]) -> (out: Vec<char>)
    ensures
        out@ == without_defaults(s@),
{
    let mut out: Vec<char> = Vec::new();
    let mut paren: i128 = 0;
    let mut angle: i128 = 0;
    let mut brace: i128 = 0;
    let mut bracket: i128 = 0;
    let mut skipping: bool = false;
    let mut i: usize = 0;
    assert(out@ =~= Seq::<char>::empty());
    while i < s.len()
        invariant
            i <= s.len(),
            -(i as int) <= paren <= i,
            0 <= angle <= i,
            0 <= brace <= i,
            0 <= bracket <= i,
            signature_start().run(s@, 0) == (SignatureState {
                paren: paren as int,
                angle: angle as int,
                brace: brace as int,
                bracket: bracket as int,
                skipping,
                kept: out@,
            }).run(s@, i as int),
        decreases s.len() - i,
    {
        let c = s[i];
        let plain = angle == 0 && brace == 0 && bracket == 0;
        let closes = (c == ')' || c == ',') && paren == 1 && plain;
        let opens = !skipping && c == '=' && paren >= 1 && plain;
        if c == '(' {
            paren = paren + 1;
        } else if c == ')' {
            paren = paren - 1;
        } else if c == '<' {
            angle = angle + 1;
        } else if c == '>' {
            angle = if angle <= 1 { 0 } else { angle - 1 };
        } else if c == '{' {
            brace = brace + 1;
        } else if c == '}' {
            brace = if brace <= 1 { 0 } else { brace - 1 };
        } else if c == '[' {
            bracket = bracket + 1;
        } else if c == ']' {
            bracket = if bracket <= 1 { 0 } else { bracket - 1 };
        }
        if opens {
            skipping = true;
        } else if !skipping {
            out.push(c);
        } else if closes {
            skipping = false;
            out.push(c);
        }
        i = i + 1;
    }
    out
}

/// The parameter list without default arguments, evenly spaced.
pub fn normalize_parameter_signature(params: &str) -> (r: String)
    ensures
        r@ == signature(params@),
{
    proof {
        reveal_strlit(" )");
        reveal_strlit(" ,");
    }
    let v = chars_of(params);
    let kept = strip_defaults(v.as_slice());
    let out = space_words(kept.as_slice());
    let out = replace_str(out.as_slice(), " )", ")");
    let out = replace_str(out.as_slice(), " ,", ",");
    string_of(out.as_slice())
}

/// A parameter list without `=` has no default argument to lose.
pub proof fn law_signature_without_default(s: Seq<char>)
    requires
        !s.contains('='),
    ensures
        without_defaults(s) == s,
{
    lemma_run_keeps(signature_start(), s, 0);
    assert(s.subrange(0, s.len() as int) =~= s);
    assert(Seq::<char>::empty() + s =~= s);
}

proof fn lemma_run_keeps(st: SignatureState, s: Seq<char>, i: int)
    requires
        !s.contains('='),
        !st.skipping,
        0 <= i <= s.len(),
    ensures
        st.run(s, i).kept == st.kept + s.subrange(i, s.len() as int),
    decreases s.len() - i,
{
    if i < s.len() {
        assert(s.contains(s[i]));
        lemma_run_keeps(st.step(s[i]), s, i + 1);
        assert(st.kept.push(s[i]) + s.subrange(i + 1, s.len() as int) =~= st.kept + s.subrange(
            i,
            s.len() as int,
        ));
    } else {
        assert(st.kept + s.subrange(i, s.len() as int) =~= st.kept);
    }
}

proof fn lemma_run_push(st: SignatureState, s: Seq<char>, c: char, i: int)
    requires
        0 <= i <= s.len(),
    ensures
        st.run(s.push(c), i) == st.run(s, i).step(c),
    decreases s.len() - i,
{
    let t = s.push(c);
    if i < s.len() {
        assert(t[i] == s[i]);
        lemma_run_push(st.step(s[i]), s, c, i + 1);
    } else {
        assert(t[i] == c);
        assert(st.step(c).run(t, i + 1) == st.step(c));
    }
}

proof fn lemma_run_add(st: SignatureState, a: Seq<char>, b: Seq<char>)
    ensures
        st.run(a + b, 0) == st.run(a, 0).run(b, 0),
    decreases b.len(),
{
    if b.len() == 0 {
        assert(a + b =~= a);
    } else {
        let d = b.drop_last();
        assert(d.push(b.last()) =~= b);
        assert((a + d).push(b.last()) =~= a + b);
        lemma_run_add(st, a, d);
        lemma_run_push(st, a + d, b.last(), 0);
        lemma_run_push(st.run(a, 0), d, b.last(), 0);
    }
}

/// The depths behind the text, from none on.
pub open spec fn depths(s: Seq<char>) -> SignatureState
    decreases s.len(),
{
    if s.len() == 0 {
        signature_start()
    } else {
        depths(s.drop_last()).counted(s.last())
    }
}

/// No default argument begins in the text.
pub open spec fn settled(s: Seq<char>) -> bool
    decreases s.len(),
{
    s.len() > 0 ==> {
        let st = depths(s.drop_last());
        settled(s.drop_last()) && !(s.last() == '=' && st.paren >= 1 && st.plain())
    }
}

/// Each default argument of the text begins in the outermost list.
pub open spec fn defaults_in_list(s: Seq<char>) -> bool
    decreases s.len(),
{
    s.len() > 0 ==> {
        let st = signature_start().run(s.drop_last(), 0);
        defaults_in_list(s.drop_last()) && (s.last() == '=' && !st.skipping && st.plain()
            ==> st.paren <= 1)
    }
}

proof fn lemma_depths(s: Seq<char>)
    ensures
        !depths(s).skipping,
        depths(s).kept == Seq::<char>::empty(),
    decreases s.len(),
{
    if s.len() > 0 {
        lemma_depths(s.drop_last());
    }
}

proof fn lemma_settled_run(s: Seq<char>)
    requires
        settled(s),
    ensures
        signature_start().run(s, 0) == (SignatureState { kept: s, ..depths(s) }),
    decreases s.len(),
{
    lemma_depths(s);
    if s.len() == 0 {
        assert(s =~= Seq::<char>::empty());
    } else {
        let d = s.drop_last();
        assert(d.push(s.last()) =~= s);
        lemma_depths(d);
        lemma_settled_run(d);
        lemma_run_push(signature_start(), d, s.last(), 0);
    }
}

proof fn lemma_settled_solid(s: Seq<char>)
    ensures
        depths(solid(s)) == depths(s),
        settled(solid(s)) == settled(s),
    decreases s.len(),
{
    if s.len() > 0 {
        let d = s.drop_last();
        lemma_settled_solid(d);
        if !ws(s.last()) {
            assert(solid(s).drop_last() =~= solid(d));
        }
    }
}

/// Where each default argument begins in the outermost list, none is left when the
/// default arguments are left out.
pub proof fn law_defaults_go_at_once(s: Seq<char>)
    requires
        defaults_in_list(s),
    ensures
        settled(without_defaults(s)),
{
    lemma_defaults_go(s);
}

proof fn lemma_defaults_go(s: Seq<char>)
    requires
        defaults_in_list(s),
    ensures
        ({
            let st = signature_start().run(s, 0);
            let left = depths(st.kept);
            &&& settled(st.kept)
            &&& st.skipping ==> left.paren == 1 && left.plain()
            &&& !st.skipping ==> st == (SignatureState { kept: st.kept, ..left })
        }),
    decreases s.len(),
{
    if s.len() == 0 {
        assert(signature_start().kept =~= Seq::<char>::empty());
    } else {
        let d = s.drop_last();
        let c = s.last();
        assert(d.push(c) =~= s);
        lemma_defaults_go(d);
        lemma_run_push(signature_start(), d, c, 0);
        let st = signature_start().run(d, 0);
        lemma_depths(st.kept);
        assert(st.kept.push(c).drop_last() =~= st.kept);
    }
}

proof fn lemma_signature(s: Seq<char>)
    ensures
        signature(s) == tightened(tightened(even(without_defaults(s)), ')'), ','),
{
    reveal_strlit(" )");
    reveal_strlit(")");
    reveal_strlit(" ,");
    reveal_strlit(",");
    assert(" )"@ =~= seq![' ', ')']);
    assert(")"@ =~= seq![')']);
    assert(" ,"@ =~= seq![' ', ',']);
    assert(","@ =~= seq![',']);
    lemma_even(without_defaults(s));
}

/// A normalised parameter list has no white space at its ends, no other than
/// single blanks, and none before a closing bracket or a comma.
pub proof fn law_signature_is_even(s: Seq<char>)
    ensures
        is_even(signature(s)),
        is_tight(signature(s), ')'),
        is_tight(signature(s), ','),
{
    let e = even(without_defaults(s));
    lemma_signature(s);
    lemma_even_is_even(without_defaults(s));
    lemma_tightened(e, ')', ',');
    lemma_tightened(tightened(e, ')'), ',', ')');
    if e.len() == 0 {
        assert(tightened(e, ')') =~= e);
        assert(tightened(e, ',') =~= e);
    }
}

/// Normalising a normalised parameter list changes nothing, where leaving out the
/// default arguments leaves none behind.
pub proof fn law_signature_stays(s: Seq<char>)
    requires
        settled(without_defaults(s)),
    ensures
        signature(signature(s)) == signature(s),
{
    let kept = without_defaults(s);
    let r = signature(s);
    lemma_signature(s);
    lemma_even_solid(kept);
    lemma_tightened_solid(even(kept), ')');
    lemma_tightened_solid(tightened(even(kept), ')'), ',');
    lemma_settled_solid(kept);
    lemma_settled_solid(r);
    lemma_settled_run(r);
    lemma_signature(r);
    law_signature_is_even(s);
    lemma_even_stays(r);
    lemma_tightened_stays(r, ')');
    lemma_tightened_stays(r, ',');
}

/// The text stands for one value: its brackets close again, and each comma and
/// each closing bracket of it is inside.
pub open spec fn is_value(s: Seq<char>) -> bool {
    depths(s).paren == 0 && depths(s).plain() && stays_inside(s)
}

/// No comma and no closing bracket stands outside of brackets.
pub open spec fn stays_inside(s: Seq<char>) -> bool
    decreases s.len(),
{
    s.len() > 0 ==> {
        let st = depths(s.drop_last());
        stays_inside(s.drop_last()) && !((s.last() == ',' || s.last() == ')') && st.paren == 0
            && st.plain())
    }
}

/// A default argument of the outermost list may begin behind the text.
pub open spec fn in_list(s: Seq<char>) -> bool {
    let st = signature_start().run(s, 0);
    !st.skipping && st.paren == 1 && st.plain()
}

proof fn lemma_skip_value(st: SignatureState, s: Seq<char>)
    requires
        st.skipping,
        st.paren == 1,
        st.plain(),
        stays_inside(s),
    ensures
        st.run(s, 0) == (SignatureState {
            paren: 1 + depths(s).paren,
            skipping: true,
            kept: st.kept,
            ..depths(s)
        }),
    decreases s.len(),
{
    if s.len() > 0 {
        let d = s.drop_last();
        assert(d.push(s.last()) =~= s);
        lemma_skip_value(st, d);
        lemma_run_push(st, d, s.last(), 0);
    }
}

proof fn lemma_run_kept(st: SignatureState, s: Seq<char>)
    ensures
        ({
            let fresh = SignatureState { kept: seq![], ..st };
            st.run(s, 0) == (SignatureState {
                kept: st.kept + fresh.run(s, 0).kept,
                ..fresh.run(s, 0)
            })
        }),
    decreases s.len(),
{
    let fresh = SignatureState { kept: seq![], ..st };
    if s.len() == 0 {
        assert(st.kept + Seq::<char>::empty() =~= st.kept);
    } else {
        let d = s.drop_last();
        let c = s.last();
        assert(d.push(c) =~= s);
        lemma_run_kept(st, d);
        lemma_run_push(st, d, c, 0);
        lemma_run_push(fresh, d, c, 0);
        let more = fresh.run(d, 0).kept;
        assert((st.kept + more).push(c) =~= st.kept + more.push(c));
    }
}

/// A default argument of a parameter leaves the normalised parameter list as it is
/// without it.
pub proof fn law_default_is_left_out(
    before: Seq<char>,
    value: Seq<char>,
    end: char,
    after: Seq<char>,
)
    requires
        in_list(before),
        is_value(value),
        end == ')' || end == ',',
    ensures
        signature(before + " = "@ + value + seq![end] + after) == signature(
            before + seq![end] + after,
        ),
{
    reveal_strlit(" = ");
    let st = signature_start().run(before, 0);
    let given = before + " = "@ + value + seq![end] + after;
    let bare = before + seq![end] + after;
    // The two texts are read alike but for a blank before the end.
    assert(" = "@ =~= Seq::<char>::empty().push(' ').push('=').push(' '));
    let none = Seq::<char>::empty();
    lemma_run_push(st, none, ' ', 0);
    lemma_run_push(st, none.push(' '), '=', 0);
    lemma_run_push(st, none.push(' ').push('='), ' ', 0);
    assert(st.run(none, 0) == st);
    let skipping = SignatureState { skipping: true, kept: st.kept.push(' '), ..st };
    assert(st.run(" = "@, 0) == skipping);
    lemma_run_add(signature_start(), before, " = "@);
    lemma_run_add(signature_start(), before + " = "@, value);
    lemma_skip_value(skipping, value);
    assert(skipping.run(value, 0) == skipping);
    assert(none.push(end) =~= seq![end]);
    lemma_run_push(skipping, none, end, 0);
    lemma_run_push(st, none, end, 0);
    assert(skipping.run(none, 0) == skipping);
    lemma_run_add(signature_start(), before + " = "@ + value, seq![end]);
    lemma_run_add(signature_start(), before + " = "@ + value + seq![end], after);
    lemma_run_add(signature_start(), before, seq![end]);
    lemma_run_add(signature_start(), before + seq![end], after);
    let at = st.step(end);
    let at_given = skipping.step(end);
    lemma_run_kept(at, after);
    lemma_run_kept(at_given, after);
    let fresh = SignatureState { kept: seq![], ..at };
    assert(fresh == SignatureState { kept: seq![], ..at_given });
    let more = fresh.run(after, 0).kept;
    assert(without_defaults(given) == st.kept.push(' ').push(end) + more);
    assert(without_defaults(bare) == st.kept.push(end) + more);
    lemma_signature(given);
    lemma_signature(bare);
    lemma_blank_before_end(st.kept, end, more);
}

proof fn lemma_blank_before_end(kept: Seq<char>, end: char, more: Seq<char>)
    requires
        end == ')' || end == ',',
    ensures
        tightened(tightened(even(kept.push(' ').push(end) + more), ')'), ',') == tightened(
            tightened(even(kept.push(end) + more), ')'),
            ',',
        ),
{
    let wide = kept.push(' ').push(end);
    let narrow = kept.push(end);
    lemma_even_add(wide, more);
    lemma_even_add(narrow, more);
    let rest = even(seq![end] + more).skip(1);
    let e = even(kept);
    assert(wide.drop_last() =~= kept.push(' '));
    assert(kept.push(' ').drop_last() =~= kept);
    assert(narrow.drop_last() =~= kept);
    assert(even(kept.push(' ')) == e);
    assert(wide[wide.len() - 2] == ' ');
    if kept.len() > 0 {
        assert(narrow[narrow.len() - 2] == kept.last());
    }
    if kept.len() > 0 && !ws(kept.last()) {
        lemma_even(kept);
        assert(e.last() != ' ');
        assert(even(wide) == e.push(' ').push(end));
        assert(even(narrow) == e.push(end));
        let a = e.push(' ').push(end);
        let b = e.push(end);
        lemma_tightened_add(a, rest, ')');
        lemma_tightened_add(b, rest, ')');
        if end == ')' {
            lemma_tightened_blank(e, ')');
        } else {
            let p = tightened(e, ')');
            let q = tightened(rest, ')');
            lemma_tightened_push(e, ' ', ')');
            lemma_tightened_push(e.push(' '), ',', ')');
            lemma_tightened_push(e, ',', ')');
            lemma_tightened_add(p.push(' ').push(','), q, ',');
            lemma_tightened_add(p.push(','), q, ',');
            lemma_tightened_blank(p, ',');
        }
    } else {
        assert(even(wide) == even(narrow));
    }
}

// ---------------------------------------------------------------------------
// Reflected functions
// ---------------------------------------------------------------------------
/// The pieces of `s[from..]` between the characters that belong to no
/// identifier; the open piece has begun at `start`.
pub open spec fn word_parts_from(s: Seq<char>, start: int, from: int) -> Seq<Seq<char>>
    decreases s.len() - from,
{
    if from >= s.len() {
        seq![s.subrange(start, s.len() as int)]
    } else if !word_char(s[from]) {
        seq![s.subrange(start, from)] + word_parts_from(s, from + 1, from + 1)
    } else {
        word_parts_from(s, start, from + 1)
    }
}

/// The text holds the identifier as a word of its own.
pub open spec fn token_in(s: Seq<char>, token: Seq<char>) -> bool {
    word_parts_from(s, 0, 0).contains(token)
}

/// Whether the text holds the identifier as a word of its own.
pub fn contains_token(s: &[char], token: &str) -> (r: bool)
    ensures
        r == token_in(s@, token@),
{
    let mut i: usize = 0;
    let mut start: usize = 0;
    while i < s.len()
        invariant
            start <= i <= s@.len(),
            token_in(s@, token@) == word_parts_from(s@, start as int, i as int).contains(token@),
        decreases s.len() - i,
    {
        if !is_word_char(s[i]) {
            let piece = slice_subrange(s, start, i);
            let ghost rest = word_parts_from(s@, i + 1, i + 1);
            let ghost all = seq![piece@] + rest;
            if is_str(piece, token) {
                assert(all[0] == token@);
                return true;
            }
            assert(all.contains(token@) == rest.contains(token@)) by {
                if rest.contains(token@) {
                    let k = choose|k: int| 0 <= k < rest.len() && rest[k] == token@;
                    assert(all[k + 1] == token@);
                }
                if all.contains(token@) {
                    let k = choose|k: int| 0 <= k < all.len() && all[k] == token@;
                    assert(k > 0 && rest[k - 1] == token@);
                }
            }
            start = i + 1;
        }
        i = i + 1;
    }
    let piece = slice_subrange(s, start, s.len());
    let r = is_str(piece, token);
    proof {
        let all = word_parts_from(s@, start as int, i as int);
        assert(all.len() == 1 && all[0] == piece@);
    }
    r
}

/// The position at which the bracket closes that is open at depth `depth`
/// before position `i`.
pub open spec fn closing_from(s: Seq<char>, i: int, depth: int) -> Option<int>
    decreases s.len() - i,
{
    if i < 0 || i >= s.len() {
        None
    } else if s[i] == '(' {
        closing_from(s, i + 1, depth + 1)
    } else if s[i] == ')' {
        if depth == 1 {
            Some(i)
        } else {
            closing_from(s, i + 1, depth - 1)
        }
    } else {
        closing_from(s, i + 1, depth)
    }
}

/// The arguments of the first call of a macro: what stands between the bracket
/// that follows its name and the one that closes it.
pub open spec fn macro_arguments(s: Seq<char>, name: Seq<char>) -> Option<Seq<char>> {
    match find(s, name) {
        None => None,
        Some(at) => match index_of_from(s, '(', at + name.len()) {
            None => None,
            Some(open) => match closing_from(s, open, 0) {
                None => None,
                Some(close) => Some(s.subrange(open + 1, close)),
            },
        },
    }
}

proof fn lemma_closing_from(s: Seq<char>, i: int, depth: int)
    requires
        0 <= i,
    ensures
        match closing_from(s, i, depth) {
            Some(k) => i <= k < s.len() && s[k] == ')',
            None => true,
        },
    decreases s.len() - i,
{
    if i < s.len() {
        lemma_closing_from(s, i + 1, depth + 1);
        lemma_closing_from(s, i + 1, depth - 1);
        lemma_closing_from(s, i + 1, depth);
    }
}

/// The arguments of the first call of a macro.
pub fn extract_macro_arguments(s: &[char], name: &str) -> (r: Option<Vec<char>>)
    ensures
        match r {
            Some(v) => macro_arguments(s@, name@) == Some(v@),
            None => macro_arguments(s@, name@) is None,
        },
{
    let word = chars_of(name);
    let at: usize = match find_at(s, word.as_slice(), 0) {
        Some(at) => at,
        None => {
            return None;
        },
    };
    let open: usize = match find_char_at(s, '(', at + word.len()) {
        Some(open) => open,
        None => {
            return None;
        },
    };
    let mut depth: i128 = 0;
    let mut i: usize = open;
    while i < s.len()
        invariant
            open <= i <= s@.len(),
            open < s@.len(),
            s@[open as int] == '(',
            -(i - open) <= depth <= i - open,
            i > open || depth == 0,
            macro_arguments(s@, name@) == match closing_from(s@, i as int, depth as int) {
                None => None,
                Some(close) => Some(s@.subrange(open + 1, close)),
            },
        decreases s.len() - i,
    {
        if s[i] == '(' {
            depth = depth + 1;
        } else if s[i] == ')' {
            if depth == 1 {
                return Some(to_vec(slice_subrange(s, open + 1, i)));
            }
            depth = depth - 1;
        }
        i = i + 1;
    }
    None
}

/// What the macro before a function asks of its definitions.
#[derive(Debug, Clone, Copy, PartialEq, Eq, Structural)]
pub struct UnrealFunctionSpec {
    pub requires_implementation: bool,
    pub requires_validate: bool,
}

/// What the macro before a function asks of its definitions.
pub open spec fn function_spec(text: Seq<char>) -> UnrealFunctionSpec {
    match macro_arguments(text, "UFUNCTION"@) {
        None => UnrealFunctionSpec { requires_implementation: false, requires_validate: false },
        Some(args) => UnrealFunctionSpec {
            requires_implementation: token_in(args, "BlueprintNativeEvent"@) || token_in(
                args,
                "Server"@,
            ) || token_in(args, "Client"@) || token_in(args, "NetMulticast"@),
            requires_validate: token_in(args, "WithValidation"@),
        },
    }
}

/// What the macro before a function asks of its definitions.
pub fn parse_ufunction_spec(text: &[char]) -> (r: UnrealFunctionSpec)
    ensures
        r == function_spec(text@),
{
    match extract_macro_arguments(text, "UFUNCTION") {
        None => UnrealFunctionSpec { requires_implementation: false, requires_validate: false },
        Some(args) => {
            let a = args.as_slice();
            UnrealFunctionSpec {
                requires_implementation: contains_token(a, "BlueprintNativeEvent") || contains_token(
                    a,
                    "Server",
                ) || contains_token(a, "Client") || contains_token(a, "NetMulticast"),
                requires_validate: contains_token(a, "WithValidation"),
            }
        },
    }
}

/// The name of a function without the suffix that marks one of its
/// definitions.
pub open spec fn base_name(name: Seq<char>) -> Seq<char> {
    if ends(name, "_Implementation"@) {
        name.take(name.len() - "_Implementation"@.len())
    } else if ends(name, "_Validate"@) {
        name.take(name.len() - "_Validate"@.len())
    } else {
        name
    }
}

/// The name of a function without the suffix that marks one of its
/// definitions.
pub fn base_unreal_function_name(name: &[char]) -> (r: &[char])
    ensures
        r@ == base_name(name@),
{
    proof {
        reveal_strlit("_Implementation");
        reveal_strlit("_Validate");
    }
    if ends_with_str(name, "_Implementation") {
        assert(name@.subrange(0, name@.len() - 15) =~= name@.take(name@.len() - 15));
        slice_subrange(name, 0, name.len() - 15)
    } else if ends_with_str(name, "_Validate") {
        assert(name@.subrange(0, name@.len() - 9) =~= name@.take(name@.len() - 9));
        slice_subrange(name, 0, name.len() - 9)
    } else {
        name
    }
}

/// A definition that a declaration calls for.
#[derive(Debug, Clone)]
pub struct ExpectedDefinition {
    pub name: String,
    pub return_type: String,
    pub message_label: &'static str,
}

/// What a definition that a declaration calls for is like.
pub struct ExpectedView {
    pub name: Seq<char>,
    pub return_type: Seq<char>,
    pub message_label: Seq<char>,
}

impl View for ExpectedDefinition {
    type V = ExpectedView;

    open spec fn view(&self) -> ExpectedView {
        ExpectedView {
            name: self.name@,
            return_type: self.return_type@,
            message_label: self.message_label@,
        }
    }
}

/// The definitions that a declaration calls for: one with the name of the
/// function or of its implementation, and one that validates where the macro
/// asks for it.
pub open spec fn expected(name: Seq<char>, return_type: Seq<char>, text: Seq<char>) -> Seq<
    ExpectedView,
> {
    let spec_ = function_spec(text);
    let first = if spec_.requires_implementation {
        ExpectedView {
            name: base_name(name) + "_Implementation"@,
            return_type,
            message_label: "implementation"@,
        }
    } else {
        ExpectedView { name, return_type, message_label: "definition"@ }
    };
    if spec_.requires_validate {
        seq![
            first,
            ExpectedView {
                name: base_name(name) + "_Validate"@,
                return_type: "bool"@,
                message_label: "validation function"@,
            },
        ]
    } else {
        seq![first]
    }
}

/// The definitions that a declaration calls for.
pub fn expected_definitions(name: &str, return_type: &str, text: &str) -> (r: Vec<
    ExpectedDefinition,
>)
    ensures
        views(r@) == expected(name@, return_type@, text@),
{
    let t = chars_of(text);
    let asked = parse_ufunction_spec(t.as_slice());
    let n = chars_of(name);
    let base = string_of(base_unreal_function_name(n.as_slice()));
    let mut items: Vec<ExpectedDefinition> = Vec::new();
    if asked.requires_implementation {
        items.push(
            ExpectedDefinition {
                name: concat(base.as_str(), "_Implementation"),
                return_type: owned(return_type),
                message_label: "implementation",
            },
        );
    } else {
        items.push(
            ExpectedDefinition {
                name: owned(name),
                return_type: owned(return_type),
                message_label: "definition",
            },
        );
    }
    if asked.requires_validate {
        items.push(
            ExpectedDefinition {
                name: concat(base.as_str(), "_Validate"),
                return_type: owned("bool"),
                message_label: "validation function",
            },
        );
    }
    assert(views(items@) =~= expected(name@, return_type@, text@));
    items
}

/// The position of the bracket that closes the operand of `noexcept`: the first
/// at or after `from` at which the brackets balance.
pub open spec fn operand_end(s: Seq<char>, i: int, depth: int, from: int) -> Option<int>
    decreases s.len() - i,
{
    if i < 0 || i >= s.len() {
        None
    } else if s[i] == '(' {
        operand_end(s, i + 1, depth + 1, from)
    } else if s[i] == ')' {
        if depth == 1 && i >= from {
            Some(i)
        } else {
            operand_end(s, i + 1, depth - 1, from)
        }
    } else {
        operand_end(s, i + 1, depth, from)
    }
}

/// The `noexcept` of what follows a parameter list, with its operand.
pub open spec fn noexcept_text(trailing: Seq<char>) -> Option<Seq<char>> {
    match find(trailing, "noexcept"@) {
        None => None,
        Some(at) => {
            let rest = trim_start(trailing.skip(at));
            match index_of(rest, '(') {
                None => Some("noexcept"@),
                Some(open) => match operand_end(rest, 0, 0, open) {
                    None => Some("noexcept"@),
                    Some(end) => Some(trim(rest.take(end + 1))),
                },
            }
        },
    }
}

/// The `noexcept` of what follows a parameter list, with its operand.
fn extract_noexcept_text(trailing: &[char]) -> (r: Option<Vec<char>>)
    ensures
        match r {
            Some(v) => noexcept_text(trailing@) == Some(v@),
            None => noexcept_text(trailing@) is None,
        },
{
    let at: usize = match find_str(trailing, "noexcept") {
        Some(at) => at,
        None => {
            return None;
        },
    };
    assert(trailing@.subrange(at as int, trailing@.len() as int) =~= trailing@.skip(at as int));
    let rest = trimmed_start(slice_subrange(trailing, at, trailing.len()));
    let open: usize = match find_char_at(rest, '(', 0) {
        Some(open) => open,
        None => {
            return Some(chars_of("noexcept"));
        },
    };
    let mut depth: i128 = 0;
    let mut i: usize = 0;
    while i < rest.len()
        invariant
            i <= rest@.len(),
            -(i as int) <= depth <= i,
            operand_end(rest@, 0, 0, open as int) == operand_end(
                rest@,
                i as int,
                depth as int,
                open as int,
            ),
            noexcept_text(trailing@) == match operand_end(rest@, 0, 0, open as int) {
                None => Some("noexcept"@),
                Some(end) => Some(trim(rest@.take(end + 1))),
            },
        decreases rest.len() - i,
    {
        if rest[i] == '(' {
            depth = depth + 1;
        } else if rest[i] == ')' {
            if depth == 1 && i >= open {
                assert(rest@.subrange(0, i + 1) =~= rest@.take(i + 1));
                return Some(to_vec(trimmed(slice_subrange(rest, 0, i + 1))));
            }
            depth = depth - 1;
        }
        i = i + 1;
    }
    Some(chars_of("noexcept"))
}

/// What follows the parameters in the text of a declaration.
pub open spec fn after_parameters(text: Seq<char>, parameters: Seq<char>) -> Seq<char> {
    match find(text, parameters) {
        Some(at) => text.skip(at + parameters.len()),
        None => seq![],
    }
}

/// The qualifiers that a definition repeats after its parameters, each after a
/// blank.
pub open spec fn suffix(text: Seq<char>, parameters: Seq<char>, is_const: bool) -> Seq<char> {
    let trailing = after_parameters(text, parameters);
    let a = if is_const {
        " const"@
    } else {
        ""@
    };
    let b = match noexcept_text(trailing) {
        Some(s) => " "@ + s,
        None => ""@,
    };
    let c = if contains(trailing, "&&"@) {
        " &&"@
    } else if trailing.contains('&') {
        " &"@
    } else {
        ""@
    };
    a + b + c
}

/// The qualifiers that a definition repeats after its parameters.
fn definition_suffix(text: &str, parameters: &str, is_const: bool) -> (r: Vec<char>)
    ensures
        r@ == suffix(text@, parameters@, is_const),
{
    proof {
        reveal_strlit("");
    }
    let t = chars_of(text);
    let p = chars_of(parameters);
    let trailing = match find_at(t.as_slice(), p.as_slice(), 0) {
        Some(at) => {
            assert(t@.subrange(at + p@.len(), t@.len() as int) =~= t@.skip(at + p@.len()));
            to_vec(slice_subrange(t.as_slice(), at + p.len(), t.len()))
        },
        None => Vec::new(),
    };
    assert(trailing@ =~= after_parameters(text@, parameters@));
    let mut out: Vec<char> = Vec::new();
    let ghost a = if is_const {
        " const"@
    } else {
        ""@
    };
    if is_const {
        push_str(&mut out, " const");
    }
    assert(out@ =~= a);
    let ghost b = match noexcept_text(trailing@) {
        Some(s) => " "@ + s,
        None => ""@,
    };
    match extract_noexcept_text(trailing.as_slice()) {
        Some(v) => {
            push_str(&mut out, " ");
            push_all(&mut out, v.as_slice());
        },
        None => {},
    }
    assert(out@ =~= a + b);
    if has_str(trailing.as_slice(), "&&") {
        push_str(&mut out, " &&");
    } else if has_char(trailing.as_slice(), '&') {
        push_str(&mut out, " &");
    }
    assert(out@ =~= suffix(text@, parameters@, is_const));
    out
}

// ---------------------------------------------------------------------------
// Declarations in headers
// ---------------------------------------------------------------------------
/// A function that a header declares as a member of a class.
#[derive(Debug, Clone)]
pub struct HeaderFunctionDecl {
    pub file_path: String,
    pub line: u32,
    pub character: u32,
    pub end_line: u32,
    pub end_character: u32,
    pub class_name: String,
    pub name: String,
    pub parameters: String,
    pub return_type: String,
    pub full_text: String,
    pub is_const: bool,
}

/// What a declared member function is like.
pub struct DeclView {
    pub file_path: Seq<char>,
    pub line: u32,
    pub character: u32,
    pub end_line: u32,
    pub end_character: u32,
    pub class_name: Seq<char>,
    pub name: Seq<char>,
    pub parameters: Seq<char>,
    pub return_type: Seq<char>,
    pub full_text: Seq<char>,
    pub is_const: bool,
}

impl View for HeaderFunctionDecl {
    type V = DeclView;

    open spec fn view(&self) -> DeclView {
        DeclView {
            file_path: self.file_path@,
            line: self.line,
            character: self.character,
            end_line: self.end_line,
            end_character: self.end_character,
            class_name: self.class_name@,
            name: self.name@,
            parameters: self.parameters@,
            return_type: self.return_type@,
            full_text: self.full_text@,
            is_const: self.is_const,
        }
    }
}

/// The kinds of nodes that declare members.
pub open spec fn declares_member(kind: Seq<char>) -> bool {
    ||| kind == "field_declaration"@
    ||| kind == "unreal_function_declaration"@
    ||| kind == "declaration"@
}

/// The text is that of a complete declaration whose definition stands
/// elsewhere.
pub open spec fn defined_elsewhere(text: Seq<char>) -> bool {
    &&& text.len() > 0
    &&& !text.contains('{')
    &&& text.contains(';')
    &&& !token_in(text, "inline"@)
    &&& !token_in(text, "FORCEINLINE"@)
    &&& !token_in(text, "friend"@)
    &&& !contains(text, "= 0"@)
    &&& !contains(text, "= delete"@)
    &&& !contains(text, "= default"@)
}

/// Whether the text is that of a complete declaration whose definition stands
/// elsewhere.
fn is_defined_elsewhere(text: &[char]) -> (r: bool)
    ensures
        r == defined_elsewhere(text@),
{
    text.len() > 0 && !has_char(text, '{') && has_char(text, ';') && !contains_token(text, "inline")
        && !contains_token(text, "FORCEINLINE") && !contains_token(text, "friend") && !has_str(
        text,
        "= 0",
    ) && !has_str(text, "= delete") && !has_str(text, "= default")
}

/// The last word of a text, or nothing.
pub open spec fn last_word(s: Seq<char>) -> Seq<char> {
    if words(s).len() == 0 {
        seq![]
    } else {
        words(s).last()
    }
}

/// The last word of a text, or nothing.
pub fn last_word_of(s: &[char]) -> (r: Vec<char>)
    ensures
        r@ == last_word(s@),
{
    let ws = split_words(s);
    if ws.len() == 0 {
        Vec::new()
    } else {
        assert(rows(ws@)[ws@.len() - 1] == ws@[ws@.len() - 1]@);
        to_vec(ws[ws.len() - 1].as_slice())
    }
}

/// The type that stands before the declarator `d` of node `i`: the last word of
/// the text between the two starts.
pub open spec fn prefix_type(ns: Seq<NodeView>, i: int, d: int) -> Seq<char> {
    let n = ns[d].start_byte - ns[i].start_byte;
    if n <= 0 {
        seq![]
    } else {
        match at_byte(ns[i].text, n) {
            Some(k) => last_word(ns[i].text.take(k)),
            None => seq![],
        }
    }
}

/// The type that stands before the declarator `d` of node `i`.
pub fn extract_prefix_type(tree: &SyntaxTree, i: usize, d: usize) -> (r: Vec<char>)
    requires
        i < tree@.len(),
        d < tree@.len(),
    ensures
        r@ == prefix_type(tree@, i as int, d as int),
{
    let start: usize = tree.nodes[i].start_byte;
    let end: usize = tree.nodes[d].start_byte;
    assert(tree@[i as int].start_byte == start && tree@[d as int].start_byte == end);
    if end <= start {
        return Vec::new();
    }
    let t = chars_of(tree.text(i));
    match char_at_byte(t.as_slice(), end - start) {
        Some(k) => {
            assert(t@.subrange(0, k as int) =~= t@.take(k as int));
            last_word_of(slice_subrange(t.as_slice(), 0, k))
        },
        None => Vec::new(),
    }
}

/// The member function that node `i` declares is constant: the text after its
/// parameters says so.
pub open spec fn const_member(ns: Seq<NodeView>, i: int) -> bool {
    match child_field(ns, i, "declarator"@) {
        None => false,
        Some(d) => match descendant(ns, d, "parameter_list"@) {
            None => false,
            Some(p) => ns[p].end_byte < ns[i].end_byte && match at_byte(
                ns[i].text,
                ns[p].end_byte - ns[i].start_byte,
            ) {
                Some(k) => token_in(ns[i].text.skip(k), "const"@),
                None => false,
            },
        },
    }
}

/// Whether the member function that node `i` declares is constant.
pub fn is_const_member_function(tree: &SyntaxTree, i: usize) -> (r: bool)
    requires
        i < tree@.len(),
    ensures
        r == const_member(tree@, i as int),
{
    let d: usize = match tree.child_by_field(i, "declarator") {
        Some(d) => d,
        None => {
            return false;
        },
    };
    let p: usize = match tree.find_child_by_type(d, "parameter_list") {
        Some(p) => p,
        None => {
            return false;
        },
    };
    let start: usize = tree.nodes[i].start_byte;
    let end: usize = tree.nodes[i].end_byte;
    let after: usize = tree.nodes[p].end_byte;
    assert(tree@[i as int].start_byte == start && tree@[i as int].end_byte == end);
    assert(tree@[p as int].end_byte == after);
    if after >= end {
        return false;
    }
    let t = chars_of(tree.text(i));
    if after < start {
        assert(at_byte(t@, after - start) is None);
        return false;
    }
    match char_at_byte(t.as_slice(), after - start) {
        Some(k) => {
            assert(t@.subrange(k as int, t@.len() as int) =~= t@.skip(k as int));
            contains_token(slice_subrange(t.as_slice(), k, t.len()), "const")
        },
        None => false,
    }
}

/// Where the declaration of node `i` begins: at its type, else at the earlier
/// of the node and its declarator `d`.
pub open spec fn declaration_start(ns: Seq<NodeView>, i: int, d: int) -> (usize, usize) {
    match child_field(ns, i, "type"@) {
        Some(t) => (ns[t].start_row, ns[t].start_column),
        None => if ns[d].start_row < ns[i].start_row || (ns[d].start_row == ns[i].start_row
            && ns[d].start_column < ns[i].start_column) {
            (ns[d].start_row, ns[d].start_column)
        } else {
            (ns[i].start_row, ns[i].start_column)
        },
    }
}

/// Where the declaration of node `i` begins.
fn declaration_start_of(tree: &SyntaxTree, i: usize, d: usize) -> (r: (usize, usize))
    requires
        i < tree@.len(),
        d < tree@.len(),
    ensures
        r == declaration_start(tree@, i as int, d as int),
{
    match tree.child_by_field(i, "type") {
        Some(t) => {
            assert(tree@[t as int].start_row == tree.nodes@[t as int].start_row);
            (tree.nodes[t].start_row, tree.nodes[t].start_column)
        },
        None => {
            let n = &tree.nodes[i];
            let m = &tree.nodes[d];
            assert(tree@[i as int].start_row == n.start_row);
            assert(tree@[d as int].start_row == m.start_row);
            if m.start_row < n.start_row || (m.start_row == n.start_row && m.start_column
                < n.start_column) {
                (m.start_row, m.start_column)
            } else {
                (n.start_row, n.start_column)
            }
        },
    }
}

/// The text of the parameter list below the declarator `d`, or nothing.
pub open spec fn parameters_of(ns: Seq<NodeView>, d: int) -> Seq<char> {
    match descendant(ns, d, "parameter_list"@) {
        Some(p) => ns[p].text,
        None => seq![],
    }
}

/// The type that node `i` declares its member with.
pub open spec fn declared_type(ns: Seq<NodeView>, i: int, d: int) -> Seq<char> {
    match child_field(ns, i, "type"@) {
        Some(t) => ns[t].text,
        None => prefix_type(ns, i, d),
    }
}

/// The member function that node `i` declares and that is to be defined
/// elsewhere. Templates do not count.
pub open spec fn member_decl(ns: Seq<NodeView>, i: int, path: Seq<char>) -> Option<DeclView> {
    let text = trim(ns[i].text);
    if !declares_member(ns[i].kind) || below_kind(ns, i, "template_declaration"@)
        || !defined_elsewhere(text) {
        None
    } else {
        match child_field(ns, i, "declarator"@) {
            None => None,
            Some(d) => match name_node(ns, d) {
                None => None,
                Some(n) => match class_name_node(ns, i) {
                    None => None,
                    Some(c) => {
                        let class_name = trim(ns[c].text);
                        let name = trim(ns[n].text);
                        let start = declaration_start(ns, i, d);
                        if parameters_of(ns, d).len() == 0 || name.len() == 0 {
                            None
                        } else {
                            Some(
                                DeclView {
                                    file_path: swap_char(path, '\\', '/'),
                                    line: start.0 as u32,
                                    character: start.1 as u32,
                                    end_line: ns[i].end_row as u32,
                                    end_character: ns[i].end_column as u32,
                                    class_name,
                                    name,
                                    parameters: parameters_of(ns, d),
                                    return_type: if name == class_name || name == seq!['~']
                                        + class_name {
                                        seq![]
                                    } else {
                                        trim(declared_type(ns, i, d))
                                    },
                                    full_text: text,
                                    is_const: const_member(ns, i),
                                },
                            )
                        }
                    },
                },
            },
        }
    }
}

/// The member function that node `i` declares and that is to be defined
/// elsewhere.
pub fn member_function_declaration(tree: &SyntaxTree, i: usize, file_path: &str) -> (r: Option<
    HeaderFunctionDecl,
>)
    requires
        i < tree@.len(),
    ensures
        match r {
            Some(d) => member_decl(tree@, i as int, file_path@) == Some(d@),
            None => member_decl(tree@, i as int, file_path@) is None,
        },
{
    if !(tree.is_kind(i, "field_declaration") || tree.is_kind(i, "unreal_function_declaration")
        || tree.is_kind(i, "declaration")) {
        return None;
    }
    if tree.has_ancestor(i, "template_declaration") {
        return None;
    }
    let whole = chars_of(tree.text(i));
    let text = trimmed(whole.as_slice());
    if !is_defined_elsewhere(text) {
        return None;
    }
    let d: usize = match tree.child_by_field(i, "declarator") {
        Some(d) => d,
        None => {
            return None;
        },
    };
    let n: usize = match tree.find_name_node(d) {
        Some(n) => n,
        None => {
            return None;
        },
    };
    let parameters = match tree.find_child_by_type(d, "parameter_list") {
        Some(p) => chars_of(tree.text(p)),
        None => Vec::new(),
    };
    assert(parameters@ =~= parameters_of(tree@, d as int));
    let c: usize = match tree.enclosing_class_name(i) {
        Some(c) => c,
        None => {
            return None;
        },
    };
    if parameters.len() == 0 {
        return None;
    }
    let class_text = chars_of(tree.text(c));
    let class_name = trimmed(class_text.as_slice());
    let name_text = chars_of(tree.text(n));
    let name = trimmed(name_text.as_slice());
    if name.len() == 0 {
        return None;
    }
    let mut destructor: Vec<char> = Vec::new();
    destructor.push('~');
    push_all(&mut destructor, class_name);
    assert(destructor@ =~= seq!['~'] + class_name@);
    let return_type = if same(name, class_name) || same(name, destructor.as_slice()) {
        Vec::new()
    } else {
        let t = match tree.child_by_field(i, "type") {
            Some(t) => chars_of(tree.text(t)),
            None => extract_prefix_type(tree, i, d),
        };
        to_vec(trimmed(t.as_slice()))
    };
    let start = declaration_start_of(tree, i, d);
    let path = chars_of(file_path);
    let path = replace_char(path.as_slice(), '\\', '/');
    assert(tree@[i as int].end_row == tree.nodes@[i as int].end_row);
    let r = HeaderFunctionDecl {
        file_path: string_of(path.as_slice()),
        line: #[verifier::truncate]
        (start.0 as u32),
        character: #[verifier::truncate]
        (start.1 as u32),
        end_line: #[verifier::truncate]
        (tree.nodes[i].end_row as u32),
        end_character: #[verifier::truncate]
        (tree.nodes[i].end_column as u32),
        class_name: string_of(class_name),
        name: string_of(name),
        parameters: string_of(parameters.as_slice()),
        return_type: string_of(return_type.as_slice()),
        full_text: string_of(text),
        is_const: is_const_member_function(tree, i),
    };
    assert(r@.return_type =~= (member_decl(tree@, i as int, file_path@)->0).return_type);
    Some(r)
}

/// The head of the definition that is looked for.
pub open spec fn definition_head(decl: DeclView, e: ExpectedView) -> Seq<char> {
    let named = decl.class_name + "::"@ + e.name + signature(decl.parameters);
    let whole = if e.return_type.len() == 0 {
        named
    } else {
        e.return_type + " "@ + named
    };
    whole + suffix(decl.full_text, decl.parameters, decl.is_const)
}

/// The head of the definition that is looked for.
fn build_definition_signature(decl: &HeaderFunctionDecl, e: &ExpectedDefinition) -> (r: Vec<char>)
    ensures
        r@ == definition_head(decl@, e@),
{
    let mut named = chars_of(decl.class_name.as_str());
    push_str(&mut named, "::");
    push_str(&mut named, e.name.as_str());
    let params = normalize_parameter_signature(decl.parameters.as_str());
    push_str(&mut named, params.as_str());
    let ret = chars_of(e.return_type.as_str());
    let mut out = if ret.len() == 0 {
        named
    } else {
        let mut v = ret;
        push_str(&mut v, " ");
        push_all(&mut v, named.as_slice());
        v
    };
    let end = definition_suffix(decl.full_text.as_str(), decl.parameters.as_str(), decl.is_const);
    push_all(&mut out, end.as_slice());
    out
}

/// The source, evenly spaced, holds the head of the definition.
pub open spec fn defines(source: Seq<char>, head: Seq<char>) -> bool {
    spaced(head).len() > 0 && contains(source, spaced(head))
}

/// Whether the source, evenly spaced, holds the head of the definition.
fn has_definition_text(source: &[char], head: &[char]) -> (r: bool)
    ensures
        r == defines(source@, head@),
{
    let h = space_words(head);
    h.len() > 0 && has(source, h.as_slice())
}

/// One of the sources defines the function.
pub open spec fn defined_in(sources: Seq<(Seq<char>, Seq<char>)>, head: Seq<char>) -> bool {
    exists|i: int| 0 <= i < sources.len() && defines(spaced((#[trigger] sources[i]).1), head)
}

/// The views of sources, each a path and a text.
pub open spec fn sources_view(v: Seq<(String, String)>) -> Seq<(Seq<char>, Seq<char>)> {
    v.map_values(|s: (String, String)| (s.0@, s.1@))
}

/// The file in which a definition is expected: the first source that could be
/// read, else the first candidate, else one named after the class.
pub open spec fn expected_file(
    class_name: Seq<char>,
    candidates: Seq<Seq<char>>,
    sources: Seq<(Seq<char>, Seq<char>)>,
) -> Seq<char> {
    if sources.len() > 0 {
        swap_char(sources[0].0, '\\', '/')
    } else if candidates.len() > 0 {
        candidates[0]
    } else {
        class_name + ".cpp"@
    }
}

/// The warning about a missing definition.
pub open spec fn missing_item(decl: DeclView, e: ExpectedView, file: Seq<char>) -> DiagnosticView {
    ending(
        item_at(
            Some(decl.file_path),
            decl.line,
            decl.character,
            DiagnosticSeverity::Warning,
            "UCore"@,
            "UECPP001"@,
            "No matching .cpp "@ + e.message_label + " found for "@ + decl.class_name + "::"@
                + e.name + decl.parameters + ". Expected in "@ + file + "."@,
        ),
        decl.end_line,
        decl.end_character,
    )
}

/// The warnings about the first `n` of the expected definitions.
pub open spec fn missing_of(
    decl: DeclView,
    es: Seq<ExpectedView>,
    n: int,
    file: Seq<char>,
    sources: Seq<(Seq<char>, Seq<char>)>,
) -> Seq<DiagnosticView>
    decreases n,
{
    if n <= 0 {
        seq![]
    } else {
        let before = missing_of(decl, es, n - 1, file, sources);
        if defined_in(sources, definition_head(decl, es[n - 1])) {
            before
        } else {
            before.push(missing_item(decl, es[n - 1], file))
        }
    }
}

/// The warnings about the definitions that node `i` calls for.
pub open spec fn missing_at(
    ns: Seq<NodeView>,
    i: int,
    path: Seq<char>,
    sources: Seq<(Seq<char>, Seq<char>)>,
) -> Seq<DiagnosticView> {
    match member_decl(ns, i, path) {
        None => seq![],
        Some(decl) => {
            let es = expected(decl.name, decl.return_type, decl.full_text);
            missing_of(
                decl,
                es,
                es.len() as int,
                expected_file(decl.class_name, source_candidates(path), sources),
                sources,
            )
        },
    }
}

/// The warnings about the definitions that the first `n` nodes call for.
pub open spec fn missing_upto(
    ns: Seq<NodeView>,
    n: int,
    path: Seq<char>,
    sources: Seq<(Seq<char>, Seq<char>)>,
) -> Seq<DiagnosticView>
    decreases n,
{
    if n <= 0 {
        seq![]
    } else {
        missing_upto(ns, n - 1, path, sources) + missing_at(ns, n - 1, path, sources)
    }
}

/// The path with another extension, `base` being the path up to its dot.
pub open spec fn three_sources(base: Seq<char>) -> Seq<Seq<char>> {
    seq![base + ".cpp"@, base + ".cc"@, base + ".cxx"@]
}

/// The list with a candidate in front, unless it holds it already.
pub open spec fn fronted(list: Seq<Seq<char>>, c: Seq<char>) -> Seq<Seq<char>> {
    if list.contains(c) {
        list
    } else {
        seq![c] + list
    }
}

/// The files that may define what a header declares: beside the header, and
/// before those in the private directory that matches its public one.
pub open spec fn source_candidates(path: Seq<char>) -> Seq<Seq<char>> {
    let normal = swap_char(path, '\\', '/');
    match last_index_of(normal, '.') {
        None => seq![],
        Some(dot) => {
            let beside = three_sources(normal.take(dot));
            let mapped = replace_all(
                replace_all(normal, "/Classes/"@, "/Private/"@),
                "/Public/"@,
                "/Private/"@,
            );
            if mapped == normal {
                beside
            } else {
                match last_index_of(mapped, '.') {
                    None => beside,
                    Some(d) => {
                        let more = three_sources(mapped.take(d));
                        fronted(fronted(fronted(beside, more[0]), more[1]), more[2])
                    },
                }
            }
        },
    }
}

/// The path up to the dot, with another extension.
fn with_extension(base: &[char], ext: &str) -> (r: Vec<char>)
    ensures
        r@ == base@ + ext@,
{
    let mut r = to_vec(base);
    push_str(&mut r, ext);
    r
}

/// Puts a candidate in front, unless the list holds it already.
fn add_front(list: &mut Vec<Vec<char>>, c: Vec<char>)
    ensures
        rows(final(list)@) == fronted(rows(old(list)@), c@),
{
    let ghost all = rows(list@);
    let mut i: usize = 0;
    while i < list.len()
        invariant
            i <= list@.len(),
            *list == *old(list),
            all == rows(list@),
            forall|j: int| 0 <= j < i ==> all[j] != c@,
        decreases list.len() - i,
    {
        assert(all[i as int] == list@[i as int]@);
        if same(list[i].as_slice(), c.as_slice()) {
            return;
        }
        i = i + 1;
    }
    let ghost cv = c@;
    list.insert(0, c);
    assert(rows(list@) =~= seq![cv] + all);
}

/// The files that may define what a header declares.
pub fn header_to_source_candidates(path: &str) -> (r: Vec<String>)
    ensures
        crate::text::texts(r@) == source_candidates(path@),
{
    proof {
        reveal_strlit("/Classes/");
        reveal_strlit("/Public/");
    }
    let v = chars_of(path);
    let normal = replace_char(v.as_slice(), '\\', '/');
    let mut out: Vec<Vec<char>> = Vec::new();
    match rfind_char(normal.as_slice(), '.') {
        None => {
            assert(rows(out@) =~= Seq::<Seq<char>>::empty());
        },
        Some(dot) => {
            let base = slice_subrange(normal.as_slice(), 0, dot);
            assert(base@ =~= normal@.take(dot as int));
            out.push(with_extension(base, ".cpp"));
            out.push(with_extension(base, ".cc"));
            out.push(with_extension(base, ".cxx"));
            assert(rows(out@) =~= three_sources(base@));
            let mapped = replace_str(normal.as_slice(), "/Classes/", "/Private/");
            let mapped = replace_str(mapped.as_slice(), "/Public/", "/Private/");
            if !same(mapped.as_slice(), normal.as_slice()) {
                match rfind_char(mapped.as_slice(), '.') {
                    None => {},
                    Some(d) => {
                        let base = slice_subrange(mapped.as_slice(), 0, d);
                        assert(base@ =~= mapped@.take(d as int));
                        add_front(&mut out, with_extension(base, ".cpp"));
                        add_front(&mut out, with_extension(base, ".cc"));
                        add_front(&mut out, with_extension(base, ".cxx"));
                    },
                }
            }
        },
    }
    crate::text::strings_of(&out)
}

/// Whether one of the sources defines the function; `sources` are evenly
/// spaced.
fn is_defined_in(sources: &Vec<Vec<char>>, head: &[char]) -> (r: bool)
    ensures
        r == exists|i: int| 0 <= i < sources@.len() && defines(#[trigger] rows(sources@)[i], head@),
{
    let mut i: usize = 0;
    while i < sources.len()
        invariant
            i <= sources@.len(),
            forall|j: int| 0 <= j < i ==> !defines(#[trigger] rows(sources@)[j], head@),
        decreases sources.len() - i,
    {
        assert(rows(sources@)[i as int] == sources@[i as int]@);
        if has_definition_text(sources[i].as_slice(), head) {
            return true;
        }
        i = i + 1;
    }
    false
}

/// The warning about a missing definition.
fn missing_diagnostic(decl: &HeaderFunctionDecl, e: &ExpectedDefinition, file: &str) -> (r:
    DiagnosticItem)
    ensures
        r@ == missing_item(decl@, e@, file@),
{
    let mut m = chars_of("No matching .cpp ");
    push_str(&mut m, e.message_label);
    push_str(&mut m, " found for ");
    push_str(&mut m, decl.class_name.as_str());
    push_str(&mut m, "::");
    push_str(&mut m, e.name.as_str());
    push_str(&mut m, decl.parameters.as_str());
    push_str(&mut m, ". Expected in ");
    push_str(&mut m, file);
    push_str(&mut m, ".");
    DiagnosticItem::new(
        Some(decl.file_path.as_str()),
        decl.line,
        decl.character,
        DiagnosticSeverity::Warning,
        "UCore",
        "UECPP001",
        string_of(m.as_slice()),
    ).with_end(decl.end_line, decl.end_character)
}

/// The warnings about the definitions that the nodes of a tree call for.
pub fn collect_missing_impl_items(
    tree: &SyntaxTree,
    file_path: &str,
    sources: &Vec<(String, String)>,
) -> (r: Vec<DiagnosticItem>)
    ensures
        views(r@) == missing_upto(
            tree@,
            tree@.len() as int,
            file_path@,
            sources_view(sources@),
        ),
{
    let candidates = header_to_source_candidates(file_path);
    let ghost srcs = sources_view(sources@);
    let mut texts: Vec<Vec<char>> = Vec::new();
    let mut k: usize = 0;
    while k < sources.len()
        invariant
            k <= sources@.len(),
            srcs == sources_view(sources@),
            texts@.len() == k,
            forall|j: int| 0 <= j < k ==> (#[trigger] rows(texts@)[j]) == spaced(srcs[j].1),
        decreases sources.len() - k,
    {
        let v = chars_of(sources[k].1.as_str());
        let ghost before = rows(texts@);
        let line = space_words(v.as_slice());
        texts.push(line);
        assert(rows(texts@) =~= before.push(spaced(srcs[k as int].1)));
        k = k + 1;
    }
    let mut items: Vec<DiagnosticItem> = Vec::new();
    assert(views(items@) =~= Seq::<DiagnosticView>::empty());
    let mut i: usize = 0;
    while i < tree.nodes.len()
        invariant
            i <= tree@.len(),
            srcs == sources_view(sources@),
            crate::text::texts(candidates@) == source_candidates(file_path@),
            texts@.len() == sources@.len(),
            forall|j: int|
                0 <= j < sources@.len() ==> (#[trigger] rows(texts@)[j]) == spaced(srcs[j].1),
            views(items@) == missing_upto(tree@, i as int, file_path@, srcs),
        decreases tree.nodes.len() - i,
    {
        let ghost before = views(items@);
        match member_function_declaration(tree, i, file_path) {
            Some(decl) => {
                let file = if sources.len() > 0 {
                    let p = chars_of(sources[0].0.as_str());
                    let p = replace_char(p.as_slice(), '\\', '/');
                    string_of(p.as_slice())
                } else if candidates.len() > 0 {
                    assert(crate::text::texts(candidates@)[0] == candidates@[0]@);
                    candidates[0].clone()
                } else {
                    concat(decl.class_name.as_str(), ".cpp")
                };
                assert(file@ == expected_file(
                    decl@.class_name,
                    source_candidates(file_path@),
                    srcs,
                ));
                let es = expected_definitions(
                    decl.name.as_str(),
                    decl.return_type.as_str(),
                    decl.full_text.as_str(),
                );
                let ghost ev = views(es@);
                let mut n: usize = 0;
                assert(before + missing_of(decl@, ev, 0, file@, srcs) =~= before);
                while n < es.len()
                    invariant
                        n <= es@.len(),
                        ev == views(es@),
                        srcs == sources_view(sources@),
                        texts@.len() == sources@.len(),
                        forall|j: int|
                            0 <= j < sources@.len() ==> (#[trigger] rows(texts@)[j]) == spaced(
                                srcs[j].1,
                            ),
                        views(items@) == before + missing_of(decl@, ev, n as int, file@, srcs),
                    decreases es.len() - n,
                {
                    assert(ev[n as int] == es@[n as int]@);
                    let head = build_definition_signature(&decl, &es[n]);
                    let found = is_defined_in(&texts, head.as_slice());
                    assert(found == defined_in(srcs, head@)) by {
                        if found {
                            let j = choose|j: int|
                                0 <= j < texts@.len() && defines(#[trigger] rows(texts@)[j], head@);
                            assert(defines(spaced(srcs[j].1), head@));
                        }
                        if defined_in(srcs, head@) {
                            let j = choose|j: int|
                                0 <= j < srcs.len() && defines(
                                    spaced((#[trigger] srcs[j]).1),
                                    head@,
                                );
                            assert(defines(rows(texts@)[j], head@));
                        }
                    }
                    if !found {
                        let ghost b = views(items@);
                        let item = missing_diagnostic(&decl, &es[n], file.as_str());
                        items.push(item);
                        assert(views(items@) =~= b.push(missing_item(decl@, ev[n as int], file@)));
                        assert(views(items@) =~= before + missing_of(
                            decl@,
                            ev,
                            n + 1,
                            file@,
                            srcs,
                        ));
                    }
                    n = n + 1;
                }
            },
            None => {
                assert(before + Seq::<DiagnosticView>::empty() =~= before);
            },
        }
        i = i + 1;
    }
    items
}

/// The path leads to a header.
pub open spec fn header_path(path: Seq<char>, windows: bool) -> bool {
    match lower_extension(path, windows) {
        Some(e) => e == "h"@ || e == "hpp"@ || e == "hh"@ || e == "hxx"@,
        None => false,
    }
}

/// Whether the path leads to a header.
pub fn is_header_file(path: &str, windows: bool) -> (r: bool)
    ensures
        r == header_path(path@, windows),
{
    let v = chars_of(path);
    match lower_extension_of(v.as_slice(), windows) {
        Some(e) => is_str(e.as_slice(), "h") || is_str(e.as_slice(), "hpp") || is_str(
            e.as_slice(),
            "hh",
        ) || is_str(e.as_slice(), "hxx"),
        None => false,
    }
}

/// The warnings about definitions that a header calls for and that none of the
/// sources holds. Without a path, a header or a tree there are none.
pub open spec fn missing_findings(
    path: Option<Seq<char>>,
    windows: bool,
    tree: Option<Seq<NodeView>>,
    sources: Seq<(Seq<char>, Seq<char>)>,
) -> Seq<DiagnosticView> {
    match (path, tree) {
        (Some(p), Some(ns)) => if header_path(p, windows) {
            missing_upto(ns, ns.len() as int, p, sources)
        } else {
            seq![]
        },
        _ => seq![],
    }
}

/// The view of an optional tree.
pub open spec fn opt_tree(tree: Option<&SyntaxTree>) -> Option<Seq<NodeView>> {
    match tree {
        Some(t) => Some(t@),
        None => None,
    }
}

/// The warnings about definitions that a header calls for and that none of the
/// sources holds. `tree` is the tree of the header; `sources` are those of
/// its candidates that could be read, each with its path and text.
pub fn missing_implementation_diagnostics(
    file_path: Option<&str>,
    windows: bool,
    tree: Option<&SyntaxTree>,
    sources: &Vec<(String, String)>,
) -> (r: Vec<DiagnosticItem>)
    ensures
        views(r@) == missing_findings(
            crate::text::opt_str(file_path),
            windows,
            opt_tree(tree),
            sources_view(sources@),
        ),
{
    match (file_path, tree) {
        (Some(p), Some(t)) => if is_header_file(p, windows) {
            collect_missing_impl_items(t, p, sources)
        } else {
            let r: Vec<DiagnosticItem> = Vec::new();
            assert(views(r@) =~= Seq::<DiagnosticView>::empty());
            r
        },
        _ => {
            let r: Vec<DiagnosticItem> = Vec::new();
            assert(views(r@) =~= Seq::<DiagnosticView>::empty());
            r
        },
    }
}

/// The findings in a file: the broken reflection rules, then the missing
/// definitions.
pub fn process_diagnostics(
    content: &str,
    file_path: Option<&str>,
    windows: bool,
    tree: Option<&SyntaxTree>,
    sources: &Vec<(String, String)>,
) -> (r: Vec<DiagnosticItem>)
    ensures
        views(r@) == rule_findings(
            lines(content@),
            lines(content@).len() as int,
            crate::text::opt_str(file_path),
        ) + missing_findings(
            crate::text::opt_str(file_path),
            windows,
            opt_tree(tree),
            sources_view(sources@),
        ),
{
    let mut items = unreal_rule_diagnostics(content, file_path);
    let mut more = missing_implementation_diagnostics(file_path, windows, tree, sources);
    let ghost a = views(items@);
    let ghost b = views(more@);
    items.append(&mut more);
    assert(views(items@) =~= a + b);
    items
}

// ---------------------------------------------------------------------------
// Build logs
// ---------------------------------------------------------------------------
/// The line of a compiler: file, line, column, level, code and message.
pub const MSVC_PATTERN: &'static str =
    r#"(?m)^(?P<file>[A-Za-z]:[^\r\n()]+)\((?P<line>\d+)(?:,(?P<col>\d+))?\):\s*(?P<level>fatal error|error|warning)\s*(?P<code>[A-Z]+\d+):\s*(?P<msg>.+)$"#;

/// The line of the header tool: file, line, level and message.
pub const UHT_PATTERN: &'static str =
    r#"(?m)^(?P<file>[A-Za-z]:[^\r\n:]+):(?P<line>\d+):\s*(?P<level>Error|Warning):\s*(?P<msg>.+)$"#;

/// The position that a log gives, counted from zero; the first one where it
/// gives none that fits.
pub open spec fn logged_number(c: Seq<Option<Seq<char>>>, group_index: int) -> u32 {
    match group(c, group_index) {
        Some(s) => match parse_decimal(s, u32::MAX as nat) {
            Some(n) => if n == 0 {
                0
            } else {
                (n - 1) as u32
            },
            None => 0,
        },
        None => 0,
    }
}

/// The position that a log gives, counted from zero.
fn log_number(c: &Vec<Option<String>>, group_index: usize) -> (r: u32)
    ensures
        r == logged_number(groups_view(c@), group_index as int),
{
    match group_text(c, group_index) {
        Some(s) => {
            let v = chars_of(s.as_str());
            match parse_u32(v.as_slice()) {
                Some(n) => if n == 0 {
                    0
                } else {
                    n - 1
                },
                None => 0,
            }
        },
        None => 0,
    }
}

/// The finding that one line of a compiler reports.
pub open spec fn msvc_item(c: Seq<Option<Seq<char>>>) -> DiagnosticView {
    item_at(
        group(c, 1),
        logged_number(c, 2),
        logged_number(c, 3),
        if contains(group_or(c, 4, "error"@), "warning"@) {
            DiagnosticSeverity::Warning
        } else {
            DiagnosticSeverity::Error
        },
        "MSVC"@,
        "BUILD"@,
        group_or(c, 5, "MSVC"@) + ": "@ + group_or(c, 6, ""@),
    )
}

/// The finding that one line of the header tool reports.
pub open spec fn uht_item(c: Seq<Option<Seq<char>>>) -> DiagnosticView {
    item_at(
        group(c, 1),
        logged_number(c, 2),
        0,
        if lower(group_or(c, 3, "Error"@)) == "warning"@ {
            DiagnosticSeverity::Warning
        } else {
            DiagnosticSeverity::Error
        },
        "UHT"@,
        "BUILD"@,
        group_or(c, 4, ""@),
    )
}

/// The findings that the captures of compiler lines report.
pub open spec fn msvc_items(c: Seq<Seq<Option<Seq<char>>>>) -> Seq<DiagnosticView> {
    c.map_values(|g: Seq<Option<Seq<char>>>| msvc_item(g))
}

/// The findings that the captures of header tool lines report.
pub open spec fn uht_items(c: Seq<Seq<Option<Seq<char>>>>) -> Seq<DiagnosticView> {
    c.map_values(|g: Seq<Option<Seq<char>>>| uht_item(g))
}

/// The captures of a pattern, none where it is no regular expression.
pub open spec fn captures_or_none(c: Option<Seq<Seq<Option<Seq<char>>>>>) -> Seq<
    Seq<Option<Seq<char>>>,
> {
    match c {
        Some(c) => c,
        None => seq![],
    }
}

/// The file of a finding.
fn group_path<'a>(c: &'a Vec<Option<String>>, i: usize) -> (r: Option<&'a str>)
    ensures
        crate::text::opt_str(r) == group(groups_view(c@), i as int),
{
    match group_text(c, i) {
        Some(s) => Some(s.as_str()),
        None => None,
    }
}

/// The findings that the captures of compiler lines report.
pub fn msvc_diagnostics(captures: &Vec<Vec<Option<String>>>) -> (r: Vec<DiagnosticItem>)
    ensures
        views(r@) == msvc_items(captures_view(captures@)),
{
    let mut items: Vec<DiagnosticItem> = Vec::new();
    let mut i: usize = 0;
    while i < captures.len()
        invariant
            i <= captures@.len(),
            items@.len() == i,
            forall|j: int|
                0 <= j < i ==> (#[trigger] items@[j])@ == msvc_item(groups_view(captures@[j]@)),
        decreases captures.len() - i,
    {
        let c = &captures[i];
        let level = chars_of(group_text_or(c, 4, "error"));
        let severity = if has_str(level.as_slice(), "warning") {
            DiagnosticSeverity::Warning
        } else {
            DiagnosticSeverity::Error
        };
        let mut message = chars_of(group_text_or(c, 5, "MSVC"));
        push_str(&mut message, ": ");
        push_str(&mut message, group_text_or(c, 6, ""));
        items.push(
            DiagnosticItem::new(
                group_path(c, 1),
                log_number(c, 2),
                log_number(c, 3),
                severity,
                "MSVC",
                "BUILD",
                string_of(message.as_slice()),
            ),
        );
        i = i + 1;
    }
    assert(views(items@) =~= msvc_items(captures_view(captures@)));
    items
}

/// The findings that the captures of header tool lines report.
pub fn uht_diagnostics(captures: &Vec<Vec<Option<String>>>) -> (r: Vec<DiagnosticItem>)
    ensures
        views(r@) == uht_items(captures_view(captures@)),
{
    let mut items: Vec<DiagnosticItem> = Vec::new();
    let mut i: usize = 0;
    while i < captures.len()
        invariant
            i <= captures@.len(),
            items@.len() == i,
            forall|j: int|
                0 <= j < i ==> (#[trigger] items@[j])@ == uht_item(groups_view(captures@[j]@)),
        decreases captures.len() - i,
    {
        let c = &captures[i];
        let level = chars_of(group_text_or(c, 3, "Error"));
        let level = to_lower(level.as_slice());
        let severity = if is_str(level.as_slice(), "warning") {
            DiagnosticSeverity::Warning
        } else {
            DiagnosticSeverity::Error
        };
        items.push(
            DiagnosticItem::new(
                group_path(c, 1),
                log_number(c, 2),
                0,
                severity,
                "UHT",
                "BUILD",
                owned(group_text_or(c, 4, "")),
            ),
        );
        i = i + 1;
    }
    assert(views(items@) =~= uht_items(captures_view(captures@)));
    items
}

/// The findings that a build log reports: those of the compiler, then those of
/// the header tool.
pub fn build_log_diagnostics(output: &str) -> (r: Vec<DiagnosticItem>)
    ensures
        views(r@) == msvc_items(captures_or_none(regex_captures(MSVC_PATTERN@, output@)))
            + uht_items(captures_or_none(regex_captures(UHT_PATTERN@, output@))),
{
    let mut items: Vec<DiagnosticItem> = match find_captures(MSVC_PATTERN, output) {
        Some(c) => msvc_diagnostics(&c),
        None => Vec::new(),
    };
    let mut more: Vec<DiagnosticItem> = match find_captures(UHT_PATTERN, output) {
        Some(c) => uht_diagnostics(&c),
        None => Vec::new(),
    };
    let ghost a = views(items@);
    let ghost b = views(more@);
    assert(a =~= msvc_items(captures_or_none(regex_captures(MSVC_PATTERN@, output@))));
    assert(b =~= uht_items(captures_or_none(regex_captures(UHT_PATTERN@, output@))));
    items.append(&mut more);
    assert(views(items@) =~= a + b);
    items
}

/// The findings that a build log reports.
pub fn parse_build_diagnostics(output: &str) -> (r: Vec<DiagnosticItem>)
    ensures
        views(r@) == msvc_items(captures_or_none(regex_captures(MSVC_PATTERN@, output@)))
            + uht_items(captures_or_none(regex_captures(UHT_PATTERN@, output@))),
{
    build_log_diagnostics(output)
}

} // verus!
