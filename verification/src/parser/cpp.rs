//! Symbols of C++ files: what the captured nodes of a syntax tree say of
//! classes, members, calls and included files.

use vstd::prelude::*;
use vstd::slice::slice_subrange;
#[allow(unused_imports)]
use vstd::utf8::{decode_utf8, valid_utf8};

use crate::bytes::from_utf8;
use crate::diagnostics::contains_token;
#[allow(unused_imports)]
use crate::diagnostics::token_in;
use crate::pattern::replace_matches;
#[allow(unused_imports)]
use crate::pattern::regex_replaced;
use crate::syntax::SyntaxTree;
#[allow(unused_imports)]
use crate::syntax::{child_field, descendant, end_of, lemma_end_from, lemma_field_from,
    lemma_parent_from, parent_of, NodeView};
use crate::text::{chars_of, concat, has_char, join_strings, owned, replace_str, split_words, str_eq,
    string_of, to_lower, trim_string, trimmed};
#[allow(unused_imports)]
use crate::text::{join, lower, opt_text, replace_all, rows, texts, trim, words};
use crate::types::{ClassInfo, MemberInfo};
#[allow(unused_imports)]
use crate::types::{ClassView, MemberView};

pub use super::symbols::{parse_content, parse_content_mmap, process_file};

verus! {

/// What is captured of a file: types with their bases, functions, fields,
/// enumerators and calls.
pub const QUERY_STR: &'static str = "
  ; ========================
  ; Type definitions
  ; ========================

  (class_specifier
    name: (type_identifier) @class_name) @class_def

  (struct_specifier
    name: (type_identifier) @struct_name) @struct_def

  (enum_specifier
    name: (type_identifier) @enum_name) @enum_def

  ; UTreeSitter reflected declarations.

  (unreal_reflected_class_declaration
    name: [
      (type_identifier) @class_name
      (qualified_identifier) @class_name
    ]) @uclass_def

  (unreal_reflected_struct_declaration
    name: [
      (type_identifier) @struct_name
      (qualified_identifier) @struct_name
    ]) @ustruct_def

  (unreal_reflected_enum_declaration
    name: [
      (type_identifier) @enum_name
      (qualified_identifier) @enum_name
    ]) @uenum_def

  ; Base classes.
  (base_class_clause
    (access_specifier)?
    [
      (type_identifier) @base_class_name
      (qualified_identifier) @base_class_name
    ])

  ; ========================
  ; Members and functions
  ; ========================

  (function_definition) @func_node
  (declaration) @decl_node
  (field_declaration) @field_node
  (unreal_function_declaration) @ufunc_node

  (enumerator
    name: (identifier) @enum_val_name) @enum_item

  ; ========================
  ; Calls
  ; ========================

  (call_expression
    function: [
      (identifier) @call_name
      (qualified_identifier
        name: (identifier) @call_name)
      (field_expression
        field: (field_identifier) @call_name)
      (field_expression
        field: (template_method
          name: (field_identifier) @call_name))
      (template_function
        name: (identifier) @call_name)
    ]) @call_expr

  (field_expression
    field: (field_identifier) @field_name) @field_expr
";

/// What is captured of the directives that name other files.
pub const INCLUDE_QUERY_STR: &'static str = "
  (preproc_include
    path: [
      (string_literal) @path
      (system_lib_string) @path
    ]) @include
";

// ---------------------------------------------------------------------------
// Types in texts
// ---------------------------------------------------------------------------
/// The words that say nothing of a type.
pub open spec fn keyword_patterns() -> Seq<Seq<char>> {
    seq![
        "\\bvirtual\\b"@,
        "\\bstatic\\b"@,
        "\\binline\\b"@,
        "\\bFORCEINLINE\\b"@,
        "\\bFORCEINLINE_DEBUGGABLE\\b"@,
        "\\bconstexpr\\b"@,
        "\\bconst\\b"@,
        "\\bfriend\\b"@,
        "\\bclass\\b"@,
        "\\bstruct\\b"@,
        "\\benum\\b"@,
        "\\btypename\\b"@,
        "\\b[A-Z0-9_]+_API\\b"@,
        "\\bU(?:CLASS|STRUCT|ENUM|FUNCTION|PROPERTY|INTERFACE|DELEGATE|META)\\s*\\([^)]*\\)"@,
    ]
}

/// The patterns of the words that say nothing of a type: specifiers, export
/// macros and reflection macros.
fn keyword_list() -> (r: Vec<&'static str>)
    ensures
        r@.len() == keyword_patterns().len(),
        forall|i: int| 0 <= i < r@.len() ==> (#[trigger] r@[i])@ == keyword_patterns()[i],
{
    let r = vec![
        "\\bvirtual\\b",
        "\\bstatic\\b",
        "\\binline\\b",
        "\\bFORCEINLINE\\b",
        "\\bFORCEINLINE_DEBUGGABLE\\b",
        "\\bconstexpr\\b",
        "\\bconst\\b",
        "\\bfriend\\b",
        "\\bclass\\b",
        "\\bstruct\\b",
        "\\benum\\b",
        "\\btypename\\b",
        "\\b[A-Z0-9_]+_API\\b",
        "\\bU(?:CLASS|STRUCT|ENUM|FUNCTION|PROPERTY|INTERFACE|DELEGATE|META)\\s*\\([^)]*\\)",
    ];
    r
}

/// The text with every match of the pattern replaced.
pub open spec fn replaced(pattern: Seq<char>, text: Seq<char>, with: Seq<char>) -> Seq<char> {
    match regex_replaced(pattern, text, with) {
        Some(s) => s,
        None => text,
    }
}

/// The text with every match of the pattern replaced.
fn replace_pattern(pattern: &str, text: &str, with: &str) -> (r: String)
    ensures
        r@ == replaced(pattern@, text@, with@),
{
    match replace_matches(pattern, text, with) {
        Some(s) => s,
        None => owned(text),
    }
}

/// The text without the matches of the first `n` patterns, one after the other.
pub open spec fn stripped(s: Seq<char>, n: int) -> Seq<char>
    decreases n,
{
    if n <= 0 {
        s
    } else {
        replaced(keyword_patterns()[n - 1], stripped(s, n - 1), ""@)
    }
}

/// The text without semicolons and with blanks around colons.
pub open spec fn spread(s: Seq<char>) -> Seq<char> {
    replace_all(replace_all(s, ";"@, ""@), ":"@, " : "@)
}

/// The text without semicolons and with blanks around colons.
pub fn spread_colons(s: &str) -> (r: String)
    ensures
        r@ == spread(s@),
{
    proof {
        reveal_strlit(";");
        reveal_strlit(":");
    }
    let v = chars_of(s);
    let v = replace_str(v.as_slice(), ";", "");
    let v = replace_str(v.as_slice(), ":", " : ");
    string_of(v.as_slice())
}

/// The type in a text with single blanks: all of it where it is a template, else
/// its last word.
pub open spec fn type_part(s: Seq<char>) -> Seq<char> {
    let t = trim(s);
    if t.contains('<') && t.contains('>') {
        t
    } else if words(t).len() == 0 {
        seq![]
    } else {
        words(t).last()
    }
}

/// The type in a text with single blanks.
pub fn type_part_of(s: &str) -> (r: String)
    ensures
        r@ == type_part(s@),
{
    let v = chars_of(s);
    let t = trimmed(v.as_slice());
    if has_char(t, '<') && has_char(t, '>') {
        return string_of(t);
    }
    let ws = split_words(t);
    if ws.len() == 0 {
        string_of(Vec::new().as_slice())
    } else {
        assert(rows(ws@)[ws@.len() - 1] == ws@[ws@.len() - 1]@);
        string_of(ws[ws.len() - 1].as_slice())
    }
}

/// The type that a text before a name writes.
pub open spec fn cleaned(raw: Seq<char>) -> Seq<char> {
    type_part(
        replaced("\\s+"@, spread(stripped(trim(raw), keyword_patterns().len() as int)), " "@),
    )
}

/// The type that a text before a name writes.
pub fn clean_type_string(raw: &str) -> (r: String)
    ensures
        r@ == cleaned(raw@),
{
    let patterns = keyword_list();
    let mut s = trim_string(raw);
    let mut i: usize = 0;
    while i < patterns.len()
        invariant
            i <= patterns@.len(),
            patterns@.len() == keyword_patterns().len(),
            forall|i: int|
                0 <= i < patterns@.len() ==> (#[trigger] patterns@[i])@ == keyword_patterns()[i],
            s@ == stripped(trim(raw@), i as int),
        decreases patterns.len() - i,
    {
        s = replace_pattern(patterns[i], s.as_str(), "");
        i = i + 1;
    }
    let s = spread_colons(s.as_str());
    let s = replace_pattern("\\s+", s.as_str(), " ");
    type_part_of(s.as_str())
}

// ---------------------------------------------------------------------------
// Declarators
// ---------------------------------------------------------------------------
/// The first node from `j` up to `end` that its parent holds under the field.
pub open spec fn first_field(ns: Seq<NodeView>, j: int, end: int, field: Seq<char>) -> Option<int>
    decreases end - j,
{
    if j >= end {
        None
    } else if ns[j].field == Some(field) {
        Some(j)
    } else {
        first_field(ns, j + 1, end, field)
    }
}

/// The first declarator below node `i`.
pub open spec fn declarator_below(ns: Seq<NodeView>, i: int) -> Option<int> {
    first_field(ns, i + 1, end_of(ns, i), "declarator"@)
}

/// The first declarator below node `i`.
pub fn find_declarator_node(tree: &SyntaxTree, i: usize) -> (r: Option<usize>)
    requires
        i < tree@.len(),
    ensures
        match r {
            Some(d) => declarator_below(tree@, i as int) == Some(d as int) && i < d < tree@.len(),
            None => declarator_below(tree@, i as int) is None,
        },
{
    let end: usize = tree.subtree_end(i);
    let mut j: usize = i + 1;
    while j < end
        invariant
            i < j,
            end <= tree@.len(),
            declarator_below(tree@, i as int) == first_field(
                tree@,
                j as int,
                end as int,
                "declarator"@,
            ),
        decreases end - j,
    {
        if tree.has_field(j, "declarator") {
            return Some(j);
        }
        j = j + 1;
    }
    None
}

/// What a declarator declares: the name, the scope before it, whether it is a
/// function, and the line.
#[derive(Debug, Clone)]
pub struct MemberIdentity {
    pub name: String,
    pub scope_name: Option<String>,
    pub is_function: bool,
    pub line: usize,
}

/// What the identity of a member says.
pub struct IdentityView {
    pub name: Seq<char>,
    pub scope_name: Option<Seq<char>>,
    pub is_function: bool,
    pub line: usize,
}

impl View for MemberIdentity {
    type V = IdentityView;

    open spec fn view(&self) -> IdentityView {
        IdentityView {
            name: self.name@,
            scope_name: opt_text(self.scope_name),
            is_function: self.is_function,
            line: self.line,
        }
    }
}

/// The kinds of declarators around another one.
pub open spec fn around_declarator(kind: Seq<char>) -> bool {
    ||| kind == "pointer_declarator"@
    ||| kind == "reference_declarator"@
    ||| kind == "array_declarator"@
    ||| kind == "parenthesized_declarator"@
}

/// What the declarator `i` declares, where `f` says whether it stands inside of
/// a function declarator.
pub open spec fn identity(ns: Seq<NodeView>, i: int, f: bool) -> Option<IdentityView>
    decreases ns.len() - i,
    when 0 <= i < ns.len()
    via identity_decreases
{
    let k = ns[i].kind;
    if k == "identifier"@ || k == "field_identifier"@ {
        Some(
            IdentityView {
                name: ns[i].text,
                scope_name: None,
                is_function: f,
                line: ns[i].start_row.wrapping_add(1),
            },
        )
    } else if k == "qualified_identifier"@ {
        match child_field(ns, i, "name"@) {
            Some(n) => if ns[n].text.len() == 0 {
                None
            } else {
                Some(
                    IdentityView {
                        name: ns[n].text,
                        scope_name: match child_field(ns, i, "scope"@) {
                            Some(s) => Some(ns[s].text),
                            None => None,
                        },
                        is_function: f,
                        line: ns[n].start_row.wrapping_add(1),
                    },
                )
            },
            None => None,
        }
    } else if k == "function_declarator"@ {
        match child_field(ns, i, "declarator"@) {
            Some(d) => identity(ns, d, true),
            None => None,
        }
    } else if around_declarator(k) {
        match child_field(ns, i, "declarator"@) {
            Some(d) => identity(ns, d, f),
            None => None,
        }
    } else {
        None
    }
}

#[via_fn]
proof fn identity_decreases(ns: Seq<NodeView>, i: int, f: bool) {
    lemma_end_from(ns, ns[i].depth, i + 1);
    lemma_field_from(ns, i + 1, end_of(ns, i), "declarator"@);
}

/// What the declarator `i` declares.
pub fn resolve_member_identity(tree: &SyntaxTree, i: usize) -> (r: Option<MemberIdentity>)
    requires
        i < tree@.len(),
    ensures
        match r {
            Some(m) => identity(tree@, i as int, false) == Some(m@),
            None => identity(tree@, i as int, false) is None,
        },
{
    let mut current: usize = i;
    let mut is_function = false;
    loop
        invariant
            current < tree@.len(),
            identity(tree@, i as int, false) == identity(tree@, current as int, is_function),
        decreases tree@.len() - current,
    {
        assert(tree@[current as int].start_row == tree.nodes@[current as int].start_row);
        if tree.is_plain_name(current) {
            return Some(
                MemberIdentity {
                    name: owned(tree.text(current)),
                    scope_name: None,
                    is_function,
                    line: tree.nodes[current].start_row.wrapping_add(1),
                },
            );
        } else if tree.is_kind(current, "qualified_identifier") {
            let n: usize = match tree.child_by_field(current, "name") {
                Some(n) => n,
                None => {
                    return None;
                },
            };
            let name = owned(tree.text(n));
            let v = chars_of(name.as_str());
            if v.len() == 0 {
                return None;
            }
            let scope_name: Option<String> = match tree.child_by_field(current, "scope") {
                Some(s) => Some(owned(tree.text(s))),
                None => None,
            };
            assert(tree@[n as int].start_row == tree.nodes@[n as int].start_row);
            return Some(
                MemberIdentity {
                    name,
                    scope_name,
                    is_function,
                    line: tree.nodes[n].start_row.wrapping_add(1),
                },
            );
        } else if tree.is_kind(current, "function_declarator") {
            match tree.child_by_field(current, "declarator") {
                Some(d) => {
                    is_function = true;
                    current = d;
                },
                None => {
                    return None;
                },
            }
        } else if tree.is_kind(current, "pointer_declarator") || tree.is_kind(
            current,
            "reference_declarator",
        ) || tree.is_kind(current, "array_declarator") || tree.is_kind(
            current,
            "parenthesized_declarator",
        ) {
            match tree.child_by_field(current, "declarator") {
                Some(d) => {
                    current = d;
                },
                None => {
                    return None;
                },
            }
        } else {
            return None;
        }
    }
}

// ---------------------------------------------------------------------------
// Access
// ---------------------------------------------------------------------------
/// The text without colons at its end.
pub open spec fn without_colons(s: Seq<char>) -> Seq<char>
    decreases s.len(),
{
    if s.len() > 0 && s.last() == ':' {
        without_colons(s.drop_last())
    } else {
        s
    }
}

/// The access that the last of the siblings from `j` up to `end` names that
/// begins before byte `limit`; `acc` where none does.
pub open spec fn access_among(
    ns: Seq<NodeView>,
    j: int,
    end: int,
    limit: int,
    acc: Seq<char>,
) -> Seq<char>
    decreases ns.len() - j,
    when 0 <= j && end <= ns.len()
    via access_among_decreases
{
    if j >= end || ns[j].start_byte >= limit {
        acc
    } else if ns[j].kind == "access_specifier"@ {
        access_among(
            ns,
            end_of(ns, j),
            end,
            limit,
            lower(without_colons(trim(ns[j].text))),
        )
    } else {
        access_among(ns, end_of(ns, j), end, limit, acc)
    }
}

#[via_fn]
proof fn access_among_decreases(
    ns: Seq<NodeView>,
    j: int,
    end: int,
    limit: int,
    acc: Seq<char>,
) {
    if j < end {
        lemma_end_from(ns, ns[j].depth, j + 1);
    }
}

/// The kinds of nodes among whose children access is named.
pub open spec fn names_access(kind: Seq<char>) -> bool {
    kind == "field_declaration_list"@ || kind == "class_specifier"@ || kind == "struct_specifier"@
}

/// The access to node `i`: what was named last before it in the class around it,
/// and public where nothing was.
pub open spec fn access_of(ns: Seq<NodeView>, i: int) -> Seq<char>
    decreases i,
    via access_of_decreases
{
    match parent_of(ns, i) {
        None => "public"@,
        Some(p) => if names_access(ns[p].kind) {
            access_among(ns, p + 1, end_of(ns, p), ns[i].start_byte as int, "public"@)
        } else {
            access_of(ns, p)
        },
    }
}

#[via_fn]
proof fn access_of_decreases(ns: Seq<NodeView>, i: int) {
    lemma_parent_from(ns, ns[i].depth, i);
}

/// The text without colons at its end.
fn strip_colons(s: &[char]) -> (r: &[char])
    ensures
        r@ == without_colons(s@),
{
    let mut n: usize = s.len();
    assert(s@.take(n as int) =~= s@);
    while n > 0 && s[n - 1] == ':'
        invariant
            n <= s@.len(),
            without_colons(s@) == without_colons(s@.take(n as int)),
        decreases n,
    {
        assert(s@.take(n as int).drop_last() =~= s@.take(n - 1));
        n = n - 1;
    }
    assert(s@.subrange(0, n as int) =~= s@.take(n as int));
    slice_subrange(s, 0, n)
}

/// The access to node `i`.
pub fn infer_access(tree: &SyntaxTree, i: usize) -> (r: String)
    requires
        i < tree@.len(),
    ensures
        r@ == access_of(tree@, i as int),
{
    let mut current: usize = i;
    loop
        invariant
            current < tree@.len(),
            access_of(tree@, i as int) == access_of(tree@, current as int),
        decreases current,
    {
        let p: usize = match tree.parent(current) {
            Some(p) => p,
            None => {
                return owned("public");
            },
        };
        if tree.is_kind(p, "field_declaration_list") || tree.is_kind(p, "class_specifier")
            || tree.is_kind(p, "struct_specifier") {
            let limit: usize = tree.nodes[current].start_byte;
            assert(tree@[current as int].start_byte == limit);
            let end: usize = tree.subtree_end(p);
            let mut access = owned("public");
            let mut j: usize = p + 1;
            while j < end && tree.nodes[j].start_byte < limit
                invariant
                    p < j,
                    end <= tree@.len(),
                    access_of(tree@, i as int) == access_among(
                        tree@,
                        j as int,
                        end as int,
                        limit as int,
                        access@,
                    ),
                decreases tree@.len() - j,
            {
                assert(tree@[j as int].start_byte == tree.nodes@[j as int].start_byte);
                if tree.is_kind(j, "access_specifier") {
                    let v = chars_of(tree.text(j));
                    let low = to_lower(strip_colons(trimmed(v.as_slice())));
                    access = string_of(low.as_slice());
                }
                j = tree.subtree_end(j);
            }
            assert(j < end ==> tree@[j as int].start_byte == tree.nodes@[j as int].start_byte);
            return access;
        }
        current = p;
    }
}

// ---------------------------------------------------------------------------
// Types before declarators
// ---------------------------------------------------------------------------
/// The position after the last closing bracket among the first `n` bytes.
pub open spec fn after_bracket(b: Seq<u8>, n: int) -> int
    decreases n,
{
    if n <= 0 {
        0
    } else if b[n - 1] == 41u8 {
        n
    } else {
        after_bracket(b, n - 1)
    }
}

/// The type that stands between two bytes of a source, behind the last closing
/// bracket.
pub open spec fn type_between(src: Seq<u8>, start: int, end: int) -> Option<Seq<char>> {
    if end <= start {
        None
    } else {
        let all = src.subrange(start, end);
        let b = all.skip(after_bracket(all, all.len() as int));
        let raw = if valid_utf8(b) {
            decode_utf8(b)
        } else {
            seq![]
        };
        if cleaned(raw).len() == 0 {
            None
        } else {
            Some(cleaned(raw))
        }
    }
}

/// The type that stands between two bytes of a source.
pub fn type_in_source(src: &[u8], start: usize, end: usize) -> (r: Option<String>)
    requires
        end <= src@.len(),
    ensures
        opt_text(r) == type_between(src@, start as int, end as int),
{
    if end <= start {
        return None;
    }
    let all = slice_subrange(src, start, end);
    let mut n: usize = all.len();
    while n > 0 && all[n - 1] != 41u8
        invariant
            n <= all@.len(),
            after_bracket(all@, all@.len() as int) == after_bracket(all@, n as int),
        decreases n,
    {
        n = n - 1;
    }
    assert(after_bracket(all@, all@.len() as int) == n);
    assert(all@.subrange(n as int, all@.len() as int) =~= all@.skip(n as int));
    let raw = match from_utf8(slice_subrange(all, n, all.len())) {
        Some(s) => s,
        None => string_of(Vec::new().as_slice()),
    };
    let clean = clean_type_string(raw.as_str());
    let v = chars_of(clean.as_str());
    if v.len() == 0 {
        None
    } else {
        Some(clean)
    }
}

// ---------------------------------------------------------------------------
// Members
// ---------------------------------------------------------------------------
/// All nodes begin within the source.
pub open spec fn within(ns: Seq<NodeView>, n: int) -> bool {
    forall|i: int| 0 <= i < ns.len() ==> (#[trigger] ns[i]).start_byte <= n
}

/// The words that are never the name of a member.
pub open spec fn no_member_name(name: Seq<char>) -> bool {
    ||| name == "virtual"@
    ||| name == "static"@
    ||| name == "void"@
    ||| name == "const"@
    ||| name == "class"@
    ||| name == "struct"@
}

/// Whether the word is never the name of a member.
pub fn should_skip_member_name(name: &str) -> (r: bool)
    ensures
        r == no_member_name(name@),
{
    str_eq(name, "virtual") || str_eq(name, "static") || str_eq(name, "void") || str_eq(
        name,
        "const",
    ) || str_eq(name, "class") || str_eq(name, "struct")
}

/// Node `i` is a function that the engine knows by reflection.
pub open spec fn reflected_function(ns: Seq<NodeView>, i: int) -> bool {
    ||| descendant(ns, i, "unreal_function_macro"@) is Some
    ||| descendant(ns, i, "unreal_function_declaration"@) is Some
    ||| ns[i].kind == "unreal_function_declaration"@
}

/// Node `i` is a property that the engine knows by reflection.
pub open spec fn reflected_property(ns: Seq<NodeView>, i: int) -> bool {
    descendant(ns, i, "unreal_property_macro"@) is Some
}

/// The member that node `i` declares, and the scope that it names, where the
/// node was captured under the name `cap`. A property is never a function; a
/// member that names a scope is the implementation of one.
pub open spec fn member_at(ns: Seq<NodeView>, src: Seq<u8>, i: int, cap: Seq<char>) -> Option<
    (MemberView, Option<Seq<char>>),
> {
    match declarator_below(ns, i) {
        None => None,
        Some(d) => match identity(ns, d, false) {
            None => None,
            Some(id) => {
                let ufunction = reflected_function(ns, i);
                let property = reflected_property(ns, i);
                let is_function = !property && (ufunction || cap == "func_node"@ || cap
                    == "ufunc_node"@ || id.is_function);
                if no_member_name(id.name) {
                    None
                } else {
                    Some(
                        (
                            MemberView {
                                name: id.name,
                                mem_type: if is_function {
                                    "function"@
                                } else {
                                    "property"@
                                },
                                flags: if ufunction && property {
                                    "UFUNCTION UPROPERTY"@
                                } else if ufunction {
                                    "UFUNCTION"@
                                } else if property {
                                    "UPROPERTY"@
                                } else {
                                    ""@
                                },
                                access: if id.scope_name is Some {
                                    "impl"@
                                } else {
                                    access_of(ns, i)
                                },
                                line: id.line,
                                end_line: ns[i].end_row.wrapping_add(1),
                                detail: match descendant(ns, i, "parameter_list"@) {
                                    Some(p) if is_function => Some(ns[p].text),
                                    _ => None,
                                },
                                return_type: type_between(
                                    src,
                                    ns[i].start_byte as int,
                                    ns[d].start_byte as int,
                                ),
                            },
                            id.scope_name,
                        ),
                    )
                }
            },
        },
    }
}

/// The member that node `i` declares, and the scope that it names.
pub fn member_of(tree: &SyntaxTree, src: &[u8], i: usize, cap: &str) -> (r: Option<
    (MemberInfo, Option<String>),
>)
    requires
        i < tree@.len(),
        within(tree@, src@.len() as int),
    ensures
        match r {
            Some((m, s)) => member_at(tree@, src@, i as int, cap@) == Some((m@, opt_text(s))),
            None => member_at(tree@, src@, i as int, cap@) is None,
        },
{
    let d: usize = match find_declarator_node(tree, i) {
        Some(d) => d,
        None => {
            return None;
        },
    };
    let id = match resolve_member_identity(tree, d) {
        Some(id) => id,
        None => {
            return None;
        },
    };
    if should_skip_member_name(id.name.as_str()) {
        return None;
    }
    let ufunction = tree.find_child_by_type(i, "unreal_function_macro").is_some()
        || tree.find_child_by_type(i, "unreal_function_declaration").is_some() || tree.is_kind(
        i,
        "unreal_function_declaration",
    );
    let property = tree.find_child_by_type(i, "unreal_property_macro").is_some();
    let is_function = !property && (ufunction || str_eq(cap, "func_node") || str_eq(
        cap,
        "ufunc_node",
    ) || id.is_function);
    let flags = if ufunction && property {
        owned("UFUNCTION UPROPERTY")
    } else if ufunction {
        owned("UFUNCTION")
    } else if property {
        owned("UPROPERTY")
    } else {
        owned("")
    };
    let access = if id.scope_name.is_some() {
        owned("impl")
    } else {
        infer_access(tree, i)
    };
    let detail: Option<String> = match tree.find_child_by_type(i, "parameter_list") {
        Some(p) => if is_function {
            Some(owned(tree.text(p)))
        } else {
            None
        },
        None => None,
    };
    let start: usize = tree.nodes[i].start_byte;
    let end: usize = tree.nodes[d].start_byte;
    assert(tree@[i as int].start_byte == start && tree@[d as int].start_byte == end);
    assert(tree@[i as int].end_row == tree.nodes@[i as int].end_row);
    let return_type = type_in_source(src, start, end);
    let member = MemberInfo {
        name: id.name,
        mem_type: if is_function {
            owned("function")
        } else {
            owned("property")
        },
        flags,
        access,
        line: id.line,
        end_line: tree.nodes[i].end_row.wrapping_add(1),
        detail,
        return_type,
    };
    Some((member, id.scope_name))
}

// ---------------------------------------------------------------------------
// Classes
// ---------------------------------------------------------------------------
/// The names of the namespaces and classes around node `i`, the outermost first.
pub open spec fn namespace_parts(ns: Seq<NodeView>, i: int) -> Seq<Seq<char>>
    decreases i,
    via namespace_parts_decreases
{
    match parent_of(ns, i) {
        None => seq![],
        Some(p) => {
            let outer = namespace_parts(ns, p);
            let k = ns[p].kind;
            if k == "namespace_definition"@ || k == "class_specifier"@ || k
                == "struct_specifier"@ {
                match child_field(ns, p, "name"@) {
                    Some(n) => outer + seq![ns[n].text],
                    None => outer,
                }
            } else {
                outer
            }
        },
    }
}

#[via_fn]
proof fn namespace_parts_decreases(ns: Seq<NodeView>, i: int) {
    lemma_parent_from(ns, ns[i].depth, i);
}

/// The namespace of node `i`.
pub open spec fn namespace_of(ns: Seq<NodeView>, i: int) -> Option<Seq<char>> {
    if namespace_parts(ns, i).len() == 0 {
        None
    } else {
        Some(join(namespace_parts(ns, i), "::"@))
    }
}

/// The namespace of node `i`.
pub fn get_namespace(tree: &SyntaxTree, i: usize) -> (r: Option<String>)
    requires
        i < tree@.len(),
    ensures
        opt_text(r) == namespace_of(tree@, i as int),
{
    let mut parts: Vec<String> = Vec::new();
    let mut current: usize = i;
    let ghost goal = namespace_parts(tree@, i as int);
    assert(namespace_parts(tree@, current as int) + texts(parts@) =~= goal);
    loop
        invariant
            current < tree@.len(),
            goal == namespace_parts(tree@, i as int),
            namespace_parts(tree@, current as int) + texts(parts@) == goal,
        ensures
            texts(parts@) == goal,
        decreases current,
    {
        let p: usize = match tree.parent(current) {
            Some(p) => p,
            None => {
                assert(Seq::<Seq<char>>::empty() + texts(parts@) =~= texts(parts@));
                break;
            },
        };
        if tree.is_kind(p, "namespace_definition") || tree.is_kind(p, "class_specifier")
            || tree.is_kind(p, "struct_specifier") {
            match tree.child_by_field(p, "name") {
                Some(n) => {
                    let ghost before = texts(parts@);
                    let ghost outer = namespace_parts(tree@, p as int);
                    let name = owned(tree.text(n));
                    parts.insert(0, name);
                    assert(texts(parts@) =~= seq![name@] + before);
                    assert((outer + seq![name@]) + before =~= outer + texts(parts@));
                },
                None => {},
            }
        }
        current = p;
    }
    if parts.len() == 0 {
        None
    } else {
        Some(join_strings(&parts, "::"))
    }
}

/// The class whose name node `i` is, where it was captured under `cap`: the
/// parent of the node, if that has a body.
pub open spec fn class_named(ns: Seq<NodeView>, i: int, cap: Seq<char>) -> Option<ClassView> {
    match parent_of(ns, i) {
        None => None,
        Some(p) => if child_field(ns, p, "body"@) is None {
            None
        } else {
            let space = namespace_of(ns, p);
            let name = match space {
                Some(s) if cap == "enum_name"@ && ns[i].text == "Type"@ => s + "::"@ + ns[i].text,
                _ => ns[i].text,
            };
            let k = ns[p].kind;
            Some(
                ClassView {
                    class_name: name,
                    namespace: space,
                    base_classes: seq![],
                    symbol_type: if k == "unreal_reflected_class_declaration"@ {
                        "UCLASS"@
                    } else if k == "unreal_reflected_struct_declaration"@ {
                        "USTRUCT"@
                    } else if k == "unreal_reflected_enum_declaration"@ {
                        "UENUM"@
                    } else if cap == "struct_name"@ {
                        "struct"@
                    } else if cap == "enum_name"@ {
                        "enum"@
                    } else {
                        "class"@
                    },
                    line: ns[p].start_row.wrapping_add(1),
                    end_line: ns[p].end_row.wrapping_add(1),
                    range_start: ns[p].start_byte,
                    range_end: ns[p].end_byte,
                    members: seq![],
                    is_final: token_in(ns[p].text, "final"@),
                    is_interface: descendant(ns, p, "unreal_interface_macro"@) is Some,
                },
            )
        },
    }
}

/// The class whose name node `i` is.
pub fn class_of_name(tree: &SyntaxTree, i: usize, cap: &str) -> (r: Option<ClassInfo>)
    requires
        i < tree@.len(),
    ensures
        match r {
            Some(c) => class_named(tree@, i as int, cap@) == Some(c@),
            None => class_named(tree@, i as int, cap@) is None,
        },
{
    let p: usize = match tree.parent(i) {
        Some(p) => p,
        None => {
            return None;
        },
    };
    match tree.child_by_field(p, "body") {
        Some(_) => {},
        None => {
            return None;
        },
    }
    let namespace = get_namespace(tree, p);
    let plain = owned(tree.text(i));
    let name = match &namespace {
        Some(s) => if str_eq(cap, "enum_name") && str_eq(plain.as_str(), "Type") {
            let q = concat(s.as_str(), "::");
            concat(q.as_str(), plain.as_str())
        } else {
            plain
        },
        None => plain,
    };
    let symbol_type = if tree.is_kind(p, "unreal_reflected_class_declaration") {
        owned("UCLASS")
    } else if tree.is_kind(p, "unreal_reflected_struct_declaration") {
        owned("USTRUCT")
    } else if tree.is_kind(p, "unreal_reflected_enum_declaration") {
        owned("UENUM")
    } else if str_eq(cap, "struct_name") {
        owned("struct")
    } else if str_eq(cap, "enum_name") {
        owned("enum")
    } else {
        owned("class")
    };
    let v = chars_of(tree.text(p));
    assert(tree@[p as int].start_row == tree.nodes@[p as int].start_row);
    assert(tree@[p as int].end_row == tree.nodes@[p as int].end_row);
    assert(tree@[p as int].start_byte == tree.nodes@[p as int].start_byte);
    assert(tree@[p as int].end_byte == tree.nodes@[p as int].end_byte);
    let r = ClassInfo {
        class_name: name,
        namespace,
        base_classes: Vec::new(),
        symbol_type,
        line: tree.nodes[p].start_row.wrapping_add(1),
        end_line: tree.nodes[p].end_row.wrapping_add(1),
        range_start: tree.nodes[p].start_byte,
        range_end: tree.nodes[p].end_byte,
        members: Vec::new(),
        is_final: contains_token(v.as_slice(), "final"),
        is_interface: tree.find_child_by_type(p, "unreal_interface_macro").is_some(),
    };
    assert(r@.base_classes =~= seq![]);
    assert(r@.members =~= seq![]);
    Some(r)
}

} // verus!
