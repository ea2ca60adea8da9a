//! What stands under the cursor, and what the file at hand says of it.

use vstd::prelude::*;
use vstd::slice::slice_subrange;

use crate::diagnostics::normalize_space;
use crate::syntax::SyntaxTree;
use crate::text::{copy_opt, chars_of, owned, replace_char, replace_str, rfind_str, starts_with_str,
    str_eq, string_of, to_vec, trim_string, trimmed};
#[allow(unused_imports)]
use crate::diagnostics::spaced;
#[allow(unused_imports)]
use crate::syntax::{child_field, end_of, kind_from, lemma_end_from, lemma_field_from,
    lemma_parent_from, parent_of, NodeView};
#[allow(unused_imports)]
use crate::text::{join, lemma_trimmed_len, lemma_word_len, lemma_ws_prefix, occurs_at, opt_text,
    replace_all, rfind, starts, swap_char, trim, trim_start, views, word_len, words, ws};

verus! {

/// The symbol under the cursor and what it is looked up through.
#[derive(Debug, Clone)]
pub struct CursorCtx {
    /// The symbol itself.
    pub symbol: String,
    /// What stands before `::`, `.` or `->`.
    pub qualifier: Option<String>,
    /// Which of the three it is.
    pub qualifier_op: Option<String>,
    /// The class around the cursor.
    pub enclosing_class: Option<String>,
}

/// What a cursor context says.
pub struct CursorView {
    pub symbol: Seq<char>,
    pub qualifier: Option<Seq<char>>,
    pub qualifier_op: Option<Seq<char>>,
    pub enclosing_class: Option<Seq<char>>,
}

impl View for CursorCtx {
    type V = CursorView;

    open spec fn view(&self) -> CursorView {
        CursorView {
            symbol: self.symbol@,
            qualifier: opt_text(self.qualifier),
            qualifier_op: opt_text(self.qualifier_op),
            enclosing_class: opt_text(self.enclosing_class),
        }
    }
}

/// The kinds of nodes that hold the code of a function.
pub open spec fn function_like(kind: Seq<char>) -> bool {
    ||| kind == "function_definition"@
    ||| kind == "unreal_function_definition"@
    ||| kind == "lambda_expression"@
}

/// The kinds of nodes that may be a symbol.
pub open spec fn symbol_kind(kind: Seq<char>) -> bool {
    ||| kind == "identifier"@
    ||| kind == "field_identifier"@
    ||| kind == "type_identifier"@
    ||| kind == "namespace_identifier"@
    ||| kind == "qualified_identifier"@
    ||| kind == "template_type"@
    ||| kind == "template_function"@
    ||| kind == "template_method"@
}

/// The kinds of nodes beyond which a symbol is not looked for.
pub open spec fn symbol_limit(kind: Seq<char>) -> bool {
    ||| kind == "call_expression"@
    ||| kind == "field_expression"@
    ||| kind == "function_declarator"@
    ||| kind == "declaration"@
    ||| kind == "function_definition"@
    ||| kind == "parameter_declaration"@
}

/// The nearest symbol at or above node `i`.
pub open spec fn symbol_at(ns: Seq<NodeView>, i: int) -> Option<int>
    decreases i,
    via symbol_at_decreases
{
    if symbol_kind(ns[i].kind) {
        Some(i)
    } else {
        match parent_of(ns, i) {
            None => None,
            Some(p) => if !symbol_kind(ns[p].kind) && symbol_limit(ns[p].kind) {
                None
            } else {
                symbol_at(ns, p)
            },
        }
    }
}

#[via_fn]
proof fn symbol_at_decreases(ns: Seq<NodeView>, i: int) {
    lemma_parent_from(ns, ns[i].depth, i);
}

/// The text of a symbol: that of its name where it is qualified or a template.
pub open spec fn symbol_name(ns: Seq<NodeView>, i: int) -> Seq<char> {
    let k = ns[i].kind;
    let named = k == "qualified_identifier"@ || k == "template_type"@ || k == "template_function"@
        || k == "template_method"@;
    match child_field(ns, i, "name"@) {
        Some(n) => if named {
            trim(ns[n].text)
        } else {
            trim(ns[i].text)
        },
        None => trim(ns[i].text),
    }
}

/// What follows the last `::`.
pub open spec fn without_namespace(s: Seq<char>) -> Seq<char> {
    match rfind(s, "::"@) {
        Some(i) => trim(s.skip(i + 2)),
        None => trim(s),
    }
}

/// What follows the last `::`, as characters.
pub fn strip_namespace_chars(s: &[char]) -> (r: Vec<char>)
    ensures
        r@ == without_namespace(s@),
{
    proof {
        reveal_strlit("::");
    }
    match rfind_str(s, "::") {
        Some(i) => {
            assert(s@.subrange(i + 2, s@.len() as int) =~= s@.skip(i + 2));
            to_vec(trimmed(slice_subrange(s, i + 2, s.len())))
        },
        None => to_vec(trimmed(s)),
    }
}

/// What follows the last `::`.
pub fn strip_namespace(name: &str) -> (r: String)
    ensures
        r@ == without_namespace(name@),
{
    let v = chars_of(name);
    let out = strip_namespace_chars(v.as_slice());
    string_of(out.as_slice())
}

/// The kinds of nodes that define a class or a struct.
pub open spec fn type_kind(kind: Seq<char>) -> bool {
    ||| kind == "class_specifier"@
    ||| kind == "struct_specifier"@
    ||| kind == "unreal_class_declaration"@
    ||| kind == "unreal_struct_declaration"@
    ||| kind == "unreal_reflected_class_declaration"@
    ||| kind == "unreal_reflected_struct_declaration"@
}

/// The class that node `i` itself stands for: the one that it defines, or the
/// one whose function it defines.
pub open spec fn class_here(ns: Seq<NodeView>, i: int) -> Option<Seq<char>> {
    if type_kind(ns[i].kind) {
        match child_field(ns, i, "name"@) {
            Some(n) => if trim(ns[n].text).len() > 0 {
                Some(without_namespace(trim(ns[n].text)))
            } else {
                None
            },
            None => None,
        }
    } else if ns[i].kind == "function_definition"@ {
        match child_field(ns, i, "declarator"@) {
            None => None,
            Some(d) => match kind_from(ns, d, end_of(ns, d), "qualified_identifier"@) {
                None => None,
                Some(q) => match child_field(ns, q, "scope"@) {
                    None => None,
                    Some(s) => if trim(ns[s].text).len() > 0 {
                        Some(without_namespace(trim(ns[s].text)))
                    } else {
                        None
                    },
                },
            },
        }
    } else {
        None
    }
}

/// The class around node `i`.
pub open spec fn class_around(ns: Seq<NodeView>, i: int) -> Option<Seq<char>>
    decreases i,
    via class_around_decreases
{
    if class_here(ns, i) is Some {
        class_here(ns, i)
    } else {
        match parent_of(ns, i) {
            Some(p) => class_around(ns, p),
            None => None,
        }
    }
}

#[via_fn]
proof fn class_around_decreases(ns: Seq<NodeView>, i: int) {
    lemma_parent_from(ns, ns[i].depth, i);
}

/// What stands before the operator in a field access, among the siblings from
/// `j` up to `end`, `prev` being the one before.
pub open spec fn field_qualifier(ns: Seq<NodeView>, j: int, end: int, prev: Option<int>) -> Option<
    (Seq<char>, Seq<char>),
>
    decreases ns.len() - j,
    when 0 <= j && end <= ns.len()
    via field_qualifier_decreases
{
    if j >= end {
        None
    } else if (ns[j].kind == "."@ || ns[j].kind == "->"@) && prev is Some && trim(
        ns[prev->0].text,
    ).len() > 0 {
        Some((trim(ns[prev->0].text), ns[j].kind))
    } else {
        field_qualifier(ns, end_of(ns, j), end, Some(j))
    }
}

#[via_fn]
proof fn field_qualifier_decreases(ns: Seq<NodeView>, j: int, end: int, prev: Option<int>) {
    if j < end {
        lemma_end_from(ns, ns[j].depth, j + 1);
    }
}

/// What the nearest qualified name or field access above node `i` says of it:
/// the qualifier and its operator.
pub open spec fn qualifier_of(ns: Seq<NodeView>, i: int) -> Option<(Seq<char>, Seq<char>)>
    decreases i,
    via qualifier_of_decreases
{
    match parent_of(ns, i) {
        None => None,
        Some(p) => if ns[p].kind == "qualified_identifier"@ {
            match child_field(ns, p, "scope"@) {
                Some(s) => if trim(ns[s].text).len() > 0 {
                    Some((without_namespace(trim(ns[s].text)), "::"@))
                } else {
                    None
                },
                None => None,
            }
        } else if ns[p].kind == "field_expression"@ {
            field_qualifier(ns, p + 1, end_of(ns, p), None)
        } else {
            qualifier_of(ns, p)
        },
    }
}

#[via_fn]
proof fn qualifier_of_decreases(ns: Seq<NodeView>, i: int) {
    lemma_parent_from(ns, ns[i].depth, i);
}

/// The context of a cursor that stands on node `at`.
pub open spec fn cursor_context(ns: Seq<NodeView>, at: int) -> Option<CursorView> {
    match symbol_at(ns, at) {
        None => None,
        Some(i) => if symbol_name(ns, i).len() == 0 || ns[i].extra {
            None
        } else {
            Some(
                CursorView {
                    symbol: symbol_name(ns, i),
                    qualifier: match qualifier_of(ns, i) {
                        Some((q, op)) => Some(q),
                        None => None,
                    },
                    qualifier_op: match qualifier_of(ns, i) {
                        Some((q, op)) => Some(op),
                        None => None,
                    },
                    enclosing_class: class_around(ns, i),
                },
            )
        },
    }
}

/// Whether node `i` holds the code of a function.
pub fn is_function_like(tree: &SyntaxTree, i: usize) -> (r: bool)
    requires
        i < tree@.len(),
    ensures
        r == function_like(tree@[i as int].kind),
{
    tree.is_kind(i, "function_definition") || tree.is_kind(i, "unreal_function_definition")
        || tree.is_kind(i, "lambda_expression")
}

/// Whether node `i` may be a symbol.
fn is_symbol_node(tree: &SyntaxTree, i: usize) -> (r: bool)
    requires
        i < tree@.len(),
    ensures
        r == symbol_kind(tree@[i as int].kind),
{
    tree.is_kind(i, "identifier") || tree.is_kind(i, "field_identifier") || tree.is_kind(
        i,
        "type_identifier",
    ) || tree.is_kind(i, "namespace_identifier") || tree.is_kind(i, "qualified_identifier")
        || tree.is_kind(i, "template_type") || tree.is_kind(i, "template_function")
        || tree.is_kind(i, "template_method")
}

/// Whether a symbol is not looked for beyond node `i`.
fn is_symbol_limit(tree: &SyntaxTree, i: usize) -> (r: bool)
    requires
        i < tree@.len(),
    ensures
        r == symbol_limit(tree@[i as int].kind),
{
    tree.is_kind(i, "call_expression") || tree.is_kind(i, "field_expression") || tree.is_kind(
        i,
        "function_declarator",
    ) || tree.is_kind(i, "declaration") || tree.is_kind(i, "function_definition") || tree.is_kind(
        i,
        "parameter_declaration",
    )
}

/// The nearest symbol at or above node `i`.
pub fn normalize_symbol_node(tree: &SyntaxTree, i: usize) -> (r: Option<usize>)
    requires
        i < tree@.len(),
    ensures
        match r {
            Some(s) => symbol_at(tree@, i as int) == Some(s as int) && s < tree@.len(),
            None => symbol_at(tree@, i as int) is None,
        },
{
    let mut node: usize = i;
    loop
        invariant
            node < tree@.len(),
            symbol_at(tree@, i as int) == symbol_at(tree@, node as int),
        decreases node,
    {
        if is_symbol_node(tree, node) {
            return Some(node);
        }
        match tree.parent(node) {
            None => {
                return None;
            },
            Some(p) => {
                if !is_symbol_node(tree, p) && is_symbol_limit(tree, p) {
                    return None;
                }
                node = p;
            },
        }
    }
}

/// The text of a symbol.
pub fn symbol_text(tree: &SyntaxTree, i: usize) -> (r: String)
    requires
        i < tree@.len(),
    ensures
        r@ == symbol_name(tree@, i as int),
{
    if tree.is_kind(i, "qualified_identifier") || tree.is_kind(i, "template_type") || tree.is_kind(
        i,
        "template_function",
    ) || tree.is_kind(i, "template_method") {
        match tree.child_by_field(i, "name") {
            Some(n) => {
                return trim_string(tree.text(n));
            },
            None => {},
        }
    }
    trim_string(tree.text(i))
}

/// The last part of the trimmed text of node `i`, unless that is empty.
fn plain_type_text(tree: &SyntaxTree, i: usize) -> (r: Option<String>)
    requires
        i < tree@.len(),
    ensures
        opt_text(r) == (if trim(tree@[i as int].text).len() > 0 {
            Some(without_namespace(trim(tree@[i as int].text)))
        } else {
            None
        }),
{
    let v = chars_of(tree.text(i));
    let t = trimmed(v.as_slice());
    if t.len() > 0 {
        let out = strip_namespace_chars(t);
        Some(string_of(out.as_slice()))
    } else {
        None
    }
}

/// The first node of the given kind at or below node `i`.
fn find_descendant_of_kind(tree: &SyntaxTree, i: usize, kind: &str) -> (r: Option<usize>)
    requires
        i < tree@.len(),
    ensures
        match r {
            Some(c) => kind_from(tree@, i as int, end_of(tree@, i as int), kind@) == Some(c as int)
                && c < tree@.len(),
            None => kind_from(tree@, i as int, end_of(tree@, i as int), kind@) is None,
        },
{
    if tree.is_kind(i, kind) {
        proof {
            lemma_end_from(tree@, tree@[i as int].depth, i + 1);
        }
        Some(i)
    } else {
        proof {
            lemma_end_from(tree@, tree@[i as int].depth, i + 1);
        }
        tree.find_child_by_type(i, kind)
    }
}

/// Whether node `i` defines a class or a struct.
fn is_type_node(tree: &SyntaxTree, i: usize) -> (r: bool)
    requires
        i < tree@.len(),
    ensures
        r == type_kind(tree@[i as int].kind),
{
    tree.is_kind(i, "class_specifier") || tree.is_kind(i, "struct_specifier") || tree.is_kind(
        i,
        "unreal_class_declaration",
    ) || tree.is_kind(i, "unreal_struct_declaration") || tree.is_kind(
        i,
        "unreal_reflected_class_declaration",
    ) || tree.is_kind(i, "unreal_reflected_struct_declaration")
}

/// The class that node `i` itself stands for.
fn class_at_node(tree: &SyntaxTree, i: usize) -> (r: Option<String>)
    requires
        i < tree@.len(),
    ensures
        opt_text(r) == class_here(tree@, i as int),
{
    if is_type_node(tree, i) {
        match tree.child_by_field(i, "name") {
            Some(n) => plain_type_text(tree, n),
            None => None,
        }
    } else if tree.is_kind(i, "function_definition") {
        match tree.child_by_field(i, "declarator") {
            None => None,
            Some(d) => match find_descendant_of_kind(tree, d, "qualified_identifier") {
                None => None,
                Some(q) => match tree.child_by_field(q, "scope") {
                    None => None,
                    Some(s) => plain_type_text(tree, s),
                },
            },
        }
    } else {
        None
    }
}

/// The class around node `i`.
pub fn get_enclosing_class(tree: &SyntaxTree, i: usize) -> (r: Option<String>)
    requires
        i < tree@.len(),
    ensures
        opt_text(r) == class_around(tree@, i as int),
{
    let mut node: usize = i;
    loop
        invariant
            node < tree@.len(),
            class_around(tree@, i as int) == class_around(tree@, node as int),
        decreases node,
    {
        let here = class_at_node(tree, node);
        if here.is_some() {
            return here;
        }
        match tree.parent(node) {
            Some(p) => {
                node = p;
            },
            None => {
                return None;
            },
        }
    }
}

/// The view of an optional pair of strings.
pub open spec fn opt_pair(r: Option<(String, String)>) -> Option<(Seq<char>, Seq<char>)> {
    match r {
        Some((a, b)) => Some((a@, b@)),
        None => None,
    }
}

/// What stands before the operator in the field access of node `p`.
fn qualifier_in_field(tree: &SyntaxTree, p: usize) -> (r: Option<(String, String)>)
    requires
        p < tree@.len(),
    ensures
        opt_pair(r) == field_qualifier(tree@, p + 1, end_of(tree@, p as int), None),
{
    let end: usize = tree.subtree_end(p);
    let mut j: usize = p + 1;
    let mut prev: Option<usize> = None;
    let ghost mut gprev: Option<int> = None;
    while j < end
        invariant
            p < j,
            end <= tree@.len(),
            end == end_of(tree@, p as int),
            match prev {
                Some(k) => gprev == Some(k as int) && k < tree@.len(),
                None => gprev is None,
            },
            field_qualifier(tree@, p + 1, end as int, None) == field_qualifier(
                tree@,
                j as int,
                end as int,
                gprev,
            ),
        decreases tree@.len() - j,
    {
        if tree.is_kind(j, ".") || tree.is_kind(j, "->") {
            match prev {
                Some(k) => {
                    let object = trim_string(tree.text(k));
                    let v = chars_of(object.as_str());
                    if v.len() > 0 {
                        assert(tree@[j as int].kind == tree.nodes@[j as int].kind@);
                        return Some((object, tree.nodes[j].kind.clone()));
                    }
                },
                None => {},
            }
        }
        prev = Some(j);
        proof {
            gprev = Some(j as int);
        }
        j = tree.subtree_end(j);
    }
    None
}

/// What the nearest qualified name or field access above node `i` says of it.
pub fn extract_qualifier(tree: &SyntaxTree, i: usize) -> (r: Option<(String, String)>)
    requires
        i < tree@.len(),
    ensures
        opt_pair(r) == qualifier_of(tree@, i as int),
{
    let mut node: usize = i;
    loop
        invariant
            node < tree@.len(),
            qualifier_of(tree@, i as int) == qualifier_of(tree@, node as int),
        decreases node,
    {
        match tree.parent(node) {
            None => {
                return None;
            },
            Some(p) => {
                if tree.is_kind(p, "qualified_identifier") {
                    return match tree.child_by_field(p, "scope") {
                        Some(s) => match plain_type_text(tree, s) {
                            Some(q) => Some((q, owned("::"))),
                            None => None,
                        },
                        None => None,
                    };
                }
                if tree.is_kind(p, "field_expression") {
                    return qualifier_in_field(tree, p);
                }
                node = p;
            },
        }
    }
}

/// The context of a cursor that stands on node `at`.
pub fn extract_cursor_context(tree: &SyntaxTree, at: usize) -> (r: Option<CursorCtx>)
    requires
        at < tree@.len(),
    ensures
        match r {
            Some(c) => cursor_context(tree@, at as int) == Some(c@),
            None => cursor_context(tree@, at as int) is None,
        },
{
    match normalize_symbol_node(tree, at) {
        None => None,
        Some(i) => {
            let symbol = symbol_text(tree, i);
            let v = chars_of(symbol.as_str());
            assert(tree@[i as int].extra == tree.nodes@[i as int].extra);
            if v.len() == 0 || tree.nodes[i].extra {
                return None;
            }
            let enclosing_class = get_enclosing_class(tree, i);
            match extract_qualifier(tree, i) {
                Some((q, op)) => Some(
                    CursorCtx {
                        symbol,
                        qualifier: Some(q),
                        qualifier_op: Some(op),
                        enclosing_class,
                    },
                ),
                None => Some(
                    CursorCtx { symbol, qualifier: None, qualifier_op: None, enclosing_class },
                ),
            }
        },
    }
}

// ---------------------------------------------------------------------------
// Types of variables
// ---------------------------------------------------------------------------
/// The kinds of declarators that may hold another one.
pub open spec fn holds_declarator(kind: Seq<char>) -> bool {
    ||| kind == "pointer_declarator"@
    ||| kind == "reference_declarator"@
    ||| kind == "array_declarator"@
    ||| kind == "function_declarator"@
    ||| kind == "init_declarator"@
}

/// The node that names what the declarator `i` declares: a plain name itself,
/// the name inside of its declarator, else the first that a child yields.
pub open spec fn decl_name(ns: Seq<NodeView>, i: int) -> Option<int>
    decreases ns.len() - i, 1nat,
    when 0 <= i < ns.len()
    via decl_name_decreases
{
    if ns[i].kind == "identifier"@ || ns[i].kind == "field_identifier"@ {
        Some(i)
    } else if holds_declarator(ns[i].kind) && child_field(ns, i, "declarator"@) is Some {
        decl_name(ns, child_field(ns, i, "declarator"@)->0)
    } else {
        decl_name_in(ns, i + 1, end_of(ns, i))
    }
}

/// The name that the first of the siblings from `j` up to `end` yields that
/// yields one.
pub open spec fn decl_name_in(ns: Seq<NodeView>, j: int, end: int) -> Option<int>
    decreases ns.len() - j, 2nat,
    when 0 <= j && end <= ns.len()
    via decl_name_in_decreases
{
    if j >= end {
        None
    } else if decl_name(ns, j) is Some {
        decl_name(ns, j)
    } else {
        decl_name_in(ns, end_of(ns, j), end)
    }
}

#[via_fn]
proof fn decl_name_decreases(ns: Seq<NodeView>, i: int) {
    lemma_end_from(ns, ns[i].depth, i + 1);
    lemma_field_from(ns, i + 1, end_of(ns, i), "declarator"@);
}

#[via_fn]
proof fn decl_name_in_decreases(ns: Seq<NodeView>, j: int, end: int) {
    if j < end {
        lemma_end_from(ns, ns[j].depth, j + 1);
    }
}

/// The node that names what the declarator `i` declares.
pub fn extract_decl_name_node(tree: &SyntaxTree, i: usize) -> (r: Option<usize>)
    requires
        i < tree@.len(),
    ensures
        match r {
            Some(c) => decl_name(tree@, i as int) == Some(c as int) && c < tree@.len(),
            None => decl_name(tree@, i as int) is None,
        },
    decreases tree@.len() - i,
{
    if tree.is_plain_name(i) {
        return Some(i);
    }
    if tree.is_kind(i, "pointer_declarator") || tree.is_kind(i, "reference_declarator")
        || tree.is_kind(i, "array_declarator") || tree.is_kind(i, "function_declarator")
        || tree.is_kind(i, "init_declarator") {
        match tree.child_by_field(i, "declarator") {
            Some(d) => {
                return extract_decl_name_node(tree, d);
            },
            None => {},
        }
    }
    let end: usize = tree.subtree_end(i);
    let mut j: usize = i + 1;
    while j < end
        invariant
            i < j,
            end <= tree@.len(),
            decl_name(tree@, i as int) == decl_name_in(tree@, j as int, end as int),
        decreases tree@.len() - j,
    {
        match extract_decl_name_node(tree, j) {
            Some(found) => {
                return Some(found);
            },
            None => {},
        }
        j = tree.subtree_end(j);
    }
    None
}

/// The wrappers of pointers and optional values that are looked through.
pub open spec fn wrappers() -> Seq<Seq<char>> {
    seq![
        "TObjectPtr<"@,
        "TWeakObjectPtr<"@,
        "TSoftObjectPtr<"@,
        "TSubclassOf<"@,
        "TScriptInterface<"@,
        "TOptional<"@,
        "TSharedPtr<"@,
        "TSharedRef<"@,
        "TUniquePtr<"@,
    ]
}

/// The type inside of the first of the wrappers from `i` on that the text has.
pub open spec fn wrapped_from(s: Seq<char>, i: int) -> Option<Seq<char>>
    decreases wrappers().len() - i,
{
    if i < 0 || i >= wrappers().len() {
        None
    } else if starts(s, wrappers()[i]) && s.last() == '>' {
        Some(trim(s.subrange(wrappers()[i].len() as int, s.len() - 1)))
    } else {
        wrapped_from(s, i + 1)
    }
}

/// The text without what qualifies a type, evenly spaced.
pub open spec fn unqualified(raw: Seq<char>) -> Seq<char> {
    let s = replace_all(raw, "const"@, " "@);
    let s = replace_all(s, "volatile"@, " "@);
    let s = replace_all(s, "class "@, " "@);
    let s = replace_all(s, "struct "@, " "@);
    spaced(swap_char(swap_char(s, '*', ' '), '&', ' '))
}

/// The name under which a type is looked up: without qualifiers, wrappers and
/// namespaces.
pub open spec fn lookup_type(raw: Seq<char>) -> Seq<char>
    decreases raw.len(),
    via lookup_type_decreases
{
    match wrapped_from(unqualified(raw), 0) {
        Some(inner) => lookup_type(inner),
        None => without_namespace(trim(unqualified(raw))),
    }
}

#[via_fn]
proof fn lookup_type_decreases(raw: Seq<char>) {
    lemma_unqualified_len(raw);
    lemma_wrapped_len(unqualified(raw), 0);
}

/// Replacing by something no longer does not make a text longer.
pub proof fn lemma_replace_len(s: Seq<char>, p: Seq<char>, r: Seq<char>)
    requires
        r.len() <= p.len(),
    ensures
        replace_all(s, p, r).len() <= s.len(),
    decreases s.len(),
{
    if s.len() > 0 {
        if p.len() > 0 && occurs_at(s, p, 0) {
            lemma_replace_len(s.skip(p.len() as int), p, r);
        } else {
            lemma_replace_len(s.skip(1), p, r);
        }
    }
}

/// A list joined is its first piece, then the rest joined.
pub proof fn lemma_join_cons(w: Seq<char>, rest: Seq<Seq<char>>, sep: Seq<char>)
    ensures
        join(seq![w] + rest, sep) == (if rest.len() == 0 {
            w
        } else {
            w + sep + join(rest, sep)
        }),
    decreases rest.len(),
{
    let all = seq![w] + rest;
    if rest.len() == 0 {
        assert(all =~= seq![w]);
    } else {
        assert(all.drop_last() =~= seq![w] + rest.drop_last());
        lemma_join_cons(w, rest.drop_last(), sep);
        if rest.len() == 1 {
            assert(rest.drop_last().len() == 0);
            assert(join(all, sep) =~= w + sep + join(rest, sep));
        } else {
            assert(join(all, sep) =~= w + sep + join(rest, sep));
        }
    }
}

/// Even spacing does not make a text longer.
pub proof fn lemma_spaced_len(s: Seq<char>)
    ensures
        spaced(s).len() <= s.len(),
        s.len() > 0 && ws(s[0]) ==> spaced(s).len() < s.len(),
    decreases s.len(),
{
    reveal_strlit(" ");
    if s.len() > 0 {
        if ws(s[0]) {
            lemma_spaced_len(s.skip(1));
        } else {
            lemma_word_len(s);
            lemma_word_stop(s);
            let n = word_len(s) as int;
            lemma_spaced_len(s.skip(n));
            lemma_join_cons(s.take(n), words(s.skip(n)), " "@);
        }
    }
}

proof fn lemma_word_stop(s: Seq<char>)
    ensures
        word_len(s) <= s.len(),
        word_len(s) < s.len() ==> ws(s[word_len(s) as int]),
    decreases s.len(),
{
    if s.len() > 0 && !ws(s[0]) {
        lemma_word_stop(s.skip(1));
        if word_len(s) < s.len() {
            assert(s.skip(1)[word_len(s.skip(1)) as int] == s[word_len(s) as int]);
        }
    }
}

proof fn lemma_unqualified_len(raw: Seq<char>)
    ensures
        unqualified(raw).len() <= raw.len(),
{
    reveal_strlit(" ");
    reveal_strlit("const");
    reveal_strlit("volatile");
    reveal_strlit("class ");
    reveal_strlit("struct ");
    let a = replace_all(raw, "const"@, " "@);
    lemma_replace_len(raw, "const"@, " "@);
    let b = replace_all(a, "volatile"@, " "@);
    lemma_replace_len(a, "volatile"@, " "@);
    let c = replace_all(b, "class "@, " "@);
    lemma_replace_len(b, "class "@, " "@);
    let d = replace_all(c, "struct "@, " "@);
    lemma_replace_len(c, "struct "@, " "@);
    lemma_spaced_len(swap_char(swap_char(d, '*', ' '), '&', ' '));
}

proof fn lemma_trim_len(s: Seq<char>)
    ensures
        trim(s).len() <= s.len(),
{
    lemma_ws_prefix(s);
    lemma_trimmed_len(trim_start(s));
}

proof fn lemma_wrapped_len(s: Seq<char>, i: int)
    ensures
        match wrapped_from(s, i) {
            Some(inner) => inner.len() < s.len(),
            None => true,
        },
    decreases wrappers().len() - i,
{
    reveal_strlit("TObjectPtr<");
    reveal_strlit("TWeakObjectPtr<");
    reveal_strlit("TSoftObjectPtr<");
    reveal_strlit("TSubclassOf<");
    reveal_strlit("TScriptInterface<");
    reveal_strlit("TOptional<");
    reveal_strlit("TSharedPtr<");
    reveal_strlit("TSharedRef<");
    reveal_strlit("TUniquePtr<");
    if 0 <= i < wrappers().len() {
        if starts(s, wrappers()[i]) && s.last() == '>' {
            let w = wrappers()[i];
            assert(w.len() > 1 && w.last() == '<');
            assert(s.subrange(0, w.len() as int)[w.len() - 1] == '<');
            assert(s.len() > w.len());
            lemma_trim_len(s.subrange(w.len() as int, s.len() - 1));
        } else {
            lemma_wrapped_len(s, i + 1);
        }
    }
}

/// The type inside of a wrapper.
fn inner_of(s: &[char], wrapper: &str) -> (r: Option<Vec<char>>)
    requires
        wrapper@.len() > 0,
        wrapper@.last() == '<',
    ensures
        match r {
            Some(v) => starts(s@, wrapper@) && s@.last() == '>' && v@ == trim(
                s@.subrange(wrapper@.len() as int, s@.len() - 1),
            ),
            None => !(starts(s@, wrapper@) && s@.last() == '>'),
        },
{
    let w = chars_of(wrapper);
    if starts_with_str(s, wrapper) {
        assert(s@.subrange(0, w@.len() as int)[w@.len() - 1] == '<');
        if s[s.len() - 1] == '>' {
            assert(s@.len() > w@.len());
            return Some(to_vec(trimmed(slice_subrange(s, w.len(), s.len() - 1))));
        }
    }
    None
}

/// The type inside of a known wrapper.
pub fn extract_known_unreal_wrapper_inner(s: &[char]) -> (r: Option<Vec<char>>)
    ensures
        match r {
            Some(v) => wrapped_from(s@, 0) == Some(v@),
            None => wrapped_from(s@, 0) is None,
        },
{
    proof {
        reveal_strlit("TObjectPtr<");
        reveal_strlit("TWeakObjectPtr<");
        reveal_strlit("TSoftObjectPtr<");
        reveal_strlit("TSubclassOf<");
        reveal_strlit("TScriptInterface<");
        reveal_strlit("TOptional<");
        reveal_strlit("TSharedPtr<");
        reveal_strlit("TSharedRef<");
        reveal_strlit("TUniquePtr<");
    }
    let list: Vec<&'static str> = vec![
        "TObjectPtr<",
        "TWeakObjectPtr<",
        "TSoftObjectPtr<",
        "TSubclassOf<",
        "TScriptInterface<",
        "TOptional<",
        "TSharedPtr<",
        "TSharedRef<",
        "TUniquePtr<",
    ];
    let mut i: usize = 0;
    assert(forall|j: int|
        0 <= j < list@.len() ==> (#[trigger] list@[j])@ == wrappers()[j] && list@[j]@.len() > 0
            && list@[j]@.last() == '<');
    while i < list.len()
        invariant
            i <= list@.len(),
            list@.len() == wrappers().len(),
            forall|j: int|
                0 <= j < list@.len() ==> (#[trigger] list@[j])@ == wrappers()[j] && list@[j]@.len()
                    > 0 && list@[j]@.last() == '<',
            wrapped_from(s@, 0) == wrapped_from(s@, i as int),
        decreases list.len() - i,
    {
        assert(list@[i as int]@ == wrappers()[i as int]);
        match inner_of(s, list[i]) {
            Some(v) => {
                return Some(v);
            },
            None => {},
        }
        i = i + 1;
    }
    None
}

/// The name under which a type is looked up, as characters.
pub fn clean_type_chars(raw: &[char]) -> (r: Vec<char>)
    ensures
        r@ == lookup_type(raw@),
    decreases raw@.len(),
{
    proof {
        reveal_strlit("const");
        reveal_strlit("volatile");
        reveal_strlit("class ");
        reveal_strlit("struct ");
        lemma_unqualified_len(raw@);
        lemma_wrapped_len(unqualified(raw@), 0);
    }
    let s = replace_str(raw, "const", " ");
    let s = replace_str(s.as_slice(), "volatile", " ");
    let s = replace_str(s.as_slice(), "class ", " ");
    let s = replace_str(s.as_slice(), "struct ", " ");
    let s = replace_char(s.as_slice(), '*', ' ');
    let s = replace_char(s.as_slice(), '&', ' ');
    let s = string_of(s.as_slice());
    let s = normalize_space(s.as_str());
    let text = chars_of(s.as_str());
    match extract_known_unreal_wrapper_inner(text.as_slice()) {
        Some(inner) => clean_type_chars(inner.as_slice()),
        None => strip_namespace_chars(trimmed(text.as_slice())),
    }
}

/// The name under which a type is looked up.
pub fn clean_type(raw: &str) -> (r: String)
    ensures
        r@ == lookup_type(raw@),
{
    let v = chars_of(raw);
    let out = clean_type_chars(v.as_slice());
    string_of(out.as_slice())
}

/// A declaration of a variable: where its name stands, and its type.
pub struct TypeMatch {
    pub row: usize,
    pub col: usize,
    pub ty: String,
}

/// What a declaration of a variable says.
pub struct TypeMatchView {
    pub row: usize,
    pub col: usize,
    pub ty: Seq<char>,
}

impl View for TypeMatch {
    type V = TypeMatchView;

    open spec fn view(&self) -> TypeMatchView {
        TypeMatchView { row: self.row, col: self.col, ty: self.ty@ }
    }
}

/// What node `i` itself declares of the variable.
pub open spec fn declares_var(ns: Seq<NodeView>, i: int, name: Seq<char>) -> Option<TypeMatchView> {
    let k = ns[i].kind;
    if k == "declaration"@ || k == "parameter_declaration"@ || k == "field_declaration"@ {
        match (child_field(ns, i, "type"@), child_field(ns, i, "declarator"@)) {
            (Some(t), Some(d)) => match decl_name(ns, d) {
                Some(n) => {
                    let ty = lookup_type(trim(ns[t].text));
                    if trim(ns[n].text) == name && ty.len() > 0 {
                        Some(
                            TypeMatchView { row: ns[n].start_row, col: ns[n].start_column, ty },
                        )
                    } else {
                        None
                    }
                },
                None => None,
            },
            _ => None,
        }
    } else {
        None
    }
}

/// What the nodes from `j` up to `end` declare of the variable, in order.
/// Functions in between are left out where `stop` says so.
pub open spec fn var_decls(
    ns: Seq<NodeView>,
    j: int,
    end: int,
    name: Seq<char>,
    stop: bool,
) -> Seq<TypeMatchView>
    decreases ns.len() - j,
    when 0 <= j && end <= ns.len()
    via var_decls_decreases
{
    if j >= end {
        seq![]
    } else if stop && function_like(ns[j].kind) {
        var_decls(ns, end_of(ns, j), end, name, stop)
    } else {
        match declares_var(ns, j, name) {
            Some(m) => seq![m] + var_decls(ns, j + 1, end, name, stop),
            None => var_decls(ns, j + 1, end, name, stop),
        }
    }
}

#[via_fn]
proof fn var_decls_decreases(ns: Seq<NodeView>, j: int, end: int, name: Seq<char>, stop: bool) {
    if j < end {
        lemma_end_from(ns, ns[j].depth, j + 1);
    }
}

/// What node `i` and the nodes below it declare of the variable.
pub open spec fn var_decls_at(ns: Seq<NodeView>, i: int, name: Seq<char>, stop: bool) -> Seq<
    TypeMatchView,
> {
    let below = var_decls(ns, i + 1, end_of(ns, i), name, stop);
    match declares_var(ns, i, name) {
        Some(m) => seq![m] + below,
        None => below,
    }
}

/// What node `i` itself declares of the variable.
fn var_decl_at(tree: &SyntaxTree, i: usize, name: &str) -> (r: Option<TypeMatch>)
    requires
        i < tree@.len(),
    ensures
        match r {
            Some(m) => declares_var(tree@, i as int, name@) == Some(m@),
            None => declares_var(tree@, i as int, name@) is None,
        },
{
    if !(tree.is_kind(i, "declaration") || tree.is_kind(i, "parameter_declaration") || tree.is_kind(
        i,
        "field_declaration",
    )) {
        return None;
    }
    let t: usize = match tree.child_by_field(i, "type") {
        Some(t) => t,
        None => {
            return None;
        },
    };
    let d: usize = match tree.child_by_field(i, "declarator") {
        Some(d) => d,
        None => {
            return None;
        },
    };
    let n: usize = match extract_decl_name_node(tree, d) {
        Some(n) => n,
        None => {
            return None;
        },
    };
    let found = trim_string(tree.text(n));
    if !str_eq(found.as_str(), name) {
        return None;
    }
    let raw = trim_string(tree.text(t));
    let ty = clean_type(raw.as_str());
    let v = chars_of(ty.as_str());
    if v.len() == 0 {
        return None;
    }
    assert(tree@[n as int].start_row == tree.nodes@[n as int].start_row);
    Some(TypeMatch { row: tree.nodes[n].start_row, col: tree.nodes[n].start_column, ty })
}

/// What node `i` and the nodes below it declare of the variable.
pub fn scan_for_var_decl(tree: &SyntaxTree, i: usize, name: &str, stop: bool) -> (r: Vec<TypeMatch>)
    requires
        i < tree@.len(),
    ensures
        views(r@) == var_decls_at(tree@, i as int, name@, stop),
{
    let mut out: Vec<TypeMatch> = Vec::new();
    let end: usize = tree.subtree_end(i);
    match var_decl_at(tree, i, name) {
        Some(m) => {
            out.push(m);
        },
        None => {},
    }
    let mut j: usize = i + 1;
    let ghost goal = var_decls_at(tree@, i as int, name@, stop);
    assert(views(out@) + var_decls(tree@, j as int, end as int, name@, stop) =~= goal);
    while j < end
        invariant
            i < j,
            end <= tree@.len(),
            views(out@) + var_decls(tree@, j as int, end as int, name@, stop) == goal,
        decreases tree@.len() - j,
    {
        if stop && is_function_like(tree, j) {
            j = tree.subtree_end(j);
        } else {
            let ghost before = views(out@);
            let ghost rest = var_decls(tree@, j + 1, end as int, name@, stop);
            match var_decl_at(tree, j, name) {
                Some(m) => {
                    out.push(m);
                    assert(views(out@) =~= before.push(m@));
                    assert(before + (seq![m@] + rest) =~= views(out@) + rest);
                },
                None => {},
            }
            j = j + 1;
        }
    }
    assert(views(out@) + Seq::<TypeMatchView>::empty() =~= views(out@));
    out
}

/// One place is not before another.
pub open spec fn at_or_after(a: TypeMatchView, b: TypeMatchView) -> bool {
    a.row > b.row || (a.row == b.row && a.col >= b.col)
}

/// The last of the first `n` declarations that stands on the given row or above.
pub open spec fn nearest(ms: Seq<TypeMatchView>, n: int, row: int) -> Option<TypeMatchView>
    decreases n,
{
    if n <= 0 {
        None
    } else {
        let best = nearest(ms, n - 1, row);
        let m = ms[n - 1];
        if m.row > row {
            best
        } else {
            match best {
                None => Some(m),
                Some(b) => if at_or_after(m, b) {
                    Some(m)
                } else {
                    best
                },
            }
        }
    }
}

/// The first of the first `n` declarations.
pub open spec fn foremost(ms: Seq<TypeMatchView>, n: int) -> Option<TypeMatchView>
    decreases n,
{
    if n <= 0 {
        None
    } else {
        match foremost(ms, n - 1) {
            None => Some(ms[n - 1]),
            Some(b) => if at_or_after(ms[n - 1], b) {
                Some(b)
            } else {
                Some(ms[n - 1])
            },
        }
    }
}

/// The nearest declaration is one of those above, and none of them is nearer.
pub proof fn law_nearest(ms: Seq<TypeMatchView>, n: int, row: int)
    requires
        0 <= n <= ms.len(),
    ensures
        match nearest(ms, n, row) {
            Some(b) => b.row <= row && ms.contains(b) && forall|i: int|
                0 <= i < n && (#[trigger] ms[i]).row <= row ==> at_or_after(b, ms[i]),
            None => forall|i: int| 0 <= i < n ==> (#[trigger] ms[i]).row > row,
        },
    decreases n,
{
    if n > 0 {
        law_nearest(ms, n - 1, row);
        assert(ms.contains(ms[n - 1]));
    }
}

/// The last declaration that stands on the given row or above.
pub fn select_nearest_type_match(ms: &Vec<TypeMatch>, row: usize) -> (r: Option<usize>)
    ensures
        match r {
            Some(k) => k < ms@.len() && nearest(views(ms@), ms@.len() as int, row as int) == Some(
                ms@[k as int]@,
            ),
            None => nearest(views(ms@), ms@.len() as int, row as int) is None,
        },
{
    let ghost all = views(ms@);
    let mut best: Option<usize> = None;
    let mut i: usize = 0;
    while i < ms.len()
        invariant
            i <= ms@.len(),
            all == views(ms@),
            match best {
                Some(k) => k < ms@.len() && nearest(all, i as int, row as int) == Some(
                    ms@[k as int]@,
                ),
                None => nearest(all, i as int, row as int) is None,
            },
        decreases ms.len() - i,
    {
        assert(all[i as int] == ms@[i as int]@);
        if ms[i].row <= row {
            match best {
                None => {
                    best = Some(i);
                },
                Some(k) => {
                    if ms[i].row > ms[k].row || (ms[i].row == ms[k].row && ms[i].col >= ms[k].col) {
                        best = Some(i);
                    }
                },
            }
        }
        i = i + 1;
    }
    best
}

/// The first declaration.
fn select_foremost(ms: &Vec<TypeMatch>) -> (r: Option<usize>)
    ensures
        match r {
            Some(k) => k < ms@.len() && foremost(views(ms@), ms@.len() as int) == Some(
                ms@[k as int]@,
            ),
            None => foremost(views(ms@), ms@.len() as int) is None,
        },
{
    let ghost all = views(ms@);
    let mut best: Option<usize> = None;
    let mut i: usize = 0;
    while i < ms.len()
        invariant
            i <= ms@.len(),
            all == views(ms@),
            match best {
                Some(k) => k < ms@.len() && foremost(all, i as int) == Some(ms@[k as int]@),
                None => foremost(all, i as int) is None,
            },
        decreases ms.len() - i,
    {
        assert(all[i as int] == ms@[i as int]@);
        match best {
            None => {
                best = Some(i);
            },
            Some(k) => {
                if !(ms[i].row > ms[k].row || (ms[i].row == ms[k].row && ms[i].col >= ms[k].col)) {
                    best = Some(i);
                }
            },
        }
        i = i + 1;
    }
    best
}

/// The innermost function at or below node `i` that covers the row.
pub open spec fn function_on_row(ns: Seq<NodeView>, i: int, row: int) -> Option<int>
    decreases ns.len() - i, 1nat,
    when 0 <= i < ns.len()
    via function_on_row_decreases
{
    if ns[i].start_row > row || ns[i].end_row < row {
        None
    } else {
        match function_on_row_in(ns, i + 1, end_of(ns, i), row) {
            Some(f) => Some(f),
            None => if function_like(ns[i].kind) {
                Some(i)
            } else {
                None
            },
        }
    }
}

/// The function that the first of the siblings from `j` up to `end` yields that
/// yields one.
pub open spec fn function_on_row_in(ns: Seq<NodeView>, j: int, end: int, row: int) -> Option<int>
    decreases ns.len() - j, 2nat,
    when 0 <= j && end <= ns.len()
    via function_on_row_in_decreases
{
    if j >= end {
        None
    } else if function_on_row(ns, j, row) is Some {
        function_on_row(ns, j, row)
    } else {
        function_on_row_in(ns, end_of(ns, j), end, row)
    }
}

#[via_fn]
proof fn function_on_row_decreases(ns: Seq<NodeView>, i: int, row: int) {
    lemma_end_from(ns, ns[i].depth, i + 1);
}

#[via_fn]
proof fn function_on_row_in_decreases(ns: Seq<NodeView>, j: int, end: int, row: int) {
    if j < end {
        lemma_end_from(ns, ns[j].depth, j + 1);
    }
}

/// The innermost function at or below node `i` that covers the row.
pub fn find_enclosing_function_for_row(tree: &SyntaxTree, i: usize, row: usize) -> (r: Option<usize>)
    requires
        i < tree@.len(),
    ensures
        match r {
            Some(f) => function_on_row(tree@, i as int, row as int) == Some(f as int) && f
                < tree@.len(),
            None => function_on_row(tree@, i as int, row as int) is None,
        },
    decreases tree@.len() - i,
{
    assert(tree@[i as int].start_row == tree.nodes@[i as int].start_row);
    if tree.nodes[i].start_row > row || tree.nodes[i].end_row < row {
        return None;
    }
    let end: usize = tree.subtree_end(i);
    let mut j: usize = i + 1;
    while j < end
        invariant
            i < j,
            i < tree@.len(),
            end <= tree@.len(),
            function_on_row_in(tree@, i + 1, end_of(tree@, i as int), row as int)
                == function_on_row_in(tree@, j as int, end as int, row as int),
            function_on_row(tree@, i as int, row as int) == match function_on_row_in(
                tree@,
                i + 1,
                end_of(tree@, i as int),
                row as int,
            ) {
                Some(f) => Some(f),
                None => if function_like(tree@[i as int].kind) {
                    Some(i as int)
                } else {
                    None
                },
            },
        decreases tree@.len() - j,
    {
        match find_enclosing_function_for_row(tree, j, row) {
            Some(f) => {
                return Some(f);
            },
            None => {},
        }
        j = tree.subtree_end(j);
    }
    if is_function_like(tree, i) {
        Some(i)
    } else {
        None
    }
}

/// The declarations of a variable that count: those of the function on the
/// cursor's row, else those of the whole file.
pub open spec fn counted_decls(ns: Seq<NodeView>, name: Seq<char>, row: Option<int>) -> Seq<
    TypeMatchView,
> {
    let whole = var_decls_at(ns, 0, name, false);
    match row {
        None => whole,
        Some(row) => match function_on_row(ns, 0, row) {
            None => whole,
            Some(f) => if var_decls_at(ns, f, name, true).len() == 0 {
                whole
            } else {
                var_decls_at(ns, f, name, true)
            },
        },
    }
}

/// The type of a variable: what the nearest declaration above the cursor says,
/// else the first.
pub open spec fn var_type(ns: Seq<NodeView>, name: Seq<char>, row: Option<int>) -> Option<Seq<char>> {
    if ns.len() == 0 {
        None
    } else {
        let ms = counted_decls(ns, name, row);
        let near = match row {
            Some(row) => nearest(ms, ms.len() as int, row),
            None => None,
        };
        match near {
            Some(m) => Some(m.ty),
            None => match foremost(ms, ms.len() as int) {
                Some(m) => Some(m.ty),
                None => None,
            },
        }
    }
}

/// The type of a variable, from the declarations in the file.
pub fn infer_var_type(tree: &SyntaxTree, var_name: &str, cursor_line: Option<u32>) -> (r: Option<
    String,
>)
    ensures
        opt_text(r) == var_type(
            tree@,
            var_name@,
            match cursor_line {
                Some(l) => Some(l as int),
                None => None,
            },
        ),
{
    if tree.len() == 0 {
        return None;
    }
    let mut ms: Vec<TypeMatch> = Vec::new();
    match cursor_line {
        Some(line) => {
            match find_enclosing_function_for_row(tree, 0, line as usize) {
                Some(f) => {
                    ms = scan_for_var_decl(tree, f, var_name, true);
                },
                None => {},
            }
        },
        None => {},
    }
    if ms.len() == 0 {
        ms = scan_for_var_decl(tree, 0, var_name, false);
    }
    let ghost row = match cursor_line {
        Some(l) => Some(l as int),
        None => None,
    };
    assert(views(ms@) =~= counted_decls(tree@, var_name@, row));
    match cursor_line {
        Some(line) => {
            match select_nearest_type_match(&ms, line as usize) {
                Some(k) => {
                    return Some(ms[k].ty.clone());
                },
                None => {},
            }
        },
        None => {},
    }
    match select_foremost(&ms) {
        Some(k) => Some(ms[k].ty.clone()),
        None => None,
    }
}

// ---------------------------------------------------------------------------
// Local declarations
// ---------------------------------------------------------------------------
/// A declaration of a local name: where the name stands, and its type.
#[derive(Debug, Clone)]
pub struct LocalDeclMatch {
    pub row: usize,
    pub col: usize,
    pub decl_type: Option<String>,
}

/// What a declaration of a local name says.
pub struct LocalDeclView {
    pub row: usize,
    pub col: usize,
    pub decl_type: Option<Seq<char>>,
}

impl View for LocalDeclMatch {
    type V = LocalDeclView;

    open spec fn view(&self) -> LocalDeclView {
        LocalDeclView { row: self.row, col: self.col, decl_type: opt_text(self.decl_type) }
    }
}

/// The innermost function at or above node `i`.
pub open spec fn function_around(ns: Seq<NodeView>, i: int) -> Option<int>
    decreases i,
    via function_around_decreases
{
    if function_like(ns[i].kind) {
        Some(i)
    } else {
        match parent_of(ns, i) {
            Some(p) => function_around(ns, p),
            None => None,
        }
    }
}

#[via_fn]
proof fn function_around_decreases(ns: Seq<NodeView>, i: int) {
    lemma_parent_from(ns, ns[i].depth, i);
}

/// The innermost function at or above node `i`.
pub fn enclosing_function(tree: &SyntaxTree, i: usize) -> (r: Option<usize>)
    requires
        i < tree@.len(),
    ensures
        match r {
            Some(f) => function_around(tree@, i as int) == Some(f as int) && f < tree@.len(),
            None => function_around(tree@, i as int) is None,
        },
{
    let mut node: usize = i;
    loop
        invariant
            node < tree@.len(),
            function_around(tree@, i as int) == function_around(tree@, node as int),
        decreases node,
    {
        if is_function_like(tree, node) {
            return Some(node);
        }
        match tree.parent(node) {
            Some(p) => {
                node = p;
            },
            None => {
                return None;
            },
        }
    }
}

/// What node `i` itself declares of the local name.
pub open spec fn declares_local(ns: Seq<NodeView>, i: int, name: Seq<char>) -> Option<LocalDeclView> {
    let k = ns[i].kind;
    if k == "declaration"@ || k == "parameter_declaration"@ {
        match child_field(ns, i, "declarator"@) {
            Some(d) => match decl_name(ns, d) {
                Some(n) => if trim(ns[n].text) == name {
                    Some(
                        LocalDeclView {
                            row: ns[n].start_row,
                            col: ns[n].start_column,
                            decl_type: match child_field(ns, i, "type"@) {
                                Some(t) => Some(lookup_type(trim(ns[t].text))),
                                None => None,
                            },
                        },
                    )
                } else {
                    None
                },
                None => None,
            },
            None => None,
        }
    } else {
        None
    }
}

/// What the nodes from `j` up to `end` declare of the local name, in order,
/// functions in between left out.
pub open spec fn local_decls(ns: Seq<NodeView>, j: int, end: int, name: Seq<char>) -> Seq<
    LocalDeclView,
>
    decreases ns.len() - j,
    when 0 <= j && end <= ns.len()
    via local_decls_decreases
{
    if j >= end {
        seq![]
    } else if function_like(ns[j].kind) {
        local_decls(ns, end_of(ns, j), end, name)
    } else {
        match declares_local(ns, j, name) {
            Some(m) => seq![m] + local_decls(ns, j + 1, end, name),
            None => local_decls(ns, j + 1, end, name),
        }
    }
}

#[via_fn]
proof fn local_decls_decreases(ns: Seq<NodeView>, j: int, end: int, name: Seq<char>) {
    if j < end {
        lemma_end_from(ns, ns[j].depth, j + 1);
    }
}

/// What the function at node `f` declares of the local name.
pub open spec fn local_decls_at(ns: Seq<NodeView>, f: int, name: Seq<char>) -> Seq<LocalDeclView> {
    let below = local_decls(ns, f + 1, end_of(ns, f), name);
    match declares_local(ns, f, name) {
        Some(m) => seq![m] + below,
        None => below,
    }
}

/// What node `i` itself declares of the local name.
fn local_decl_at(tree: &SyntaxTree, i: usize, name: &str) -> (r: Option<LocalDeclMatch>)
    requires
        i < tree@.len(),
    ensures
        match r {
            Some(m) => declares_local(tree@, i as int, name@) == Some(m@),
            None => declares_local(tree@, i as int, name@) is None,
        },
{
    if !(tree.is_kind(i, "declaration") || tree.is_kind(i, "parameter_declaration")) {
        return None;
    }
    let d: usize = match tree.child_by_field(i, "declarator") {
        Some(d) => d,
        None => {
            return None;
        },
    };
    let n: usize = match extract_decl_name_node(tree, d) {
        Some(n) => n,
        None => {
            return None;
        },
    };
    let found = trim_string(tree.text(n));
    if !str_eq(found.as_str(), name) {
        return None;
    }
    let decl_type = match tree.child_by_field(i, "type") {
        Some(t) => {
            let raw = trim_string(tree.text(t));
            Some(clean_type(raw.as_str()))
        },
        None => None,
    };
    assert(tree@[n as int].start_row == tree.nodes@[n as int].start_row);
    Some(LocalDeclMatch {
        row: tree.nodes[n].start_row,
        col: tree.nodes[n].start_column,
        decl_type,
    })
}

/// What the function at node `f` declares of the local name.
pub fn scan_local_declarations(tree: &SyntaxTree, f: usize, name: &str) -> (r: Vec<LocalDeclMatch>)
    requires
        f < tree@.len(),
    ensures
        views(r@) == local_decls_at(tree@, f as int, name@),
{
    let mut out: Vec<LocalDeclMatch> = Vec::new();
    let end: usize = tree.subtree_end(f);
    match local_decl_at(tree, f, name) {
        Some(m) => {
            out.push(m);
        },
        None => {},
    }
    let mut j: usize = f + 1;
    let ghost goal = local_decls_at(tree@, f as int, name@);
    assert(views(out@) + local_decls(tree@, j as int, end as int, name@) =~= goal);
    while j < end
        invariant
            f < j,
            end <= tree@.len(),
            views(out@) + local_decls(tree@, j as int, end as int, name@) == goal,
        decreases tree@.len() - j,
    {
        if is_function_like(tree, j) {
            j = tree.subtree_end(j);
        } else {
            let ghost before = views(out@);
            let ghost rest = local_decls(tree@, j + 1, end as int, name@);
            match local_decl_at(tree, j, name) {
                Some(m) => {
                    out.push(m);
                    assert(views(out@) =~= before.push(m@));
                    assert(before + (seq![m@] + rest) =~= views(out@) + rest);
                },
                None => {},
            }
            j = j + 1;
        }
    }
    assert(views(out@) + Seq::<LocalDeclView>::empty() =~= views(out@));
    out
}

/// The declaration stands before the cursor or under it.
pub open spec fn before_cursor(m: LocalDeclView, row: int, col: int) -> bool {
    m.row < row || (m.row == row && m.col <= col)
}

/// The last of the first `n` declarations that stands before the cursor.
pub open spec fn last_before(ms: Seq<LocalDeclView>, n: int, row: int, col: int) -> Option<
    LocalDeclView,
>
    decreases n,
{
    if n <= 0 {
        None
    } else {
        let best = last_before(ms, n - 1, row, col);
        let m = ms[n - 1];
        if !before_cursor(m, row, col) {
            best
        } else {
            match best {
                None => Some(m),
                Some(b) => if m.row > b.row || (m.row == b.row && m.col >= b.col) {
                    Some(m)
                } else {
                    best
                },
            }
        }
    }
}

/// The declaration of a local name that a cursor on node `at` sees: the last
/// one before it in the function around it.
pub open spec fn local_declaration(
    ns: Seq<NodeView>,
    at: int,
    name: Seq<char>,
    row: int,
    col: int,
) -> Option<LocalDeclView> {
    match function_around(ns, at) {
        None => None,
        Some(f) => {
            let ms = local_decls_at(ns, f, name);
            last_before(ms, ms.len() as int, row, col)
        },
    }
}

/// The declaration of a local name that a cursor on node `at` sees.
pub fn find_local_declaration(
    tree: &SyntaxTree,
    at: usize,
    symbol_name: &str,
    line: u32,
    character: u32,
) -> (r: Option<LocalDeclMatch>)
    requires
        at < tree@.len(),
    ensures
        match r {
            Some(m) => local_declaration(
                tree@,
                at as int,
                symbol_name@,
                line as int,
                character as int,
            ) == Some(m@),
            None => local_declaration(
                tree@,
                at as int,
                symbol_name@,
                line as int,
                character as int,
            ) is None,
        },
{
    let f: usize = match enclosing_function(tree, at) {
        Some(f) => f,
        None => {
            return None;
        },
    };
    let row: usize = line as usize;
    let col: usize = character as usize;
    let ms = scan_local_declarations(tree, f, symbol_name);
    let ghost all = views(ms@);
    let mut best: Option<usize> = None;
    let mut i: usize = 0;
    while i < ms.len()
        invariant
            i <= ms@.len(),
            all == views(ms@),
            match best {
                Some(k) => k < ms@.len() && last_before(all, i as int, row as int, col as int)
                    == Some(ms@[k as int]@),
                None => last_before(all, i as int, row as int, col as int) is None,
            },
        decreases ms.len() - i,
    {
        assert(all[i as int] == ms@[i as int]@);
        if ms[i].row < row || (ms[i].row == row && ms[i].col <= col) {
            match best {
                None => {
                    best = Some(i);
                },
                Some(k) => {
                    if ms[i].row > ms[k].row || (ms[i].row == ms[k].row && ms[i].col >= ms[k].col) {
                        best = Some(i);
                    }
                },
            }
        }
        i = i + 1;
    }
    match best {
        Some(k) => Some(
            LocalDeclMatch {
                row: ms[k].row,
                col: ms[k].col,
                decl_type: copy_opt(&ms[k].decl_type),
            },
        ),
        None => None,
    }
}

/// A local declaration never lies after the cursor.
pub proof fn law_local_before_cursor(ms: Seq<LocalDeclView>, n: int, row: int, col: int)
    requires
        0 <= n <= ms.len(),
    ensures
        match last_before(ms, n, row, col) {
            Some(m) => before_cursor(m, row, col) && ms.contains(m),
            None => forall|i: int| 0 <= i < n ==> !before_cursor(#[trigger] ms[i], row, col),
        },
    decreases n,
{
    if n > 0 {
        law_local_before_cursor(ms, n - 1, row, col);
        assert(ms.contains(ms[n - 1]));
    }
}

} // verus!
