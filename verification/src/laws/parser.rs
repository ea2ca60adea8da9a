//! What a parsed file says of its classes and members.

#[allow(unused_imports)]
use crate::parser::cpp::{access_among, access_of, around_declarator, class_named, declarator_below, first_field, identity,
    member_at, namespace_of, namespace_parts, no_member_name, reflected_function, reflected_property, type_between,
    type_part, without_colons, IdentityView};
#[allow(unused_imports)]
use crate::parser::symbols::{attached, base_name, class_index, directive_path, directive_paths, enum_item, file_step,
    file_symbols, holds, interesting, scope_class, smallest, span, symbols_after, symbols_step, with_base,
    with_implementation, with_member, without_char, without_leading, without_trailing, NodeCaptureView, PendingView, StepView, SymbolsView};
#[allow(unused_imports)]
use crate::types::{CallView, ClassView, MemberView};
#[allow(unused_imports)]
use crate::syntax::{child_field, descendant, end_from, end_of, field_from, lemma_field_from, lemma_end_from, lemma_parent_from, parent_from, parent_of, NodeView};
#[allow(unused_imports)]
use crate::text::{join, lower, occurs_at, rfind, trim, words, ws};
#[allow(unused_imports)]
use crate::parser::cpp::{after_bracket, keyword_patterns, replaced, spread, stripped};
#[allow(unused_imports)]
use crate::parser::symbols::header_extension;
#[allow(unused_imports)]
use crate::text::{replace_all, starts};
#[allow(unused_imports)]
use crate::parser::cpp::cleaned;
#[allow(unused_imports)]
use crate::parser::symbols::{bytes_at, holds_bytes};
use vstd::prelude::*;

verus! {

// ---------------------------------------------------------------------------
// Children
// ---------------------------------------------------------------------------
proof fn lemma_parent_skips(ns: Seq<NodeView>, depth: int, j: int, p: int)
    requires
        0 <= p < j <= ns.len(),
        ns[p].depth < depth,
        forall|k: int| p < k < j ==> (#[trigger] ns[k]).depth >= depth,
    ensures
        parent_from(ns, depth, j) == Some(p),
    decreases j,
{
    if j - 1 > p {
        assert(ns[j - 1].depth >= depth);
        lemma_parent_skips(ns, depth, j - 1, p);
    }
}

/// Nothing between a parent and its child is less deep than the child.
proof fn lemma_between(ns: Seq<NodeView>, depth: int, j: int)
    requires
        0 <= j <= ns.len(),
    ensures
        match parent_from(ns, depth, j) {
            Some(p) => 0 <= p < j && ns[p].depth < depth && forall|k: int|
                p < k < j ==> (#[trigger] ns[k]).depth >= depth,
            None => forall|k: int| 0 <= k < j ==> (#[trigger] ns[k]).depth >= depth,
        },
    decreases j,
{
    if j > 0 && ns[j - 1].depth >= depth {
        lemma_between(ns, depth, j - 1);
    }
}

/// From a child of `p`, the end of its subtree is the next child, and no child
/// stands in between.
pub proof fn lemma_next_child(ns: Seq<NodeView>, p: int, k: int)
    requires
        0 <= p < k < ns.len(),
        parent_of(ns, k) == Some(p),
    ensures
        k < end_of(ns, k) <= end_of(ns, p) <= ns.len(),
        end_of(ns, k) < end_of(ns, p) ==> parent_of(ns, end_of(ns, k)) == Some(p),
        forall|m: int| k < m < end_of(ns, k) ==> #[trigger] parent_of(ns, m) != Some(p),
{
    let e = end_of(ns, k);
    let end = end_of(ns, p);
    lemma_between(ns, ns[k].depth, k);
    lemma_end_from(ns, ns[k].depth, k + 1);
    lemma_end_from(ns, ns[p].depth, p + 1);
    if end < e {
        if end > k {
            assert(ns[end].depth > ns[k].depth);
        } else if end == k {
        } else {
            assert(ns[end].depth >= ns[k].depth);
        }
        assert(false);
    }
    if e < end {
        assert(ns[e].depth > ns[p].depth);
        assert forall|m: int| p < m < e implies (#[trigger] ns[m]).depth >= ns[e].depth by {
            if m > k {
                assert(ns[m].depth > ns[k].depth);
            } else if m < k {
                assert(ns[m].depth >= ns[k].depth);
            }
        }
        lemma_parent_skips(ns, ns[e].depth, e, p);
    }
    assert forall|m: int| k < m < e implies #[trigger] parent_of(ns, m) != Some(p) by {
        lemma_between(ns, ns[m].depth, m);
        assert(ns[m].depth > ns[k].depth);
    }
}

/// The first node behind `p` is its child, if `p` has any.
pub proof fn lemma_first_child(ns: Seq<NodeView>, p: int)
    requires
        0 <= p < ns.len(),
    ensures
        p < end_of(ns, p) <= ns.len(),
        p + 1 < end_of(ns, p) ==> parent_of(ns, p + 1) == Some(p),
{
    lemma_end_from(ns, ns[p].depth, p + 1);
    if p + 1 < end_of(ns, p) {
        assert(ns[p + 1].depth > ns[p].depth);
        lemma_parent_skips(ns, ns[p + 1].depth, p + 1, p);
    }
}

// ---------------------------------------------------------------------------
// Access
// ---------------------------------------------------------------------------
/// The node names an access before the byte, among the children of `p`.
pub open spec fn names_access_before(ns: Seq<NodeView>, p: int, j: int, limit: int) -> bool {
    &&& p < j < ns.len()
    &&& parent_of(ns, j) == Some(p)
    &&& ns[j].kind == "access_specifier"@
    &&& ns[j].start_byte < limit
}

/// The children of `p` are listed in the order in which they begin.
pub open spec fn in_order(ns: Seq<NodeView>, p: int) -> bool {
    forall|a: int, b: int|
        p < a <= b < ns.len() && #[trigger] parent_of(ns, a) == Some(p) && #[trigger] parent_of(
            ns,
            b,
        ) == Some(p) ==> ns[a].start_byte <= ns[b].start_byte
}

proof fn lemma_access_among(
    ns: Seq<NodeView>,
    p: int,
    k: int,
    limit: int,
    acc: Seq<char>,
    j: Option<int>,
)
    requires
        0 <= p < k <= end_of(ns, p) <= ns.len(),
        k < end_of(ns, p) ==> parent_of(ns, k) == Some(p),
        in_order(ns, p),
        match j {
            Some(j) => k <= j < end_of(ns, p) && names_access_before(ns, p, j, limit) && (forall|m: int|
                j < m && #[trigger] names_access_before(ns, p, m, limit) ==> false),
            None => forall|m: int| k <= m && #[trigger] names_access_before(ns, p, m, limit) ==> false,
        },
    ensures
        access_among(ns, k, end_of(ns, p), limit, acc) == (match j {
            Some(j) => lower(without_colons(trim(ns[j].text))),
            None => acc,
        }),
    decreases ns.len() - k,
{
    let end = end_of(ns, p);
    if k < end && ns[k].start_byte < limit {
        lemma_next_child(ns, p, k);
        let e = end_of(ns, k);
        let names = ns[k].kind == "access_specifier"@;
        if names {
            assert(names_access_before(ns, p, k, limit));
        }
        match j {
            Some(j) => {
                if j == k {
                    lemma_access_among(
                        ns,
                        p,
                        e,
                        limit,
                        lower(without_colons(trim(ns[k].text))),
                        None,
                    );
                } else {
                    assert(j >= e);
                    let next = if names {
                        lower(without_colons(trim(ns[k].text)))
                    } else {
                        acc
                    };
                    lemma_access_among(ns, p, e, limit, next, Some(j));
                }
            },
            None => {
                lemma_access_among(ns, p, e, limit, acc, None);
            },
        }
    } else if k < end {
        match j {
            Some(j) => {
                assert(ns[k].start_byte <= ns[j].start_byte);
            },
            None => {},
        }
    }
}

/// Of the access specifiers before a member of a class the last one holds.
pub proof fn law_last_access_holds(ns: Seq<NodeView>, i: int, p: int, j: int)
    requires
        0 <= i < ns.len(),
        parent_of(ns, i) == Some(p),
        ns[p].kind == "field_declaration_list"@ || ns[p].kind == "class_specifier"@ || ns[p].kind
            == "struct_specifier"@,
        in_order(ns, p),
        names_access_before(ns, p, j, ns[i].start_byte as int),
        forall|m: int|
            j < m && #[trigger] names_access_before(ns, p, m, ns[i].start_byte as int) ==> false,
    ensures
        access_of(ns, i) == lower(without_colons(trim(ns[j].text))),
{
    lemma_between(ns, ns[i].depth, i);
    lemma_between(ns, ns[j].depth, j);
    lemma_first_child(ns, p);
    crate::syntax::law_parent_holds_child(ns, j);
    lemma_access_among(ns, p, p + 1, ns[i].start_byte as int, "public"@, Some(j));
}

/// A member of a class before which no access is named is public.
pub proof fn law_access_is_public_at_first(ns: Seq<NodeView>, i: int, p: int)
    requires
        0 <= i < ns.len(),
        parent_of(ns, i) == Some(p),
        ns[p].kind == "field_declaration_list"@ || ns[p].kind == "class_specifier"@ || ns[p].kind
            == "struct_specifier"@,
        in_order(ns, p),
        forall|m: int| #[trigger]
            names_access_before(ns, p, m, ns[i].start_byte as int) ==> false,
    ensures
        access_of(ns, i) == "public"@,
{
    lemma_between(ns, ns[i].depth, i);
    lemma_first_child(ns, p);
    crate::syntax::law_parent_holds_child(ns, i);
    lemma_access_among(ns, p, p + 1, ns[i].start_byte as int, "public"@, None);
}

/// Two members of a class between which no access is named are equally accessible.
pub proof fn law_access_lasts(ns: Seq<NodeView>, a: int, b: int, p: int)
    requires
        0 <= a <= b < ns.len(),
        parent_of(ns, a) == Some(p),
        parent_of(ns, b) == Some(p),
        ns[p].kind == "field_declaration_list"@,
        in_order(ns, p),
        forall|m: int| #[trigger]
            names_access_before(ns, p, m, ns[b].start_byte as int) ==> ns[m].start_byte
                < ns[a].start_byte,
    ensures
        access_of(ns, a) == access_of(ns, b),
{
    let limit = ns[b].start_byte as int;
    let la = ns[a].start_byte as int;
    lemma_parent_from(ns, ns[a].depth, a);
    assert(ns[a].start_byte <= ns[b].start_byte);
    if exists|m: int| names_access_before(ns, p, m, limit) {
        let m0 = choose|m: int| names_access_before(ns, p, m, limit);
        let last = lemma_last(ns, p, limit, m0);
        assert(names_access_before(ns, p, last, la));
        assert forall|m: int| last < m && #[trigger] names_access_before(ns, p, m, la) implies false by {
            assert(ns[a].start_byte <= ns[b].start_byte);
            assert(names_access_before(ns, p, m, limit));
        }
        law_last_access_holds(ns, a, p, last);
        law_last_access_holds(ns, b, p, last);
    } else {
        assert forall|m: int| #[trigger] names_access_before(ns, p, m, la) implies false by {
            assert(ns[a].start_byte <= ns[b].start_byte);
            assert(names_access_before(ns, p, m, limit));
        }
        law_access_is_public_at_first(ns, a, p);
        law_access_is_public_at_first(ns, b, p);
    }
}

proof fn lemma_last(ns: Seq<NodeView>, p: int, limit: int, m0: int) -> (last: int)
    requires
        names_access_before(ns, p, m0, limit),
    ensures
        names_access_before(ns, p, last, limit),
        forall|m: int| last < m && #[trigger] names_access_before(ns, p, m, limit) ==> false,
    decreases ns.len() - m0,
{
    if exists|m: int| m0 < m && names_access_before(ns, p, m, limit) {
        let m1 = choose|m: int| m0 < m && names_access_before(ns, p, m, limit);
        lemma_last(ns, p, limit, m1)
    } else {
        m0
    }
}

/// An access specifier that is one word of small letters, with or without its
/// colon, names that word.
pub proof fn law_access_label(word: Seq<char>, text: Seq<char>)
    requires
        word.len() > 0,
        forall|i: int| 0 <= i < word.len() ==> 'a' <= #[trigger] word[i] <= 'z',
        text == word || text == word.push(':'),
    ensures
        lower(without_colons(trim(text))) == word,
{
    crate::laws::texts::lemma_trim_stays(text);
    assert(lower(word) =~= word);
    assert(without_colons(word) == word);
    assert(word.push(':').drop_last() =~= word);
}

// ---------------------------------------------------------------------------
// Members
// ---------------------------------------------------------------------------
/// A declarator that is a plain name declares that name, on its line.
pub proof fn law_plain_name_is_declared(ns: Seq<NodeView>, i: int, f: bool)
    requires
        0 <= i < ns.len(),
        ns[i].kind == "identifier"@ || ns[i].kind == "field_identifier"@,
    ensures
        identity(ns, i, f) matches Some(id) && id.name == ns[i].text && id.scope_name is None
            && id.is_function == f && id.line == ns[i].start_row.wrapping_add(1),
{
}

proof fn lemma_kinds()
    ensures
        "qualified_identifier"@ != "identifier"@,
        "qualified_identifier"@ != "field_identifier"@,
        "function_declarator"@ != "identifier"@,
        "function_declarator"@ != "field_identifier"@,
        "function_declarator"@ != "qualified_identifier"@,
        "pointer_declarator"@ != "identifier"@,
        "pointer_declarator"@ != "field_identifier"@,
        "pointer_declarator"@ != "qualified_identifier"@,
        "pointer_declarator"@ != "function_declarator"@,
        "reference_declarator"@ != "identifier"@,
        "reference_declarator"@ != "field_identifier"@,
        "reference_declarator"@ != "qualified_identifier"@,
        "reference_declarator"@ != "function_declarator"@,
        "array_declarator"@ != "identifier"@,
        "array_declarator"@ != "field_identifier"@,
        "array_declarator"@ != "qualified_identifier"@,
        "array_declarator"@ != "function_declarator"@,
        "parenthesized_declarator"@ != "identifier"@,
        "parenthesized_declarator"@ != "field_identifier"@,
        "parenthesized_declarator"@ != "qualified_identifier"@,
        "parenthesized_declarator"@ != "function_declarator"@,
{
    reveal_strlit("identifier");
    reveal_strlit("field_identifier");
    reveal_strlit("qualified_identifier");
    reveal_strlit("function_declarator");
    reveal_strlit("pointer_declarator");
    reveal_strlit("reference_declarator");
    reveal_strlit("array_declarator");
    reveal_strlit("parenthesized_declarator");
    assert("identifier"@.len() == 10 && "field_identifier"@.len() == 16);
    assert("qualified_identifier"@.len() == 20 && "function_declarator"@.len() == 19);
    assert("pointer_declarator"@.len() == 18 && "reference_declarator"@.len() == 20);
    assert("array_declarator"@.len() == 16 && "parenthesized_declarator"@.len() == 24);
    assert("qualified_identifier"@[0] == 'q' && "reference_declarator"@[0] == 'r');
    assert("field_identifier"@[0] == 'f' && "array_declarator"@[0] == 'a');
}

/// A qualified name declares its last part, in the scope before it.
pub proof fn law_qualified_name_is_declared(ns: Seq<NodeView>, i: int, f: bool, name: int)
    requires
        0 <= i < ns.len(),
        ns[i].kind == "qualified_identifier"@,
        child_field(ns, i, "name"@) == Some(name),
        ns[name].text.len() > 0,
    ensures
        identity(ns, i, f) matches Some(id) && id.name == ns[name].text && id.is_function == f
            && id.line == ns[name].start_row.wrapping_add(1) && (match child_field(
            ns,
            i,
            "scope"@,
        ) {
            Some(s) => id.scope_name == Some(ns[s].text),
            None => id.scope_name is None,
        }),
{
    lemma_kinds();
}

/// A function declarator declares a function of the name inside of it, and a
/// pointer, a reference, an array or a bracket around a declarator what that does.
pub proof fn law_declarator_passes_on(ns: Seq<NodeView>, i: int, f: bool, inner: int)
    requires
        0 <= i < ns.len(),
        child_field(ns, i, "declarator"@) == Some(inner),
    ensures
        ns[i].kind == "function_declarator"@ ==> identity(ns, i, f) == identity(ns, inner, true),
        ns[i].kind == "pointer_declarator"@ || ns[i].kind == "reference_declarator"@ || ns[i].kind
            == "array_declarator"@ || ns[i].kind == "parenthesized_declarator"@ ==> identity(
            ns,
            i,
            f,
        ) == identity(ns, inner, f),
{
    lemma_kinds();
    lemma_end_from(ns, ns[i].depth, i + 1);
    lemma_field_from(ns, i + 1, end_of(ns, i), "declarator"@);
    reveal_with_fuel(identity, 2);
}

proof fn lemma_identity_function(ns: Seq<NodeView>, i: int)
    requires
        0 <= i < ns.len(),
    ensures
        identity(ns, i, true) matches Some(id) ==> id.is_function,
    decreases ns.len() - i,
{
    lemma_end_from(ns, ns[i].depth, i + 1);
    match child_field(ns, i, "declarator"@) {
        Some(d) => {
            lemma_field_from(ns, i + 1, end_of(ns, i), "declarator"@);
            lemma_identity_function(ns, d);
        },
        None => {},
    }
}

/// What stands in a function declarator is a function.
pub proof fn law_function_declarator(ns: Seq<NodeView>, i: int, f: bool)
    requires
        0 <= i < ns.len(),
        ns[i].kind == "function_declarator"@,
    ensures
        identity(ns, i, f) matches Some(id) ==> id.is_function,
{
    lemma_kinds();
    lemma_end_from(ns, ns[i].depth, i + 1);
    match child_field(ns, i, "declarator"@) {
        Some(d) => {
            lemma_field_from(ns, i + 1, end_of(ns, i), "declarator"@);
            lemma_identity_function(ns, d);
        },
        None => {},
    }
}

/// The declarator of a node is the first below it.
pub proof fn law_first_declarator(ns: Seq<NodeView>, i: int)
    ensures
        match declarator_below(ns, i) {
            Some(d) => i < d < end_of(ns, i) && ns[d].field == Some("declarator"@) && (forall|k: int|
                i < k < d ==> (#[trigger] ns[k]).field != Some("declarator"@)),
            None => forall|k: int|
                i < k < end_of(ns, i) ==> (#[trigger] ns[k]).field != Some("declarator"@),
        },
{
    lemma_first_field(ns, i + 1, end_of(ns, i));
}

proof fn lemma_first_field(ns: Seq<NodeView>, j: int, end: int)
    ensures
        match first_field(ns, j, end, "declarator"@) {
            Some(d) => j <= d < end && ns[d].field == Some("declarator"@) && (forall|k: int|
                j <= k < d ==> (#[trigger] ns[k]).field != Some("declarator"@)),
            None => forall|k: int|
                j <= k < end ==> (#[trigger] ns[k]).field != Some("declarator"@),
        },
    decreases end - j,
{
    if j < end && ns[j].field != Some("declarator"@) {
        lemma_first_field(ns, j + 1, end);
    }
}

/// What is a member: it bears the name that its declarator declares, unless that is
/// a keyword, on the line of the name, and ends where its node does.
pub proof fn law_member_is_named(ns: Seq<NodeView>, src: Seq<u8>, i: int, cap: Seq<char>, d: int)
    requires
        declarator_below(ns, i) == Some(d),
        identity(ns, d, false) is Some,
    ensures
        ({
            let id = identity(ns, d, false)->0;
            let keyword = id.name == "virtual"@ || id.name == "static"@ || id.name == "void"@
                || id.name == "const"@ || id.name == "class"@ || id.name == "struct"@;
            &&& member_at(ns, src, i, cap) is None <==> keyword
            &&& member_at(ns, src, i, cap) matches Some((m, scope)) ==> m.name == id.name && scope
                == id.scope_name && m.line == id.line && m.end_line == ns[i].end_row.wrapping_add(1)
        }),
{
}

/// A member that names its scope is an implementation; any other has the access
/// that holds where it stands.
pub proof fn law_member_access(ns: Seq<NodeView>, src: Seq<u8>, i: int, cap: Seq<char>)
    ensures
        match member_at(ns, src, i, cap) {
            Some((m, Some(_))) => m.access == "impl"@,
            Some((m, None)) => m.access == access_of(ns, i),
            None => true,
        },
{
}

/// A property of the engine is a property, whatever else is said of it. Any other
/// member is a function where the engine knows it as one, where it was captured as
/// one, or where its declarator is one.
pub proof fn law_member_kind(ns: Seq<NodeView>, src: Seq<u8>, i: int, cap: Seq<char>, d: int)
    requires
        declarator_below(ns, i) == Some(d),
        identity(ns, d, false) is Some,
        member_at(ns, src, i, cap) is Some,
    ensures
        ({
            let (m, _) = member_at(ns, src, i, cap)->0;
            let property = descendant(ns, i, "unreal_property_macro"@) is Some;
            let known = descendant(ns, i, "unreal_function_macro"@) is Some || descendant(
                ns,
                i,
                "unreal_function_declaration"@,
            ) is Some || ns[i].kind == "unreal_function_declaration"@;
            let function = known || cap == "func_node"@ || cap == "ufunc_node"@ || identity(
                ns,
                d,
                false,
            )->0.is_function;
            &&& property ==> m.mem_type == "property"@
            &&& !property && function ==> m.mem_type == "function"@
            &&& !property && !function ==> m.mem_type == "property"@
            &&& property && known ==> m.flags == "UFUNCTION UPROPERTY"@
            &&& property && !known ==> m.flags == "UPROPERTY"@
            &&& !property && known ==> m.flags == "UFUNCTION"@
            &&& !property && !known ==> m.flags == ""@
        }),
{
}

/// A function has its parameters as detail, and no other member has one; the type
/// of a member is what stands between its begin and its declarator.
pub proof fn law_member_detail(ns: Seq<NodeView>, src: Seq<u8>, i: int, cap: Seq<char>)
    ensures
        match member_at(ns, src, i, cap) {
            Some((m, _)) => {
                &&& m.mem_type == "property"@ ==> m.detail is None
                &&& m.mem_type == "function"@ ==> (match descendant(ns, i, "parameter_list"@) {
                    Some(p) => m.detail == Some(ns[p].text),
                    None => m.detail is None,
                })
                &&& m.return_type == type_between(
                    src,
                    ns[i].start_byte as int,
                    ns[declarator_below(ns, i)->0].start_byte as int,
                )
            },
            None => true,
        },
{
    reveal_strlit("function");
    reveal_strlit("property");
    assert("function"@[0] == 'f' && "property"@[0] == 'p');
}

/// The type that a text writes is its last word, or all of it where it is a
/// template.
pub proof fn law_type_part(s: Seq<char>)
    ensures
        trim(s).contains('<') && trim(s).contains('>') ==> type_part(s) == trim(s),
        !(trim(s).contains('<') && trim(s).contains('>')) && words(trim(s)).len() > 0 ==> type_part(
            s,
        ) == words(trim(s)).last(),
        words(trim(s)).len() == 0 && !trim(s).contains('<') ==> type_part(s).len() == 0,
{
}

// ---------------------------------------------------------------------------
// Classes
// ---------------------------------------------------------------------------
/// A class without a body is only announced, and not recorded; one with a body is
/// recorded with its name, its lines and its bytes.
pub proof fn law_class_has_body(ns: Seq<NodeView>, i: int, p: int, cap: Seq<char>)
    requires
        parent_of(ns, i) == Some(p),
    ensures
        class_named(ns, i, cap) is Some <==> child_field(ns, p, "body"@) is Some,
        class_named(ns, i, cap) matches Some(c) ==> c.line == ns[p].start_row.wrapping_add(1)
            && c.end_line == ns[p].end_row.wrapping_add(1) && c.range_start == ns[p].start_byte
            && c.range_end == ns[p].end_byte && c.namespace == namespace_of(ns, p)
            && c.members.len() == 0 && c.base_classes.len() == 0 && c.is_interface == (descendant(
            ns,
            p,
            "unreal_interface_macro"@,
        ) is Some) && c.is_final == crate::diagnostics::token_in(ns[p].text, "final"@),
        cap != "enum_name"@ || ns[i].text != "Type"@ ==> (class_named(ns, i, cap) matches Some(c)
            ==> c.class_name == ns[i].text),
{
}

/// An enumeration `Type` in a namespace is known by both names.
pub proof fn law_enum_type_is_qualified(ns: Seq<NodeView>, i: int, p: int, space: Seq<char>)
    requires
        parent_of(ns, i) == Some(p),
        ns[i].text == "Type"@,
        namespace_of(ns, p) == Some(space),
        child_field(ns, p, "body"@) is Some,
    ensures
        class_named(ns, i, "enum_name"@) matches Some(c) && c.class_name == space + "::"@ + "Type"@,
{
}

/// A class that the engine reflects is of the kind that the macro names; any other
/// of the kind under which it was captured.
pub proof fn law_class_kind(ns: Seq<NodeView>, i: int, p: int, cap: Seq<char>)
    requires
        parent_of(ns, i) == Some(p),
        class_named(ns, i, cap) is Some,
    ensures
        ({
            let t = class_named(ns, i, cap)->0.symbol_type;
            let k = ns[p].kind;
            let plain = k == "class_specifier"@ || k == "struct_specifier"@ || k
                == "enum_specifier"@;
            &&& k == "unreal_reflected_class_declaration"@ ==> t == "UCLASS"@
            &&& k == "unreal_reflected_struct_declaration"@ ==> t == "USTRUCT"@
            &&& k == "unreal_reflected_enum_declaration"@ ==> t == "UENUM"@
            &&& plain && cap == "class_name"@ ==> t == "class"@
            &&& plain && cap == "struct_name"@ ==> t == "struct"@
            &&& plain && cap == "enum_name"@ ==> t == "enum"@
        }),
{
    lemma_class_kinds();
}

proof fn lemma_class_kinds()
    ensures
        "unreal_reflected_struct_declaration"@ != "unreal_reflected_class_declaration"@,
        "unreal_reflected_enum_declaration"@ != "unreal_reflected_class_declaration"@,
        "unreal_reflected_enum_declaration"@ != "unreal_reflected_struct_declaration"@,
        "class_specifier"@ != "unreal_reflected_class_declaration"@,
        "class_specifier"@ != "unreal_reflected_struct_declaration"@,
        "class_specifier"@ != "unreal_reflected_enum_declaration"@,
        "struct_specifier"@ != "unreal_reflected_class_declaration"@,
        "struct_specifier"@ != "unreal_reflected_struct_declaration"@,
        "struct_specifier"@ != "unreal_reflected_enum_declaration"@,
        "enum_specifier"@ != "unreal_reflected_class_declaration"@,
        "enum_specifier"@ != "unreal_reflected_struct_declaration"@,
        "enum_specifier"@ != "unreal_reflected_enum_declaration"@,
        "class_name"@ != "struct_name"@,
        "class_name"@ != "enum_name"@,
        "struct_name"@ != "enum_name"@,
        "class_name"@ != "call_name"@,
        "struct_name"@ != "call_name"@,
        "enum_name"@ != "call_name"@,
        "base_class_name"@ != "call_name"@,
        "base_class_name"@ != "class_name"@,
        "base_class_name"@ != "struct_name"@,
        "base_class_name"@ != "enum_name"@,
{
    reveal_strlit("unreal_reflected_class_declaration");
    reveal_strlit("unreal_reflected_struct_declaration");
    reveal_strlit("unreal_reflected_enum_declaration");
    reveal_strlit("class_specifier");
    reveal_strlit("struct_specifier");
    reveal_strlit("enum_specifier");
    reveal_strlit("class_name");
    reveal_strlit("struct_name");
    reveal_strlit("enum_name");
    reveal_strlit("call_name");
    reveal_strlit("base_class_name");
    assert("class_name"@.len() == 10 && "struct_name"@.len() == 11 && "enum_name"@.len() == 9);
    assert("call_name"@.len() == 9 && "base_class_name"@.len() == 15);
    assert("call_name"@[0] == 'c' && "enum_name"@[0] == 'e');
    assert("class_specifier"@.len() == 15 && "struct_specifier"@.len() == 16);
    assert("enum_specifier"@.len() == 14 && "unreal_reflected_class_declaration"@.len() == 34);
    assert("unreal_reflected_struct_declaration"@.len() == 35);
    assert("unreal_reflected_enum_declaration"@.len() == 33);
}

/// A base class is recorded with the class that was read last, where it stands in
/// that class and is not the class itself. No other class changes.
pub proof fn law_base_class(classes: Seq<ClassView>, ns: Seq<NodeView>, i: int)
    requires
        classes.len() > 0,
    ensures
        ({
            let r = with_base(classes, ns, i);
            let c = classes.last();
            let name = base_name(ns[i].text);
            let inside = c.range_start <= ns[i].start_byte <= c.range_end;
            &&& r.len() == classes.len()
            &&& forall|k: int| 0 <= k < classes.len() - 1 ==> #[trigger] r[k] == classes[k]
            &&& inside && name.len() > 0 && name != c.class_name ==> r.last().base_classes
                == c.base_classes.push(name) && r.last().class_name == c.class_name
                && r.last().members == c.members
            &&& !(inside && name.len() > 0 && name != c.class_name) ==> r == classes
        }),
{
}

/// The name of a base class is what stands behind its namespaces.
pub proof fn law_base_name(space: Seq<char>, name: Seq<char>)
    requires
        !name.contains(':'),
        name.len() > 0,
    ensures
        base_name(name) == name,
        base_name(space + "::"@ + name) == name,
{
    reveal_strlit("::");
    let s = space + "::"@ + name;
    lemma_never(name, name.len() - 2);
    assert(s.skip(s.len() - name.len()) =~= name);
    let at = s.len() - name.len() - 2;
    assert(s.subrange(at, at + 2) =~= "::"@);
    lemma_scope_found(s, name, s.len() - 2);
    assert(s.skip(at + 2) =~= name);
}

proof fn lemma_never(name: Seq<char>, from: int)
    requires
        !name.contains(':'),
        from <= name.len() - 2,
    ensures
        crate::text::rfind_from(name, "::"@, from) is None,
    decreases from + 1,
{
    reveal_strlit("::");
    if from >= 0 {
        if occurs_at(name, "::"@, from) {
            assert(name.subrange(from, from + 2)[0] == ':');
            assert(name.contains(':'));
        }
        lemma_never(name, from - 1);
    }
}

proof fn lemma_no_scope(s: Seq<char>, name: Seq<char>)
    requires
        !name.contains(':'),
        name.len() <= s.len(),
        s.skip(s.len() - name.len()) == name,
    ensures
        forall|i: int| s.len() - name.len() <= i + 1 && i + 1 < s.len() && i >= s.len() - name.len() - 1
            ==> !#[trigger] occurs_at(s, "::"@, i),
{
    reveal_strlit("::");
    assert forall|i: int| s.len() - name.len() <= i + 1 && i + 1 < s.len() && i >= s.len()
        - name.len() - 1 implies !#[trigger] occurs_at(s, "::"@, i) by {
        if occurs_at(s, "::"@, i) {
            assert(s.subrange(i, i + 2)[1] == ':');
            assert(s[i + 1] == ':');
            assert(s.skip(s.len() - name.len())[i + 1 - (s.len() - name.len())] == ':');
            assert(name.contains(':'));
        }
    }
}

proof fn lemma_scope_found(s: Seq<char>, name: Seq<char>, from: int)
    requires
        !name.contains(':'),
        name.len() + 2 <= s.len(),
        s.skip(s.len() - name.len()) == name,
        occurs_at(s, "::"@, s.len() - name.len() - 2),
        s.len() - name.len() - 2 <= from <= s.len() - 2,
    ensures
        crate::text::rfind_from(s, "::"@, from) == Some(s.len() - name.len() - 2),
    decreases from,
{
    reveal_strlit("::");
    lemma_no_scope(s, name);
    if from > s.len() - name.len() - 2 {
        assert(!occurs_at(s, "::"@, from));
        lemma_scope_found(s, name, from - 1);
    }
}

/// The implementation of a member is added to the first class of its scope; where
/// there is none, a class of that name is made for it.
pub proof fn law_implementation_finds_class(classes: Seq<ClassView>, scope: Seq<char>, m: MemberView)
    ensures
        ({
            let r = with_implementation(classes, scope, m);
            &&& (exists|k: int| 0 <= k < classes.len() && (#[trigger] classes[k]).class_name == scope)
                ==> r.len() == classes.len()
            &&& (forall|k: int| 0 <= k < classes.len() ==> (#[trigger] classes[k]).class_name != scope)
                ==> r.len() == classes.len() + 1 && r.last().class_name == scope && r.last().members
                == seq![m] && r.last().symbol_type == "class"@
            &&& exists|k: int|
                0 <= k < r.len() && (#[trigger] r[k]).class_name == scope && r[k].members.len() > 0
                    && r[k].members.last() == m && (k < classes.len() ==> r[k].members
                    == classes[k].members.push(m))
            &&& forall|k: int|
                0 <= k < classes.len() && classes[k].class_name != scope ==> #[trigger] r[k] == classes[k]
        }),
{
    lemma_class_index(classes, scope, 0);
    let r = with_implementation(classes, scope, m);
    match class_index(classes, scope, 0) {
        Some(k) => {
            assert(r[k].members.last() == m);
        },
        None => {
            let k = classes.len() as int;
            assert(r[k].members =~= seq![m]);
            assert(r[k].members.last() == m);
        },
    }
}

proof fn lemma_class_index(classes: Seq<ClassView>, name: Seq<char>, i: int)
    requires
        0 <= i,
    ensures
        match class_index(classes, name, i) {
            Some(k) => i <= k < classes.len() && classes[k].class_name == name && (forall|m: int|
                i <= m < k ==> (#[trigger] classes[m]).class_name != name),
            None => forall|m: int|
                i <= m < classes.len() ==> (#[trigger] classes[m]).class_name != name,
        },
    decreases classes.len() - i,
{
    if i < classes.len() && classes[i].class_name != name {
        lemma_class_index(classes, name, i + 1);
    }
}

// ---------------------------------------------------------------------------
// Captures
// ---------------------------------------------------------------------------
/// A captured call is recorded with its name and its line.
pub proof fn law_call_is_recorded(st: SymbolsView, ns: Seq<NodeView>, src: Seq<u8>, c: NodeCaptureView)
    requires
        c.name == "call_name"@,
    ensures
        ({
            let r = symbols_step(st, ns, src, c);
            &&& r.classes == st.classes && r.pending == st.pending
            &&& ns[c.node].text.len() == 0 ==> r.calls == st.calls
            &&& ns[c.node].text.len() > 0 ==> r.calls == st.calls.push(
                (CallView { name: ns[c.node].text, line: ns[c.node].start_row.wrapping_add(1) }),
            )
        }),
{
}

/// A captured class is recorded behind those before it.
pub proof fn law_class_is_recorded(st: SymbolsView, ns: Seq<NodeView>, src: Seq<u8>, c: NodeCaptureView)
    requires
        c.name == "class_name"@ || c.name == "struct_name"@ || c.name == "enum_name"@,
    ensures
        ({
            let r = symbols_step(st, ns, src, c);
            &&& r.calls == st.calls && r.pending == st.pending
            &&& match class_named(ns, c.node, c.name) {
                Some(k) => r.classes == st.classes.push(k),
                None => r.classes == st.classes,
            }
        }),
{
    lemma_class_kinds();
}

/// An enumerator waits for its enumeration, as a public item of its name.
pub proof fn law_enumerator_is_recorded(st: SymbolsView, ns: Seq<NodeView>, src: Seq<u8>, node: int)
    ensures
        ({
            let r = symbols_step(st, ns, src, NodeCaptureView { name: "enum_val_name"@, node });
            let n = ns[node];
            &&& r.calls == st.calls && r.classes == st.classes
            &&& r.pending.len() == st.pending.len() + 1
            &&& r.pending.last().start == n.start_byte && r.pending.last().end == n.end_byte
            &&& r.pending.last().member.name == n.text && r.pending.last().member.mem_type
                == "enum_item"@ && r.pending.last().member.access == "public"@
            &&& r.pending.last().member.line == n.start_row.wrapping_add(1)
        }),
{
    lemma_class_kinds();
    lemma_member_names(seq![]);
}

proof fn lemma_member_names(m: Seq<char>)
    ensures
        "enum_val_name"@ != "call_name"@,
        "enum_val_name"@ != "class_name"@,
        "enum_val_name"@ != "struct_name"@,
        "enum_val_name"@ != "enum_name"@,
        "enum_val_name"@ != "base_class_name"@,
        "enum_val_name"@ != "func_node"@,
        "enum_val_name"@ != "decl_node"@,
        "enum_val_name"@ != "ufunc_node"@,
        "enum_val_name"@ != "field_node"@,
        m == "func_node"@ || m == "decl_node"@ || m == "ufunc_node"@ || m == "field_node"@ ==> m
            != "call_name"@ && m != "class_name"@ && m != "struct_name"@ && m != "enum_name"@ && m
            != "base_class_name"@,
{
    reveal_strlit("enum_val_name");
    reveal_strlit("call_name");
    reveal_strlit("class_name");
    reveal_strlit("struct_name");
    reveal_strlit("enum_name");
    reveal_strlit("base_class_name");
    reveal_strlit("func_node");
    reveal_strlit("decl_node");
    reveal_strlit("ufunc_node");
    reveal_strlit("field_node");
    assert("enum_val_name"@.len() == 13 && "call_name"@.len() == 9 && "class_name"@.len() == 10);
    assert("struct_name"@.len() == 11 && "enum_name"@.len() == 9 && "base_class_name"@.len() == 15);
    assert("func_node"@.len() == 9 && "decl_node"@.len() == 9 && "ufunc_node"@.len() == 10);
    assert("field_node"@.len() == 10);
    assert("func_node"@[0] == 'f' && "decl_node"@[0] == 'd' && "ufunc_node"@[0] == 'u');
    assert("field_node"@[0] == 'f' && "call_name"@[0] == 'c' && "class_name"@[0] == 'c');
    assert("enum_name"@[0] == 'e');
}

/// A captured member waits for its class, with the bytes of its node; one that
/// names its scope goes to the class of that scope at once.
pub proof fn law_member_is_recorded(st: SymbolsView, ns: Seq<NodeView>, src: Seq<u8>, c: NodeCaptureView)
    requires
        c.name == "func_node"@ || c.name == "decl_node"@ || c.name == "ufunc_node"@ || c.name
            == "field_node"@,
    ensures
        ({
            let r = symbols_step(st, ns, src, c);
            &&& r.calls == st.calls
            &&& match member_at(ns, src, c.node, c.name) {
                None => r == st,
                Some((m, Some(s))) => r.pending == st.pending && r.classes == with_implementation(
                    st.classes,
                    s,
                    m,
                ),
                Some((m, None)) => r.classes == st.classes && r.pending == st.pending.push(
                    (PendingView {
                        member: m,
                        start: ns[c.node].start_byte,
                        end: ns[c.node].end_byte,
                    }),
                ),
            }
        }),
{
    lemma_member_names(c.name);
}

/// A member ends up as the last one of the smallest class around it, and in no
/// other.
pub proof fn law_member_finds_class(classes: Seq<ClassView>, pending: Seq<PendingView>, n: int)
    requires
        0 < n <= pending.len(),
    ensures
        ({
            let before = attached(classes, pending, n - 1);
            let after = attached(classes, pending, n);
            let p = pending[n - 1];
            &&& after.len() == before.len()
            &&& (forall|k: int| 0 <= k < before.len() ==> !(p.start >= (#[trigger] before[k]).range_start
                && p.end <= before[k].range_end)) ==> after == before
            &&& forall|k: int|
                0 <= k < before.len() && p.start >= before[k].range_start && p.end
                    <= before[k].range_end && (forall|m: int|
                    0 <= m < before.len() && m != k && p.start >= (#[trigger] before[m]).range_start
                        && p.end <= before[m].range_end ==> before[m].range_end
                        - before[m].range_start > before[k].range_end - before[k].range_start)
                    ==> #[trigger] after[k] == with_member(before[k], p.member) && (forall|m: int|
                    0 <= m < before.len() && m != k ==> after[m] == before[m])
        }),
{
    let before = attached(classes, pending, n - 1);
    crate::parser::symbols::law_smallest(before, pending[n - 1], before.len() as int);
}

/// The paths of the directives are those of the path captures, in order, without
/// the empty ones.
pub proof fn law_directive_paths(ns: Seq<NodeView>, caps: Seq<NodeCaptureView>, n: int)
    requires
        0 < n <= caps.len(),
    ensures
        ({
            let path = directive_path(ns[caps[n - 1].node].text);
            let before = directive_paths(ns, caps, n - 1);
            &&& caps[n - 1].name == "path"@ && path.len() > 0 ==> directive_paths(ns, caps, n)
                == before.push(path)
            &&& caps[n - 1].name != "path"@ || path.len() == 0 ==> directive_paths(ns, caps, n)
                == before
        }),
{
}

/// A path in quotes or in angle brackets is named without them.
pub proof fn law_directive_path(path: Seq<char>)
    requires
        path.len() > 0,
        forall|i: int|
            0 <= i < path.len() ==> #[trigger] path[i] != '"' && path[i] != '<' && path[i] != '>',
    ensures
        directive_path(seq!['"'] + path + seq!['"']) == path,
        directive_path(seq!['<'] + path + seq!['>']) == path,
{
    lemma_bare(path, '"');
    lemma_bare(path, '<');
    lemma_bare(path, '>');
    lemma_unwrap(path, '"');
    let a = seq!['<'] + path + seq!['>'];
    assert(a[0] != '"' && a.last() != '"');
    lemma_ends(a, '"');
    lemma_unwrap_mixed(path);
}

proof fn lemma_ends(s: Seq<char>, c: char)
    requires
        s.len() > 0 ==> s[0] != c && s.last() != c,
    ensures
        without_char(s, c) == s,
{
}

proof fn lemma_bare(path: Seq<char>, c: char)
    requires
        path.len() > 0,
        path[0] != c,
        path.last() != c,
    ensures
        without_char(path, c) == path,
{
}

proof fn lemma_unwrap(path: Seq<char>, c: char)
    requires
        path.len() > 0,
        path[0] != c,
        path.last() != c,
    ensures
        without_char(seq![c] + path + seq![c], c) == path,
        without_char(seq![c] + path, c) == path,
        without_char(path + seq![c], c) == path,
{
    let s = seq![c] + path + seq![c];
    let t = path + seq![c];
    assert(s.skip(1) =~= t);
    assert(t.drop_last() =~= path);
    assert((seq![c] + path).skip(1) =~= path);
    assert(t[0] == path[0] && t.last() == c);
    assert(without_leading(t, c) == t);
    assert(without_leading(path, c) == path);
    assert(without_leading(s, c) == t);
    assert(without_trailing(path, c) == path);
    assert(without_trailing(t, c) == path);
    assert(without_leading(seq![c] + path, c) == path);
}

proof fn lemma_unwrap_mixed(path: Seq<char>)
    requires
        path.len() > 0,
        forall|i: int|
            0 <= i < path.len() ==> #[trigger] path[i] != '"' && path[i] != '<' && path[i] != '>',
    ensures
        without_char(without_char(seq!['<'] + path + seq!['>'], '<'), '>') == path,
{
    let a = seq!['<'] + path + seq!['>'];
    let b = path + seq!['>'];
    assert(a.skip(1) =~= b);
    assert(b[0] == path[0]);
    assert(b.last() == '>');
    assert(without_leading(b, '<') == b);
    assert(without_leading(a, '<') == b);
    assert(without_char(a, '<') == b);
    lemma_unwrap(path, '>');
}

// ---------------------------------------------------------------------------
// Files
// ---------------------------------------------------------------------------
/// A file is left alone exactly where its content has the recorded fingerprint. A
/// header without anything of the engine is only noted; everything else is parsed.
pub proof fn law_file_step(
    path: Seq<char>,
    windows: bool,
    old_hash: Option<Seq<char>>,
    hash: Seq<char>,
    content: Seq<u8>,
)
    ensures
        ({
            let r = file_step(path, windows, old_hash, hash, content);
            let ext = crate::paths::lower_extension(path, windows);
            let header = ext == Some("h"@) || ext == Some("hpp"@) || ext == Some("hh"@) || ext
                == Some("inl"@);
            &&& r is Unchanged <==> old_hash == Some(hash)
            &&& old_hash != Some(hash) && !header ==> r == StepView::Parse(hash)
            &&& old_hash != Some(hash) && interesting(content) ==> r == StepView::Parse(hash)
            &&& old_hash != Some(hash) && header && !interesting(content) ==> r == StepView::Skip(hash)
        }),
{
}

// ---------------------------------------------------------------------------
// Namespaces, types and files
// ---------------------------------------------------------------------------
/// What lies in a namespace or a class has its name behind the names of those around
/// it; anything else around a node adds nothing.
pub proof fn law_namespace_parts(ns: Seq<NodeView>, i: int)
    ensures
        parent_of(ns, i) is None ==> namespace_parts(ns, i).len() == 0,
        parent_of(ns, i) matches Some(p) ==> {
            let named = ns[p].kind == "namespace_definition"@ || ns[p].kind == "class_specifier"@
                || ns[p].kind == "struct_specifier"@;
            &&& named ==> (child_field(ns, p, "name"@) matches Some(n) ==> namespace_parts(ns, i)
                == namespace_parts(ns, p) + seq![ns[n].text])
            &&& !named || child_field(ns, p, "name"@) is None ==> namespace_parts(ns, i)
                == namespace_parts(ns, p)
        },
        namespace_parts(ns, i).len() == 0 ==> namespace_of(ns, i) is None,
        namespace_parts(ns, i).len() > 0 ==> namespace_of(ns, i) == Some(
            join(namespace_parts(ns, i), "::"@),
        ),
{
    lemma_parent_from(ns, ns[i].depth, i);
    reveal_with_fuel(namespace_parts, 2);
}

/// Of the nodes under a field the first one counts, however deep it stands.
pub proof fn law_first_field(ns: Seq<NodeView>, j: int, end: int, field: Seq<char>, k: int)
    requires
        0 <= j <= k < end <= ns.len(),
        ns[k].field == Some(field),
        forall|m: int| j <= m < k ==> (#[trigger] ns[m]).field != Some(field),
    ensures
        first_field(ns, j, end, field) == Some(k),
    decreases k - j,
{
    if j < k {
        assert(ns[j].field != Some(field));
        law_first_field(ns, j + 1, end, field, k);
    }
}

/// The words that say nothing of a type are taken out one after the other, all of
/// them.
pub proof fn law_stripped(s: Seq<char>, n: int)
    requires
        0 <= n < keyword_patterns().len(),
    ensures
        stripped(s, 0) == s,
        stripped(s, n + 1) == replaced(keyword_patterns()[n], stripped(s, n), ""@),
        keyword_patterns().len() == 14,
        keyword_patterns()[0] == "\\bvirtual\\b"@,
        keyword_patterns()[1] == "\\bstatic\\b"@,
        keyword_patterns()[2] == "\\binline\\b"@,
        keyword_patterns()[3] == "\\bFORCEINLINE\\b"@,
        keyword_patterns()[5] == "\\bconstexpr\\b"@,
        keyword_patterns()[6] == "\\bconst\\b"@,
        keyword_patterns()[7] == "\\bfriend\\b"@,
        keyword_patterns()[8] == "\\bclass\\b"@,
        keyword_patterns()[9] == "\\bstruct\\b"@,
        keyword_patterns()[10] == "\\benum\\b"@,
        keyword_patterns()[11] == "\\btypename\\b"@,
{
}

/// Semicolons are taken out of a type, and colons get blanks around them.
pub proof fn law_spread(s: Seq<char>)
    ensures
        spread(seq![';'] + s) == spread(s),
        spread(seq![':'] + s) == seq![' ', ':', ' '] + spread(s),
        s.len() > 0 && s[0] != ';' && s[0] != ':' ==> spread(s) == seq![s[0]] + spread(s.skip(1)),
{
    reveal_strlit(";");
    reveal_strlit("");
    reveal_strlit(":");
    reveal_strlit(" : ");
    let none = Seq::<char>::empty();
    assert(""@ =~= none);
    assert(";"@ =~= seq![';']);
    assert(":"@ =~= seq![':']);
    assert(" : "@ =~= seq![' ', ':', ' ']);
    crate::laws::texts::law_replace_all(s, ";"@, ""@);
    assert(""@ + replace_all(s, ";"@, ""@) =~= replace_all(s, ";"@, ""@));
    let inner = replace_all(s, ";"@, ""@);
    let t = seq![':'] + s;
    crate::laws::texts::law_replace_all(t, ";"@, ""@);
    if starts(t, ";"@) {
        assert(t.subrange(0, 1)[0] == ':');
    }
    assert(t.skip(1) =~= s);
    assert(replace_all(t, ";"@, ""@) == seq![':'] + inner);
    crate::laws::texts::law_replace_all(inner, ":"@, " : "@);
    if s.len() > 0 && s[0] != ';' && s[0] != ':' {
        if starts(s, ";"@) {
            assert(s.subrange(0, 1)[0] == ';');
        }
        let rest = replace_all(s.skip(1), ";"@, ""@);
        assert(inner == seq![s[0]] + rest);
        if starts(inner, ":"@) {
            assert(inner.subrange(0, 1)[0] == ':');
        }
        assert(inner.skip(1) =~= rest);
    }
}

/// The position behind the last closing bracket.
pub proof fn law_after_bracket(b: Seq<u8>, n: int, k: int)
    requires
        0 <= k < n <= b.len(),
        b[k] == 41u8,
        forall|j: int| k < j < n ==> #[trigger] b[j] != 41u8,
    ensures
        after_bracket(b, n) == k + 1,
    decreases n,
{
    if n - 1 > k {
        assert(b[n - 1] != 41u8);
        law_after_bracket(b, n - 1, k);
    }
}

/// The extensions of headers.
pub proof fn law_header_extension(e: Seq<char>)
    ensures
        !header_extension(None),
        header_extension(Some(e)) <==> e == "h"@ || e == "hpp"@ || e == "hh"@ || e == "inl"@,
{
}

/// The symbols of a file are those of its captures, with the implementations attached,
/// its calls, and the files that it names.
pub proof fn law_file_symbols(
    ns: Seq<NodeView>,
    src: Seq<u8>,
    caps: Seq<NodeCaptureView>,
    paths: Seq<NodeCaptureView>,
    n: int,
)
    ensures
        ({
            let st = symbols_after(ns, src, caps, caps.len() as int);
            let f = file_symbols(ns, src, caps, paths);
            &&& f.classes == attached(st.classes, st.pending, st.pending.len() as int)
            &&& f.calls == st.calls
            &&& f.includes == directive_paths(ns, paths, paths.len() as int)
        }),
        symbols_after(ns, src, caps, 0).classes.len() == 0,
        symbols_after(ns, src, caps, 0).calls.len() == 0,
        0 <= n < caps.len() ==> symbols_after(ns, src, caps, n + 1) == symbols_step(
            symbols_after(ns, src, caps, n),
            ns,
            src,
            caps[n],
        ),
{
}

/// A scope of which only implementations are seen is a class over the whole file.
pub proof fn law_scope_class(name: Seq<char>)
    ensures
        ({
            let c = scope_class(name);
            &&& c.class_name == name && c.symbol_type == "class"@
            &&& c.line == 1 && c.end_line == usize::MAX
            &&& c.range_start == 0 && c.range_end == usize::MAX
            &&& c.members.len() == 0 && c.base_classes.len() == 0 && c.namespace is None
            &&& !c.is_final && !c.is_interface
        }),
{
}

/// A type is written without the words that say nothing of it, without semicolons, and
/// with one blank in place of each run of white space.
pub proof fn law_cleaned(raw: Seq<char>)
    ensures
        cleaned(raw) == type_part(
            replaced("\\s+"@, spread(stripped(trim(raw), keyword_patterns().len() as int)), " "@),
        ),
        cleaned(trim(raw)) == cleaned(raw),
{
    crate::laws::texts::law_trim(raw);
    crate::laws::texts::lemma_trim_stays(trim(raw));
}

/// Bytes are held where they stand between others, and nowhere else.
pub proof fn law_holds_bytes(a: Seq<u8>, p: Seq<u8>, b: Seq<u8>, i: int)
    ensures
        holds_bytes(a + p + b, p),
        bytes_at(a, p, i) ==> 0 <= i && i + p.len() <= a.len() && a == a.take(i) + p + a.skip(
            i + p.len(),
        ),
        p.len() > a.len() ==> !holds_bytes(a, p),
{
    let s = a + p + b;
    assert(s.subrange(a.len() as int, a.len() + p.len() as int) =~= p);
    assert(bytes_at(s, p, a.len() as int));
    if bytes_at(a, p, i) {
        assert(a =~= a.take(i) + a.subrange(i, i + p.len()) + a.skip(i + p.len()));
    }
}

/// What stands in no class is public.
pub proof fn law_access_outside(ns: Seq<NodeView>, i: int)
    requires
        parent_of(ns, i) is None,
    ensures
        access_of(ns, i) == "public"@,
{
}

} // verus!
