//! What holds of syntax trees.

#[allow(unused_imports)]
use crate::syntax::{below_kind, child_field, class_name_node, descendant, end_of, field_from, kind_from,
    lemma_end_from, lemma_parent_from, name_node, name_node_in, parent_of, NodeView};
use vstd::prelude::*;

verus! {

/// Of the siblings the first one under a field counts.
pub proof fn law_first_under_field(ns: Seq<NodeView>, j: int, end: int, field: Seq<char>)
    requires
        0 <= j < end <= ns.len(),
    ensures
        ns[j].field == Some(field) ==> field_from(ns, j, end, field) == Some(j),
        ns[j].field != Some(field) ==> field_from(ns, j, end, field) == field_from(
            ns,
            end_of(ns, j),
            end,
            field,
        ),
        field_from(ns, end, end, field) is None,
{
    lemma_end_from(ns, ns[j].depth, j + 1);
    reveal_with_fuel(field_from, 2);
}

/// A child under a field is looked for among the children, the first of which stands
/// right behind its parent.
pub proof fn law_child_under_field(ns: Seq<NodeView>, i: int, field: Seq<char>)
    ensures
        child_field(ns, i, field) == field_from(ns, i + 1, end_of(ns, i), field),
{
}

/// Of the nodes of a kind the first one counts, however deep it stands.
pub proof fn law_first_of_kind(ns: Seq<NodeView>, j: int, end: int, kind: Seq<char>, k: int)
    requires
        0 <= j <= k < end <= ns.len(),
        ns[k].kind == kind,
        forall|m: int| j <= m < k ==> (#[trigger] ns[m]).kind != kind,
    ensures
        kind_from(ns, j, end, kind) == Some(k),
    decreases k - j,
{
    if j < k {
        assert(ns[j].kind != kind);
        law_first_of_kind(ns, j + 1, end, kind, k);
    }
}

/// What is found of a kind below a node is of that kind and lies below the node; where
/// nothing is found there is nothing.
pub proof fn law_descendant(ns: Seq<NodeView>, i: int, kind: Seq<char>)
    requires
        0 <= i < ns.len(),
    ensures
        match descendant(ns, i, kind) {
            Some(k) => i < k < end_of(ns, i) && ns[k].kind == kind,
            None => forall|k: int| i < k < end_of(ns, i) ==> (#[trigger] ns[k]).kind != kind,
        },
{
    lemma_kind_from(ns, i + 1, end_of(ns, i), kind);
}

proof fn lemma_kind_from(ns: Seq<NodeView>, j: int, end: int, kind: Seq<char>)
    ensures
        match kind_from(ns, j, end, kind) {
            Some(k) => j <= k < end && ns[k].kind == kind,
            None => forall|k: int| j <= k < end ==> (#[trigger] ns[k]).kind != kind,
        },
    decreases end - j,
{
    if j < end && ns[j].kind != kind {
        lemma_kind_from(ns, j + 1, end, kind);
    }
}

/// The name of a declarator: a plain name names itself, a qualified one its last part,
/// and a declarator around another one what that names.
pub proof fn law_name_node(ns: Seq<NodeView>, i: int)
    requires
        0 <= i < ns.len(),
    ensures
        ns[i].kind == "identifier"@ || ns[i].kind == "field_identifier"@ ==> name_node(ns, i) == Some(
            i,
        ),
        ns[i].kind == "qualified_identifier"@ ==> name_node(ns, i) == child_field(ns, i, "name"@),
        ns[i].kind == "function_declarator"@ || ns[i].kind == "pointer_declarator"@ || ns[i].kind
            == "reference_declarator"@ || ns[i].kind == "array_declarator"@ || ns[i].kind
            == "parenthesized_declarator"@ ==> (match child_field(ns, i, "declarator"@) {
            Some(c) => name_node(ns, i) == name_node(ns, c),
            None => name_node(ns, i) is None,
        }),
{
    reveal_strlit("identifier");
    reveal_strlit("field_identifier");
    reveal_strlit("qualified_identifier");
    reveal_strlit("function_declarator");
    reveal_strlit("pointer_declarator");
    reveal_strlit("reference_declarator");
    reveal_strlit("array_declarator");
    reveal_strlit("parenthesized_declarator");
    assert("identifier"@.len() == 10 && "field_identifier"@.len() == 16);
    assert("qualified_identifier"@.len() == 20 && "function_declarator"@.len() == 19);
    assert("pointer_declarator"@.len() == 18 && "reference_declarator"@.len() == 20);
    assert("array_declarator"@.len() == 16 && "parenthesized_declarator"@.len() == 24);
    assert("qualified_identifier"@[0] == 'q' && "reference_declarator"@[0] == 'r');
    assert("field_identifier"@[0] == 'f' && "array_declarator"@[0] == 'a');
    lemma_end_from(ns, ns[i].depth, i + 1);
    crate::syntax::lemma_field_from(ns, i + 1, end_of(ns, i), "declarator"@);
    reveal_with_fuel(name_node, 2);
}

/// Among children the first that yields a name decides.
pub proof fn law_first_name(ns: Seq<NodeView>, j: int, end: int)
    requires
        0 <= j < end <= ns.len(),
    ensures
        name_node(ns, j) is Some ==> name_node_in(ns, j, end) == name_node(ns, j),
        name_node(ns, j) is None ==> name_node_in(ns, j, end) == name_node_in(
            ns,
            end_of(ns, j),
            end,
        ),
        name_node_in(ns, end, end) is None,
{
    lemma_end_from(ns, ns[j].depth, j + 1);
    reveal_with_fuel(name_node_in, 2);
}

/// A node lies below a kind when its parent is of it or lies below it.
pub proof fn law_below_kind(ns: Seq<NodeView>, i: int, kind: Seq<char>)
    ensures
        parent_of(ns, i) is None ==> !below_kind(ns, i, kind),
        parent_of(ns, i) matches Some(p) ==> (below_kind(ns, i, kind) <==> ns[p].kind == kind
            || below_kind(ns, p, kind)),
{
    lemma_parent_from(ns, ns[i].depth, i);
    reveal_with_fuel(below_kind, 2);
}

/// The class around a node is the innermost one that has a name.
pub proof fn law_class_name(ns: Seq<NodeView>, i: int)
    ensures
        parent_of(ns, i) is None ==> class_name_node(ns, i) is None,
        parent_of(ns, i) matches Some(p) ==> {
            let class = ns[p].kind == "class_specifier"@ || ns[p].kind == "struct_specifier"@
                || ns[p].kind == "unreal_reflected_class_declaration"@ || ns[p].kind
                == "unreal_reflected_struct_declaration"@;
            &&& class && child_field(ns, p, "name"@) is Some ==> class_name_node(ns, i)
                == child_field(ns, p, "name"@)
            &&& !class || child_field(ns, p, "name"@) is None ==> class_name_node(ns, i)
                == class_name_node(ns, p)
        },
{
    lemma_parent_from(ns, ns[i].depth, i);
    reveal_with_fuel(class_name_node, 2);
}

} // verus!
