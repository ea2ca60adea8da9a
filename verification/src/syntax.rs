//! Syntax trees of C++ files.
//!
//! A tree is the list of its nodes in the order in which they begin, each
//! parent before its children, with the depth of each. Parents, children and
//! subtrees are found in that list.

use vstd::prelude::*;

use crate::text::str_eq;
#[allow(unused_imports)]
use crate::text::views;

verus! {

/// One node: its kind, the field under which its parent holds it, its text, its
/// depth below the root, and where it starts and ends, in bytes and as row and
/// column. An extra node may stand anywhere, as comments do.
pub struct SyntaxNode {
    pub kind: String,
    pub field: Option<String>,
    pub text: String,
    pub depth: usize,
    pub start_byte: usize,
    pub end_byte: usize,
    pub start_row: usize,
    pub start_column: usize,
    pub end_row: usize,
    pub end_column: usize,
    pub extra: bool,
}

/// What a node says.
pub struct NodeView {
    pub kind: Seq<char>,
    pub field: Option<Seq<char>>,
    pub text: Seq<char>,
    pub depth: int,
    pub start_byte: usize,
    pub end_byte: usize,
    pub start_row: usize,
    pub start_column: usize,
    pub end_row: usize,
    pub end_column: usize,
    pub extra: bool,
}

impl View for SyntaxNode {
    type V = NodeView;

    open spec fn view(&self) -> NodeView {
        NodeView {
            kind: self.kind@,
            field: match self.field {
                Some(s) => Some(s@),
                None => None,
            },
            text: self.text@,
            depth: self.depth as int,
            start_byte: self.start_byte,
            end_byte: self.end_byte,
            start_row: self.start_row,
            start_column: self.start_column,
            end_row: self.end_row,
            end_column: self.end_column,
            extra: self.extra,
        }
    }
}

/// A tree, as the list of its nodes.
pub struct SyntaxTree {
    pub nodes: Vec<SyntaxNode>,
}

impl View for SyntaxTree {
    type V = Seq<NodeView>;

    open spec fn view(&self) -> Seq<NodeView> {
        views(self.nodes@)
    }
}

/// The first node at or after `j` that is no deeper than `depth`, or the end.
pub open spec fn end_from(ns: Seq<NodeView>, depth: int, j: int) -> int
    decreases ns.len() - j,
{
    if j < 0 || j >= ns.len() {
        ns.len() as int
    } else if ns[j].depth <= depth {
        j
    } else {
        end_from(ns, depth, j + 1)
    }
}

/// The end of the subtree of node `i`: the nodes from `i` up to there are `i`
/// and its descendants.
pub open spec fn end_of(ns: Seq<NodeView>, i: int) -> int {
    end_from(ns, ns[i].depth, i + 1)
}

/// The last node before `j` that is less deep than `depth`.
pub open spec fn parent_from(ns: Seq<NodeView>, depth: int, j: int) -> Option<int>
    decreases j,
{
    if j <= 0 {
        None
    } else if ns[j - 1].depth < depth {
        Some(j - 1)
    } else {
        parent_from(ns, depth, j - 1)
    }
}

/// The parent of node `i`.
pub open spec fn parent_of(ns: Seq<NodeView>, i: int) -> Option<int> {
    parent_from(ns, ns[i].depth, i)
}

/// A subtree ends after its root, within the tree; nothing in it is as shallow
/// as the root.
pub proof fn lemma_end_from(ns: Seq<NodeView>, depth: int, j: int)
    requires
        0 <= j <= ns.len(),
    ensures
        j <= end_from(ns, depth, j) <= ns.len(),
        forall|k: int| j <= k < end_from(ns, depth, j) ==> (#[trigger] ns[k]).depth > depth,
        end_from(ns, depth, j) < ns.len() ==> ns[end_from(ns, depth, j)].depth <= depth,
    decreases ns.len() - j,
{
    if j < ns.len() && ns[j].depth > depth {
        lemma_end_from(ns, depth, j + 1);
    }
}

/// A parent comes before its child.
pub proof fn lemma_parent_from(ns: Seq<NodeView>, depth: int, j: int)
    ensures
        match parent_from(ns, depth, j) {
            Some(p) => 0 <= p < j && ns[p].depth < depth,
            None => true,
        },
    decreases j,
{
    if j > 0 && ns[j - 1].depth >= depth {
        lemma_parent_from(ns, depth, j - 1);
    }
}

/// A parent holds its child in its subtree.
pub proof fn law_parent_holds_child(ns: Seq<NodeView>, i: int)
    requires
        0 <= i < ns.len(),
    ensures
        match parent_of(ns, i) {
            Some(p) => 0 <= p < i < end_of(ns, p),
            None => true,
        },
{
    lemma_parent_range(ns, ns[i].depth, i);
    match parent_of(ns, i) {
        Some(p) => {
            lemma_end_from(ns, ns[p].depth, p + 1);
            if end_of(ns, p) <= i {
                let e = end_of(ns, p);
                assert(ns[e].depth <= ns[p].depth);
            }
        },
        None => {},
    }
}

proof fn lemma_parent_range(ns: Seq<NodeView>, depth: int, j: int)
    requires
        0 <= j <= ns.len(),
    ensures
        match parent_from(ns, depth, j) {
            Some(p) => 0 <= p < j && ns[p].depth < depth && forall|k: int|
                p < k < j ==> (#[trigger] ns[k]).depth >= depth,
            None => true,
        },
    decreases j,
{
    if j > 0 && ns[j - 1].depth >= depth {
        lemma_parent_range(ns, depth, j - 1);
    }
}

/// The first of the siblings from `j` up to `end` that the parent holds under
/// the field.
pub open spec fn field_from(ns: Seq<NodeView>, j: int, end: int, field: Seq<char>) -> Option<int>
    decreases ns.len() - j,
    when 0 <= j && end <= ns.len()
    via field_from_decreases
{
    if j >= end {
        None
    } else if ns[j].field == Some(field) {
        Some(j)
    } else {
        field_from(ns, end_of(ns, j), end, field)
    }
}

#[via_fn]
proof fn field_from_decreases(ns: Seq<NodeView>, j: int, end: int, field: Seq<char>) {
    if j < end {
        lemma_end_from(ns, ns[j].depth, j + 1);
    }
}

/// The child that node `i` holds under the field.
pub open spec fn child_field(ns: Seq<NodeView>, i: int, field: Seq<char>) -> Option<int> {
    field_from(ns, i + 1, end_of(ns, i), field)
}

/// A child comes after its parent, within its subtree.
pub proof fn lemma_field_from(ns: Seq<NodeView>, j: int, end: int, field: Seq<char>)
    requires
        0 <= j,
        end <= ns.len(),
    ensures
        match field_from(ns, j, end, field) {
            Some(c) => j <= c < end,
            None => true,
        },
    decreases ns.len() - j,
{
    if j < end && ns[j].field != Some(field) {
        lemma_end_from(ns, ns[j].depth, j + 1);
        lemma_field_from(ns, end_of(ns, j), end, field);
    }
}

/// The first node from `j` up to `end` of the given kind.
pub open spec fn kind_from(ns: Seq<NodeView>, j: int, end: int, kind: Seq<char>) -> Option<int>
    decreases end - j,
{
    if j >= end {
        None
    } else if ns[j].kind == kind {
        Some(j)
    } else {
        kind_from(ns, j + 1, end, kind)
    }
}

/// The first descendant of node `i` of the given kind.
pub open spec fn descendant(ns: Seq<NodeView>, i: int, kind: Seq<char>) -> Option<int> {
    kind_from(ns, i + 1, end_of(ns, i), kind)
}

/// What `kind_from` promises.
pub proof fn lemma_kind_from(ns: Seq<NodeView>, j: int, end: int, kind: Seq<char>)
    ensures
        match kind_from(ns, j, end, kind) {
            Some(c) => j <= c < end && ns[c].kind == kind,
            None => forall|k: int| j <= k < end ==> (#[trigger] ns[k]).kind != kind,
        },
    decreases end - j,
{
    if j < end && ns[j].kind != kind {
        lemma_kind_from(ns, j + 1, end, kind);
    }
}

impl SyntaxTree {
    /// The number of nodes.
    pub fn len(&self) -> (n: usize)
        ensures
            n == self@.len(),
    {
        self.nodes.len()
    }

    /// Whether node `i` is of the given kind.
    pub fn is_kind(&self, i: usize, kind: &str) -> (r: bool)
        requires
            i < self@.len(),
        ensures
            r == (self@[i as int].kind == kind@),
    {
        str_eq(self.nodes[i].kind.as_str(), kind)
    }

    /// The text of node `i`.
    pub fn text(&self, i: usize) -> (r: &str)
        requires
            i < self@.len(),
        ensures
            r@ == self@[i as int].text,
    {
        self.nodes[i].text.as_str()
    }

    /// The end of the subtree of node `i`.
    pub fn subtree_end(&self, i: usize) -> (r: usize)
        requires
            i < self@.len(),
        ensures
            r == end_of(self@, i as int),
            i < r <= self@.len(),
    {
        let depth: usize = self.nodes[i].depth;
        assert(i < self.nodes.len());
        let mut j: usize = i + 1;
        while j < self.nodes.len() && self.nodes[j].depth > depth
            invariant
                i < j <= self.nodes@.len(),
                i < self@.len(),
                depth == self@[i as int].depth,
                end_of(self@, i as int) == end_from(self@, depth as int, j as int),
            decreases self.nodes.len() - j,
        {
            assert(self@[j as int].depth == self.nodes@[j as int].depth);
            j = j + 1;
        }
        assert(j < self.nodes@.len() ==> self@[j as int].depth == self.nodes@[j as int].depth);
        j
    }

    /// The parent of node `i`.
    pub fn parent(&self, i: usize) -> (r: Option<usize>)
        requires
            i < self@.len(),
        ensures
            match r {
                Some(p) => parent_of(self@, i as int) == Some(p as int) && p < i,
                None => parent_of(self@, i as int) is None,
            },
    {
        let depth: usize = self.nodes[i].depth;
        let mut j: usize = i;
        while j > 0
            invariant
                j <= i < self.nodes@.len(),
                depth == self@[i as int].depth,
                parent_of(self@, i as int) == parent_from(self@, depth as int, j as int),
            decreases j,
        {
            assert(self@[j - 1].depth == self.nodes@[j - 1].depth);
            if self.nodes[j - 1].depth < depth {
                return Some(j - 1);
            }
            j = j - 1;
        }
        None
    }

    /// Whether the parent of node `i` holds it under the field.
    pub fn has_field(&self, i: usize, field: &str) -> (r: bool)
        requires
            i < self@.len(),
        ensures
            r == (self@[i as int].field == Some(field@)),
    {
        match &self.nodes[i].field {
            Some(f) => str_eq(f.as_str(), field),
            None => false,
        }
    }

    /// The child that node `i` holds under the field.
    pub fn child_by_field(&self, i: usize, field: &str) -> (r: Option<usize>)
        requires
            i < self@.len(),
        ensures
            match r {
                Some(c) => child_field(self@, i as int, field@) == Some(c as int) && i < c
                    < end_of(self@, i as int) && c < self@.len(),
                None => child_field(self@, i as int, field@) is None,
            },
    {
        let end: usize = self.subtree_end(i);
        let mut j: usize = i + 1;
        while j < end
            invariant
                i < j,
                end <= self@.len(),
                end == end_of(self@, i as int),
                child_field(self@, i as int, field@) == field_from(
                    self@,
                    j as int,
                    end as int,
                    field@,
                ),
            decreases self@.len() - j,
        {
            if self.has_field(j, field) {
                return Some(j);
            }
            j = self.subtree_end(j);
        }
        None
    }

    /// The first descendant of node `i` of the given kind.
    pub fn find_child_by_type(&self, i: usize, kind: &str) -> (r: Option<usize>)
        requires
            i < self@.len(),
        ensures
            match r {
                Some(c) => descendant(self@, i as int, kind@) == Some(c as int) && i < c
                    < end_of(self@, i as int) && c < self@.len(),
                None => descendant(self@, i as int, kind@) is None,
            },
    {
        let end: usize = self.subtree_end(i);
        let mut j: usize = i + 1;
        while j < end
            invariant
                i < j <= end,
                end <= self@.len(),
                end == end_of(self@, i as int),
                descendant(self@, i as int, kind@) == kind_from(
                    self@,
                    j as int,
                    end as int,
                    kind@,
                ),
            decreases end - j,
        {
            if self.is_kind(j, kind) {
                return Some(j);
            }
            j = j + 1;
        }
        None
    }
}

// ---------------------------------------------------------------------------
// Declarators
// ---------------------------------------------------------------------------
/// The kinds of declarators that wrap another one.
pub open spec fn wraps_declarator(kind: Seq<char>) -> bool {
    ||| kind == "function_declarator"@
    ||| kind == "pointer_declarator"@
    ||| kind == "reference_declarator"@
    ||| kind == "array_declarator"@
    ||| kind == "parenthesized_declarator"@
}

/// The kinds of plain names.
pub open spec fn plain_name(kind: Seq<char>) -> bool {
    kind == "identifier"@ || kind == "field_identifier"@
}

/// The node that names what node `i` declares: a plain name itself, the name of
/// a qualified name, the name inside of a declarator, else the first that a
/// child yields.
pub open spec fn name_node(ns: Seq<NodeView>, i: int) -> Option<int>
    decreases ns.len() - i, 1nat,
    when 0 <= i < ns.len()
    via name_node_decreases
{
    let kind = ns[i].kind;
    if plain_name(kind) {
        Some(i)
    } else if kind == "qualified_identifier"@ {
        child_field(ns, i, "name"@)
    } else if wraps_declarator(kind) {
        match child_field(ns, i, "declarator"@) {
            Some(c) => name_node(ns, c),
            None => None,
        }
    } else {
        name_node_in(ns, i + 1, end_of(ns, i))
    }
}

/// The name that the first of the siblings from `j` up to `end` yields that
/// yields one.
pub open spec fn name_node_in(ns: Seq<NodeView>, j: int, end: int) -> Option<int>
    decreases ns.len() - j, 2nat,
    when 0 <= j && end <= ns.len()
    via name_node_in_decreases
{
    if j >= end {
        None
    } else {
        match name_node(ns, j) {
            Some(found) => Some(found),
            None => name_node_in(ns, end_of(ns, j), end),
        }
    }
}

#[via_fn]
proof fn name_node_decreases(ns: Seq<NodeView>, i: int) {
    lemma_end_from(ns, ns[i].depth, i + 1);
    lemma_field_from(ns, i + 1, end_of(ns, i), "declarator"@);
}

#[via_fn]
proof fn name_node_in_decreases(ns: Seq<NodeView>, j: int, end: int) {
    if j < end {
        lemma_end_from(ns, ns[j].depth, j + 1);
    }
}

impl SyntaxTree {
    /// Whether node `i` is a declarator that wraps another one.
    pub fn is_wrapper(&self, i: usize) -> (r: bool)
        requires
            i < self@.len(),
        ensures
            r == wraps_declarator(self@[i as int].kind),
    {
        self.is_kind(i, "function_declarator") || self.is_kind(i, "pointer_declarator")
            || self.is_kind(i, "reference_declarator") || self.is_kind(i, "array_declarator")
            || self.is_kind(i, "parenthesized_declarator")
    }

    /// Whether node `i` is a plain name.
    pub fn is_plain_name(&self, i: usize) -> (r: bool)
        requires
            i < self@.len(),
        ensures
            r == plain_name(self@[i as int].kind),
    {
        self.is_kind(i, "identifier") || self.is_kind(i, "field_identifier")
    }

    /// The node that names what node `i` declares.
    pub fn find_name_node(&self, i: usize) -> (r: Option<usize>)
        requires
            i < self@.len(),
        ensures
            match r {
                Some(c) => name_node(self@, i as int) == Some(c as int) && c < self@.len(),
                None => name_node(self@, i as int) is None,
            },
        decreases self@.len() - i,
    {
        if self.is_plain_name(i) {
            Some(i)
        } else if self.is_kind(i, "qualified_identifier") {
            self.child_by_field(i, "name")
        } else if self.is_wrapper(i) {
            match self.child_by_field(i, "declarator") {
                Some(c) => self.find_name_node(c),
                None => None,
            }
        } else {
            let end: usize = self.subtree_end(i);
            let mut j: usize = i + 1;
            while j < end
                invariant
                    i < j,
                    end <= self@.len(),
                    name_node(self@, i as int) == name_node_in(self@, j as int, end as int),
                decreases self@.len() - j,
            {
                match self.find_name_node(j) {
                    Some(found) => {
                        return Some(found);
                    },
                    None => {},
                }
                j = self.subtree_end(j);
            }
            None
        }
    }
}

// ---------------------------------------------------------------------------
// Ancestors
// ---------------------------------------------------------------------------
/// An ancestor of node `i` is of the given kind.
pub open spec fn below_kind(ns: Seq<NodeView>, i: int, kind: Seq<char>) -> bool
    decreases i,
    via below_kind_decreases
{
    match parent_of(ns, i) {
        Some(p) => ns[p].kind == kind || below_kind(ns, p, kind),
        None => false,
    }
}

#[via_fn]
proof fn below_kind_decreases(ns: Seq<NodeView>, i: int, kind: Seq<char>) {
    lemma_parent_from(ns, ns[i].depth, i);
}

/// The kinds of nodes that define a class or a struct.
pub open spec fn class_kind(kind: Seq<char>) -> bool {
    ||| kind == "class_specifier"@
    ||| kind == "struct_specifier"@
    ||| kind == "unreal_reflected_class_declaration"@
    ||| kind == "unreal_reflected_struct_declaration"@
}

/// The node that names the innermost named class around node `i`.
pub open spec fn class_name_node(ns: Seq<NodeView>, i: int) -> Option<int>
    decreases i,
    via class_name_node_decreases
{
    match parent_of(ns, i) {
        None => None,
        Some(p) => if class_kind(ns[p].kind) && child_field(ns, p, "name"@) is Some {
            child_field(ns, p, "name"@)
        } else {
            class_name_node(ns, p)
        },
    }
}

#[via_fn]
proof fn class_name_node_decreases(ns: Seq<NodeView>, i: int) {
    lemma_parent_from(ns, ns[i].depth, i);
}

impl SyntaxTree {
    /// Whether an ancestor of node `i` is of the given kind.
    pub fn has_ancestor(&self, i: usize, kind: &str) -> (r: bool)
        requires
            i < self@.len(),
        ensures
            r == below_kind(self@, i as int, kind@),
    {
        let mut current: usize = i;
        loop
            invariant
                current < self@.len(),
                below_kind(self@, i as int, kind@) == below_kind(self@, current as int, kind@),
            decreases current,
        {
            match self.parent(current) {
                Some(p) => {
                    if self.is_kind(p, kind) {
                        return true;
                    }
                    current = p;
                },
                None => {
                    return false;
                },
            }
        }
    }

    /// Whether node `i` defines a class or a struct.
    pub fn is_class(&self, i: usize) -> (r: bool)
        requires
            i < self@.len(),
        ensures
            r == class_kind(self@[i as int].kind),
    {
        self.is_kind(i, "class_specifier") || self.is_kind(i, "struct_specifier") || self.is_kind(
            i,
            "unreal_reflected_class_declaration",
        ) || self.is_kind(i, "unreal_reflected_struct_declaration")
    }

    /// The node that names the innermost named class around node `i`.
    pub fn enclosing_class_name(&self, i: usize) -> (r: Option<usize>)
        requires
            i < self@.len(),
        ensures
            match r {
                Some(c) => class_name_node(self@, i as int) == Some(c as int) && c < self@.len(),
                None => class_name_node(self@, i as int) is None,
            },
    {
        let mut current: usize = i;
        loop
            invariant
                current < self@.len(),
                class_name_node(self@, i as int) == class_name_node(self@, current as int),
            decreases current,
        {
            match self.parent(current) {
                Some(p) => {
                    if self.is_class(p) {
                        match self.child_by_field(p, "name") {
                            Some(c) => {
                                return Some(c);
                            },
                            None => {},
                        }
                    }
                    current = p;
                },
                None => {
                    return None;
                },
            }
        }
    }
}

} // verus!
