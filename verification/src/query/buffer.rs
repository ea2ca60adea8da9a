//! What an open buffer holds: its classes with their members by access, the
//! directives at its top, and the declaration under the cursor.

use vstd::prelude::*;
#[allow(unused_imports)]
use vstd::string::StringSliceAdditionalSpecFns;

use crate::diagnostics::{base_unreal_function_name, contains_token, extract_prefix_type,
    is_const_member_function, parse_ufunction_spec};
#[allow(unused_imports)]
use crate::diagnostics::{base_name, const_member, function_spec, prefix_type, token_in};
use crate::parser::symbols::{parse_content, trim_char, NodeCapture};
#[allow(unused_imports)]
use crate::parser::symbols::{captures_in, directive_path, file_symbols, NodeCaptureView};
#[allow(unused_imports)]
use crate::parser::cpp::within;
use crate::syntax::SyntaxTree;
#[allow(unused_imports)]
use crate::syntax::{child_field, class_name_node, descendant, lemma_parent_from, name_node,
    parent_of, NodeView};
use crate::text::{chars_of, concat, copy_opt, has_str, is_str, owned, replace_char, split_lines,
    str_eq, string_of, to_lower, trim_string, trimmed};
#[allow(unused_imports)]
use crate::text::{contains, lines, lower, opt_str, opt_text, rows, swap_char, trim, views};
use crate::types::{ClassInfo, MemberInfo};
#[allow(unused_imports)]
use crate::types::{ClassView, MemberView};

verus! {

// ---------------------------------------------------------------------------
// Members by access
// ---------------------------------------------------------------------------
/// The four groups into which members go.
#[derive(Debug, Clone, Copy, PartialEq, Eq, Structural)]
pub enum Access {
    Public,
    Protected,
    Private,
    Impl,
}

/// The group of an access. What is unknown counts as public.
pub open spec fn access_group(access: Seq<char>) -> Access {
    let a = lower(access);
    if a == "protected"@ {
        Access::Protected
    } else if a == "private"@ {
        Access::Private
    } else if a == "impl"@ {
        Access::Impl
    } else {
        Access::Public
    }
}

/// The group of an access.
pub fn normalize_access(access: &str) -> (r: Access)
    ensures
        r == access_group(access@),
{
    let v = chars_of(access);
    let a = to_lower(v.as_slice());
    if is_str(a.as_slice(), "protected") {
        Access::Protected
    } else if is_str(a.as_slice(), "private") {
        Access::Private
    } else if is_str(a.as_slice(), "impl") {
        Access::Impl
    } else {
        Access::Public
    }
}

/// The member is a function.
pub open spec fn is_method(m: MemberView) -> bool {
    contains(lower(m.mem_type), "function"@)
}

/// The first `n` members that belong to a group, in order.
pub open spec fn group_of(ms: Seq<MemberView>, method: bool, a: Access, n: int) -> Seq<MemberView>
    decreases n,
{
    if n <= 0 {
        seq![]
    } else {
        let before = group_of(ms, method, a, n - 1);
        if is_method(ms[n - 1]) == method && access_group(ms[n - 1].access) == a {
            before.push(ms[n - 1])
        } else {
            before
        }
    }
}

/// Members by access.
#[derive(Debug, Clone)]
pub struct AccessGroups {
    pub public: Vec<MemberInfo>,
    pub protected: Vec<MemberInfo>,
    pub private: Vec<MemberInfo>,
    pub implementation: Vec<MemberInfo>,
}

impl AccessGroups {
    /// The groups hold the first `n` members that belong there.
    pub open spec fn hold(self, ms: Seq<MemberView>, method: bool, n: int) -> bool {
        &&& views(self.public@) == group_of(ms, method, Access::Public, n)
        &&& views(self.protected@) == group_of(ms, method, Access::Protected, n)
        &&& views(self.private@) == group_of(ms, method, Access::Private, n)
        &&& views(self.implementation@) == group_of(ms, method, Access::Impl, n)
    }

    /// Groups without members.
    fn none() -> (r: AccessGroups)
        ensures
            forall|ms: Seq<MemberView>, method: bool| r.hold(ms, method, 0),
    {
        let r = AccessGroups {
            public: Vec::new(),
            protected: Vec::new(),
            private: Vec::new(),
            implementation: Vec::new(),
        };
        assert(views(r.public@) =~= Seq::<MemberView>::empty());
        assert(views(r.protected@) =~= Seq::<MemberView>::empty());
        assert(views(r.private@) =~= Seq::<MemberView>::empty());
        assert(views(r.implementation@) =~= Seq::<MemberView>::empty());
        r
    }

    /// Adds a member to its group.
    fn add(&mut self, a: Access, m: MemberInfo)
        ensures
            views(final(self).public@) == (if a == Access::Public {
                views(old(self).public@).push(m@)
            } else {
                views(old(self).public@)
            }),
            views(final(self).protected@) == (if a == Access::Protected {
                views(old(self).protected@).push(m@)
            } else {
                views(old(self).protected@)
            }),
            views(final(self).private@) == (if a == Access::Private {
                views(old(self).private@).push(m@)
            } else {
                views(old(self).private@)
            }),
            views(final(self).implementation@) == (if a == Access::Impl {
                views(old(self).implementation@).push(m@)
            } else {
                views(old(self).implementation@)
            }),
    {
        let ghost mv = m@;
        match a {
            Access::Public => {
                self.public.push(m);
                assert(views(self.public@) =~= views(old(self).public@).push(mv));
            },
            Access::Protected => {
                self.protected.push(m);
                assert(views(self.protected@) =~= views(old(self).protected@).push(mv));
            },
            Access::Private => {
                self.private.push(m);
                assert(views(self.private@) =~= views(old(self).private@).push(mv));
            },
            Access::Impl => {
                self.implementation.push(m);
                assert(views(self.implementation@) =~= views(old(self).implementation@).push(mv));
            },
        }
    }
}

/// Every member goes to exactly one group.
pub proof fn law_groups_partition(ms: Seq<MemberView>, n: int)
    requires
        0 <= n <= ms.len(),
    ensures
        group_of(ms, true, Access::Public, n).len() + group_of(ms, true, Access::Protected, n).len()
            + group_of(ms, true, Access::Private, n).len() + group_of(
            ms,
            true,
            Access::Impl,
            n,
        ).len() + group_of(ms, false, Access::Public, n).len() + group_of(
            ms,
            false,
            Access::Protected,
            n,
        ).len() + group_of(ms, false, Access::Private, n).len() + group_of(
            ms,
            false,
            Access::Impl,
            n,
        ).len() == n,
    decreases n,
{
    if n > 0 {
        law_groups_partition(ms, n - 1);
    }
}

/// A class of a buffer.
#[derive(Debug, Clone)]
pub struct BufferClass {
    pub name: String,
    pub kind: String,
    pub line: usize,
    pub end_line: usize,
    pub namespace: Option<String>,
    pub base_class: Option<String>,
    pub file_path: String,
    pub fields: AccessGroups,
    pub methods: AccessGroups,
}

impl BufferClass {
    /// The class shows the given one, of the file at the path.
    pub open spec fn shows(self, c: ClassView, path: Seq<char>) -> bool {
        &&& self.name@ == c.class_name
        &&& self.kind@ == c.symbol_type
        &&& self.line == c.line
        &&& self.end_line == c.end_line
        &&& opt_text(self.namespace) == c.namespace
        &&& opt_text(self.base_class) == (if c.base_classes.len() > 0 {
            Some(c.base_classes[0])
        } else {
            None
        })
        &&& self.file_path@ == path
        &&& self.fields.hold(c.members, false, c.members.len() as int)
        &&& self.methods.hold(c.members, true, c.members.len() as int)
    }
}

/// A copy of a member.
fn copy_member(m: &MemberInfo) -> (r: MemberInfo)
    ensures
        r@ == m@,
{
    MemberInfo {
        name: m.name.clone(),
        mem_type: m.mem_type.clone(),
        flags: m.flags.clone(),
        access: m.access.clone(),
        line: m.line,
        end_line: m.end_line,
        detail: copy_opt(&m.detail),
        return_type: copy_opt(&m.return_type),
    }
}

/// Whether the member is a function.
fn is_function_member(m: &MemberInfo) -> (r: bool)
    ensures
        r == is_method(m@),
{
    let v = chars_of(m.mem_type.as_str());
    let t = to_lower(v.as_slice());
    has_str(t.as_slice(), "function")
}

/// A class with its members by access.
pub fn class_in_buffer(c: &ClassInfo, path: &str) -> (r: BufferClass)
    ensures
        r.shows(c@, path@),
{
    let ghost ms = c@.members;
    let mut fields = AccessGroups::none();
    let mut methods = AccessGroups::none();
    let mut i: usize = 0;
    while i < c.members.len()
        invariant
            i <= c.members@.len(),
            ms == views(c.members@),
            fields.hold(ms, false, i as int),
            methods.hold(ms, true, i as int),
        decreases c.members.len() - i,
    {
        assert(ms[i as int] == c.members@[i as int]@);
        let a = normalize_access(c.members[i].access.as_str());
        let m = copy_member(&c.members[i]);
        if is_function_member(&c.members[i]) {
            methods.add(a, m);
        } else {
            fields.add(a, m);
        }
        i = i + 1;
    }
    let base_class: Option<String> = if c.base_classes.len() > 0 {
        assert(c@.base_classes[0] == c.base_classes@[0]@);
        Some(c.base_classes[0].clone())
    } else {
        None
    };
    BufferClass {
        name: c.class_name.clone(),
        kind: c.symbol_type.clone(),
        line: c.line,
        end_line: c.end_line,
        namespace: copy_opt(&c.namespace),
        base_class,
        file_path: owned(path),
        fields,
        methods,
    }
}

// ---------------------------------------------------------------------------
// Directives
// ---------------------------------------------------------------------------
/// A directive that names another file.
#[derive(Debug, Clone)]
pub struct IncludeLine {
    pub line: usize,
    pub path: String,
    pub is_generated: bool,
}

/// What a directive says.
pub struct IncludeLineView {
    pub line: usize,
    pub path: Seq<char>,
    pub is_generated: bool,
}

impl View for IncludeLine {
    type V = IncludeLineView;

    open spec fn view(&self) -> IncludeLineView {
        IncludeLineView { line: self.line, path: self.path@, is_generated: self.is_generated }
    }
}

/// The directives of a buffer, and where a new one goes. Lines count from one,
/// and zero stands for none.
#[derive(Debug, Clone)]
pub struct IncludeInfo {
    pub generated_h_line: usize,
    pub last_include_line: usize,
    pub suggested_insert_line: usize,
    pub includes: Vec<IncludeLine>,
}

/// The node of the last capture of the name among the first `n`.
pub open spec fn last_named(caps: Seq<NodeCaptureView>, name: Seq<char>, n: int) -> Option<int>
    decreases n,
{
    if n <= 0 {
        None
    } else if caps[n - 1].name == name {
        Some(caps[n - 1].node)
    } else {
        last_named(caps, name, n - 1)
    }
}

/// The directive that one match stands for.
pub open spec fn directive(ns: Seq<NodeView>, caps: Seq<NodeCaptureView>) -> Option<
    IncludeLineView,
> {
    match last_named(caps, "include"@, caps.len() as int) {
        None => None,
        Some(i) => {
            let path = match last_named(caps, "path"@, caps.len() as int) {
                Some(p) => directive_path(trim(ns[p].text)),
                None => ""@,
            };
            Some(
                IncludeLineView {
                    line: ns[i].start_row.wrapping_add(1),
                    path,
                    is_generated: contains(path, ".generated.h"@),
                },
            )
        },
    }
}

/// What the captures of a list of matches say.
pub open spec fn match_views(ms: Seq<Vec<NodeCapture>>) -> Seq<Seq<NodeCaptureView>> {
    ms.map_values(|m: Vec<NodeCapture>| views(m@))
}

/// The directives that the first `n` matches stand for.
pub open spec fn directives(ns: Seq<NodeView>, ms: Seq<Seq<NodeCaptureView>>, n: int) -> Seq<
    IncludeLineView,
>
    decreases n,
{
    if n <= 0 {
        seq![]
    } else {
        match directive(ns, ms[n - 1]) {
            Some(d) => directives(ns, ms, n - 1).push(d),
            None => directives(ns, ms, n - 1),
        }
    }
}

/// The line of the last of the first `n` directives that names a generated
/// header.
pub open spec fn generated_line(ds: Seq<IncludeLineView>, n: int) -> usize
    decreases n,
{
    if n <= 0 {
        0
    } else if ds[n - 1].is_generated {
        ds[n - 1].line
    } else {
        generated_line(ds, n - 1)
    }
}

/// The line of the last directive.
pub open spec fn last_line(ds: Seq<IncludeLineView>) -> usize {
    if ds.len() == 0 {
        0
    } else {
        ds.last().line
    }
}

/// The line after the first of the lines from `i` on that guards against
/// repetition, else the first line.
pub open spec fn after_guard(ls: Seq<Seq<char>>, i: int) -> usize
    decreases ls.len() - i,
{
    if i < 0 || i >= ls.len() {
        1
    } else if contains(ls[i], "#pragma once"@) {
        (i as usize).wrapping_add(2)
    } else {
        after_guard(ls, i + 1)
    }
}

/// Where a new directive goes: after the last one, but before that of the
/// generated header; without any, after the guard against repetition.
pub open spec fn insert_line(ls: Seq<Seq<char>>, generated: usize, last: usize) -> usize {
    if last > 0 {
        let line = last.wrapping_add(1);
        if generated > 0 && line > generated {
            generated
        } else {
            line
        }
    } else {
        after_guard(ls, 0)
    }
}

/// Where a new directive goes.
pub fn suggest_include_insert_line(
    content: &str,
    generated_h_line: usize,
    last_include_line: usize,
) -> (r: usize)
    ensures
        r == insert_line(lines(content@), generated_h_line, last_include_line),
{
    if last_include_line > 0 {
        let line: usize = last_include_line.wrapping_add(1);
        if generated_h_line > 0 && line > generated_h_line {
            return generated_h_line;
        }
        return line;
    }
    let text = chars_of(content);
    let ls = split_lines(text.as_slice());
    let ghost all = lines(content@);
    let mut i: usize = 0;
    while i < ls.len()
        invariant
            i <= ls@.len(),
            rows(ls@) == all,
            all == lines(content@),
            last_include_line == 0,
            after_guard(all, 0) == after_guard(all, i as int),
        decreases ls.len() - i,
    {
        assert(all[i as int] == ls@[i as int]@);
        if has_str(ls[i].as_slice(), "#pragma once") {
            return i.wrapping_add(2);
        }
        i = i + 1;
    }
    1
}

/// A new directive never goes behind that of the generated header.
pub proof fn law_generated_stays_last(ls: Seq<Seq<char>>, ds: Seq<IncludeLineView>)
    requires
        generated_line(ds, ds.len() as int) > 0,
        last_line(ds) > 0,
    ensures
        insert_line(ls, generated_line(ds, ds.len() as int), last_line(ds)) <= generated_line(
            ds,
            ds.len() as int,
        ),
{
}

/// The node of the last capture of the name.
fn find_last_named(caps: &Vec<NodeCapture>, name: &str) -> (r: Option<usize>)
    ensures
        match r {
            Some(i) => last_named(views(caps@), name@, caps@.len() as int) == Some(i as int)
                && exists|k: int| 0 <= k < caps@.len() && (#[trigger] caps@[k]).node == i,
            None => last_named(views(caps@), name@, caps@.len() as int) is None,
        },
{
    let ghost all = views(caps@);
    let mut n: usize = caps.len();
    while n > 0
        invariant
            n <= caps@.len(),
            all == views(caps@),
            last_named(all, name@, caps@.len() as int) == last_named(all, name@, n as int),
        decreases n,
    {
        assert(all[n - 1] == caps@[n - 1]@);
        if str_eq(caps[n - 1].name.as_str(), name) {
            let i: usize = caps[n - 1].node;
            assert(caps@[n - 1].node == i);
            return Some(i);
        }
        n = n - 1;
    }
    None
}

/// The directive that one match stands for.
fn directive_of(tree: &SyntaxTree, caps: &Vec<NodeCapture>) -> (r: Option<IncludeLine>)
    requires
        captures_in(caps@, tree@.len() as int),
    ensures
        match r {
            Some(d) => directive(tree@, views(caps@)) == Some(d@),
            None => directive(tree@, views(caps@)) is None,
        },
{
    let i: usize = match find_last_named(caps, "include") {
        Some(i) => i,
        None => {
            return None;
        },
    };
    let path = match find_last_named(caps, "path") {
        Some(p) => {
            let v = chars_of(tree.text(p));
            let t = trim_char(
                trim_char(trim_char(trimmed(v.as_slice()), '"'), '<'),
                '>',
            );
            string_of(t)
        },
        None => owned(""),
    };
    assert(tree@[i as int].start_row == tree.nodes@[i as int].start_row);
    let pv = chars_of(path.as_str());
    let is_generated = has_str(pv.as_slice(), ".generated.h");
    Some(IncludeLine { line: tree.nodes[i].start_row.wrapping_add(1), path, is_generated })
}

/// The matches belong to a tree of `n` nodes.
pub open spec fn matches_in(ms: Seq<Vec<NodeCapture>>, n: int) -> bool {
    forall|i: int| 0 <= i < ms.len() ==> captures_in((#[trigger] ms[i])@, n)
}

/// The directives show the given matches of a file.
pub open spec fn info_shows(
    info: IncludeInfo,
    ns: Seq<NodeView>,
    ms: Seq<Seq<NodeCaptureView>>,
    ls: Seq<Seq<char>>,
) -> bool {
    let ds = directives(ns, ms, ms.len() as int);
    &&& views(info.includes@) == ds
    &&& info.generated_h_line == generated_line(ds, ds.len() as int)
    &&& info.last_include_line == last_line(ds)
    &&& info.suggested_insert_line == insert_line(
        ls,
        generated_line(ds, ds.len() as int),
        last_line(ds),
    )
}

/// The directives of a buffer, and where a new one goes.
pub fn collect_include_info(content: &str, tree: &SyntaxTree, matches_found: &Vec<Vec<NodeCapture>>)
    -> (r: IncludeInfo)
    requires
        matches_in(matches_found@, tree@.len() as int),
    ensures
        info_shows(r, tree@, match_views(matches_found@), lines(content@)),
{
    let ghost ms = match_views(matches_found@);
    let mut includes: Vec<IncludeLine> = Vec::new();
    let mut generated: usize = 0;
    let mut last: usize = 0;
    assert(views(includes@) =~= Seq::<IncludeLineView>::empty());
    let mut i: usize = 0;
    while i < matches_found.len()
        invariant
            i <= matches_found@.len(),
            ms == match_views(matches_found@),
            matches_in(matches_found@, tree@.len() as int),
            views(includes@) == directives(tree@, ms, i as int),
            generated == generated_line(views(includes@), includes@.len() as int),
            last == last_line(views(includes@)),
        decreases matches_found.len() - i,
    {
        assert(ms[i as int] == views(matches_found@[i as int]@));
        match directive_of(tree, &matches_found[i]) {
            Some(d) => {
                let ghost before = views(includes@);
                let ghost dv = d@;
                last = d.line;
                if d.is_generated {
                    generated = d.line;
                }
                includes.push(d);
                let ghost after = views(includes@);
                assert(after =~= before.push(dv));
                proof {
                    lemma_generated_prefix(before, after, before.len() as int);
                }
            },
            None => {},
        }
        i = i + 1;
    }
    let suggested = suggest_include_insert_line(content, generated, last);
    IncludeInfo {
        generated_h_line: generated,
        last_include_line: last,
        suggested_insert_line: suggested,
        includes,
    }
}

/// Further directives do not change what the first `n` say.
proof fn lemma_generated_prefix(a: Seq<IncludeLineView>, b: Seq<IncludeLineView>, n: int)
    requires
        0 <= n <= a.len() <= b.len(),
        forall|i: int| 0 <= i < n ==> a[i] == b[i],
    ensures
        generated_line(a, n) == generated_line(b, n),
    decreases n,
{
    if n > 0 {
        lemma_generated_prefix(a, b, n - 1);
    }
}

// ---------------------------------------------------------------------------
// The declaration under the cursor
// ---------------------------------------------------------------------------
/// A definition that may be generated for a declaration.
#[derive(Debug, Clone)]
pub struct GeneratedDefinition {
    pub name: String,
    pub return_type: String,
    pub kind: &'static str,
}

/// What a definition that may be generated says.
pub struct GeneratedView {
    pub name: Seq<char>,
    pub return_type: Seq<char>,
    pub kind: Seq<char>,
}

impl View for GeneratedDefinition {
    type V = GeneratedView;

    open spec fn view(&self) -> GeneratedView {
        GeneratedView { name: self.name@, return_type: self.return_type@, kind: self.kind@ }
    }
}

/// The definitions that may be generated for a declaration: that of the function
/// or of its implementation, and the one that validates where the macro asks
/// for it.
pub open spec fn generated(name: Seq<char>, return_type: Seq<char>, text: Seq<char>) -> Seq<
    GeneratedView,
> {
    let asked = function_spec(text);
    let first = if asked.requires_implementation {
        GeneratedView {
            name: base_name(name) + "_Implementation"@,
            return_type: trim(return_type),
            kind: "implementation"@,
        }
    } else {
        GeneratedView { name, return_type: trim(return_type), kind: "definition"@ }
    };
    if asked.requires_validate {
        seq![
            first,
            GeneratedView {
                name: base_name(name) + "_Validate"@,
                return_type: "bool"@,
                kind: "validation"@,
            },
        ]
    } else {
        seq![first]
    }
}

/// The definitions that may be generated for a declaration.
pub fn generated_definitions(name: &str, return_type: &str, text: &str) -> (r: Vec<
    GeneratedDefinition,
>)
    ensures
        views(r@) == generated(name@, return_type@, text@),
{
    let t = chars_of(text);
    let asked = parse_ufunction_spec(t.as_slice());
    let n = chars_of(name);
    let base = string_of(base_unreal_function_name(n.as_slice()));
    let mut items: Vec<GeneratedDefinition> = Vec::new();
    if asked.requires_implementation {
        items.push(
            GeneratedDefinition {
                name: concat(base.as_str(), "_Implementation"),
                return_type: trim_string(return_type),
                kind: "implementation",
            },
        );
    } else {
        items.push(
            GeneratedDefinition {
                name: owned(name),
                return_type: trim_string(return_type),
                kind: "definition",
            },
        );
    }
    if asked.requires_validate {
        items.push(
            GeneratedDefinition {
                name: concat(base.as_str(), "_Validate"),
                return_type: owned("bool"),
                kind: "validation",
            },
        );
    }
    assert(views(items@) =~= generated(name@, return_type@, text@));
    items
}

/// A declaration.
#[derive(Debug, Clone)]
pub struct DeclarationInfo {
    pub kind: String,
    pub name: String,
    pub class_name: String,
    pub return_type: String,
    pub parameters: String,
    pub is_virtual: bool,
    pub is_static: bool,
    pub is_const: bool,
    pub full_text: String,
    pub generated_definitions: Vec<GeneratedDefinition>,
}

/// What a declaration says.
pub struct DeclarationView {
    pub kind: Seq<char>,
    pub name: Seq<char>,
    pub class_name: Seq<char>,
    pub return_type: Seq<char>,
    pub parameters: Seq<char>,
    pub is_virtual: bool,
    pub is_static: bool,
    pub is_const: bool,
    pub full_text: Seq<char>,
    pub generated_definitions: Seq<GeneratedView>,
}

impl View for DeclarationInfo {
    type V = DeclarationView;

    open spec fn view(&self) -> DeclarationView {
        DeclarationView {
            kind: self.kind@,
            name: self.name@,
            class_name: self.class_name@,
            return_type: self.return_type@,
            parameters: self.parameters@,
            is_virtual: self.is_virtual,
            is_static: self.is_static,
            is_const: self.is_const,
            full_text: self.full_text@,
            generated_definitions: views(self.generated_definitions@),
        }
    }
}

/// The kinds of nodes that declare a function or a field.
pub open spec fn declares(kind: Seq<char>) -> bool {
    ||| kind == "field_declaration"@
    ||| kind == "declaration"@
    ||| kind == "function_definition"@
    ||| kind == "unreal_function_declaration"@
}

/// The innermost declaration that is node `i` or around it.
pub open spec fn declaration_around(ns: Seq<NodeView>, i: int) -> Option<int>
    decreases i,
    via declaration_around_decreases
{
    if declares(ns[i].kind) {
        Some(i)
    } else {
        match parent_of(ns, i) {
            Some(p) => declaration_around(ns, p),
            None => None,
        }
    }
}

#[via_fn]
proof fn declaration_around_decreases(ns: Seq<NodeView>, i: int) {
    lemma_parent_from(ns, ns[i].depth, i);
}

/// The name that node `i` declares, or nothing.
pub open spec fn declared_name(ns: Seq<NodeView>, i: int) -> Seq<char> {
    match child_field(ns, i, "declarator"@) {
        Some(d) => match name_node(ns, d) {
            Some(n) => ns[n].text,
            None => ""@,
        },
        None => ""@,
    }
}

/// The type that node `i` declares, or nothing.
pub open spec fn declared_type(ns: Seq<NodeView>, i: int) -> Seq<char> {
    match child_field(ns, i, "type"@) {
        Some(t) => ns[t].text,
        None => match child_field(ns, i, "declarator"@) {
            Some(d) => prefix_type(ns, i, d),
            None => seq![],
        },
    }
}

/// The declaration of node `i`.
pub open spec fn declaration_at(ns: Seq<NodeView>, i: int) -> DeclarationView {
    DeclarationView {
        kind: ns[i].kind,
        name: declared_name(ns, i),
        class_name: match class_name_node(ns, i) {
            Some(c) => trim(ns[c].text),
            None => ""@,
        },
        return_type: declared_type(ns, i),
        parameters: match child_field(ns, i, "declarator"@) {
            Some(d) => match descendant(ns, d, "parameter_list"@) {
                Some(p) => ns[p].text,
                None => ""@,
            },
            None => ""@,
        },
        is_virtual: token_in(ns[i].text, "virtual"@),
        is_static: token_in(ns[i].text, "static"@),
        is_const: const_member(ns, i),
        full_text: ns[i].text,
        generated_definitions: generated(
            declared_name(ns, i),
            declared_type(ns, i),
            ns[i].text,
        ),
    }
}

/// The declaration of node `i`.
pub fn declaration_of(tree: &SyntaxTree, i: usize) -> (r: DeclarationInfo)
    requires
        i < tree@.len(),
    ensures
        r@ == declaration_at(tree@, i as int),
{
    let declarator: Option<usize> = tree.child_by_field(i, "declarator");
    let name = match declarator {
        Some(d) => match tree.find_name_node(d) {
            Some(n) => owned(tree.text(n)),
            None => owned(""),
        },
        None => owned(""),
    };
    let parameters = match declarator {
        Some(d) => match tree.find_child_by_type(d, "parameter_list") {
            Some(p) => owned(tree.text(p)),
            None => owned(""),
        },
        None => owned(""),
    };
    let return_type = match tree.child_by_field(i, "type") {
        Some(t) => owned(tree.text(t)),
        None => match declarator {
            Some(d) => {
                let v = extract_prefix_type(tree, i, d);
                string_of(v.as_slice())
            },
            None => string_of(Vec::new().as_slice()),
        },
    };
    let class_name = match tree.enclosing_class_name(i) {
        Some(c) => trim_string(tree.text(c)),
        None => owned(""),
    };
    let full_text = owned(tree.text(i));
    let v = chars_of(full_text.as_str());
    let definitions = generated_definitions(
        name.as_str(),
        return_type.as_str(),
        full_text.as_str(),
    );
    assert(tree@[i as int].kind == tree.nodes@[i as int].kind@);
    DeclarationInfo {
        kind: tree.nodes[i].kind.clone(),
        name,
        class_name,
        return_type,
        parameters,
        is_virtual: contains_token(v.as_slice(), "virtual"),
        is_static: contains_token(v.as_slice(), "static"),
        is_const: is_const_member_function(tree, i),
        full_text,
        generated_definitions: definitions,
    }
}

/// The declaration under a cursor on node `at`.
pub open spec fn cursor_declaration(ns: Seq<NodeView>, at: int) -> Option<DeclarationView> {
    match declaration_around(ns, at) {
        Some(i) => Some(declaration_at(ns, i)),
        None => None,
    }
}

/// The declaration under a cursor on node `at`.
pub fn analyze_cursor_node(tree: &SyntaxTree, at: usize) -> (r: Option<DeclarationInfo>)
    requires
        at < tree@.len(),
    ensures
        match r {
            Some(d) => cursor_declaration(tree@, at as int) == Some(d@),
            None => cursor_declaration(tree@, at as int) is None,
        },
{
    let mut i: usize = at;
    loop
        invariant
            i < tree@.len(),
            declaration_around(tree@, at as int) == declaration_around(tree@, i as int),
        decreases i,
    {
        if tree.is_kind(i, "field_declaration") || tree.is_kind(i, "declaration") || tree.is_kind(
            i,
            "function_definition",
        ) || tree.is_kind(i, "unreal_function_declaration") {
            return Some(declaration_of(tree, i));
        }
        match tree.parent(i) {
            Some(p) => {
                i = p;
            },
            None => {
                return None;
            },
        }
    }
}

// ---------------------------------------------------------------------------
// The whole buffer
// ---------------------------------------------------------------------------
/// What a buffer holds.
pub struct BufferInfo {
    pub symbols: Vec<BufferClass>,
    pub cursor_info: Option<DeclarationInfo>,
    pub metadata: IncludeInfo,
}

/// The path of a buffer as it is shown: with slashes on a system that writes
/// backslashes, and a usual name where the buffer has none.
pub open spec fn shown_path(path: Option<Seq<char>>, windows: bool) -> Seq<char> {
    let p = match path {
        Some(p) => p,
        None => "buffer.cpp"@,
    };
    if windows {
        swap_char(p, '\\', '/')
    } else {
        p
    }
}

/// The path of a buffer as it is shown.
pub fn buffer_path(path: Option<&str>, windows: bool) -> (r: String)
    ensures
        r@ == shown_path(opt_str(path), windows),
{
    let p = match path {
        Some(p) => p,
        None => "buffer.cpp",
    };
    if windows {
        let v = chars_of(p);
        let v = replace_char(v.as_slice(), '\\', '/');
        string_of(v.as_slice())
    } else {
        owned(p)
    }
}

/// What a buffer holds, from its tree, the captures of the symbol queries, and
/// the node under the cursor where there is one.
pub fn parse_buffer(
    content: &str,
    file_path: Option<&str>,
    windows: bool,
    tree: &SyntaxTree,
    captures: &Vec<NodeCapture>,
    path_captures: &Vec<NodeCapture>,
    directive_matches: &Vec<Vec<NodeCapture>>,
    at: Option<usize>,
) -> (r: BufferInfo)
    requires
        captures_in(captures@, tree@.len() as int),
        captures_in(path_captures@, tree@.len() as int),
        matches_in(directive_matches@, tree@.len() as int),
        within(tree@, content.spec_bytes().len() as int),
        at matches Some(i) ==> i < tree@.len(),
    ensures
        ({
            let parsed = file_symbols(
                tree@,
                content.spec_bytes(),
                views(captures@),
                views(path_captures@),
            );
            &&& r.symbols@.len() == parsed.classes.len()
            &&& forall|i: int|
                0 <= i < r.symbols@.len() ==> (#[trigger] r.symbols@[i]).shows(
                    parsed.classes[i],
                    shown_path(opt_str(file_path), windows),
                )
        }),
        match (at, r.cursor_info) {
            (Some(i), Some(d)) => cursor_declaration(tree@, i as int) == Some(d@),
            (Some(i), None) => cursor_declaration(tree@, i as int) is None,
            (None, d) => d is None,
        },
        info_shows(r.metadata, tree@, match_views(directive_matches@), lines(content@)),
{
    let path = buffer_path(file_path, windows);
    let parsed = parse_content(content, tree, captures, path_captures);
    let mut symbols: Vec<BufferClass> = Vec::new();
    let ghost classes = views(parsed.classes@);
    let mut i: usize = 0;
    while i < parsed.classes.len()
        invariant
            i <= parsed.classes@.len(),
            classes == views(parsed.classes@),
            symbols@.len() == i,
            forall|k: int| 0 <= k < i ==> (#[trigger] symbols@[k]).shows(classes[k], path@),
        decreases parsed.classes.len() - i,
    {
        assert(classes[i as int] == parsed.classes@[i as int]@);
        symbols.push(class_in_buffer(&parsed.classes[i], path.as_str()));
        i = i + 1;
    }
    let metadata = collect_include_info(content, tree, directive_matches);
    let cursor_info: Option<DeclarationInfo> = match at {
        Some(i) => analyze_cursor_node(tree, i),
        None => None,
    };
    BufferInfo { symbols, cursor_info, metadata }
}

} // verus!
