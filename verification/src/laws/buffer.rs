//! What a buffer shows.

#[allow(unused_imports)]
use crate::diagnostics::{base_name, function_spec, token_in};
#[allow(unused_imports)]
use crate::parser::symbols::{directive_path, NodeCaptureView};
#[allow(unused_imports)]
use crate::types::MemberView;
#[allow(unused_imports)]
use crate::query::buffer::{access_group, after_guard, cursor_declaration, declaration_around, declaration_at,
    declared_name, declared_type, directive, directives, generated, generated_line, group_of, insert_line, is_method,
    last_line, last_named, shown_path, Access, GeneratedView, IncludeLineView};
#[allow(unused_imports)]
use crate::syntax::{child_field, lemma_parent_from, name_node, parent_of, NodeView};
#[allow(unused_imports)]
use crate::text::{contains, lower, swap_char, trim};
#[allow(unused_imports)]
use crate::query::buffer::{info_shows, BufferClass, IncludeInfo};
#[allow(unused_imports)]
use crate::text::{opt_text, views};
#[allow(unused_imports)]
use crate::types::ClassView;
#[allow(unused_imports)]
use crate::diagnostics::{const_member, prefix_type};
#[allow(unused_imports)]
use crate::syntax::{class_name_node, descendant};
use vstd::prelude::*;

verus! {

// ---------------------------------------------------------------------------
// Members by access
// ---------------------------------------------------------------------------
/// The group of an access is found whatever its case; what is unknown is public.
pub proof fn law_access_group(access: Seq<char>)
    ensures
        lower(access) == "public"@ ==> access_group(access) == Access::Public,
        lower(access) == "protected"@ ==> access_group(access) == Access::Protected,
        lower(access) == "private"@ ==> access_group(access) == Access::Private,
        lower(access) == "impl"@ ==> access_group(access) == Access::Impl,
        lower(access) != "protected"@ && lower(access) != "private"@ && lower(access) != "impl"@
            ==> access_group(access) == Access::Public,
{
    reveal_strlit("public");
    reveal_strlit("protected");
    reveal_strlit("private");
    reveal_strlit("impl");
    assert("public"@.len() == 6 && "protected"@.len() == 9 && "private"@.len() == 7 && "impl"@.len()
        == 4);
}

/// A member is shown in its group, after the members before it, and in no other.
pub proof fn law_member_group(ms: Seq<MemberView>, method: bool, a: Access, n: int)
    requires
        0 <= n < ms.len(),
    ensures
        group_of(ms, method, a, 0).len() == 0,
        contains(lower(ms[n].mem_type), "function"@) == method && access_group(ms[n].access) == a
            ==> group_of(ms, method, a, n + 1) == group_of(ms, method, a, n) + seq![ms[n]],
        contains(lower(ms[n].mem_type), "function"@) != method || access_group(ms[n].access) != a
            ==> group_of(ms, method, a, n + 1) == group_of(ms, method, a, n),
{
    if is_method(ms[n]) == method && access_group(ms[n].access) == a {
        assert(group_of(ms, method, a, n + 1) =~= group_of(ms, method, a, n) + seq![ms[n]]);
    }
}

// ---------------------------------------------------------------------------
// Directives
// ---------------------------------------------------------------------------
/// Of several captures of a name the last counts.
pub proof fn law_last_capture(caps: Seq<NodeCaptureView>, name: Seq<char>, n: int, k: int)
    requires
        0 <= k < n <= caps.len(),
        caps[k].name == name,
        forall|j: int| k < j < n ==> (#[trigger] caps[j]).name != name,
    ensures
        last_named(caps, name, n) == Some(caps[k].node),
    decreases n,
{
    if n - 1 > k {
        assert(caps[n - 1].name != name);
        law_last_capture(caps, name, n - 1, k);
    }
}

/// A directive stands on the line of its node, counted from one, and names the file
/// of its path.
pub proof fn law_directive_line(ns: Seq<NodeView>, caps: Seq<NodeCaptureView>, i: int, p: int)
    requires
        last_named(caps, "include"@, caps.len() as int) == Some(i),
        last_named(caps, "path"@, caps.len() as int) == Some(p),
        ns[i].start_row < usize::MAX,
    ensures
        directive(ns, caps) matches Some(d) && d.line == ns[i].start_row + 1 && d.path
            == directive_path(trim(ns[p].text)) && (d.is_generated <==> contains(
            directive_path(trim(ns[p].text)),
            ".generated.h"@,
        )),
{
}

/// Every match that stands for a directive shows one, in order.
pub proof fn law_every_directive(ns: Seq<NodeView>, ms: Seq<Seq<NodeCaptureView>>, n: int)
    requires
        0 <= n < ms.len(),
    ensures
        directives(ns, ms, 0).len() == 0,
        last_named(ms[n], "include"@, ms[n].len() as int) is None ==> directives(ns, ms, n + 1)
            == directives(ns, ms, n),
        last_named(ms[n], "include"@, ms[n].len() as int) is Some ==> directives(ns, ms, n + 1).len()
            == directives(ns, ms, n).len() + 1 && directive(ns, ms[n]) == Some(
            directives(ns, ms, n + 1).last(),
        ) && directives(ns, ms, n + 1).drop_last() == directives(ns, ms, n),
{
    match directive(ns, ms[n]) {
        Some(d) => {
            assert(directives(ns, ms, n).push(d).drop_last() =~= directives(ns, ms, n));
        },
        None => {},
    }
}

/// The line of the generated header is that of the last directive that names one.
pub proof fn law_generated_line(ds: Seq<IncludeLineView>, n: int, k: int)
    requires
        0 <= k < n <= ds.len(),
        ds[k].is_generated,
        forall|j: int| k < j < n ==> !(#[trigger] ds[j]).is_generated,
    ensures
        generated_line(ds, n) == ds[k].line,
    decreases n,
{
    if n - 1 > k {
        assert(!ds[n - 1].is_generated);
        law_generated_line(ds, n - 1, k);
    }
}

/// Without a generated header there is no such line.
pub proof fn law_no_generated_line(ds: Seq<IncludeLineView>, n: int)
    requires
        0 <= n <= ds.len(),
        forall|j: int| 0 <= j < n ==> !(#[trigger] ds[j]).is_generated,
    ensures
        generated_line(ds, n) == 0,
    decreases n,
{
    if n > 0 {
        assert(!ds[n - 1].is_generated);
        law_no_generated_line(ds, n - 1);
    }
}

/// A new directive goes after the last one, or in the place of the generated header
/// where this is the last one or stands before it.
pub proof fn law_insert_line(
    ls: Seq<Seq<char>>,
    ds: Seq<IncludeLineView>,
    d: IncludeLineView,
    generated: usize,
)
    requires
        0 < d.line < usize::MAX,
    ensures
        last_line(Seq::<IncludeLineView>::empty()) == 0,
        last_line(ds.push(d)) == d.line,
        generated == 0 || generated > d.line ==> insert_line(ls, generated, d.line) == d.line + 1,
        0 < generated <= d.line ==> insert_line(ls, generated, d.line) == generated,
        insert_line(ls, generated, 0) == after_guard(ls, 0),
{
    assert(ds.push(d).last() == d);
}

/// Without a directive a new one goes to the line after the first guard against
/// repetition.
pub proof fn law_after_guard(ls: Seq<Seq<char>>, i: int, k: int)
    requires
        0 <= i <= k < ls.len(),
        k + 2 <= u32::MAX,
        contains(ls[k], "#pragma once"@),
        forall|j: int| i <= j < k ==> !contains(#[trigger] ls[j], "#pragma once"@),
    ensures
        after_guard(ls, i) == k + 2,
    decreases k - i,
{
    if i < k {
        assert(!contains(ls[i], "#pragma once"@));
        law_after_guard(ls, i + 1, k);
    }
}

/// Without a guard either it goes to the first line.
pub proof fn law_no_guard(ls: Seq<Seq<char>>, i: int)
    requires
        0 <= i <= ls.len(),
        forall|j: int| i <= j < ls.len() ==> !contains(#[trigger] ls[j], "#pragma once"@),
    ensures
        after_guard(ls, i) == 1,
    decreases ls.len() - i,
{
    if i < ls.len() {
        assert(!contains(ls[i], "#pragma once"@));
        law_no_guard(ls, i + 1);
    }
}

// ---------------------------------------------------------------------------
// Declarations
// ---------------------------------------------------------------------------
/// What may be generated for a declaration: its implementation where the macro asks
/// for one, else its definition; behind it the validation where the macro asks for
/// one.
pub proof fn law_generated(name: Seq<char>, return_type: Seq<char>, text: Seq<char>)
    ensures
        ({
            let asked = function_spec(text);
            let gs = generated(name, return_type, text);
            &&& gs.len() == (if asked.requires_validate {
                2int
            } else {
                1int
            })
            &&& gs[0].return_type == trim(return_type)
            &&& asked.requires_implementation ==> gs[0].name == base_name(name) + "_Implementation"@
                && gs[0].kind == "implementation"@
            &&& !asked.requires_implementation ==> gs[0].name == name && gs[0].kind == "definition"@
            &&& asked.requires_validate ==> gs[1].name == base_name(name) + "_Validate"@
                && gs[1].return_type == "bool"@ && gs[1].kind == "validation"@
        }),
{
}

/// The declaration under the cursor is the innermost one.
pub proof fn law_declaration_around(ns: Seq<NodeView>, i: int)
    ensures
        ({
            let declaration = ns[i].kind == "field_declaration"@ || ns[i].kind == "declaration"@
                || ns[i].kind == "function_definition"@ || ns[i].kind
                == "unreal_function_declaration"@;
            &&& declaration ==> cursor_declaration(ns, i) == Some(declaration_at(ns, i))
            &&& !declaration ==> (match parent_of(ns, i) {
                Some(p) => cursor_declaration(ns, i) == cursor_declaration(ns, p),
                None => cursor_declaration(ns, i) is None,
            })
        }),
{
    lemma_parent_from(ns, ns[i].depth, i);
    reveal_with_fuel(declaration_around, 2);
}

/// What a declaration shows.
pub proof fn law_declaration(ns: Seq<NodeView>, i: int)
    ensures
        ({
            let d = declaration_at(ns, i);
            &&& d.kind == ns[i].kind
            &&& d.full_text == ns[i].text
            &&& d.is_virtual <==> token_in(ns[i].text, "virtual"@)
            &&& d.is_static <==> token_in(ns[i].text, "static"@)
            &&& d.generated_definitions == generated(d.name, d.return_type, ns[i].text)
        }),
{
}

/// The name of a declaration is that of its declarator; its type is the text of its
/// type.
pub proof fn law_declared(ns: Seq<NodeView>, i: int, t: int, d: int, n: int)
    requires
        child_field(ns, i, "type"@) == Some(t),
        child_field(ns, i, "declarator"@) == Some(d),
        name_node(ns, d) == Some(n),
    ensures
        declaration_at(ns, i).name == ns[n].text,
        declaration_at(ns, i).return_type == ns[t].text,
{
}

/// A buffer is shown by its path, on systems with backslashes with slashes in their
/// place; without a path by a usual name.
pub proof fn law_shown_path(path: Seq<char>, i: int)
    requires
        0 <= i < path.len(),
    ensures
        shown_path(Some(path), false) == path,
        shown_path(Some(path), true).len() == path.len(),
        path[i] == '\\' ==> shown_path(Some(path), true)[i] == '/',
        path[i] != '\\' ==> shown_path(Some(path), true)[i] == path[i],
        shown_path(None, false) == "buffer.cpp"@,
{
}

/// What a class of a buffer shows.
pub proof fn law_class_shown(b: BufferClass, c: ClassView, path: Seq<char>)
    requires
        b.shows(c, path),
    ensures
        b.name@ == c.class_name,
        b.kind@ == c.symbol_type,
        b.line == c.line,
        b.end_line == c.end_line,
        b.file_path@ == path,
        opt_text(b.namespace) == c.namespace,
        c.base_classes.len() == 0 ==> b.base_class is None,
        c.base_classes.len() > 0 ==> opt_text(b.base_class) == Some(c.base_classes[0]),
        views(b.fields.public@) == group_of(c.members, false, Access::Public, c.members.len() as int),
        views(b.fields.protected@) == group_of(
            c.members,
            false,
            Access::Protected,
            c.members.len() as int,
        ),
        views(b.fields.private@) == group_of(
            c.members,
            false,
            Access::Private,
            c.members.len() as int,
        ),
        views(b.methods.public@) == group_of(c.members, true, Access::Public, c.members.len() as int),
        views(b.methods.protected@) == group_of(
            c.members,
            true,
            Access::Protected,
            c.members.len() as int,
        ),
        views(b.methods.private@) == group_of(
            c.members,
            true,
            Access::Private,
            c.members.len() as int,
        ),
        views(b.methods.implementation@) == group_of(
            c.members,
            true,
            Access::Impl,
            c.members.len() as int,
        ),
{
}

/// What is shown of the directives of a buffer, with the line for a new one.
pub proof fn law_directives_shown(
    info: IncludeInfo,
    ns: Seq<NodeView>,
    ms: Seq<Seq<NodeCaptureView>>,
    ls: Seq<Seq<char>>,
)
    requires
        info_shows(info, ns, ms, ls),
    ensures
        views(info.includes@) == directives(ns, ms, ms.len() as int),
        info.includes@.len() == 0 ==> info.last_include_line == 0 && info.generated_h_line == 0
            && info.suggested_insert_line == after_guard(ls, 0),
        info.includes@.len() > 0 ==> info.last_include_line == info.includes@.last().line,
        info.suggested_insert_line == insert_line(
            ls,
            info.generated_h_line,
            info.last_include_line,
        ),
{
    let ds = directives(ns, ms, ms.len() as int);
    assert(views(info.includes@).len() == info.includes@.len());
    if info.includes@.len() > 0 {
        assert(ds.last() == info.includes@.last()@);
    }
}

/// Without a type of its own a declaration has the word before its declarator.
pub proof fn law_type_before_declarator(ns: Seq<NodeView>, i: int, d: int)
    requires
        child_field(ns, i, "type"@) is None,
    ensures
        child_field(ns, i, "declarator"@) == Some(d) ==> declaration_at(ns, i).return_type
            == prefix_type(ns, i, d),
        child_field(ns, i, "declarator"@) is None ==> declaration_at(ns, i).return_type.len() == 0
            && declaration_at(ns, i).name.len() == 0 && declaration_at(ns, i).parameters.len() == 0,
{
    reveal_strlit("");
}

/// The parameters of a declaration are the text of the list below its declarator; its
/// class is the one around it.
pub proof fn law_declared_parameters(ns: Seq<NodeView>, i: int, d: int)
    requires
        child_field(ns, i, "declarator"@) == Some(d),
    ensures
        descendant(ns, d, "parameter_list"@) matches Some(p) ==> declaration_at(ns, i).parameters
            == ns[p].text,
        descendant(ns, d, "parameter_list"@) is None ==> declaration_at(ns, i).parameters.len() == 0,
        class_name_node(ns, i) matches Some(c) ==> declaration_at(ns, i).class_name == trim(
            ns[c].text,
        ),
        class_name_node(ns, i) is None ==> declaration_at(ns, i).class_name.len() == 0,
        declaration_at(ns, i).is_const <==> const_member(ns, i),
{
    reveal_strlit("");
}

} // verus!
