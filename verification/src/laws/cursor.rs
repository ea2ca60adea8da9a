//! What stands under the cursor.

#[allow(unused_imports)]
use crate::laws::parser::{lemma_first_child, lemma_next_child};
#[allow(unused_imports)]
use crate::query::cursor::{at_or_after, before_cursor, class_around, class_here, counted_decls, cursor_context,
    decl_name, declares_local, declares_var, field_qualifier, foremost, function_around, function_like,
    function_on_row, function_on_row_in, last_before, local_declaration, local_decls, local_decls_at, lookup_type,
    nearest, qualifier_of, symbol_at, symbol_name, unqualified, var_decls, var_decls_at, var_type, without_namespace,
    wrapped_from, wrappers, CursorView, LocalDeclView, TypeMatchView};
#[allow(unused_imports)]
use crate::spacing::{even, lemma_even};
#[allow(unused_imports)]
use crate::syntax::{child_field, end_of, kind_from, lemma_end_from, parent_of, NodeView};
#[allow(unused_imports)]
use crate::text::{occurs_at, replace_all, rfind, rfind_from, starts, swap_char, trim, ws};
#[allow(unused_imports)]
use crate::query::cursor::decl_name_in;
use vstd::prelude::*;

verus! {

// ---------------------------------------------------------------------------
// Symbols
// ---------------------------------------------------------------------------
/// The node is a symbol: a plain or a qualified name, or a template.
pub open spec fn is_symbol(n: NodeView) -> bool {
    ||| n.kind == "identifier"@
    ||| n.kind == "field_identifier"@
    ||| n.kind == "type_identifier"@
    ||| n.kind == "namespace_identifier"@
    ||| n.kind == "qualified_identifier"@
    ||| n.kind == "template_type"@
    ||| n.kind == "template_function"@
    ||| n.kind == "template_method"@
}

/// A cursor on a symbol is on that symbol; on anything else it is on the symbol
/// around it, unless a call, an access, a declarator, a declaration, a definition or
/// a parameter comes first.
pub proof fn law_symbol_at(ns: Seq<NodeView>, i: int)
    ensures
        is_symbol(ns[i]) ==> symbol_at(ns, i) == Some(i),
        !is_symbol(ns[i]) ==> (match parent_of(ns, i) {
            None => symbol_at(ns, i) is None,
            Some(p) => {
                let limit = ns[p].kind == "call_expression"@ || ns[p].kind == "field_expression"@
                    || ns[p].kind == "function_declarator"@ || ns[p].kind == "declaration"@
                    || ns[p].kind == "function_definition"@ || ns[p].kind
                    == "parameter_declaration"@;
                &&& is_symbol(ns[p]) ==> symbol_at(ns, i) == Some(p)
                &&& !is_symbol(ns[p]) && limit ==> symbol_at(ns, i) is None
                &&& !is_symbol(ns[p]) && !limit ==> symbol_at(ns, i) == symbol_at(ns, p)
            },
        }),
{
    reveal_with_fuel(symbol_at, 3);
    match parent_of(ns, i) {
        Some(p) => {
            crate::syntax::lemma_parent_from(ns, ns[i].depth, i);
        },
        None => {},
    }
}

/// The name of a symbol is its text; of a qualified name and of a template it is the
/// text of their name.
pub proof fn law_symbol_name(ns: Seq<NodeView>, i: int)
    ensures
        child_field(ns, i, "name"@) is None ==> symbol_name(ns, i) == trim(ns[i].text),
        child_field(ns, i, "name"@) matches Some(n) ==> {
            let named = ns[i].kind == "qualified_identifier"@ || ns[i].kind == "template_type"@
                || ns[i].kind == "template_function"@ || ns[i].kind == "template_method"@;
            &&& named ==> symbol_name(ns, i) == trim(ns[n].text)
            &&& !named ==> symbol_name(ns, i) == trim(ns[i].text)
        },
{
}

/// What stands behind the last `::` is the name without its namespace.
pub proof fn law_without_namespace(space: Seq<char>, name: Seq<char>)
    requires
        !name.contains(':'),
    ensures
        without_namespace(name) == trim(name),
        without_namespace(space + "::"@ + name) == trim(name),
{
    reveal_strlit("::");
    lemma_no_colons(name, name.len() - 2);
    let s = space + "::"@ + name;
    let at = space.len() as int;
    assert(s.subrange(at, at + 2) =~= "::"@);
    lemma_colons(s, at, s.len() - 2);
    assert(s.skip(at + 2) =~= name);
}

proof fn lemma_no_colons(s: Seq<char>, from: int)
    requires
        !s.contains(':'),
        from <= s.len() - 2,
    ensures
        rfind_from(s, "::"@, from) is None,
    decreases from + 1,
{
    reveal_strlit("::");
    if from >= 0 {
        if occurs_at(s, "::"@, from) {
            assert(s.subrange(from, from + 2)[0] == ':');
            assert(s.contains(':'));
        }
        lemma_no_colons(s, from - 1);
    }
}

proof fn lemma_colons(s: Seq<char>, at: int, from: int)
    requires
        0 <= at <= from <= s.len() - 2,
        occurs_at(s, "::"@, at),
        !s.skip(at + 2).contains(':'),
    ensures
        rfind_from(s, "::"@, from) == Some(at),
    decreases from,
{
    reveal_strlit("::");
    if from > at {
        if occurs_at(s, "::"@, from) {
            assert(s.subrange(from, from + 2)[1] == ':');
            assert(s[from + 1] == ':');
            assert(s.skip(at + 2)[from - at - 1] == ':');
        }
        lemma_colons(s, at, from - 1);
    }
}

/// A cursor sees the name of its symbol, what qualifies it, and the class around it;
/// nothing on a comment.
pub proof fn law_cursor_context(ns: Seq<NodeView>, at: int, i: int)
    requires
        symbol_at(ns, at) == Some(i),
    ensures
        ns[i].extra || symbol_name(ns, i).len() == 0 ==> cursor_context(ns, at) is None,
        !ns[i].extra && symbol_name(ns, i).len() > 0 ==> (cursor_context(ns, at) matches Some(c)
            && c.symbol == symbol_name(ns, i) && c.enclosing_class == class_around(ns, i) && (
        match qualifier_of(ns, i) {
            Some((q, op)) => c.qualifier == Some(q) && c.qualifier_op == Some(op),
            None => c.qualifier is None && c.qualifier_op is None,
        })),
{
}

/// The scope of a qualified name qualifies its parts.
pub proof fn law_scope_qualifies(ns: Seq<NodeView>, i: int, p: int, s: int)
    requires
        parent_of(ns, i) == Some(p),
        ns[p].kind == "qualified_identifier"@,
        child_field(ns, p, "scope"@) == Some(s),
        trim(ns[s].text).len() > 0,
    ensures
        qualifier_of(ns, i) == Some((without_namespace(trim(ns[s].text)), "::"@)),
{
}

/// What stands before the operator of an access qualifies its parts.
pub proof fn law_object_qualifies(ns: Seq<NodeView>, i: int, p: int, object: int, op: int)
    requires
        0 <= i < ns.len(),
        parent_of(ns, i) == Some(p),
        0 <= p < ns.len(),
        ns[p].kind == "field_expression"@,
        object == p + 1,
        op == end_of(ns, object),
        op < end_of(ns, p),
        ns[op].kind == "."@ || ns[op].kind == "->"@,
        ns[object].kind != "."@ && ns[object].kind != "->"@,
        trim(ns[object].text).len() > 0,
    ensures
        qualifier_of(ns, i) == Some((trim(ns[object].text), ns[op].kind)),
{
    lemma_end_from(ns, ns[p].depth, p + 1);
    lemma_end_from(ns, ns[object].depth, object + 1);
    reveal_strlit("qualified_identifier");
    reveal_strlit("field_expression");
    assert("qualified_identifier"@[0] == 'q' && "field_expression"@[0] == 'f');
    let end = end_of(ns, p);
    assert(field_qualifier(ns, op, end, Some(object)) == Some((trim(ns[object].text), ns[op].kind)));
    assert(field_qualifier(ns, p + 1, end, None) == field_qualifier(ns, op, end, Some(object)));
}

/// A part of anything else is qualified as that is.
pub proof fn law_qualifier_is_passed_on(ns: Seq<NodeView>, i: int, p: int)
    requires
        parent_of(ns, i) == Some(p),
        ns[p].kind != "qualified_identifier"@,
        ns[p].kind != "field_expression"@,
    ensures
        qualifier_of(ns, i) == qualifier_of(ns, p),
{
    crate::syntax::lemma_parent_from(ns, ns[i].depth, i);
    reveal_with_fuel(qualifier_of, 2);
}

// ---------------------------------------------------------------------------
// The class around the cursor
// ---------------------------------------------------------------------------
/// The node defines a class or a struct.
pub open spec fn defines_class(n: NodeView) -> bool {
    ||| n.kind == "class_specifier"@
    ||| n.kind == "struct_specifier"@
    ||| n.kind == "unreal_class_declaration"@
    ||| n.kind == "unreal_struct_declaration"@
    ||| n.kind == "unreal_reflected_class_declaration"@
    ||| n.kind == "unreal_reflected_struct_declaration"@
}

/// Inside of a class the cursor is in that class.
pub proof fn law_class_is_around(ns: Seq<NodeView>, i: int, n: int)
    requires
        defines_class(ns[i]),
        child_field(ns, i, "name"@) == Some(n),
        trim(ns[n].text).len() > 0,
    ensures
        class_around(ns, i) == Some(without_namespace(trim(ns[n].text))),
{
}

/// Inside of the definition of a member function the cursor is in the class that
/// the definition names.
pub proof fn law_definition_is_around(ns: Seq<NodeView>, i: int, d: int, q: int, s: int)
    requires
        ns[i].kind == "function_definition"@,
        child_field(ns, i, "declarator"@) == Some(d),
        kind_from(ns, d, end_of(ns, d), "qualified_identifier"@) == Some(q),
        child_field(ns, q, "scope"@) == Some(s),
        trim(ns[s].text).len() > 0,
    ensures
        class_around(ns, i) == Some(without_namespace(trim(ns[s].text))),
{
    reveal_strlit("function_definition");
    reveal_strlit("class_specifier");
    reveal_strlit("struct_specifier");
    reveal_strlit("unreal_class_declaration");
    reveal_strlit("unreal_struct_declaration");
    reveal_strlit("unreal_reflected_class_declaration");
    reveal_strlit("unreal_reflected_struct_declaration");
    assert("function_definition"@[0] == 'f' && "class_specifier"@[0] == 'c');
    assert("struct_specifier"@[0] == 's' && "unreal_class_declaration"@[0] == 'u');
    assert("unreal_struct_declaration"@[0] == 'u' && "unreal_reflected_class_declaration"@[0]
        == 'u');
    assert("unreal_reflected_struct_declaration"@[0] == 'u');
}

/// Everywhere else the cursor is in the class that its surroundings are in.
pub proof fn law_class_is_passed_on(ns: Seq<NodeView>, i: int)
    requires
        !defines_class(ns[i]),
        ns[i].kind != "function_definition"@,
    ensures
        match parent_of(ns, i) {
            Some(p) => class_around(ns, i) == class_around(ns, p),
            None => class_around(ns, i) is None,
        },
{
    crate::syntax::lemma_parent_from(ns, ns[i].depth, i);
    reveal_with_fuel(class_around, 2);
}

/// The function around the cursor is the innermost one.
pub proof fn law_function_around(ns: Seq<NodeView>, i: int)
    ensures
        ({
            let function = ns[i].kind == "function_definition"@ || ns[i].kind
                == "unreal_function_definition"@ || ns[i].kind == "lambda_expression"@;
            &&& function ==> function_around(ns, i) == Some(i)
            &&& !function ==> (match parent_of(ns, i) {
                Some(p) => function_around(ns, i) == function_around(ns, p),
                None => function_around(ns, i) is None,
            })
        }),
{
    crate::syntax::lemma_parent_from(ns, ns[i].depth, i);
    reveal_with_fuel(function_around, 2);
}

// ---------------------------------------------------------------------------
// Types
// ---------------------------------------------------------------------------
proof fn lemma_replace_push(s: Seq<char>, p: Seq<char>, r: Seq<char>, c: char)
    requires
        p.len() > 0,
        p.last() != c,
    ensures
        replace_all(s.push(c), p, r) == replace_all(s, p, r).push(c),
    decreases s.len(),
{
    let t = s.push(c);
    if s.len() == 0 {
        if occurs_at(t, p, 0) {
            assert(t.subrange(0, p.len() as int).last() == p.last());
            assert(p.len() == 1);
        }
        assert(t.skip(1) =~= s);
        assert(replace_all(s, p, r) =~= s);
        assert(replace_all(t, p, r) =~= s.push(c));
    } else if occurs_at(s, p, 0) {
        let n = p.len() as int;
        assert(t.subrange(0, n) =~= s.subrange(0, n));
        lemma_replace_push(s.skip(n), p, r, c);
        assert(t.skip(n) =~= s.skip(n).push(c));
        assert(r + replace_all(s.skip(n), p, r).push(c) =~= (r + replace_all(
            s.skip(n),
            p,
            r,
        )).push(c));
    } else {
        if occurs_at(t, p, 0) {
            if p.len() == t.len() {
                assert(t.subrange(0, p.len() as int).last() == c);
            } else {
                assert(t.subrange(0, p.len() as int) =~= s.subrange(0, p.len() as int));
            }
            assert(false);
        }
        lemma_replace_push(s.skip(1), p, r, c);
        assert(t.skip(1) =~= s.skip(1).push(c));
        assert(seq![s[0]] + replace_all(s.skip(1), p, r).push(c) =~= (seq![s[0]] + replace_all(
            s.skip(1),
            p,
            r,
        )).push(c));
    }
}

/// A pointer and a reference to a type are looked up as the type.
pub proof fn law_pointer_is_looked_through(raw: Seq<char>, c: char)
    requires
        c == '*' || c == '&',
    ensures
        lookup_type(raw.push(c)) == lookup_type(raw),
{
    reveal_strlit("const");
    reveal_strlit("volatile");
    reveal_strlit("class ");
    reveal_strlit("struct ");
    let a = replace_all(raw, "const"@, " "@);
    let b = replace_all(a, "volatile"@, " "@);
    let d = replace_all(b, "class "@, " "@);
    let e = replace_all(d, "struct "@, " "@);
    lemma_replace_push(raw, "const"@, " "@, c);
    lemma_replace_push(a, "volatile"@, " "@, c);
    lemma_replace_push(b, "class "@, " "@, c);
    lemma_replace_push(d, "struct "@, " "@, c);
    let x = swap_char(swap_char(e, '*', ' '), '&', ' ');
    let y = swap_char(swap_char(e.push(c), '*', ' '), '&', ' ');
    assert(y =~= x.push(' '));
    lemma_even(x);
    lemma_even(y);
    assert(y.drop_last() =~= x);
    assert(unqualified(raw.push(c)) == unqualified(raw));
}

/// The wrappers of the engine are looked through.
pub proof fn law_wrapper_is_looked_through(raw: Seq<char>, inner: Seq<char>, k: int)
    requires
        0 <= k < wrappers().len(),
        unqualified(raw) == wrappers()[k] + inner + seq!['>'],
        forall|m: int| 0 <= m < k ==> !starts(unqualified(raw), #[trigger] wrappers()[m]),
    ensures
        lookup_type(raw) == lookup_type(trim(inner)),
{
    let s = unqualified(raw);
    let w = wrappers()[k];
    assert(s.subrange(0, w.len() as int) =~= w);
    assert(s.last() == '>');
    assert(s.subrange(w.len() as int, s.len() - 1) =~= inner);
    lemma_wrapped(s, k, 0);
    reveal_with_fuel(lookup_type, 2);
}

proof fn lemma_wrapped(s: Seq<char>, k: int, i: int)
    requires
        0 <= i <= k < wrappers().len(),
        s.len() > 0,
        s.last() == '>',
        starts(s, wrappers()[k]),
        forall|m: int| i <= m < k ==> !starts(s, #[trigger] wrappers()[m]),
    ensures
        wrapped_from(s, i) == Some(trim(s.subrange(wrappers()[k].len() as int, s.len() - 1))),
    decreases k - i,
{
    if i < k {
        assert(!starts(s, wrappers()[i]));
        lemma_wrapped(s, k, i + 1);
    }
}

/// The wrappers that are looked through.
pub proof fn law_wrappers()
    ensures
        wrappers().contains("TObjectPtr<"@),
        wrappers().contains("TWeakObjectPtr<"@),
        wrappers().contains("TSoftObjectPtr<"@),
        wrappers().contains("TSubclassOf<"@),
        wrappers().contains("TScriptInterface<"@),
        wrappers().contains("TOptional<"@),
        wrappers().contains("TSharedPtr<"@),
        wrappers().contains("TSharedRef<"@),
        wrappers().contains("TUniquePtr<"@),
{
    let w = wrappers();
    assert(w[0] == "TObjectPtr<"@ && w[1] == "TWeakObjectPtr<"@ && w[2] == "TSoftObjectPtr<"@);
    assert(w[3] == "TSubclassOf<"@ && w[4] == "TScriptInterface<"@ && w[5] == "TOptional<"@);
    assert(w[6] == "TSharedPtr<"@ && w[7] == "TSharedRef<"@ && w[8] == "TUniquePtr<"@);
}

/// A type without a wrapper is looked up by its name without the namespace.
pub proof fn law_plain_type(raw: Seq<char>)
    requires
        wrapped_from(unqualified(raw), 0) is None,
    ensures
        lookup_type(raw) == without_namespace(trim(unqualified(raw))),
{
}

// ---------------------------------------------------------------------------
// Variables
// ---------------------------------------------------------------------------
/// A declaration, a parameter or a field declares the variable that its declarator
/// names, with its type.
pub proof fn law_declares_var(ns: Seq<NodeView>, i: int, t: int, d: int, n: int, name: Seq<char>)
    requires
        child_field(ns, i, "type"@) == Some(t),
        child_field(ns, i, "declarator"@) == Some(d),
        decl_name(ns, d) == Some(n),
    ensures
        ({
            let kind = ns[i].kind == "declaration"@ || ns[i].kind == "parameter_declaration"@
                || ns[i].kind == "field_declaration"@;
            let ty = lookup_type(trim(ns[t].text));
            &&& kind && trim(ns[n].text) == name && ty.len() > 0 ==> declares_var(ns, i, name)
                == Some(TypeMatchView { row: ns[n].start_row, col: ns[n].start_column, ty })
            &&& !kind || trim(ns[n].text) != name ==> declares_var(ns, i, name) is None
        }),
{
}

/// A declarator that is a plain name names itself.
pub proof fn law_decl_name(ns: Seq<NodeView>, i: int, d: int)
    requires
        0 <= i < ns.len(),
    ensures
        ns[i].kind == "identifier"@ || ns[i].kind == "field_identifier"@ ==> decl_name(ns, i)
            == Some(i),
        child_field(ns, i, "declarator"@) == Some(d) && (ns[i].kind == "pointer_declarator"@
            || ns[i].kind == "reference_declarator"@ || ns[i].kind == "array_declarator"@
            || ns[i].kind == "function_declarator"@ || ns[i].kind == "init_declarator"@)
            ==> decl_name(ns, i) == decl_name(ns, d),
{
    reveal_strlit("identifier");
    reveal_strlit("field_identifier");
    reveal_strlit("pointer_declarator");
    reveal_strlit("reference_declarator");
    reveal_strlit("array_declarator");
    reveal_strlit("function_declarator");
    reveal_strlit("init_declarator");
    assert("identifier"@.len() == 10 && "field_identifier"@.len() == 16);
    assert("field_identifier"@[0] == 'f' && "array_declarator"@[0] == 'a');
    assert("pointer_declarator"@.len() == 18 && "reference_declarator"@.len() == 20);
    assert("function_declarator"@.len() == 19 && "init_declarator"@.len() == 15);
    lemma_end_from(ns, ns[i].depth, i + 1);
    crate::syntax::lemma_field_from(ns, i + 1, end_of(ns, i), "declarator"@);
    reveal_with_fuel(decl_name, 2);
}

/// Every declaration of the variable counts, and nothing else; those inside of other
/// functions only where these are not left out.
pub proof fn law_every_declaration_counts(
    ns: Seq<NodeView>,
    j: int,
    end: int,
    name: Seq<char>,
    stop: bool,
    k: int,
    m: TypeMatchView,
)
    requires
        0 <= j <= k < end <= ns.len(),
        declares_var(ns, k, name) == Some(m),
        stop ==> forall|f: int| j <= f <= k && function_like((#[trigger] ns[f]).kind) ==> end_of(ns, f) <= k,
    ensures
        var_decls(ns, j, end, name, stop).contains(m),
    decreases k - j,
{
    let all = var_decls(ns, j, end, name, stop);
    lemma_end_from(ns, ns[j].depth, j + 1);
    if stop && function_like(ns[j].kind) {
        law_every_declaration_counts(ns, end_of(ns, j), end, name, stop, k, m);
    } else if j == k {
        assert(all[0] == m);
    } else {
        law_every_declaration_counts(ns, j + 1, end, name, stop, k, m);
        let rest = var_decls(ns, j + 1, end, name, stop);
        let at = choose|at: int| 0 <= at < rest.len() && rest[at] == m;
        if declares_var(ns, j, name) is Some {
            assert(all[at + 1] == m);
        } else {
            assert(all[at] == m);
        }
    }
}

/// What counts as a declaration is one.
pub proof fn law_only_declarations_count(
    ns: Seq<NodeView>,
    j: int,
    end: int,
    name: Seq<char>,
    stop: bool,
    at: int,
)
    requires
        0 <= j,
        end <= ns.len(),
        0 <= at < var_decls(ns, j, end, name, stop).len(),
    ensures
        exists|k: int|
            j <= k < end && #[trigger] declares_var(ns, k, name) == Some(
                var_decls(ns, j, end, name, stop)[at],
            ),
    decreases ns.len() - j,
{
    lemma_end_from(ns, ns[j].depth, j + 1);
    if stop && function_like(ns[j].kind) {
        law_only_declarations_count(ns, end_of(ns, j), end, name, stop, at);
    } else {
        match declares_var(ns, j, name) {
            Some(m) => {
                if at > 0 {
                    law_only_declarations_count(ns, j + 1, end, name, stop, at - 1);
                } else {
                    assert(var_decls(ns, j, end, name, stop)[0] == m);
                }
            },
            None => {
                law_only_declarations_count(ns, j + 1, end, name, stop, at);
            },
        }
    }
}

/// The declarations of the function on the row of the cursor count before those of
/// the file.
pub proof fn law_function_counts_first(ns: Seq<NodeView>, name: Seq<char>, row: int)
    ensures
        function_on_row(ns, 0, row) is None ==> counted_decls(ns, name, Some(row)) == var_decls_at(
            ns,
            0,
            name,
            false,
        ),
        function_on_row(ns, 0, row) matches Some(f) ==> {
            &&& var_decls_at(ns, f, name, true).len() > 0 ==> counted_decls(ns, name, Some(row))
                == var_decls_at(ns, f, name, true)
            &&& var_decls_at(ns, f, name, true).len() == 0 ==> counted_decls(ns, name, Some(row))
                == var_decls_at(ns, 0, name, false)
        },
        counted_decls(ns, name, None) == var_decls_at(ns, 0, name, false),
{
}

/// The type of a variable is that of its last declaration on the row of the cursor
/// or above.
pub proof fn law_nearest_declaration(ns: Seq<NodeView>, name: Seq<char>, row: int, k: int)
    requires
        ns.len() > 0,
        ({
            let ms = counted_decls(ns, name, Some(row));
            &&& 0 <= k < ms.len()
            &&& ms[k].row <= row
            &&& forall|m: int|
                0 <= m < ms.len() && m != k && (#[trigger] ms[m]).row <= row ==> ms[m].row < ms[k].row
                    || (ms[m].row == ms[k].row && ms[m].col < ms[k].col)
        }),
    ensures
        var_type(ns, name, Some(row)) == Some(counted_decls(ns, name, Some(row))[k].ty),
{
    let ms = counted_decls(ns, name, Some(row));
    lemma_nearest_is(ms, ms.len() as int, row, k);
}

proof fn lemma_nearest_is(ms: Seq<TypeMatchView>, n: int, row: int, k: int)
    requires
        0 <= k < ms.len(),
        0 <= n <= ms.len(),
        ms[k].row <= row,
        forall|m: int|
            0 <= m < ms.len() && m != k && (#[trigger] ms[m]).row <= row ==> ms[m].row < ms[k].row || (
            ms[m].row == ms[k].row && ms[m].col < ms[k].col),
    ensures
        n > k ==> nearest(ms, n, row) == Some(ms[k]),
        n <= k ==> (nearest(ms, n, row) matches Some(b) ==> b.row < ms[k].row || (b.row == ms[k].row
            && b.col < ms[k].col)),
    decreases n,
{
    if n > 0 {
        lemma_nearest_is(ms, n - 1, row, k);
        if n - 1 != k && ms[n - 1].row <= row {
            assert(ms[n - 1].row < ms[k].row || (ms[n - 1].row == ms[k].row && ms[n - 1].col
                < ms[k].col));
        }
    }
}

/// Without a declaration above the cursor the first one below it counts.
pub proof fn law_first_declaration(ns: Seq<NodeView>, name: Seq<char>, row: int, k: int)
    requires
        ns.len() > 0,
        ({
            let ms = counted_decls(ns, name, Some(row));
            &&& 0 <= k < ms.len()
            &&& forall|m: int| 0 <= m < ms.len() ==> (#[trigger] ms[m]).row > row
            &&& forall|m: int|
                0 <= m < ms.len() && m != k ==> (#[trigger] ms[m]).row > ms[k].row || (ms[m].row
                    == ms[k].row && ms[m].col > ms[k].col)
        }),
    ensures
        var_type(ns, name, Some(row)) == Some(counted_decls(ns, name, Some(row))[k].ty),
{
    let ms = counted_decls(ns, name, Some(row));
    lemma_none_near(ms, ms.len() as int, row);
    lemma_foremost_is(ms, ms.len() as int, k);
}

proof fn lemma_none_near(ms: Seq<TypeMatchView>, n: int, row: int)
    requires
        0 <= n <= ms.len(),
        forall|m: int| 0 <= m < ms.len() ==> (#[trigger] ms[m]).row > row,
    ensures
        nearest(ms, n, row) is None,
    decreases n,
{
    if n > 0 {
        lemma_none_near(ms, n - 1, row);
        assert(ms[n - 1].row > row);
    }
}

proof fn lemma_foremost_is(ms: Seq<TypeMatchView>, n: int, k: int)
    requires
        0 <= k < ms.len(),
        0 <= n <= ms.len(),
        forall|m: int|
            0 <= m < ms.len() && m != k ==> (#[trigger] ms[m]).row > ms[k].row || (ms[m].row
                == ms[k].row && ms[m].col > ms[k].col),
    ensures
        n > k ==> foremost(ms, n) == Some(ms[k]),
        0 < n <= k ==> (foremost(ms, n) matches Some(b) && (b.row > ms[k].row || (b.row == ms[k].row
            && b.col > ms[k].col))),
    decreases n,
{
    if n > 0 {
        lemma_foremost_is(ms, n - 1, k);
        if n - 1 != k {
            assert(ms[n - 1].row > ms[k].row || (ms[n - 1].row == ms[k].row && ms[n - 1].col
                > ms[k].col));
        }
    }
}

/// A variable that nothing declares has no type.
pub proof fn law_undeclared_variable(ns: Seq<NodeView>, name: Seq<char>, row: Option<int>)
    requires
        counted_decls(ns, name, row).len() == 0,
    ensures
        var_type(ns, name, row) is None,
{
}

/// The function on a row covers it, and no function inside of it does.
pub proof fn law_function_on_row(ns: Seq<NodeView>, i: int, row: int)
    requires
        0 <= i < ns.len(),
    ensures
        function_on_row(ns, i, row) matches Some(f) ==> i <= f < end_of(ns, i) && function_like(
            ns[f].kind,
        ) && ns[f].start_row <= row <= ns[f].end_row && function_on_row_in(
            ns,
            f + 1,
            end_of(ns, f),
            row,
        ) is None,
        ns[i].start_row <= row <= ns[i].end_row && function_like(ns[i].kind) ==> function_on_row(
            ns,
            i,
            row,
        ) is Some,
    decreases ns.len() - i, 1nat,
{
    lemma_end_from(ns, ns[i].depth, i + 1);
    if ns[i].start_row <= row <= ns[i].end_row {
        lemma_function_in(ns, i + 1, end_of(ns, i), row, ns[i].depth);
    }
}

proof fn lemma_function_in(ns: Seq<NodeView>, j: int, end: int, row: int, depth: int)
    requires
        0 <= j <= end <= ns.len(),
        forall|k: int| j <= k < end ==> (#[trigger] ns[k]).depth > depth,
        end < ns.len() ==> ns[end].depth <= depth,
    ensures
        function_on_row_in(ns, j, end, row) matches Some(f) ==> j <= f < end && function_like(
            ns[f].kind,
        ) && ns[f].start_row <= row <= ns[f].end_row && function_on_row_in(
            ns,
            f + 1,
            end_of(ns, f),
            row,
        ) is None,
    decreases ns.len() - j, 2nat,
{
    if j < end {
        lemma_end_from(ns, ns[j].depth, j + 1);
        if end_of(ns, j) > end {
            assert(ns[end].depth > ns[j].depth);
        }
        law_function_on_row(ns, j, row);
        if function_on_row(ns, j, row) is None {
            lemma_function_in(ns, end_of(ns, j), end, row, depth);
        }
    }
}

// ---------------------------------------------------------------------------
// Local names
// ---------------------------------------------------------------------------
/// A declaration and a parameter declare the local name that their declarator names.
pub proof fn law_declares_local(ns: Seq<NodeView>, i: int, d: int, n: int, name: Seq<char>)
    requires
        child_field(ns, i, "declarator"@) == Some(d),
        decl_name(ns, d) == Some(n),
    ensures
        ({
            let kind = ns[i].kind == "declaration"@ || ns[i].kind == "parameter_declaration"@;
            &&& kind && trim(ns[n].text) == name ==> (declares_local(ns, i, name) matches Some(m)
                && m.row == ns[n].start_row && m.col == ns[n].start_column && (match child_field(
                ns,
                i,
                "type"@,
            ) {
                Some(t) => m.decl_type == Some(lookup_type(trim(ns[t].text))),
                None => m.decl_type is None,
            }))
            &&& !kind || trim(ns[n].text) != name ==> declares_local(ns, i, name) is None
        }),
{
}

/// Every declaration of the name in a function is seen, but for those in functions
/// inside of it.
pub proof fn law_every_local_is_seen(
    ns: Seq<NodeView>,
    j: int,
    end: int,
    name: Seq<char>,
    k: int,
    m: LocalDeclView,
)
    requires
        0 <= j <= k < end <= ns.len(),
        declares_local(ns, k, name) == Some(m),
        forall|f: int| j <= f <= k && function_like((#[trigger] ns[f]).kind) ==> end_of(ns, f) <= k,
    ensures
        local_decls(ns, j, end, name).contains(m),
    decreases k - j,
{
    let all = local_decls(ns, j, end, name);
    lemma_end_from(ns, ns[j].depth, j + 1);
    if function_like(ns[j].kind) {
        law_every_local_is_seen(ns, end_of(ns, j), end, name, k, m);
    } else if j == k {
        assert(all[0] == m);
    } else {
        law_every_local_is_seen(ns, j + 1, end, name, k, m);
        let rest = local_decls(ns, j + 1, end, name);
        let at = choose|at: int| 0 <= at < rest.len() && rest[at] == m;
        if declares_local(ns, j, name) is Some {
            assert(all[at + 1] == m);
        } else {
            assert(all[at] == m);
        }
    }
}

/// A jump to a local name leads to its last declaration before the cursor, in the
/// function around it; nowhere without a function or a declaration.
pub proof fn law_local_declaration(
    ns: Seq<NodeView>,
    at: int,
    name: Seq<char>,
    row: int,
    col: int,
)
    ensures
        function_around(ns, at) is None ==> local_declaration(ns, at, name, row, col) is None,
        function_around(ns, at) matches Some(f) ==> {
            let ms = local_decls_at(ns, f, name);
            match local_declaration(ns, at, name, row, col) {
                Some(b) => ms.contains(b) && (b.row < row || (b.row == row && b.col <= col)) && (
                forall|m: int|
                    0 <= m < ms.len() && ((#[trigger] ms[m]).row < row || (ms[m].row == row
                        && ms[m].col <= col)) ==> ms[m].row < b.row || (ms[m].row == b.row
                        && ms[m].col <= b.col)),
                None => forall|m: int|
                    0 <= m < ms.len() ==> !((#[trigger] ms[m]).row < row || (ms[m].row == row
                        && ms[m].col <= col)),
            }
        },
{
    match function_around(ns, at) {
        Some(f) => {
            let ms = local_decls_at(ns, f, name);
            lemma_last_before(ms, ms.len() as int, row, col);
        },
        None => {},
    }
}

proof fn lemma_last_before(ms: Seq<LocalDeclView>, n: int, row: int, col: int)
    requires
        0 <= n <= ms.len(),
    ensures
        match last_before(ms, n, row, col) {
            Some(b) => ms.contains(b) && (b.row < row || (b.row == row && b.col <= col)) && (forall|m: int|
                0 <= m < n && ((#[trigger] ms[m]).row < row || (ms[m].row == row && ms[m].col <= col))
                    ==> ms[m].row < b.row || (ms[m].row == b.row && ms[m].col <= b.col)),
            None => forall|m: int|
                0 <= m < n ==> !((#[trigger] ms[m]).row < row || (ms[m].row == row && ms[m].col
                    <= col)),
        },
    decreases n,
{
    if n > 0 {
        lemma_last_before(ms, n - 1, row, col);
    }
}

/// Among the parts of an access the first operator with something before it decides;
/// everything before that is passed over.
pub proof fn law_operator(ns: Seq<NodeView>, j: int, end: int, prev: Option<int>)
    requires
        0 <= j < end <= ns.len(),
    ensures
        ({
            let op = ns[j].kind == "."@ || ns[j].kind == "->"@;
            let object = match prev {
                Some(o) => trim(ns[o].text),
                None => Seq::<char>::empty(),
            };
            &&& op && object.len() > 0 ==> field_qualifier(ns, j, end, prev) == Some(
                (object, ns[j].kind),
            )
            &&& !op || object.len() == 0 ==> field_qualifier(ns, j, end, prev) == field_qualifier(
                ns,
                end_of(ns, j),
                end,
                Some(j),
            )
        }),
        field_qualifier(ns, end, end, prev) is None,
{
    lemma_end_from(ns, ns[j].depth, j + 1);
    reveal_with_fuel(field_qualifier, 2);
}

/// Among the children of a declarator the first one that yields a name decides.
pub proof fn law_first_decl_name(ns: Seq<NodeView>, j: int, end: int)
    requires
        0 <= j < end <= ns.len(),
    ensures
        decl_name(ns, j) is Some ==> decl_name_in(ns, j, end) == decl_name(ns, j),
        decl_name(ns, j) is None ==> decl_name_in(ns, j, end) == decl_name_in(
            ns,
            end_of(ns, j),
            end,
        ),
        decl_name_in(ns, end, end) is None,
{
    lemma_end_from(ns, ns[j].depth, j + 1);
    reveal_with_fuel(decl_name_in, 2);
}

} // verus!
