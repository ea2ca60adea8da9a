//! What is reported of a header and of a build log, and what is not.

#[allow(unused_imports)]
use crate::diagnostics::{access_above, access_label, access_section, add_line, after_parameters, base_name,
    body_macro_near, closing_from, const_member, declared_type, defined_elsewhere, defined_in, defines,
    definition_head, ending, expected, expected_file, fronted, function_findings, function_spec, header_path,
    item_at, line_findings, line_item, logged_number, macro_arguments, macro_call, macro_call_from, meaningful_from,
    member_decl, min, missing_at, missing_findings, missing_item, missing_of, missing_upto, msvc_item, next_u32,
    paren_balance, parameters_of, property_findings, rule_findings, signature, source_candidates, spaced, suffix,
    three_sources, token_in, type_findings, uht_item, word_parts_from, DeclView, DiagnosticSeverity, DiagnosticView,
    ExpectedView, UnrealFunctionSpec};
#[allow(unused_imports)]
use crate::pattern::group;
#[allow(unused_imports)]
use crate::syntax::{below_kind, child_field, class_name_node, descendant, name_node, NodeView};
#[allow(unused_imports)]
use crate::text::{byte_len, contains, ends, find, index_of_from, last_index_of, lower, occurs_at, parse_decimal,
    replace_all, starts, swap_char, trim, trim_start, word_char, words};
#[allow(unused_imports)]
use crate::diagnostics::{declaration_start, noexcept_text, operand_end, prefix_type, severity_name};
#[allow(unused_imports)]
use crate::text::{at_byte, index_of, lemma_find_from, lemma_index_of_from, ws};
use vstd::prelude::*;

verus! {

// ---------------------------------------------------------------------------
// Missing definitions
// ---------------------------------------------------------------------------
/// A declaration that is complete in itself calls for no definition: one that is
/// pure, deleted or defaulted, one with a body, one that is inline or a friend, one
/// that does not end.
pub proof fn law_complete_declaration(
    ns: Seq<NodeView>,
    i: int,
    path: Seq<char>,
    sources: Seq<(Seq<char>, Seq<char>)>,
)
    requires
        ({
            let text = trim(ns[i].text);
            ||| contains(text, "= 0"@)
            ||| contains(text, "= delete"@)
            ||| contains(text, "= default"@)
            ||| text.contains('{')
            ||| !text.contains(';')
            ||| token_in(text, "inline"@)
            ||| token_in(text, "FORCEINLINE"@)
            ||| token_in(text, "friend"@)
        }),
    ensures
        missing_at(ns, i, path, sources) == Seq::<DiagnosticView>::empty(),
{
}

/// Only a declaration of a member calls for a definition, and none below a
/// template.
pub proof fn law_only_members_are_missed(
    ns: Seq<NodeView>,
    i: int,
    path: Seq<char>,
    sources: Seq<(Seq<char>, Seq<char>)>,
)
    requires
        !(ns[i].kind == "field_declaration"@ || ns[i].kind == "unreal_function_declaration"@
            || ns[i].kind == "declaration"@) || below_kind(ns, i, "template_declaration"@)
            || class_name_node(ns, i) is None || child_field(ns, i, "declarator"@) is None,
    ensures
        missing_at(ns, i, path, sources) == Seq::<DiagnosticView>::empty(),
{
}

/// The declaration is one of a function of a class, and its definition stands
/// elsewhere.
pub open spec fn calls_for_definition(ns: Seq<NodeView>, i: int, d: int, n: int, c: int) -> bool {
    let text = trim(ns[i].text);
    &&& ns[i].kind == "field_declaration"@ || ns[i].kind == "unreal_function_declaration"@
        || ns[i].kind == "declaration"@
    &&& !below_kind(ns, i, "template_declaration"@)
    &&& text.contains(';') && !text.contains('{')
    &&& !contains(text, "= 0"@) && !contains(text, "= delete"@) && !contains(text, "= default"@)
    &&& !token_in(text, "inline"@) && !token_in(text, "FORCEINLINE"@) && !token_in(text, "friend"@)
    &&& child_field(ns, i, "declarator"@) == Some(d)
    &&& name_node(ns, d) == Some(n)
    &&& class_name_node(ns, i) == Some(c)
    &&& trim(ns[n].text).len() > 0
    &&& descendant(ns, d, "parameter_list"@) matches Some(p) && ns[p].text.len() > 0
}

/// What is looked for bears the names of the class and of the function, and its
/// parameters; a constructor and a destructor have no type.
pub proof fn law_declaration_is_read(ns: Seq<NodeView>, i: int, path: Seq<char>, d: int, n: int, c: int)
    requires
        calls_for_definition(ns, i, d, n, c),
    ensures
        ({
            let class_name = trim(ns[c].text);
            let name = trim(ns[n].text);
            &&& member_decl(ns, i, path) is Some
            &&& member_decl(ns, i, path) matches Some(decl) && decl.class_name == class_name
                && decl.name == name && decl.parameters == ns[descendant(
                ns,
                d,
                "parameter_list"@,
            )->0].text && decl.full_text == trim(ns[i].text) && decl.file_path == swap_char(
                path,
                '\\',
                '/',
            ) && decl.end_line == ns[i].end_row as u32 && decl.end_character
                == ns[i].end_column as u32 && decl.is_const == const_member(ns, i) && (name
                == class_name || name == seq!['~'] + class_name ==> decl.return_type.len() == 0)
                && (name != class_name && name != seq!['~'] + class_name ==> decl.return_type
                == trim(declared_type(ns, i, d)))
        }),
{
    let text = trim(ns[i].text);
    let k = choose|k: int| 0 <= k < text.len() && text[k] == ';';
    assert(text.len() > 0);
}

/// Where there is no source at all, every expected definition is reported, in
/// order.
pub proof fn law_all_are_missed(
    decl: DeclView,
    es: Seq<ExpectedView>,
    n: int,
    file: Seq<char>,
    sources: Seq<(Seq<char>, Seq<char>)>,
)
    requires
        0 <= n <= es.len(),
        forall|k: int| 0 <= k < n ==> !defined_in(sources, definition_head(decl, #[trigger] es[k])),
    ensures
        missing_of(decl, es, n, file, sources).len() == n,
        forall|k: int|
            0 <= k < n ==> #[trigger] missing_of(decl, es, n, file, sources)[k] == missing_item(
                decl,
                es[k],
                file,
            ),
    decreases n,
{
    if n > 0 {
        law_all_are_missed(decl, es, n - 1, file, sources);
        assert(!defined_in(sources, definition_head(decl, es[n - 1])));
    }
}

/// A definition that one of the sources holds is not missed, and one that none
/// holds is.
pub proof fn law_missed_unless_defined(
    decl: DeclView,
    es: Seq<ExpectedView>,
    n: int,
    file: Seq<char>,
    sources: Seq<(Seq<char>, Seq<char>)>,
    k: int,
)
    requires
        0 <= k < n <= es.len(),
    ensures
        !defined_in(sources, definition_head(decl, es[k])) ==> missing_of(
            decl,
            es,
            n,
            file,
            sources,
        ).contains(missing_item(decl, es[k], file)),
        (forall|m: int| 0 <= m < n ==> defined_in(sources, definition_head(decl, #[trigger] es[m])))
            ==> missing_of(decl, es, n, file, sources).len() == 0,
    decreases n,
{
    let now = missing_of(decl, es, n, file, sources);
    let before = missing_of(decl, es, n - 1, file, sources);
    if k == n - 1 {
        if !defined_in(sources, definition_head(decl, es[k])) {
            assert(now.last() == missing_item(decl, es[k], file));
        }
    } else {
        law_missed_unless_defined(decl, es, n - 1, file, sources, k);
        if !defined_in(sources, definition_head(decl, es[k])) {
            let item = missing_item(decl, es[k], file);
            let at = choose|at: int| 0 <= at < before.len() && before[at] == item;
            assert(now[at] == item);
        }
    }
    if forall|m: int| 0 <= m < n ==> defined_in(sources, definition_head(decl, #[trigger] es[m])) {
        assert(defined_in(sources, definition_head(decl, es[n - 1])));
        if n > 1 {
            law_missed_unless_defined(decl, es, n - 1, file, sources, 0);
        } else {
            assert(before.len() == 0);
        }
    }
}

/// A source that holds the head of the definition, however it is spaced, defines
/// the function.
pub proof fn law_source_defines(
    sources: Seq<(Seq<char>, Seq<char>)>,
    head: Seq<char>,
    k: int,
    at: int,
)
    requires
        0 <= k < sources.len(),
        spaced(head).len() > 0,
        occurs_at(spaced(sources[k].1), spaced(head), at),
    ensures
        defined_in(sources, head),
{
    assert(defines(spaced(sources[k].1), head));
}

/// The head of a definition: the type, unless there is none, the qualified name,
/// the parameters without defaults, and what qualifies them.
pub proof fn law_definition_head(decl: DeclView, e: ExpectedView)
    ensures
        e.return_type.len() == 0 ==> definition_head(decl, e) == decl.class_name + "::"@ + e.name
            + signature(decl.parameters) + suffix(decl.full_text, decl.parameters, decl.is_const),
        e.return_type.len() > 0 ==> definition_head(decl, e) == e.return_type + " "@ + (
        decl.class_name + "::"@ + e.name + signature(decl.parameters)) + suffix(
            decl.full_text,
            decl.parameters,
            decl.is_const,
        ),
{
}

/// What qualifies a definition: nothing, where nothing follows the parameters but
/// the end of the declaration, and `const` where the function is constant.
pub proof fn law_suffix(text: Seq<char>, parameters: Seq<char>, is_const: bool)
    requires
        !after_parameters(text, parameters).contains('&'),
        !contains(after_parameters(text, parameters), "noexcept"@),
    ensures
        is_const ==> suffix(text, parameters, is_const) == " const"@,
        !is_const ==> suffix(text, parameters, is_const).len() == 0,
{
    let t = after_parameters(text, parameters);
    crate::text::lemma_find_from(t, "noexcept"@, 0);
    reveal_strlit("");
    reveal_strlit("&&");
    if contains(t, "&&"@) {
        let k = choose|k: int| occurs_at(t, "&&"@, k);
        assert(t.subrange(k, k + 2)[0] == '&');
        assert(t.contains('&'));
    }
    assert(" const"@ + ""@ + ""@ =~= " const"@);
}

/// A reference qualifier is repeated, the double one as such.
pub proof fn law_suffix_reference(text: Seq<char>, parameters: Seq<char>)
    requires
        !contains(after_parameters(text, parameters), "noexcept"@),
    ensures
        contains(after_parameters(text, parameters), "&&"@) ==> suffix(text, parameters, false)
            == " &&"@,
        !contains(after_parameters(text, parameters), "&&"@) && after_parameters(
            text,
            parameters,
        ).contains('&') ==> suffix(text, parameters, false) == " &"@,
{
    let t = after_parameters(text, parameters);
    crate::text::lemma_find_from(t, "noexcept"@, 0);
    reveal_strlit("");
    assert(""@ + ""@ + " &&"@ =~= " &&"@);
    assert(""@ + ""@ + " &"@ =~= " &"@);
}

/// A function without a macro calls for a definition of its own name.
pub proof fn law_plain_function(name: Seq<char>, return_type: Seq<char>, text: Seq<char>)
    requires
        macro_arguments(text, "UFUNCTION"@) is None,
    ensures
        expected(name, return_type, text).len() == 1,
        expected(name, return_type, text)[0].name == name,
        expected(name, return_type, text)[0].return_type == return_type,
        expected(name, return_type, text)[0].message_label == "definition"@,
{
}

/// A function that is called over the network, or that a blueprint may override,
/// calls for its implementation; one with validation for its validation too.
pub proof fn law_engine_function(
    name: Seq<char>,
    return_type: Seq<char>,
    text: Seq<char>,
    args: Seq<char>,
)
    requires
        macro_arguments(text, "UFUNCTION"@) == Some(args),
    ensures
        ({
            let es = expected(name, return_type, text);
            let split = token_in(args, "BlueprintNativeEvent"@) || token_in(args, "Server"@)
                || token_in(args, "Client"@) || token_in(args, "NetMulticast"@);
            let checked = token_in(args, "WithValidation"@);
            &&& es.len() == (if checked {
                2int
            } else {
                1int
            })
            &&& es[0].return_type == return_type
            &&& split ==> es[0].name == base_name(name) + "_Implementation"@
                && es[0].message_label == "implementation"@
            &&& !split ==> es[0].name == name && es[0].message_label == "definition"@
            &&& checked ==> es[1].name == base_name(name) + "_Validate"@ && es[1].return_type
                == "bool"@ && es[1].message_label == "validation function"@
        }),
{
}

/// The name of a function is without the suffix of its definitions, and has none
/// otherwise.
pub proof fn law_base_name(name: Seq<char>)
    ensures
        base_name(name + "_Implementation"@) == name,
        !ends(name, "_Implementation"@) && !ends(name, "_Validate"@) ==> base_name(name) == name,
        base_name(name + "_Validate"@) == name,
{
    reveal_strlit("_Implementation");
    reveal_strlit("_Validate");
    let a = name + "_Implementation"@;
    let b = name + "_Validate"@;
    assert(a.subrange(a.len() - 15, a.len() as int) =~= "_Implementation"@);
    assert(a.take(a.len() - 15) =~= name);
    assert(b.subrange(b.len() - 9, b.len() as int) =~= "_Validate"@);
    assert(b.take(b.len() - 9) =~= name);
    if ends(b, "_Implementation"@) {
        assert(b.subrange(b.len() - 15, b.len() as int).last() == 'n');
        assert(b.last() == 'e');
    }
}

/// A definition is expected in the first source that was read, else beside the
/// header, else in a file of the name of the class.
pub proof fn law_expected_file(
    class_name: Seq<char>,
    candidates: Seq<Seq<char>>,
    sources: Seq<(Seq<char>, Seq<char>)>,
)
    ensures
        sources.len() > 0 ==> expected_file(class_name, candidates, sources) == swap_char(
            sources[0].0,
            '\\',
            '/',
        ),
        sources.len() == 0 && candidates.len() > 0 ==> expected_file(
            class_name,
            candidates,
            sources,
        ) == candidates[0],
        sources.len() == 0 && candidates.len() == 0 ==> expected_file(
            class_name,
            candidates,
            sources,
        ) == class_name + ".cpp"@,
{
}

/// The sources of a header are looked for beside it, and in the private directory
/// before that where it stands in a public one.
pub proof fn law_candidates(dir: Seq<char>, dot: int, path: Seq<char>)
    requires
        !path.contains('\\'),
        last_index_of(path, '.') == Some(dot),
        0 <= dot <= path.len(),
    ensures
        source_candidates(path).contains(path.take(dot) + ".cpp"@),
        source_candidates(path).contains(path.take(dot) + ".cc"@),
        source_candidates(path).contains(path.take(dot) + ".cxx"@),
        ({
            let mapped = replace_all(
                replace_all(path, "/Classes/"@, "/Private/"@),
                "/Public/"@,
                "/Private/"@,
            );
            mapped != path ==> (last_index_of(mapped, '.') matches Some(d) ==> source_candidates(
                path,
            ).contains(mapped.take(d) + ".cpp"@) && source_candidates(path).contains(
                mapped.take(d) + ".cc"@,
            ) && source_candidates(path).contains(mapped.take(d) + ".cxx"@))
        }),
{
    assert(swap_char(path, '\\', '/') =~= path) by {
        assert forall|k: int| 0 <= k < path.len() implies path[k] != '\\' by {
            if path[k] == '\\' {
                assert(path.contains('\\'));
            }
        }
    }
    let beside = three_sources(path.take(dot));
    assert(beside[0] == path.take(dot) + ".cpp"@);
    assert(beside[1] == path.take(dot) + ".cc"@);
    assert(beside[2] == path.take(dot) + ".cxx"@);
    let mapped = replace_all(
        replace_all(path, "/Classes/"@, "/Private/"@),
        "/Public/"@,
        "/Private/"@,
    );
    if mapped != path && last_index_of(mapped, '.') is Some {
        let d = last_index_of(mapped, '.')->0;
        let more = three_sources(mapped.take(d));
        let a = fronted(beside, more[0]);
        let b = fronted(a, more[1]);
        lemma_fronted(beside, more[0]);
        lemma_fronted(a, more[1]);
        lemma_fronted(b, more[2]);
        assert(a.contains(beside[0]) && a.contains(beside[1]) && a.contains(beside[2]));
        assert(b.contains(beside[0]) && b.contains(beside[1]) && b.contains(beside[2]));
        assert(b.contains(more[0]));
    }
}

proof fn lemma_fronted(list: Seq<Seq<char>>, c: Seq<char>)
    ensures
        fronted(list, c).contains(c),
        forall|x: Seq<char>| list.contains(x) ==> #[trigger] fronted(list, c).contains(x),
{
    let r = fronted(list, c);
    if !list.contains(c) {
        assert(r[0] == c);
        assert forall|x: Seq<char>| list.contains(x) implies #[trigger] r.contains(x) by {
            let k = choose|k: int| 0 <= k < list.len() && list[k] == x;
            assert(r[k + 1] == x);
        }
    }
}

/// Each node of a header contributes what it misses.
pub proof fn law_every_node_counts(
    ns: Seq<NodeView>,
    n: int,
    path: Seq<char>,
    sources: Seq<(Seq<char>, Seq<char>)>,
    i: int,
    item: DiagnosticView,
)
    requires
        0 <= i < n,
        missing_at(ns, i, path, sources).contains(item),
    ensures
        missing_upto(ns, n, path, sources).contains(item),
    decreases n,
{
    let before = missing_upto(ns, n - 1, path, sources);
    let own = missing_at(ns, n - 1, path, sources);
    let all = missing_upto(ns, n, path, sources);
    if i == n - 1 {
        let k = choose|k: int| 0 <= k < own.len() && own[k] == item;
        assert(all[before.len() + k] == item);
    } else {
        law_every_node_counts(ns, n - 1, path, sources, i, item);
        let k = choose|k: int| 0 <= k < before.len() && before[k] == item;
        assert(all[k] == item);
    }
}

/// Definitions are missed in headers only.
pub proof fn law_only_headers(
    path: Seq<char>,
    windows: bool,
    ns: Seq<NodeView>,
    sources: Seq<(Seq<char>, Seq<char>)>,
)
    ensures
        ({
            let e = crate::paths::lower_extension(path, windows);
            let header = e == Some("h"@) || e == Some("hpp"@) || e == Some("hh"@) || e == Some(
                "hxx"@,
            );
            &&& header ==> missing_findings(Some(path), windows, Some(ns), sources) == missing_upto(
                ns,
                ns.len() as int,
                path,
                sources,
            )
            &&& !header ==> missing_findings(Some(path), windows, Some(ns), sources).len() == 0
        }),
{
}

/// A missing definition is a warning at its declaration, and names the file.
pub proof fn law_missing_item(decl: DeclView, e: ExpectedView, file: Seq<char>)
    ensures
        ({
            let d = missing_item(decl, e, file);
            &&& d.severity == DiagnosticSeverity::Warning
            &&& d.code == "UECPP001"@
            &&& d.line == decl.line && d.character == decl.character && d.end_line == decl.end_line
            &&& d.end_character >= decl.end_character
            &&& d.message == "No matching .cpp "@ + e.message_label + " found for "@
                + decl.class_name + "::"@ + e.name + decl.parameters + ". Expected in "@ + file
                + "."@
        }),
{
}

// ---------------------------------------------------------------------------
// Reflection rules
// ---------------------------------------------------------------------------
/// A finding never ends before it begins.
pub proof fn law_finding_has_extent(d: DiagnosticView, end_line: u32, end_character: u32)
    ensures
        ending(d, end_line, end_character).end_line == end_line,
        ending(d, end_line, end_character).end_character >= end_character,
        d.character < u32::MAX ==> ending(d, end_line, end_character).end_character > d.character,
        ending(d, end_line, end_character).line == d.line,
        ending(d, end_line, end_character).message == d.message,
{
}

/// A finding on a line lies on that line, from its first text to its end.
pub proof fn law_line_item(
    ls: Seq<Seq<char>>,
    i: int,
    path: Option<Seq<char>>,
    severity: DiagnosticSeverity,
    code: Seq<char>,
    message: Seq<char>,
)
    ensures
        ({
            let d = line_item(ls, i, path, severity, code, message);
            &&& d.line == i as u32 && d.end_line == i as u32
            &&& d.severity == severity && d.code == code && d.message == message
            &&& d.source == "UCore"@
            &&& d.end_character >= byte_len(ls[i]) as u32
        }),
{
}

/// The findings of a file are those of its lines.
pub proof fn law_every_line_counts(
    ls: Seq<Seq<char>>,
    n: int,
    path: Option<Seq<char>>,
    i: int,
    item: DiagnosticView,
)
    requires
        0 <= i < n,
        type_findings(ls, i, path).contains(item) || function_findings(ls, i, path).contains(item)
            || property_findings(ls, i, path).contains(item),
    ensures
        rule_findings(ls, n, path).contains(item),
    decreases n,
{
    let before = rule_findings(ls, n - 1, path);
    let own = line_findings(ls, n - 1, path);
    let all = rule_findings(ls, n, path);
    if i == n - 1 {
        let a = type_findings(ls, i, path);
        let b = function_findings(ls, i, path);
        let c = property_findings(ls, i, path);
        assert(own.contains(item)) by {
            if a.contains(item) {
                let k = choose|k: int| 0 <= k < a.len() && a[k] == item;
                assert(own[k] == item);
            } else if b.contains(item) {
                let k = choose|k: int| 0 <= k < b.len() && b[k] == item;
                assert(own[a.len() + k] == item);
            } else {
                let k = choose|k: int| 0 <= k < c.len() && c[k] == item;
                assert(own[a.len() + b.len() + k] == item);
            }
        }
        let k = choose|k: int| 0 <= k < own.len() && own[k] == item;
        assert(all[before.len() + k] == item);
    } else {
        law_every_line_counts(ls, n - 1, path, i, item);
        let k = choose|k: int| 0 <= k < before.len() && before[k] == item;
        assert(all[k] == item);
    }
}

/// A macro of a type before a declaration of another kind is an error on the line
/// of the macro, and only then.
pub proof fn law_macro_of_wrong_kind(
    ls: Seq<Seq<char>>,
    i: int,
    path: Option<Seq<char>>,
    next: int,
)
    requires
        starts(trim_start(ls[i]), "UCLASS("@) || starts(trim_start(ls[i]), "USTRUCT("@) || starts(
            trim_start(ls[i]),
            "UENUM("@,
        ),
        meaningful_from(ls, macro_call(ls, i).1 + 1) == Some(next),
    ensures
        ({
            let head = trim_start(ls[i]);
            let decl = trim_start(ls[next]);
            let error = line_item(
                ls,
                i,
                path,
                DiagnosticSeverity::Error,
                "UHT001"@,
                "Unreal reflection macro does not match the following declaration."@,
            );
            let wrong = (starts(head, "UCLASS("@) && !contains(decl, "class "@)) || (starts(
                head,
                "USTRUCT("@,
            ) && !contains(decl, "struct "@)) || (starts(head, "UENUM("@) && !contains(
                decl,
                "enum "@,
            ));
            let fs = type_findings(ls, i, path);
            &&& wrong ==> fs.len() > 0 && fs[0] == error
            &&& !wrong ==> forall|k: int| 0 <= k < fs.len() ==> (#[trigger] fs[k]).code != "UHT001"@
        }),
{
    let head = trim_start(ls[i]);
    lemma_macro_heads(head);
    reveal_strlit("UHT001");
    reveal_strlit("UHT002");
    assert("UHT001"@[5] == '1' && "UHT002"@[5] == '2');
}

proof fn lemma_macro_heads(head: Seq<char>)
    ensures
        starts(head, "UCLASS("@) ==> starts(head, "UCLASS"@) && !starts(head, "USTRUCT"@) && !starts(
            head,
            "UENUM"@,
        ) && !starts(head, "USTRUCT("@) && !starts(head, "UENUM("@),
        starts(head, "USTRUCT("@) ==> starts(head, "USTRUCT"@) && !starts(head, "UCLASS"@)
            && !starts(head, "UENUM"@) && !starts(head, "UCLASS("@) && !starts(head, "UENUM("@),
        starts(head, "UENUM("@) ==> starts(head, "UENUM"@) && !starts(head, "UCLASS"@) && !starts(
            head,
            "USTRUCT"@,
        ) && !starts(head, "UCLASS("@) && !starts(head, "USTRUCT("@),
{
    reveal_strlit("UCLASS(");
    reveal_strlit("USTRUCT(");
    reveal_strlit("UENUM(");
    reveal_strlit("UCLASS");
    reveal_strlit("USTRUCT");
    reveal_strlit("UENUM");
    lemma_second(head, "UCLASS("@, 'C');
    lemma_second(head, "USTRUCT("@, 'S');
    lemma_second(head, "UENUM("@, 'E');
    lemma_second(head, "UCLASS"@, 'C');
    lemma_second(head, "USTRUCT"@, 'S');
    lemma_second(head, "UENUM"@, 'E');
    if starts(head, "UCLASS("@) {
        assert(head.subrange(0, 6) =~= head.subrange(0, 7).take(6));
        assert("UCLASS"@ =~= "UCLASS("@.take(6));
    }
    if starts(head, "USTRUCT("@) {
        assert(head.subrange(0, 7) =~= head.subrange(0, 8).take(7));
        assert("USTRUCT"@ =~= "USTRUCT("@.take(7));
    }
    if starts(head, "UENUM("@) {
        assert(head.subrange(0, 5) =~= head.subrange(0, 6).take(5));
        assert("UENUM"@ =~= "UENUM("@.take(5));
    }
}

proof fn lemma_second(head: Seq<char>, p: Seq<char>, c: char)
    requires
        p.len() > 1,
        p[1] == c,
    ensures
        starts(head, p) ==> head[1] == c,
{
    if starts(head, p) {
        assert(head.subrange(0, p.len() as int)[1] == c);
    }
}

/// A reflected class or struct of which none of the twenty lines from its
/// declaration on holds the body macro is an error; an enumeration needs none.
pub proof fn law_missing_body(ls: Seq<Seq<char>>, i: int, path: Option<Seq<char>>, next: int)
    requires
        starts(trim_start(ls[i]), "UCLASS("@) || starts(trim_start(ls[i]), "USTRUCT("@) || starts(
            trim_start(ls[i]),
            "UENUM("@,
        ),
        meaningful_from(ls, macro_call(ls, i).1 + 1) == Some(next),
    ensures
        ({
            let body = exists|k: int|
                next <= k < next + 20 && k < ls.len() && (contains(
                    #[trigger] ls[k],
                    "GENERATED_BODY"@,
                ) || contains(ls[k], "GENERATED_UCLASS_BODY"@));
            let error = line_item(
                ls,
                next,
                path,
                DiagnosticSeverity::Error,
                "UHT002"@,
                "Reflected type is missing GENERATED_BODY()."@,
            );
            let fs = type_findings(ls, i, path);
            &&& !body && !starts(macro_call(ls, i).0, "UENUM"@) ==> fs.len() > 0 && fs.last()
                == error
            &&& body || starts(macro_call(ls, i).0, "UENUM"@) ==> forall|k: int|
                0 <= k < fs.len() ==> (#[trigger] fs[k]).code != "UHT002"@
        }),
{
    lemma_macro_heads(trim_start(ls[i]));
    reveal_strlit("UHT001");
    reveal_strlit("UHT002");
    assert("UHT001"@[5] == '1' && "UHT002"@[5] == '2');
    let body = exists|k: int|
        next <= k < next + 20 && k < ls.len() && (contains(#[trigger] ls[k], "GENERATED_BODY"@)
            || contains(ls[k], "GENERATED_UCLASS_BODY"@));
    assert(body == body_macro_near(ls, next));
}

/// A line without a macro of a type has no finding about types.
pub proof fn law_no_macro_no_type_finding(ls: Seq<Seq<char>>, i: int, path: Option<Seq<char>>)
    requires
        trim_start(ls[i]).len() == 0 || trim_start(ls[i])[0] != 'U',
    ensures
        type_findings(ls, i, path).len() == 0,
        function_findings(ls, i, path).len() == 0,
        property_findings(ls, i, path).len() == 0,
{
    let head = trim_start(ls[i]);
    reveal_strlit("UCLASS(");
    reveal_strlit("USTRUCT(");
    reveal_strlit("UENUM(");
    reveal_strlit("UCLASS");
    reveal_strlit("USTRUCT");
    reveal_strlit("UENUM");
    reveal_strlit("UFUNCTION(");
    reveal_strlit("UPROPERTY(");
    lemma_first(head, "UCLASS("@);
    lemma_first(head, "USTRUCT("@);
    lemma_first(head, "UENUM("@);
    lemma_first(head, "UFUNCTION("@);
    lemma_first(head, "UPROPERTY("@);
}

proof fn lemma_first(head: Seq<char>, p: Seq<char>)
    requires
        p.len() > 0,
        p[0] == 'U',
    ensures
        starts(head, p) ==> head.len() > 0 && head[0] == 'U',
{
    if starts(head, p) {
        assert(head.subrange(0, p.len() as int)[0] == 'U');
    }
}

/// A function that blueprints may call is to name a category.
pub proof fn law_callable_needs_category(ls: Seq<Seq<char>>, i: int, path: Option<Seq<char>>)
    requires
        starts(trim_start(ls[i]), "UFUNCTION("@),
    ensures
        ({
            let call = macro_call(ls, i).0;
            let fs = function_findings(ls, i, path);
            let hint = line_item(
                ls,
                i,
                path,
                DiagnosticSeverity::Hint,
                "UEBP001"@,
                "BlueprintCallable functions should declare a Category."@,
            );
            &&& contains(call, "BlueprintCallable"@) && !contains(call, "Category"@) ==> fs
                == seq![hint]
            &&& !contains(call, "BlueprintCallable"@) || contains(call, "Category"@) ==> fs.len() == 0
        }),
{
}

/// A private property that blueprints may write is to allow private access.
pub proof fn law_private_property(ls: Seq<Seq<char>>, i: int, path: Option<Seq<char>>)
    requires
        starts(trim_start(ls[i]), "UPROPERTY("@),
    ensures
        ({
            let call = macro_call(ls, i).0;
            let fs = property_findings(ls, i, path);
            let private = access_section(ls, i) == "private"@;
            let warning = line_item(
                ls,
                i,
                path,
                DiagnosticSeverity::Warning,
                "UEBP002"@,
                "Private BlueprintReadWrite property should use meta=(AllowPrivateAccess=true)."@,
            );
            &&& contains(call, "BlueprintReadWrite"@) && !contains(call, "AllowPrivateAccess"@)
                && private ==> fs == seq![warning]
            &&& !contains(call, "BlueprintReadWrite"@) || contains(call, "AllowPrivateAccess"@)
                || !private ==> fs.len() == 0
        }),
{
}

/// The access that holds on a line is what the nearest label above it says.
pub proof fn law_nearest_label(ls: Seq<Seq<char>>, line: int, k: int)
    requires
        0 <= k < line <= ls.len(),
        line - 80 <= k,
        forall|m: int|
            k < m < line ==> trim(#[trigger] ls[m]) != "public:"@ && trim(ls[m]) != "protected:"@
                && trim(ls[m]) != "private:"@,
    ensures
        trim(ls[k]) == "public:"@ ==> access_section(ls, line) == "public"@,
        trim(ls[k]) == "protected:"@ ==> access_section(ls, line) == "protected"@,
        trim(ls[k]) == "private:"@ ==> access_section(ls, line) == "private"@,
{
    lemma_nearest_label(ls, line, line - 80, k);
    reveal_strlit("public:");
    reveal_strlit("protected:");
    reveal_strlit("private:");
    assert("public:"@.len() == 7 && "protected:"@.len() == 10 && "private:"@.len() == 8);
}

proof fn lemma_nearest_label(ls: Seq<Seq<char>>, end: int, stop: int, k: int)
    requires
        0 <= k < end <= ls.len(),
        stop <= k,
        forall|m: int| k < m < end ==> access_label(#[trigger] ls[m]) is None,
    ensures
        access_label(ls[k]) matches Some(label) ==> access_above(ls, end, stop) == label,
    decreases end - k,
{
    if end - 1 > k {
        assert(access_label(ls[end - 1]) is None);
        lemma_nearest_label(ls, end - 1, stop, k);
    }
}

/// Without a label on the eighty lines above, private access holds.
pub proof fn law_private_without_label(ls: Seq<Seq<char>>, line: int)
    requires
        line <= ls.len(),
        forall|m: int|
            0 <= m && line - 80 <= m < line ==> trim(#[trigger] ls[m]) != "public:"@ && trim(ls[m])
                != "protected:"@ && trim(ls[m]) != "private:"@,
    ensures
        access_section(ls, line) == "private"@,
{
    lemma_no_label(ls, line, line - 80);
}

proof fn lemma_no_label(ls: Seq<Seq<char>>, end: int, stop: int)
    requires
        end <= ls.len(),
        forall|m: int| 0 <= m && stop <= m < end ==> access_label(#[trigger] ls[m]) is None,
    ensures
        access_above(ls, end, stop) == "private"@,
    decreases end - stop,
{
    if end > stop && end > 0 {
        assert(access_label(ls[end - 1]) is None);
        lemma_no_label(ls, end - 1, stop);
    }
}

/// A macro call that closes on its line is that line.
pub proof fn law_macro_on_one_line(ls: Seq<Seq<char>>, i: int)
    requires
        0 <= i < ls.len(),
        paren_balance(ls[i]) <= 0,
        trim(ls[i]).contains('('),
    ensures
        macro_call(ls, i) == (trim(ls[i]), i),
{
    assert(add_line(seq![], ls[i]) == trim(ls[i]));
}

/// A macro call goes on, a blank between the lines, until its brackets close.
pub proof fn law_macro_on_two_lines(ls: Seq<Seq<char>>, i: int)
    requires
        0 <= i,
        i + 1 < ls.len(),
        paren_balance(ls[i]) > 0,
        trim(ls[i]).contains('('),
        paren_balance(ls[i]) + paren_balance(ls[i + 1]) <= 0,
    ensures
        macro_call(ls, i) == (trim(ls[i]).push(' ') + trim(ls[i + 1]), i + 1),
{
    let a = add_line(seq![], ls[i]);
    assert(a == trim(ls[i]));
    let k = choose|k: int| 0 <= k < a.len() && a[k] == '(';
    let b = add_line(a, ls[i + 1]);
    assert(b == a.push(' ') + trim(ls[i + 1]));
    assert(b[k] == '(');
    assert(b.contains('('));
    reveal_with_fuel(macro_call_from, 3);
}

/// The next line that says anything is the first that is neither blank nor a
/// comment.
pub proof fn law_next_meaningful(ls: Seq<Seq<char>>, from: int)
    requires
        0 <= from,
    ensures
        match meaningful_from(ls, from) {
            Some(k) => from <= k < ls.len() && trim(ls[k]).len() > 0 && !starts(trim(ls[k]), "//"@)
                && (forall|m: int|
                from <= m < k ==> trim(#[trigger] ls[m]).len() == 0 || starts(trim(ls[m]), "//"@)),
            None => forall|m: int|
                from <= m < ls.len() ==> trim(#[trigger] ls[m]).len() == 0 || starts(
                    trim(ls[m]),
                    "//"@,
                ),
        },
    decreases ls.len() - from,
{
    if from < ls.len() && (trim(ls[from]).len() == 0 || starts(trim(ls[from]), "//"@)) {
        law_next_meaningful(ls, from + 1);
    }
}

// ---------------------------------------------------------------------------
// Words
// ---------------------------------------------------------------------------
/// The word stands at the position, with nothing of an identifier around it.
pub open spec fn stands_alone(s: Seq<char>, token: Seq<char>, i: int) -> bool {
    &&& occurs_at(s, token, i)
    &&& i > 0 ==> !word_char(s[i - 1])
    &&& i + token.len() < s.len() ==> !word_char(s[i + token.len()])
}

proof fn lemma_parts(s: Seq<char>, token: Seq<char>, start: int, from: int)
    requires
        0 <= start <= from <= s.len(),
        token.len() > 0,
        forall|k: int| 0 <= k < token.len() ==> word_char(#[trigger] token[k]),
        forall|k: int| start <= k < from ==> word_char(#[trigger] s[k]),
        start > 0 ==> !word_char(s[start - 1]),
    ensures
        word_parts_from(s, start, from).contains(token) <==> exists|i: int|
            i >= start && #[trigger] stands_alone(s, token, i),
    decreases s.len() - from,
{
    let parts = word_parts_from(s, start, from);
    if from >= s.len() {
        let piece = s.subrange(start, s.len() as int);
        if parts.contains(token) {
            assert(parts[0] == token);
            assert(stands_alone(s, token, start));
        }
        if exists|i: int| i >= start && #[trigger] stands_alone(s, token, i) {
            let i = choose|i: int| i >= start && #[trigger] stands_alone(s, token, i);
            if i > start {
                assert(word_char(s[i - 1]));
            }
            if i + token.len() < s.len() {
                assert(word_char(s[i + token.len()]));
            }
            assert(piece =~= token);
            assert(parts[0] == token);
        }
    } else if !word_char(s[from]) {
        let rest = word_parts_from(s, from + 1, from + 1);
        lemma_parts(s, token, from + 1, from + 1);
        let piece = s.subrange(start, from);
        assert(parts == seq![piece] + rest);
        if parts.contains(token) {
            let k = choose|k: int| 0 <= k < parts.len() && parts[k] == token;
            if k == 0 {
                assert(piece == token);
                assert(s.subrange(start, start + token.len()) =~= token);
                assert(stands_alone(s, token, start));
            } else {
                assert(rest[k - 1] == token);
                assert(rest.contains(token));
            }
        }
        if exists|i: int| i >= start && #[trigger] stands_alone(s, token, i) {
            let i = choose|i: int| i >= start && #[trigger] stands_alone(s, token, i);
            if i > from {
                assert(rest.contains(token));
                let k = choose|k: int| 0 <= k < rest.len() && rest[k] == token;
                assert(parts[k + 1] == token);
            } else {
                assert(s.subrange(i, i + token.len())[0] == token[0]);
                assert(word_char(token[0]));
                assert(i != from);
                if i > start {
                    assert(word_char(s[i - 1]));
                }
                if i + token.len() > from {
                    assert(s.subrange(i, i + token.len())[from - i] == s[from]);
                    assert(word_char(token[from - i]));
                }
                if i + token.len() < from {
                    assert(word_char(s[i + token.len()]));
                }
                assert(piece =~= token);
                assert(parts[0] == token);
            }
        }
    } else {
        lemma_parts(s, token, start, from + 1);
    }
}

/// A text holds an identifier exactly where that stands in it on its own.
pub proof fn law_token(s: Seq<char>, token: Seq<char>)
    requires
        token.len() > 0,
        forall|k: int| 0 <= k < token.len() ==> word_char(#[trigger] token[k]),
    ensures
        token_in(s, token) <==> exists|i: int| i >= 0 && #[trigger] stands_alone(s, token, i),
{
    lemma_parts(s, token, 0, 0);
}

/// The arguments of a macro are what stands between its brackets.
pub proof fn law_macro_arguments(s: Seq<char>, name: Seq<char>, at: int, args: Seq<char>)
    requires
        find(s, name) == Some(at),
        0 <= at,
        at + name.len() < s.len(),
        s[at + name.len()] == '(',
        at + name.len() + 1 + args.len() < s.len(),
        s.subrange(at + name.len() + 1, at + name.len() + 1 + args.len()) == args,
        s[at + name.len() + 1 + args.len()] == ')',
        !args.contains('('),
        !args.contains(')'),
    ensures
        macro_arguments(s, name) == Some(args),
{
    let open = at + name.len();
    let close = open + 1 + args.len();
    assert forall|k: int| open < k < close implies s[k] != '(' && s[k] != ')' by {
        assert(s.subrange(open + 1, close)[k - open - 1] == args[k - open - 1]);
        assert(args.contains(args[k - open - 1]));
    }
    lemma_closing(s, open + 1, close);
    assert(closing_from(s, open, 0) == Some(close));
}

proof fn lemma_closing(s: Seq<char>, i: int, close: int)
    requires
        0 <= i <= close < s.len(),
        s[close] == ')',
        forall|k: int| i <= k < close ==> #[trigger] s[k] != '(' && s[k] != ')',
    ensures
        closing_from(s, i, 1) == Some(close),
    decreases close - i,
{
    if i < close {
        lemma_closing(s, i + 1, close);
    }
}

// ---------------------------------------------------------------------------
// Build logs
// ---------------------------------------------------------------------------
/// A compiler's line is reported where the log says, counted from zero, as a
/// warning where it is one and as an error otherwise, under its code.
pub proof fn law_compiler_line(
    c: Seq<Option<Seq<char>>>,
    file: Seq<char>,
    line: Seq<char>,
    n: nat,
    code: Seq<char>,
    message: Seq<char>,
)
    requires
        c.len() == 7,
        c[1] == Some(file),
        c[2] == Some(line),
        parse_decimal(line, u32::MAX as nat) == Some(n),
        n > 0,
        c[4] is Some,
        c[5] == Some(code),
        c[6] == Some(message),
    ensures
        ({
            let d = msvc_item(c);
            &&& d.file_path == Some(swap_char(file, '\\', '/'))
            &&& d.line == n - 1 && d.end_line == n - 1
            &&& c[3] is None ==> d.character == 0
            &&& c[3] matches Some(col) ==> (parse_decimal(col, u32::MAX as nat) matches Some(k) ==> k > 0
                ==> d.character == k - 1)
            &&& contains(c[4]->0, "warning"@) ==> d.severity == DiagnosticSeverity::Warning
            &&& !contains(c[4]->0, "warning"@) ==> d.severity == DiagnosticSeverity::Error
            &&& d.message == code + ": "@ + message
            &&& d.source == "MSVC"@ && d.code == "BUILD"@
        }),
{
    lemma_small(parse_decimal(line, u32::MAX as nat), line);
    match c[3] {
        Some(col) => {
            lemma_small(parse_decimal(col, u32::MAX as nat), col);
        },
        None => {},
    }
}

proof fn lemma_small(n: Option<nat>, s: Seq<char>)
    requires
        n == parse_decimal(s, u32::MAX as nat),
    ensures
        n matches Some(k) ==> k <= u32::MAX,
{
    if s.len() > 0 {
        lemma_value_small(
            s,
            if s[0] == '+' {
                1
            } else {
                0
            },
            0,
        );
    }
}

proof fn lemma_value_small(s: Seq<char>, from: int, acc: nat)
    requires
        0 <= from,
        acc <= u32::MAX,
    ensures
        crate::text::digits_value(s, from, acc, u32::MAX as nat) matches Some(k) ==> k <= u32::MAX,
    decreases s.len() - from,
{
    if from < s.len() && crate::text::digit(s[from]) {
        let next = acc * 10 + ((s[from] as u32) - ('0' as u32)) as nat;
        if next <= u32::MAX {
            lemma_value_small(s, from + 1, next);
        }
    }
}

/// A line of the header tool is reported where the log says, counted from zero.
pub proof fn law_header_tool_line(
    c: Seq<Option<Seq<char>>>,
    file: Seq<char>,
    line: Seq<char>,
    n: nat,
    level: Seq<char>,
    message: Seq<char>,
)
    requires
        c.len() == 5,
        c[1] == Some(file),
        c[2] == Some(line),
        parse_decimal(line, u32::MAX as nat) == Some(n),
        n > 0,
        c[3] == Some(level),
        c[4] == Some(message),
    ensures
        ({
            let d = uht_item(c);
            &&& d.file_path == Some(swap_char(file, '\\', '/'))
            &&& d.line == n - 1 && d.character == 0
            &&& lower(level) == "warning"@ ==> d.severity == DiagnosticSeverity::Warning
            &&& lower(level) != "warning"@ ==> d.severity == DiagnosticSeverity::Error
            &&& d.message == message
            &&& d.source == "UHT"@ && d.code == "BUILD"@
        }),
{
    lemma_small(parse_decimal(line, u32::MAX as nat), line);
}

// ---------------------------------------------------------------------------
// Parts of a declaration
// ---------------------------------------------------------------------------
proof fn lemma_operand(s: Seq<char>, i: int, open: int, end: int)
    requires
        0 <= i <= open < end < s.len(),
        s[open] == '(',
        s[end] == ')',
        forall|j: int| 0 <= j < end && j != open ==> #[trigger] s[j] != '(' && s[j] != ')',
    ensures
        operand_end(s, i, 0, open) == Some(end),
    decreases open - i,
{
    if i < open {
        assert(s[i] != '(' && s[i] != ')');
        lemma_operand(s, i + 1, open, end);
    } else {
        lemma_operand_inside(s, open + 1, open, end);
    }
}

proof fn lemma_operand_inside(s: Seq<char>, i: int, open: int, end: int)
    requires
        0 <= open < i <= end < s.len(),
        s[end] == ')',
        forall|j: int| 0 <= j < end && j != open ==> #[trigger] s[j] != '(' && s[j] != ')',
    ensures
        operand_end(s, i, 1, open) == Some(end),
    decreases end - i,
{
    if i < end {
        assert(s[i] != '(' && s[i] != ')');
        lemma_operand_inside(s, i + 1, open, end);
    }
}

/// A `noexcept` is kept with its operand; without one it stands alone, and without the
/// word there is none.
pub proof fn law_noexcept(trailing: Seq<char>, inner: Seq<char>, rest: Seq<char>, at: int)
    requires
        forall|j: int| 0 <= j < inner.len() ==> #[trigger] inner[j] != '(' && inner[j] != ')',
    ensures
        find(trailing, "noexcept"@) is None ==> noexcept_text(trailing) is None,
        find(trailing, "noexcept"@) == Some(at) && trailing.skip(at) == "noexcept("@ + inner + seq![
            ')',
        ] + rest ==> noexcept_text(trailing) == Some("noexcept("@ + inner + seq![')']),
        find(trailing, "noexcept"@) == Some(at) && !trailing.skip(at).contains('(') ==> noexcept_text(
            trailing,
        ) == Some("noexcept"@),
{
    reveal_strlit("noexcept(");
    reveal_strlit("noexcept");
    if find(trailing, "noexcept"@) == Some(at) {
        lemma_find_from(trailing, "noexcept"@, 0);
        let s = trailing.skip(at);
        assert(s[0] == 'n') by {
            assert(trailing.subrange(at, at + 8)[0] == 'n');
        }
        assert(!ws('n'));
        assert(trim_start(s) =~= s);
        if s == "noexcept("@ + inner + seq![')'] + rest {
            let end = 9 + inner.len() as int;
            assert(s[8] == '(');
            assert(s[end] == ')');
            assert forall|j: int| 0 <= j < end && j != 8 implies #[trigger] s[j] != '(' && s[j] != ')' by {
                if j > 8 {
                    assert(s[j] == inner[j - 9]);
                }
            }
            lemma_index_of_from(s, '(', 0);
            assert(index_of(s, '(') == Some(8int));
            lemma_operand(s, 0, 8, end);
            let text = "noexcept("@ + inner + seq![')'];
            assert(s.take(end + 1) =~= text);
            assert(text.last() == ')' && text[0] == 'n');
            crate::laws::texts::lemma_trim_stays(text);
        }
        if !s.contains('(') {
            lemma_index_of_from(s, '(', 0);
            match index_of(s, '(') {
                Some(i) => {
                    assert(s.contains(s[i]));
                },
                None => {},
            }
        }
    }
}

/// The bracket that closes an open one is the first that is not opened behind it.
pub proof fn law_closing(s: Seq<char>, i: int, depth: int)
    requires
        0 <= i < s.len(),
        depth > 0,
    ensures
        s[i] == '(' ==> closing_from(s, i, depth) == closing_from(s, i + 1, depth + 1),
        s[i] == ')' && depth == 1 ==> closing_from(s, i, depth) == Some(i),
        s[i] == ')' && depth > 1 ==> closing_from(s, i, depth) == closing_from(s, i + 1, depth - 1),
        s[i] != '(' && s[i] != ')' ==> closing_from(s, i, depth) == closing_from(s, i + 1, depth),
        closing_from(s, s.len() as int, depth) is None,
{
}

/// The type before a declarator is the last word of the text up to it.
pub proof fn law_prefix_type(ns: Seq<NodeView>, i: int, d: int, k: int)
    ensures
        ns[d].start_byte <= ns[i].start_byte ==> prefix_type(ns, i, d).len() == 0,
        ns[d].start_byte > ns[i].start_byte && at_byte(
            ns[i].text,
            ns[d].start_byte - ns[i].start_byte,
        ) == Some(k) && words(ns[i].text.take(k)).len() > 0 ==> prefix_type(ns, i, d) == words(
            ns[i].text.take(k),
        ).last(),
        ns[d].start_byte > ns[i].start_byte && at_byte(
            ns[i].text,
            ns[d].start_byte - ns[i].start_byte,
        ) == Some(k) && words(ns[i].text.take(k)).len() == 0 ==> prefix_type(ns, i, d).len() == 0,
{
}

/// A declaration begins at its type; without one where the first of it and its
/// declarator begins.
pub proof fn law_declaration_start(ns: Seq<NodeView>, i: int, d: int)
    ensures
        child_field(ns, i, "type"@) matches Some(t) ==> declaration_start(ns, i, d) == (
            ns[t].start_row,
            ns[t].start_column,
        ),
        child_field(ns, i, "type"@) is None ==> {
            let first = ns[d].start_row < ns[i].start_row || (ns[d].start_row == ns[i].start_row
                && ns[d].start_column < ns[i].start_column);
            &&& first ==> declaration_start(ns, i, d) == (ns[d].start_row, ns[d].start_column)
            &&& !first ==> declaration_start(ns, i, d) == (ns[i].start_row, ns[i].start_column)
        },
{
}

/// The name under which each severity is reported.
pub proof fn law_severity_name()
    ensures
        severity_name(DiagnosticSeverity::Error) == "error"@,
        severity_name(DiagnosticSeverity::Warning) == "warning"@,
        severity_name(DiagnosticSeverity::Information) == "information"@,
        severity_name(DiagnosticSeverity::Hint) == "hint"@,
{
}

/// A label opens its access section; nothing else does.
pub proof fn law_access_labels(line: Seq<char>)
    ensures
        trim(line) == "public:"@ ==> access_label(line) == Some("public"@),
        trim(line) == "protected:"@ ==> access_label(line) == Some("protected"@),
        trim(line) == "private:"@ ==> access_label(line) == Some("private"@),
        trim(line) != "public:"@ && trim(line) != "protected:"@ && trim(line) != "private:"@
            ==> access_label(line) is None,
{
    reveal_strlit("public:");
    reveal_strlit("protected:");
    reveal_strlit("private:");
    assert("public:"@.len() == 7 && "protected:"@.len() == 10 && "private:"@.len() == 8);
}

/// An empty head is defined nowhere; any other one where the source holds it.
pub proof fn law_defines(source: Seq<char>, head: Seq<char>)
    ensures
        spaced(head).len() == 0 ==> !defines(source, head),
        spaced(head).len() > 0 ==> (defines(source, head) <==> contains(source, spaced(head))),
{
}

} // verus!
