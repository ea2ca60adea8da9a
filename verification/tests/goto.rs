use u_scanner::query::cursor::{find_local_declaration, infer_var_type};
use u_scanner::query::goto::{
    goto_definition, goto_implementation, ChainSearch, GotoPlan, Lookup,
};
use u_scanner::syntax::{SyntaxNode, SyntaxTree};

const SAMPLE: &str = r#"
void StartDeath()
{
    UAlphaType* HealthComponent = GetAlpha();
    HealthComponent->StartDeath();
}

void FinishDeath()
{
    UBetaType* HealthComponent = GetBeta();
    HealthComponent->FinishDeath();
}

void ActivateAbility()
{
    UAbilitySystemComponent* ASC = GetAbilitySystemComponentFromActorInfo();
    ASC->CancelAllAbilities();
}
"#;

fn node(content: &str, depth: usize, kind: &str, field: &str, text: &str, start: usize) -> SyntaxNode {
    let end = start + text.len();
    let row = |at: usize| content[..at].matches('\n').count();
    let column = |at: usize| at - content[..at].rfind('\n').map_or(0, |k| k + 1);
    SyntaxNode {
        kind: kind.to_string(),
        field: if field.is_empty() { None } else { Some(field.to_string()) },
        text: text.to_string(),
        depth,
        start_byte: start,
        end_byte: end,
        start_row: row(start),
        start_column: column(start),
        end_row: row(end),
        end_column: column(end),
        extra: kind == "comment",
    }
}

/// The tree of nodes given as depth, kind, field and text, each placed behind its
/// elder sibling or at the start of its parent.
fn tree(content: &str, shape: &[(usize, &str, &str, &str)]) -> SyntaxTree {
    let mut nodes: Vec<SyntaxNode> = Vec::new();
    for (depth, kind, field, text) in shape {
        let from = match nodes.iter().rev().find(|n| n.depth <= *depth) {
            Some(n) if n.depth == *depth => n.end_byte,
            _ => nodes.iter().rev().find(|n| n.depth < *depth).map_or(0, |n| n.start_byte),
        };
        let start = from + content[from..].find(text).expect("text of the node");
        nodes.push(node(content, *depth, kind, field, text, start));
    }
    SyntaxTree { nodes }
}

/// A function that declares a variable and calls a method on it.
fn function<'a>(
    whole: &'a str,
    name: &'a str,
    kind: &'a str,
    variable: &'a str,
    value: &'a str,
    method: &'a str,
) -> Vec<(usize, String, String, String)> {
    let row = |depth: usize, kind: &str, field: &str, text: String| {
        (depth, kind.to_string(), field.to_string(), text)
    };
    let body = whole[whole.find('{').unwrap()..].to_string();
    vec![
        row(1, "function_definition", "", whole.to_string()),
        row(2, "primitive_type", "type", "void".to_string()),
        row(2, "function_declarator", "declarator", format!("{}()", name)),
        row(3, "identifier", "declarator", name.to_string()),
        row(3, "parameter_list", "parameters", "()".to_string()),
        row(2, "compound_statement", "body", body),
        row(3, "declaration", "", format!("{}* {} = {}();", kind, variable, value)),
        row(4, "type_identifier", "type", kind.to_string()),
        row(4, "init_declarator", "declarator", format!("* {} = {}()", variable, value)),
        row(5, "pointer_declarator", "declarator", format!("* {}", variable)),
        row(6, "identifier", "declarator", variable.to_string()),
        row(5, "call_expression", "value", format!("{}()", value)),
        row(6, "identifier", "function", value.to_string()),
        row(6, "argument_list", "arguments", "()".to_string()),
        row(3, "expression_statement", "", format!("{}->{}();", variable, method)),
        row(4, "call_expression", "", format!("{}->{}()", variable, method)),
        row(5, "field_expression", "function", format!("{}->{}", variable, method)),
        row(6, "identifier", "argument", variable.to_string()),
        row(6, "->", "operator", "->".to_string()),
        row(6, "field_identifier", "field", method.to_string()),
        row(5, "argument_list", "arguments", "()".to_string()),
    ]
}

fn sample_tree() -> SyntaxTree {
    let starts: Vec<usize> = SAMPLE.match_indices("void ").map(|(k, _)| k).collect();
    let first = SAMPLE[starts[0]..starts[1]].trim_end();
    let second = SAMPLE[starts[1]..starts[2]].trim_end();
    let third = SAMPLE[starts[2]..].trim_end();
    let mut shape = vec![(
        0,
        "translation_unit".to_string(),
        String::new(),
        SAMPLE.to_string(),
    )];
    shape.extend(function(first, "StartDeath", "UAlphaType", "HealthComponent", "GetAlpha", "StartDeath"));
    shape.extend(function(second, "FinishDeath", "UBetaType", "HealthComponent", "GetBeta", "FinishDeath"));
    shape.extend(function(
        third,
        "ActivateAbility",
        "UAbilitySystemComponent",
        "ASC",
        "GetAbilitySystemComponentFromActorInfo",
        "CancelAllAbilities",
    ));
    let borrowed: Vec<(usize, &str, &str, &str)> = shape
        .iter()
        .map(|(d, k, f, t)| (*d, k.as_str(), f.as_str(), t.as_str()))
        .collect();
    tree(SAMPLE, &borrowed)
}

fn line_and_col(content: &str, needle: &str, occurrence: usize) -> (u32, u32) {
    let mut found = 0usize;
    for (row, line) in content.lines().enumerate() {
        let mut offset = 0usize;
        while let Some(col) = line[offset..].find(needle) {
            if found == occurrence {
                return (row as u32, (offset + col) as u32);
            }
            found += 1;
            offset += col + needle.len();
        }
    }
    panic!("needle not found: {needle} ({occurrence})");
}

/// The innermost node at a position.
fn node_at(t: &SyntaxTree, line: u32, col: u32) -> usize {
    let at = (line as usize, col as usize);
    t.nodes
        .iter()
        .rposition(|n| {
            (n.start_row, n.start_column) <= at && at < (n.end_row, n.end_column)
        })
        .expect("node at the cursor")
}

#[test]
fn infer_var_type_prefers_nearest_preceding_declaration() {
    let (line, _) = line_and_col(SAMPLE, "HealthComponent->FinishDeath", 0);
    assert_eq!(
        infer_var_type(&sample_tree(), "HealthComponent", Some(line)),
        Some("UBetaType".to_string())
    );
}

#[test]
fn find_local_declaration_stays_inside_current_function() {
    let (line, col) = line_and_col(SAMPLE, "HealthComponent->FinishDeath", 0);
    let t = sample_tree();
    let decl = find_local_declaration(&t, node_at(&t, line, col), "HealthComponent", line, col)
        .expect("expected local declaration");
    assert_eq!(decl.row + 1, 10);
}

#[test]
fn find_local_declaration_resolves_simple_local_variable() {
    let (line, col) = line_and_col(SAMPLE, "ASC->CancelAllAbilities", 0);
    let t = sample_tree();
    let decl = find_local_declaration(&t, node_at(&t, line, col), "ASC", line, col)
        .expect("expected local declaration");
    assert_eq!(decl.row + 1, 16);
}

#[test]
fn local_name_needs_no_search() {
    let t = sample_tree();
    let (line, col) = line_and_col(SAMPLE, "ASC->CancelAllAbilities", 0);
    match goto_definition(&t, Some(node_at(&t, line, col)), line, col, Some("C:\\Game\\A.cpp")) {
        GotoPlan::Local { symbol_name, line_number, file_path, .. } => {
            assert_eq!(symbol_name, "ASC");
            assert_eq!(line_number, 16);
            assert_eq!(file_path, "C:/Game/A.cpp");
        }
        other => panic!("expected a local name: {:?}", other),
    }
}

#[test]
fn method_is_looked_up_through_the_type_of_its_object() {
    let t = sample_tree();
    let (line, col) = line_and_col(SAMPLE, "CancelAllAbilities", 0);
    let at = node_at(&t, line, col);
    match goto_definition(&t, Some(at), line, col, None) {
        GotoPlan::Search { symbol_name, lookups } => {
            assert_eq!(symbol_name, "CancelAllAbilities");
            assert_eq!(lookups.len(), 3);
            assert!(matches!(&lookups[0], Lookup::MemberInChain(c) if c == "UAbilitySystemComponent"));
            assert!(matches!(lookups[1], Lookup::TypeDefinition));
            assert!(matches!(lookups[2], Lookup::MemberAnywhere));
        }
        other => panic!("expected a search: {:?}", other),
    }
    match goto_implementation(&t, Some(at), line, col, None) {
        GotoPlan::Search { lookups, .. } => {
            assert_eq!(lookups.len(), 2);
            assert!(matches!(&lookups[0], Lookup::ImplInChain(c) if c == "UAbilitySystemComponent"));
            assert!(matches!(&lookups[1], Lookup::MemberOfClass(c) if c == "UAbilitySystemComponent"));
        }
        other => panic!("expected a search: {:?}", other),
    }
}

#[test]
fn no_node_under_the_cursor_gives_nothing() {
    assert!(matches!(goto_definition(&sample_tree(), None, 0, 0, None), GotoPlan::Nothing));
}

#[test]
fn walk_along_parents_visits_each_class_once() {
    let mut walk = ChainSearch::start(&vec![1, 2]);
    assert_eq!(walk.next_class(), Some(1));
    walk.add_parents(&vec![2, 3, 1]);
    assert_eq!(walk.next_class(), Some(2));
    walk.add_parents(&vec![3]);
    assert_eq!(walk.next_class(), Some(3));
    walk.add_parents(&vec![1]);
    assert_eq!(walk.next_class(), None);
}
