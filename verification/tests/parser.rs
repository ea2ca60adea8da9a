use u_scanner::hash::content_hash;
use u_scanner::parser::cpp::{
    clean_type_string, parse_content, process_file, spread_colons, type_part_of,
};
use u_scanner::parser::symbols::{
    looks_like_interesting_unreal_header, plan_file, FileStep, NodeCapture, ParsedFile,
};
use u_scanner::query::buffer::{
    analyze_cursor_node, generated_definitions, normalize_access, parse_buffer,
    suggest_include_insert_line, Access,
};
use u_scanner::syntax::{SyntaxNode, SyntaxTree};
use u_scanner::types::InputFile;

fn node(content: &str, depth: usize, kind: &str, field: &str, text: &str, start: usize) -> SyntaxNode {
    let end = start + text.len();
    let row = |at: usize| content[..at].matches('\n').count();
    let column = |at: usize| at - content[..at].rfind('\n').map_or(0, |k| k + 1);
    SyntaxNode {
        kind: kind.to_string(),
        field: if field.is_empty() { None } else { Some(field.to_string()) },
        text: text.to_string(),
        depth,
        start_byte: start,
        end_byte: end,
        start_row: row(start),
        start_column: column(start),
        end_row: row(end),
        end_column: column(end),
        extra: kind == "comment",
    }
}

/// The tree of nodes given as depth, kind, field and text, each placed behind its
/// elder sibling or at the start of its parent.
fn tree(content: &str, shape: &[(usize, &str, &str, &str)]) -> SyntaxTree {
    let mut nodes: Vec<SyntaxNode> = Vec::new();
    for (depth, kind, field, text) in shape {
        let from = match nodes.iter().rev().find(|n| n.depth <= *depth) {
            Some(n) if n.depth == *depth => n.end_byte,
            _ => nodes.iter().rev().find(|n| n.depth < *depth).map_or(0, |n| n.start_byte),
        };
        let start = from + content[from..].find(text).expect("text of the node");
        nodes.push(node(content, *depth, kind, field, text, start));
    }
    SyntaxTree { nodes }
}

fn input(path: &str, old_hash: Option<&str>) -> InputFile {
    InputFile {
        path: path.to_string(),
        mtime: 11,
        old_hash: old_hash.map(|s| s.to_string()),
        module_id: Some(2),
        db_path: None,
    }
}

fn empty() -> ParsedFile {
    ParsedFile { classes: Vec::new(), calls: Vec::new(), includes: Vec::new() }
}

fn capture(name: &str, node: usize) -> NodeCapture {
    NodeCapture { name: name.to_string(), node }
}

#[test]
fn hashes_are_sha_two() {
    assert_eq!(
        content_hash(b"abc"),
        "ba7816bf8f01cfea414140de5dae2223b00361a396177a9cb410ff61f20015ad"
    );
    assert_eq!(
        content_hash(b""),
        "e3b0c44298fc1c149afbf4c8996fb92427ae41e4649b934ca495991b7852b855"
    );
}

#[test]
fn types_lose_what_the_compiler_needs() {
    assert_eq!(clean_type_string("GAME_API virtual const FString&"), "FString&");
    assert_eq!(clean_type_string("UPROPERTY(EditAnywhere) TMap<FName,  int32>;"), "TMap<FName, int32>");
    assert_eq!(clean_type_string("static   int32"), "int32");
    assert_eq!(type_part_of("int32"), "int32");
    assert_eq!(spread_colons("A:B;"), "A : B");
}

#[test]
fn unchanged_files_are_not_parsed() {
    let content = b"UCLASS()\nclass A {};\n";
    let hash = content_hash(content);
    assert!(matches!(plan_file(&input("/g/A.h", Some(&hash)), false, content), FileStep::Unchanged));
    let result = process_file(&input("/g/A.h", Some(&hash)), FileStep::Unchanged, empty());
    assert!(result.data.is_none());
    assert_eq!(result.mtime, 11);
    match plan_file(&input("/g/A.h", Some("other")), false, content) {
        FileStep::Parse { new_hash } => assert_eq!(new_hash, hash),
        _ => panic!("expected to parse"),
    }
}

#[test]
fn headers_without_anything_to_index_are_skipped() {
    assert!(looks_like_interesting_unreal_header(b"USTRUCT()\nstruct FA {};"));
    assert!(!looks_like_interesting_unreal_header(b"// nothing"));
    assert!(matches!(
        plan_file(&input("/g/A.h", None), false, b"// nothing"),
        FileStep::Skip { .. }
    ));
    assert!(matches!(
        plan_file(&input("/g/A.cpp", None), false, b"// nothing"),
        FileStep::Parse { .. }
    ));
}

const CLASS: &str = "#include \"Base.h\"\nclass AThing : public AActor\n{\npublic:\n    void Tick(float Delta);\n    int32 Count;\n};\n";

fn class_tree() -> SyntaxTree {
    let start = CLASS.find("class").unwrap();
    let class = &CLASS[start..CLASS.len() - 2];
    let body = &class[class.find('{').unwrap()..];
    tree(
        CLASS,
        &[
            (0, "translation_unit", "", CLASS),
            (1, "preproc_include", "", "#include \"Base.h\"\n"),
            (2, "string_literal", "path", "\"Base.h\""),
            (1, "class_specifier", "", class),
            (2, "type_identifier", "name", "AThing"),
            (2, "base_class_clause", "", ": public AActor"),
            (3, "access_specifier", "", "public"),
            (3, "type_identifier", "", "AActor"),
            (2, "field_declaration_list", "body", body),
            (3, "access_specifier", "", "public"),
            (3, "field_declaration", "", "void Tick(float Delta);"),
            (4, "primitive_type", "type", "void"),
            (4, "function_declarator", "declarator", "Tick(float Delta)"),
            (5, "field_identifier", "declarator", "Tick"),
            (5, "parameter_list", "parameters", "(float Delta)"),
            (3, "field_declaration", "", "int32 Count;"),
            (4, "type_identifier", "type", "int32"),
            (4, "field_identifier", "declarator", "Count"),
        ],
    )
}

fn class_captures() -> Vec<NodeCapture> {
    vec![
        capture("class_name", 4),
        capture("base_class_name", 7),
        capture("func_node", 10),
        capture("field_node", 15),
    ]
}

#[test]
fn classes_with_members_are_read() {
    let t = class_tree();
    let parsed = parse_content(CLASS, &t, &class_captures(), &vec![capture("path", 2)]);
    assert_eq!(parsed.includes, vec!["Base.h".to_string()]);
    assert_eq!(parsed.classes.len(), 1);
    let class = &parsed.classes[0];
    assert_eq!(class.class_name, "AThing");
    assert_eq!(class.base_classes, vec!["AActor".to_string()]);
    assert_eq!(class.line, 2);
    let names: Vec<&str> = class.members.iter().map(|m| m.name.as_str()).collect();
    assert_eq!(names, vec!["Tick", "Count"]);
    assert_eq!(class.members[0].access, "public");
    assert_eq!(class.members[0].return_type.as_deref(), Some("void"));
    let result = process_file(
        &input("/g/A.h", None),
        FileStep::Parse { new_hash: "h".to_string() },
        parsed,
    );
    let data = result.data.unwrap();
    assert_eq!(data.new_hash, "h");
    assert_eq!(data.classes.len(), 1);
}

#[test]
fn buffers_show_their_classes() {
    let t = class_tree();
    let includes = vec![vec![capture("path", 2), capture("include", 1)]];
    let info = parse_buffer(
        CLASS,
        Some("C:\\Game\\A.h"),
        true,
        &t,
        &class_captures(),
        &vec![capture("path", 2)],
        &includes,
        Some(13),
    );
    assert_eq!(info.symbols.len(), 1);
    assert_eq!(info.symbols[0].name, "AThing");
    assert_eq!(info.symbols[0].file_path, "C:/Game/A.h");
    assert_eq!(info.symbols[0].methods.public.len(), 1);
    assert_eq!(info.symbols[0].fields.public.len(), 1);
    assert!(info.symbols[0].methods.private.is_empty());
    let cursor = info.cursor_info.unwrap();
    assert_eq!(cursor.name, "Tick");
    assert_eq!(cursor.class_name, "AThing");
    assert_eq!(cursor.return_type, "void");
    assert_eq!(cursor.parameters, "(float Delta)");
    assert!(analyze_cursor_node(&t, 2).is_none());
}

#[test]
fn access_is_normalised() {
    assert!(normalize_access("private") == Access::Private);
    assert!(normalize_access("protected") == Access::Protected);
    assert!(normalize_access("impl") == Access::Impl);
    assert!(normalize_access("anything") == Access::Public);
}

#[test]
fn native_events_have_an_implementation() {
    let made = generated_definitions("OnDeath", "void", "UFUNCTION(BlueprintNativeEvent)\nvoid OnDeath();");
    assert_eq!(made.len(), 1);
    assert_eq!(made[0].name, "OnDeath_Implementation");
    let made = generated_definitions(
        "Fire",
        "void",
        "UFUNCTION(Server, Reliable, WithValidation)\nvoid Fire();",
    );
    let names: Vec<&str> = made.iter().map(|d| d.name.as_str()).collect();
    assert_eq!(names, vec!["Fire_Implementation", "Fire_Validate"]);
}

#[test]
fn includes_go_before_the_generated_header() {
    let content = "#pragma once\n#include \"A.h\"\n#include \"A.generated.h\"\n";
    assert_eq!(suggest_include_insert_line(content, 3, 3), 3);
}
