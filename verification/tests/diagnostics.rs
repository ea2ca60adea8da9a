use u_scanner::diagnostics::{
    normalize_parameter_signature, parse_build_diagnostics, process_diagnostics, DiagnosticItem,
    DiagnosticSeverity,
};
use u_scanner::syntax::{SyntaxNode, SyntaxTree};

fn node(content: &str, depth: usize, kind: &str, field: &str, text: &str, start: usize) -> SyntaxNode {
    let end = start + text.len();
    let row = |at: usize| content[..at].matches('\n').count();
    let column = |at: usize| at - content[..at].rfind('\n').map_or(0, |k| k + 1);
    SyntaxNode {
        kind: kind.to_string(),
        field: if field.is_empty() { None } else { Some(field.to_string()) },
        text: text.to_string(),
        depth,
        start_byte: start,
        end_byte: end,
        start_row: row(start),
        start_column: column(start),
        end_row: row(end),
        end_column: column(end),
        extra: kind == "comment",
    }
}

/// The tree of nodes given as depth, kind, field and text, each placed behind its
/// elder sibling or at the start of its parent.
fn tree(content: &str, shape: &[(usize, &str, &str, &str)]) -> SyntaxTree {
    let mut nodes: Vec<SyntaxNode> = Vec::new();
    for (depth, kind, field, text) in shape {
        let from = match nodes.iter().rev().find(|n| n.depth <= *depth) {
            Some(n) if n.depth == *depth => n.end_byte,
            _ => nodes.iter().rev().find(|n| n.depth < *depth).map_or(0, |n| n.start_byte),
        };
        let start = from + content[from..].find(text).expect("text of the node");
        nodes.push(node(content, *depth, kind, field, text, start));
    }
    SyntaxTree { nodes }
}

fn sources(path: &str, text: &str) -> Vec<(String, String)> {
    vec![(path.to_string(), text.to_string())]
}

fn has_code(items: &[DiagnosticItem], code: &str) -> bool {
    items.iter().any(|item| item.code == code)
}

fn has_message(items: &[DiagnosticItem], code: &str, part: &str) -> bool {
    items.iter().any(|item| item.code == code && item.message.contains(part))
}

const ACTOR_HEADER: &str = "/tmp/game/Source/Game/Public/MyActor.h";
const ACTOR_SOURCE: &str = "/tmp/game/Source/Game/Private/MyActor.cpp";
const ABILITY_HEADER: &str = "/tmp/game/Source/Game/Public/MyAbility.h";
const ABILITY_SOURCE: &str = "/tmp/game/Source/Game/Private/MyAbility.cpp";

#[test]
fn detects_missing_generated_body() {
    let items = process_diagnostics(
        "UCLASS()\nclass AThing : public UObject {\n};\n",
        Some("C:/Project/AThing.h"),
        false,
        None,
        &Vec::new(),
    );
    assert!(items.iter().any(|item| item.code == "UHT002"));
}

#[test]
fn parses_msvc_build_errors() {
    let items = parse_build_diagnostics(
        r#"C:\Project\Source\Game\Thing.cpp(12,34): error C2065: 'Foo': undeclared identifier"#,
    );
    assert_eq!(items[0].line, 11);
    assert_eq!(items[0].character, 33);
    assert!(items[0].severity == DiagnosticSeverity::Error);
    assert_eq!(items[0].severity.as_str(), "error");
}

#[test]
fn does_not_require_generated_body_for_uenum() {
    let items = process_diagnostics(
        "UENUM(BlueprintType)\nenum class EThing { One };\n",
        Some("C:/Project/EThing.h"),
        false,
        None,
        &Vec::new(),
    );
    assert!(!items.iter().any(|item| item.code == "UHT002"));
}

fn actor(content: &str, declaration: &str) -> SyntaxTree {
    let class = &content[..content.len() - 2];
    let body = &class[class.find('{').unwrap()..];
    tree(
        content,
        &[
            (0, "translation_unit", "", content),
            (1, "class_specifier", "", class),
            (2, "type_identifier", "name", "UMyActor"),
            (2, "field_declaration_list", "body", body),
            (3, "access_specifier", "", "public"),
            (3, "field_declaration", "", declaration),
            (4, "primitive_type", "type", "void"),
            (4, "function_declarator", "declarator", "DoThing()"),
            (5, "field_identifier", "declarator", "DoThing"),
            (5, "parameter_list", "parameters", "()"),
        ],
    )
}

#[test]
fn detects_missing_cpp_definition_for_header_member_function() {
    let content = "class UMyActor\n{\npublic:\n    void DoThing();\n};\n";
    let t = actor(content, "void DoThing();");
    let items = process_diagnostics(content, Some(ACTOR_HEADER), false, Some(&t), &Vec::new());
    assert!(has_code(&items, "UECPP001"));
}

#[test]
fn incomplete_member_declaration_does_not_warn_about_missing_cpp() {
    let content = "class UMyActor\n{\npublic:\n    void DoThing()\n};\n";
    let t = actor(content, "void DoThing()");
    let items = process_diagnostics(content, Some(ACTOR_HEADER), false, Some(&t), &Vec::new());
    assert!(!has_code(&items, "UECPP001"));
}

#[test]
fn does_not_warn_when_matching_cpp_definition_exists() {
    let content = "class UMyActor\n{\npublic:\n    void DoThing();\n};\n";
    let t = actor(content, "void DoThing();");
    let sources = sources(
        ACTOR_SOURCE,
        "#include \"MyActor.h\"\n\nvoid UMyActor::DoThing()\n{\n}\n",
    );
    let items = process_diagnostics(content, Some(ACTOR_HEADER), false, Some(&t), &sources);
    assert!(!has_code(&items, "UECPP001"));
}

#[test]
fn constructor_with_default_argument_matches_cpp_definition() {
    let content = "class UMyActor\n{\npublic:\n    explicit UMyActor(const FObjectInitializer& ObjectInitializer = FObjectInitializer::Get());\n};\n";
    let class = &content[..content.len() - 2];
    let body = &class[class.find('{').unwrap()..];
    let declaration = "explicit UMyActor(const FObjectInitializer& ObjectInitializer = FObjectInitializer::Get());";
    let declarator = &declaration[9..declaration.len() - 1];
    let t = tree(
        content,
        &[
            (0, "translation_unit", "", content),
            (1, "class_specifier", "", class),
            (2, "type_identifier", "name", "UMyActor"),
            (2, "field_declaration_list", "body", body),
            (3, "access_specifier", "", "public"),
            (3, "declaration", "", declaration),
            (4, "explicit_function_specifier", "", "explicit"),
            (4, "function_declarator", "declarator", declarator),
            (5, "identifier", "declarator", "UMyActor"),
            (5, "parameter_list", "parameters", &declarator[8..]),
        ],
    );
    let sources = sources(
        ACTOR_SOURCE,
        "#include \"MyActor.h\"\n\nUMyActor::UMyActor(const FObjectInitializer& ObjectInitializer)\n{\n}\n",
    );
    let items = process_diagnostics(content, Some(ACTOR_HEADER), false, Some(&t), &sources);
    assert!(!has_code(&items, "UECPP001"));
}

#[test]
fn unreal_style_header_missing_method_warns_without_false_ctor_warning() {
    let content = "UCLASS()\nclass UMyAbility\n{\n    GENERATED_BODY()\npublic:\n    explicit UMyAbility(const FObjectInitializer& ObjectInitializer = FObjectInitializer::Get());\nprivate:\n    void StartDeath();\n};\n";
    let class = &content[..content.len() - 2];
    let body = &class[class.find('{').unwrap()..];
    let constructor = "explicit UMyAbility(const FObjectInitializer& ObjectInitializer = FObjectInitializer::Get());";
    let declarator = &constructor[9..constructor.len() - 1];
    let t = tree(
        content,
        &[
            (0, "translation_unit", "", content),
            (1, "unreal_reflected_class_declaration", "", class),
            (2, "type_identifier", "name", "UMyAbility"),
            (2, "field_declaration_list", "body", body),
            (3, "access_specifier", "", "public"),
            (3, "declaration", "", constructor),
            (4, "explicit_function_specifier", "", "explicit"),
            (4, "function_declarator", "declarator", declarator),
            (5, "identifier", "declarator", "UMyAbility"),
            (5, "parameter_list", "parameters", &declarator[10..]),
            (3, "access_specifier", "", "private"),
            (3, "field_declaration", "", "void StartDeath();"),
            (4, "primitive_type", "type", "void"),
            (4, "function_declarator", "declarator", "StartDeath()"),
            (5, "field_identifier", "declarator", "StartDeath"),
            (5, "parameter_list", "parameters", "()"),
        ],
    );
    let sources = sources(
        ABILITY_SOURCE,
        "#include \"MyAbility.h\"\n\nUMyAbility::UMyAbility(const FObjectInitializer& ObjectInitializer)\n{\n}\n",
    );
    let items = process_diagnostics(content, Some(ABILITY_HEADER), false, Some(&t), &sources);
    assert!(has_message(&items, "UECPP001", "StartDeath"));
    assert!(!has_message(&items, "UECPP001", "UMyAbility::UMyAbility"));
}

fn ability(content: &str, declaration: &str, declarator: &str, name: &str) -> SyntaxTree {
    let class = &content[..content.len() - 2];
    let body = &class[class.find('{').unwrap()..];
    tree(
        content,
        &[
            (0, "translation_unit", "", content),
            (1, "class_specifier", "", class),
            (2, "type_identifier", "name", "UMyAbility"),
            (2, "field_declaration_list", "body", body),
            (3, "access_specifier", "", "public"),
            (3, "unreal_function_declaration", "", declaration),
            (4, "primitive_type", "type", "void"),
            (4, "function_declarator", "declarator", declarator),
            (5, "field_identifier", "declarator", name),
            (5, "parameter_list", "parameters", &declarator[name.len()..]),
        ],
    )
}

#[test]
fn blueprint_native_event_uses_implementation_suffix() {
    let content = "class UMyAbility\n{\npublic:\n    UFUNCTION(BlueprintNativeEvent)\n    void OnDeath();\n};\n";
    let t = ability(
        content,
        "UFUNCTION(BlueprintNativeEvent)\n    void OnDeath();",
        "OnDeath()",
        "OnDeath",
    );
    let sources = sources(
        ABILITY_SOURCE,
        "#include \"MyAbility.h\"\n\nvoid UMyAbility::OnDeath_Implementation()\n{\n}\n",
    );
    let items = process_diagnostics(content, Some(ABILITY_HEADER), false, Some(&t), &sources);
    assert!(!has_code(&items, "UECPP001"));
}

#[test]
fn rpc_with_validation_requires_validate_and_implementation() {
    let content = "class UMyAbility\n{\npublic:\n    UFUNCTION(Server, Reliable, WithValidation)\n    void ServerFire(int32 Count);\n};\n";
    let t = ability(
        content,
        "UFUNCTION(Server, Reliable, WithValidation)\n    void ServerFire(int32 Count);",
        "ServerFire(int32 Count)",
        "ServerFire",
    );
    let sources = sources(
        ABILITY_SOURCE,
        "#include \"MyAbility.h\"\n\nvoid UMyAbility::ServerFire_Implementation(int32 Count)\n{\n}\n",
    );
    let items = process_diagnostics(content, Some(ABILITY_HEADER), false, Some(&t), &sources);
    assert!(has_message(&items, "UECPP001", "ServerFire_Validate"));
    assert!(!has_message(&items, "UECPP001", "ServerFire_Implementation"));
    let first = items.iter().find(|item| item.code == "UECPP001").expect("missing UECPP001");
    assert!(first.end_character > first.character);
}

#[test]
fn normalize_parameter_signature_strips_default_arguments() {
    let params = "(const FObjectInitializer& ObjectInitializer = FObjectInitializer::Get())";
    assert_eq!(
        normalize_parameter_signature(params),
        "(const FObjectInitializer& ObjectInitializer)"
    );
}

#[test]
fn header_tool_errors_are_read() {
    let items = parse_build_diagnostics("C:/Game/Thing.h:7: Error: Missing macro\nnothing here\n");
    assert_eq!(items.len(), 1);
    assert_eq!(items[0].line, 6);
    assert_eq!(items[0].character, 0);
    assert_eq!(items[0].message, "Missing macro");
    assert_eq!(items[0].severity.as_str(), "error");
}

#[test]
fn warnings_of_the_compiler_are_warnings() {
    let items = parse_build_diagnostics("C:\\a\\b.cpp(3): warning C4100: unused\n");
    assert_eq!(items.len(), 1);
    assert_eq!(items[0].line, 2);
    assert_eq!(items[0].code, "BUILD");
    assert_eq!(items[0].message, "C4100: unused");
    assert_eq!(items[0].severity.as_str(), "warning");
}

#[test]
fn signature_keeps_commas_inside_templates() {
    assert_eq!(
        normalize_parameter_signature("(TMap<FString, int32> Values = {}, int32  Count = 3)"),
        "(TMap<FString, int32> Values, int32 Count)"
    );
}

#[test]
fn signature_is_the_same_without_a_default() {
    assert_eq!(
        normalize_parameter_signature("(int32 A = F(1, 2), bool B)"),
        normalize_parameter_signature("(int32 A, bool B)")
    );
    assert_eq!(
        normalize_parameter_signature("(bool B, FVector V = FVector{1, 2})"),
        normalize_parameter_signature("(bool B, FVector V)")
    );
}

#[test]
fn signature_is_normalised_once() {
    for params in ["( int32   A = 3 , bool B )", "(TMap<FString , int32> Values = {}\n, int32 Count)", "()"] {
        let once = normalize_parameter_signature(params);
        assert_eq!(normalize_parameter_signature(&once), once);
        assert!(!once.contains("  ") && !once.contains(" )") && !once.contains(" ,"));
    }
    assert_eq!(normalize_parameter_signature("( int32   A = 3 , bool B )"), "( int32 A, bool B)");
}
