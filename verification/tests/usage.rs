use u_scanner::db::project_path::{
    get_full_path, join_db_path, normalize_db_path_parts, normalize_path_components,
    normalize_slashes, PathComponent,
};
use u_scanner::db::store::{
    cache_is_outdated, ensure_correct_version, get_module_id_for_path, progress_percent,
    report_is_due, save_to_db, saving_message, version_text, ModuleRoot, VersionStep, WriteOp,
    COMPLETION_CACHE_VERSION, DB_VERSION,
};
use u_scanner::query::goto::{add_parent_names, fix_symbol_location, parent_ids, ParentRow};
use u_scanner::query::locate::{
    find_symbol_location_near, find_type_declaration_line, header_lookup_patterns, is_header_file,
    unreal_type_file_stem,
};
use u_scanner::query::occurrences::{
    collect_from_file, push_unique_result, read_line_context, search_in_file, Usage, UsageStream,
};
use u_scanner::query::usage::{
    candidate_ids, candidate_paths, classify_usage_line, is_code_occurrence, local_candidates,
    resolve_usage_scope, scope_name, LocalScope, UsageKind, UsageScope, UsageTarget,
};
use u_scanner::syntax::SyntaxTree;
use u_scanner::types::{CallInfo, ClassInfo, MemberInfo, ParseData, ParseResult};

fn chars(s: &str) -> Vec<char> {
    s.chars().collect()
}

fn no_tree() -> SyntaxTree {
    SyntaxTree { nodes: Vec::new() }
}

const SOURCE: &str = "void A::Run()\n{\n    Count = 1; // Count\n    Use(Count);\n    Log(\"Count\");\n    Counter++;\n}\n";

#[test]
fn symbols_are_found_as_whole_words_in_code() {
    let found = search_in_file("C:\\g\\A.cpp", SOURCE, &no_tree(), "Count", 10, &None);
    let places: Vec<(usize, usize)> = found.iter().map(|u| (u.line, u.col)).collect();
    assert_eq!(places, vec![(3, 4), (4, 8)]);
    assert_eq!(found[0].path, "C:/g/A.cpp");
    assert_eq!(found[0].kind.name(), "write");
    assert_eq!(found[0].context, "Count = 1; // Count");
    assert_eq!(search_in_file("A.cpp", SOURCE, &no_tree(), "Count", 1, &None).len(), 1);
}

#[test]
fn local_symbols_are_searched_in_their_function() {
    let scope = Some(UsageScope::Local(LocalScope { start_line: 4, end_line: 4 }));
    let found = search_in_file("A.cpp", SOURCE, &no_tree(), "Count", 10, &scope);
    assert_eq!(found.len(), 1);
    assert_eq!(found[0].line, 4);
    assert_eq!(scope_name(&scope), "local");
    assert_eq!(scope_name(&None), "unresolved");
}

#[test]
fn places_are_listed_once() {
    let mut results = Vec::new();
    collect_from_file(&mut results, "A.cpp", SOURCE, &no_tree(), "Count", &None);
    let n = results.len();
    collect_from_file(&mut results, "A.cpp", SOURCE, &no_tree(), "Count", &None);
    assert_eq!(results.len(), n);
    push_unique_result(
        &mut results,
        Usage {
            path: "B.cpp".to_string(),
            line: 1,
            col: 0,
            context: String::new(),
            kind: UsageKind::Read,
            class_name: None,
        },
    );
    assert_eq!(results.len(), n + 1);
}

#[test]
fn usages_are_streamed_in_batches() {
    let content = "x = Count;\n".repeat(20);
    let mut stream = UsageStream::start();
    let batches = stream.add_file("A.cpp", &content, &no_tree(), "Count");
    assert_eq!(batches.len(), 1);
    assert_eq!(batches[0].len(), 15);
    assert_eq!(stream.batch.len(), 5);
    assert_eq!(stream.total, 20);
}

#[test]
fn lines_tell_how_a_symbol_is_used() {
    let call = chars("    Run();");
    assert_eq!(classify_usage_line(&call, 4, 3).name(), "call");
    let comment = chars("// Run();");
    assert!(!is_code_occurrence(&comment, 3));
    assert!(is_code_occurrence(&call, 4));
    assert_eq!(read_line_context(Some("a\n  b\n"), 2), Some("b".to_string()));
    assert_eq!(read_line_context(Some("a\n"), 7), None);
}

#[test]
fn scopes_need_an_owner() {
    let target = UsageTarget::Member {
        symbol: "Run".to_string(),
        class_name: "AThing".to_string(),
        context_class: None,
    };
    assert!(resolve_usage_scope(&target, &None).is_none());
    match resolve_usage_scope(&target, &Some("ABase".to_string())) {
        Some(UsageScope::Member(m)) => assert_eq!(m.member_owner_class, "ABase"),
        other => panic!("expected a member: {:?}", other),
    }
    assert!(resolve_usage_scope(&UsageTarget::Unknown, &None).is_none());
}

#[test]
fn candidates_are_ordered_and_unique() {
    assert_eq!(candidate_ids(&vec![5, 2], &vec![2, 9], Some(1)), vec![1, 2, 5, 9]);
    assert_eq!(
        candidate_paths(&vec!["/b.h".to_string(), "/a.h".to_string(), "/b.h".to_string()]),
        vec!["/a.h".to_string(), "/b.h".to_string()]
    );
    assert_eq!(local_candidates(Some("C:\\a.h")), vec!["C:/a.h".to_string()]);
    assert!(local_candidates(None).is_empty());
}

#[test]
fn symbols_are_looked_for_near_their_line() {
    let content = "int A;\nint Foo;\nint B;\nint Foo;\n";
    assert_eq!(find_symbol_location_near(content, "Foo", 3), Some((4, 4)));
    assert_eq!(find_symbol_location_near(content, "Bar", 1), None);
    let place = fix_symbol_location("C:\\a.h", 2, Some(content), "Foo");
    assert_eq!(place.file_path, "C:\\a.h");
    assert_eq!(place.line_number, 2);
    assert_eq!(place.col, Some(4));
}

#[test]
fn declarations_of_types_are_found() {
    let content = "// class AThing\nclass AThing;\n\n\nclass GAME_API AThing : public AActor\n{\n";
    assert_eq!(find_type_declaration_line(content, "AThing"), Some(5));
    let announced = "class AActor;\n\nclass AActor : public UObject\n{\n};\n";
    assert_eq!(find_type_declaration_line(announced, "AActor"), Some(3));
    assert_eq!(find_type_declaration_line("class A;\nclass B { };\n", "A"), None);
    assert!(is_header_file("/a/B.hpp"));
    assert!(!is_header_file("/a/B.cpp"));
    assert_eq!(unreal_type_file_stem("AThing"), "Thing");
    assert!(header_lookup_patterns("AThing").iter().any(|p| p.contains("Thing.h")));
}

#[test]
fn parents_are_collected_once() {
    let mut tried = vec!["A".to_string()];
    add_parent_names(
        &mut tried,
        &vec![Some("N::B".to_string()), None, Some("A".to_string()), Some("B".to_string())],
    );
    assert_eq!(tried, vec!["A".to_string(), "B".to_string()]);
    let rows = vec![
        ParentRow { id: Some(4), named: vec![9] },
        ParentRow { id: None, named: vec![2, 4] },
    ];
    assert_eq!(parent_ids(&rows), vec![2, 4]);
}

#[test]
fn database_paths_come_back() {
    let parts = normalize_path_components(&vec![
        PathComponent::Root,
        PathComponent::Name("game".to_string()),
        PathComponent::Current,
        PathComponent::Name("src".to_string()),
    ]);
    assert_eq!(normalize_db_path_parts(&parts), "/game/src");
    assert_eq!(join_db_path("/game/src", "A.h"), "/game/src/A.h");
    assert_eq!(join_db_path("/", "A.h"), "/A.h");
    assert_eq!(get_full_path(&parts, "A.h"), "/game/src/A.h");
    assert_eq!(normalize_slashes("C:\\a//b"), "C:/a/b");
}

#[test]
fn versions_decide_what_happens_to_an_index() {
    assert_eq!(ensure_correct_version(false, None), VersionStep::Create);
    assert_eq!(ensure_correct_version(true, Some("19")), VersionStep::Keep);
    assert_eq!(ensure_correct_version(true, Some("18")), VersionStep::Rebuild);
    assert_eq!(ensure_correct_version(true, None), VersionStep::Rebuild);
    assert_eq!(version_text(DB_VERSION), "19");
    assert_eq!(ensure_correct_version(true, Some(&version_text(DB_VERSION))), VersionStep::Keep);
    assert!(!cache_is_outdated(Some(&version_text(COMPLETION_CACHE_VERSION))));
    assert!(cache_is_outdated(Some("x")));
    assert!(!cache_is_outdated(Some("4")));
}

#[test]
fn progress_is_reported_by_percent() {
    assert_eq!(progress_percent(1, 3), 33);
    assert_eq!(progress_percent(5, 0), 100);
    assert_eq!(report_is_due(1, 3, 33), None);
    assert_eq!(report_is_due(2, 3, 33), Some(66));
    assert_eq!(report_is_due(3, 3, 100), Some(100));
    assert_eq!(saving_message(2, 3), "Saving results (2/3)");
}

#[test]
fn files_belong_to_the_longest_module_root() {
    let root = |id: i64, root: &str| ModuleRoot { id, root: root.to_string() };
    let modules = vec![root(1, "C:/Game"), root(2, "C:/Game/Source/Core"), root(3, "")];
    assert_eq!(get_module_id_for_path(&modules, "c:\\game\\source\\core\\A.h"), Some(2));
    assert_eq!(get_module_id_for_path(&modules, "C:/Game/A.h"), Some(1));
    assert_eq!(get_module_id_for_path(&modules, "D:/A.h"), None);
}

#[test]
fn parsed_files_become_rows() {
    let member = MemberInfo {
        name: "Tick".to_string(),
        mem_type: "function".to_string(),
        flags: "static UFUNCTION".to_string(),
        access: "public".to_string(),
        line: 4,
        end_line: 4,
        detail: None,
        return_type: Some("void".to_string()),
    };
    let class = ClassInfo {
        class_name: "AThing".to_string(),
        namespace: None,
        base_classes: vec!["AActor".to_string()],
        symbol_type: "class".to_string(),
        line: 2,
        end_line: 6,
        range_start: 0,
        range_end: 9,
        members: vec![member],
        is_final: false,
        is_interface: false,
    };
    let mut result = ParseResult {
        path: "/g/A.h".to_string(),
        status: "parsed".to_string(),
        mtime: 7,
        data: Some(ParseData {
            classes: vec![class],
            calls: vec![CallInfo { name: "Run".to_string(), line: 3 }],
            includes: vec!["Sub/Base.h".to_string()],
            parser: "p".to_string(),
            new_hash: "hash".to_string(),
        }),
        module_id: Some(1),
    };
    let rows = save_to_db(&result, false);
    match &rows[0] {
        WriteOp::File { directory, filename, extension, mtime, file_hash, module_id, is_header } => {
            assert_eq!((directory.as_str(), filename.as_str(), extension.as_str()), ("/g", "A.h", "h"));
            assert_eq!((*mtime, file_hash.as_str(), *module_id, *is_header), (7, "hash", Some(1), true));
        }
        other => panic!("expected a file: {:?}", other),
    }
    assert!(rows.iter().any(|r| matches!(r, WriteOp::Parent { name } if name == "AActor")));
    assert!(rows.iter().any(|r| matches!(r, WriteOp::Member { name, is_static: true, .. } if name == "Tick")));
    assert!(rows.iter().any(|r| matches!(r, WriteOp::Call { name, line: 3 } if name == "Run")));
    assert!(rows
        .iter()
        .any(|r| matches!(r, WriteOp::Include { path, base_name } if path == "Sub/Base.h" && base_name == "Base.h")));
    result.data = None;
    assert!(save_to_db(&result, false).is_empty());
}
