use u_scanner::query::asset::{contains_subslice, query_files_in_module_chunk, ModuleSearch};
use u_scanner::query::class::{enum_name_candidates, get_classes_in_modules, member_symbol, search_classes_prefix, ClassModuleItem, MemberRow};
use u_scanner::query::dispatch::{process_query, process_query_streaming, QueryPlan, RowShape, StreamPlan};
use u_scanner::query::file::{collect_file_search_rows, is_engine_path, is_listed_dependency, query_files_in_modules, search_files_by_name, FoundFile, ModuleFile};
use u_scanner::query::lookup::{class_lookup_name, find_member, find_type_definition, headers_statement, MemberPlace};
use u_scanner::query::module::{get_module_by_name, search_modules};
use u_scanner::query::search::{get_symbols_by_type, search_symbols, search_tokens};
use u_scanner::query::sql::{
    clamp_limit, escape_like, like_contains_pattern, like_prefix_pattern, repeat_placeholders,
    Batcher, SqlParam, Statement,
};
use u_scanner::types::QueryRequest;

fn texts(s: &Statement) -> Vec<String> {
    s.params
        .iter()
        .map(|p| match p {
            SqlParam::Text(t) => t.clone(),
            SqlParam::Int(n) => n.to_string(),
        })
        .collect()
}

#[test]
fn special_characters_stand_for_themselves() {
    assert_eq!(escape_like("50%_a\\b"), "50\\%\\_a\\\\b");
    assert_eq!(like_contains_pattern("a_b"), "%a\\_b%");
    assert_eq!(like_prefix_pattern("100%"), "100\\%%");
}

#[test]
fn one_mark_for_each_parameter() {
    assert_eq!(repeat_placeholders(0), "");
    assert_eq!(repeat_placeholders(1), "?");
    assert_eq!(repeat_placeholders(3), "?,?,?");
}

#[test]
fn limits_are_clamped() {
    assert_eq!(clamp_limit(0, 1, 500), 1);
    assert_eq!(clamp_limit(42, 1, 500), 42);
    assert_eq!(clamp_limit(10_000, 1, 500), 500);
}

#[test]
fn batches_come_when_they_are_full() {
    let mut b: Batcher<u32> = Batcher::start();
    assert_eq!(b.add(1, 2), None);
    assert_eq!(b.add(2, 2), Some(vec![1, 2]));
    assert_eq!(b.add(3, 2), None);
    assert_eq!(b.waiting, vec![3]);
    assert_eq!(b.total, 3);
}

#[test]
fn search_splits_its_input_into_words() {
    let input: Vec<char> = "  Actor  Tick ".chars().collect();
    assert_eq!(search_tokens(&input), vec!["actor".to_string(), "tick".to_string()]);
    let s = search_symbols("Actor", 10, 0);
    assert_eq!(s.sql.matches('?').count() > 0, true);
    assert!(!s.params.is_empty());
}

#[test]
fn symbols_of_an_empty_type_are_not_searched() {
    assert!(get_symbols_by_type("", None).is_none());
    let s = get_symbols_by_type("UENUM", Some(5)).unwrap();
    assert!(texts(&s).contains(&"UENUM".to_string()));
}

#[test]
fn prefix_search_needs_a_prefix() {
    assert!(search_classes_prefix("  ", None).is_none());
    let s = search_classes_prefix("UMy", Some(7)).unwrap();
    assert_eq!(texts(&s), vec!["UMy%".to_string(), "7".to_string()]);
}

#[test]
fn modules_are_found_by_name() {
    assert!(get_module_by_name(" ").is_none());
    assert_eq!(texts(&get_module_by_name("Core").unwrap()), vec!["Core".to_string()]);
    assert!(search_modules("", None).is_none());
}

#[test]
fn enumerations_may_be_named_through_their_values() {
    let names = enum_name_candidates("EThing::One");
    assert_eq!(names, vec!["EThing::One".to_string(), "EThing".to_string(), "One".to_string()]);
    assert_eq!(enum_name_candidates("EThing"), vec!["EThing".to_string()]);
}

#[test]
fn members_without_file_stand_in_the_file_of_their_class() {
    let row = MemberRow {
        name: "Tick".to_string(),
        kind: "function".to_string(),
        access: "public".to_string(),
        flags: None,
        line: 4,
        detail: None,
        return_type: Some("void".to_string()),
        is_static: 1,
        file_path: String::new(),
    };
    let shown = member_symbol(&row, "C:\\Game\\A.h");
    assert_eq!(shown.file_path, "C:/Game/A.h");
    assert_eq!(shown.flags, "");
    assert!(shown.is_static);
}

fn class_item(name: &str, path: &str) -> ClassModuleItem {
    ClassModuleItem {
        name: name.to_string(),
        base: None,
        path: path.to_string(),
        line: 1,
        symbol_type: "class".to_string(),
    }
}

#[test]
fn classes_are_grouped_by_file() {
    let groups = get_classes_in_modules(&vec![
        class_item("A", "b.h"),
        class_item("B", "a.h"),
        class_item("C", "b.h"),
    ]);
    assert_eq!(groups.len(), 2);
    let of_b = groups.iter().find(|g| g.path == "b.h").unwrap();
    assert_eq!(of_b.items.len(), 2);
    assert_eq!(of_b.items[0].name, "A");
    assert_eq!(of_b.items[1].name, "C");
}

#[test]
fn engine_files_are_left_out_on_request() {
    assert!(is_engine_path("C:/UE/Engine/Source/Core/A.h"));
    assert!(!is_engine_path("C:/Game/Source/A.h"));
    assert!(is_listed_dependency("C:/UE/Engine/Source/Core/A.h", false));
    assert!(!is_listed_dependency("C:/UE/Engine/Source/Core/A.h", true));
}

fn module_file(path: &str, extension: &str) -> ModuleFile {
    ModuleFile {
        file_path: path.to_string(),
        module_name: "Core".to_string(),
        module_root: "/core".to_string(),
        extension: extension.to_string(),
    }
}

#[test]
fn module_files_are_filtered() {
    let rows = vec![module_file("/core/A.h", "h"), module_file("/core/B.cpp", "cpp")];
    let headers = query_files_in_modules(&rows, &Some(vec!["H".to_string()]), None);
    assert_eq!(headers.len(), 1);
    assert_eq!(headers[0].file_path, "/core/A.h");
    let named = query_files_in_modules(&rows, &None, Some("\\B.c"));
    assert_eq!(named.len(), 1);
    assert_eq!(named[0].file_path, "/core/B.cpp");
    assert_eq!(query_files_in_modules(&rows, &None, None).len(), 2);
}

fn found(path: &str) -> FoundFile {
    FoundFile {
        filename: "A.h".to_string(),
        path: path.to_string(),
        module_name: None,
        module_root: None,
    }
}

#[test]
fn found_files_are_listed_once() {
    let mut list = Vec::new();
    collect_file_search_rows(&mut list, &vec![found("/a/A.h"), found("/b/A.h")]);
    collect_file_search_rows(&mut list, &vec![found("/b/A.h"), found("/c/A.h")]);
    let paths: Vec<&str> = list.iter().map(|f| f.path.as_str()).collect();
    assert_eq!(paths, vec!["/a/A.h", "/b/A.h", "/c/A.h"]);
    assert!(search_files_by_name("").is_none());
}

#[test]
fn bytes_are_found_inside_bytes() {
    assert!(contains_subslice(b"abcabd", b"abd"));
    assert!(!contains_subslice(b"abcab", b"abd"));
    assert!(!contains_subslice(b"ab", b"abc"));
}

#[test]
fn search_in_modules_stops_at_its_limit() {
    assert!(query_files_in_module_chunk(&Vec::new(), "a", 5).is_none());
    let mut search = ModuleSearch::start(Some(3), false);
    assert!(search.search_files_in_modules(&vec!["Core".to_string()], "a").is_some());
    assert_eq!(search.take_rows(2), 2);
    assert_eq!(search.take_rows(5), 1);
    assert!(search.search_files_in_modules(&vec!["Core".to_string()], "a").is_none());
}

#[test]
fn lookups_strip_the_namespace() {
    assert_eq!(class_lookup_name("Game::AActor"), Some("AActor".to_string()));
    assert_eq!(class_lookup_name("  "), None);
    assert!(find_type_definition("").is_none());
    let s = find_type_definition("Game::AActor").unwrap();
    assert!(texts(&s).contains(&"AActor".to_string()));
    assert_eq!(texts(&headers_statement("AActor")).iter().any(|p| p.contains("Actor.h")), true);
}

#[test]
fn members_are_looked_up_where_they_should_be() {
    let s = find_member(&MemberPlace::ClassId(7), "Tick", false);
    assert_eq!(texts(&s), vec!["7".to_string(), "Tick".to_string()]);
    let s = find_member(&MemberPlace::Anywhere, "Tick", true);
    assert_eq!(texts(&s), vec!["Tick".to_string()]);
    assert!(s.sql.contains("m.access = 'impl' THEN 0"));
}

#[test]
fn requests_become_plans() {
    match process_query(QueryRequest::GetComponents) {
        QueryPlan::Rows { statement, shape } => {
            assert!(statement.sql.contains("FROM components"));
            assert!(statement.params.is_empty());
            assert!(shape == RowShape::Component);
        }
        other => panic!("unexpected plan: {:?}", other),
    }
    match process_query(QueryRequest::GetEnumValues { enum_name: "EThing".to_string() }) {
        QueryPlan::EnumValues { candidates } => assert_eq!(candidates[0], "EThing"),
        other => panic!("unexpected plan: {:?}", other),
    }
    match process_query_streaming(QueryRequest::GrepAssets { pattern: "BP_".to_string() }) {
        StreamPlan::GrepAssets { pattern } => assert_eq!(pattern, "BP_"),
        other => panic!("unexpected plan: {:?}", other),
    }
    match process_query_streaming(QueryRequest::GetModules) {
        StreamPlan::AtOnce { plan: QueryPlan::Rows { shape, .. } } => assert!(shape == RowShape::Module),
        other => panic!("unexpected plan: {:?}", other),
    }
}
