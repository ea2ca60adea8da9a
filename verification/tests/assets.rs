use u_scanner::server::asset::{
    is_candidate_asset, is_content_dir, is_ignored_dir, parse_asset_record, scan_report,
    to_asset_path, unique_paths, AssetRecord,
};
use u_scanner::server::graph::{
    build_asset_graph, insert_asset_record, remove_asset_from_graph, update_asset, AssetGraph,
};
use u_scanner::uasset::{AssetError, Reader, UAssetParser, PACKAGE_TAG};

fn record(path: &str, parent: Option<&str>, imports: &[&str], functions: &[&str]) -> AssetRecord {
    AssetRecord {
        asset_path: path.to_string(),
        parent_class: parent.map(|s| s.to_string()),
        imports: imports.iter().map(|s| s.to_string()).collect(),
        functions: functions.iter().map(|s| s.to_string()).collect(),
    }
}

fn strings(list: Option<&Vec<String>>) -> Vec<String> {
    list.cloned().unwrap_or_default()
}

#[test]
fn asset_paths_are_those_of_the_engine() {
    assert_eq!(to_asset_path("C:\\Game\\Content\\UI\\WBP_Menu.uasset"), "/Game/UI/WBP_Menu");
    assert_eq!(to_asset_path("/a//Content/x"), "/Game/x");
    assert_eq!(to_asset_path("/a/Other/x.uasset"), "/a/Other/x.uasset");
}

#[test]
fn candidates_are_told_by_their_names() {
    assert!(is_candidate_asset("/g/Content/BP_A.uasset", true, false));
    assert!(is_candidate_asset("/g/Content/Level.UMAP", true, false));
    assert!(!is_candidate_asset("/g/Content/BP_A.uasset", false, false));
    assert!(!is_candidate_asset("/g/Content/T_A.uasset", true, false));
    assert!(!is_candidate_asset("/g/Content/BP_A.txt", true, false));
    assert!(is_ignored_dir("/g/Saved", false));
    assert!(!is_ignored_dir("/g/saved", false));
    assert!(is_content_dir("CONTENT"));
    assert!(!is_content_dir("Contents"));
}

#[test]
fn paths_that_differ_in_slashes_count_once() {
    let paths = vec!["/a//b".to_string(), "/a/b".to_string(), "\\a\\c".to_string()];
    assert_eq!(unique_paths(&paths), vec!["/a//b".to_string(), "\\a\\c".to_string()]);
}

#[test]
fn reports_count_what_failed() {
    let report = scan_report(vec![
        Some(record("/Game/A", None, &[], &[])),
        None,
        Some(record("/Game/B", None, &[], &[])),
    ]);
    assert_eq!((report.total_seen, report.skipped, report.errors), (3, 0, 1));
    assert_eq!(report.parsed[0].asset_path, "/Game/A");
    assert_eq!(report.parsed[1].asset_path, "/Game/B");
}

#[test]
fn graph_knows_what_assets_refer_to() {
    let graph = build_asset_graph(&vec![
        record("/Game/BP_A", Some("/Script/Engine.Actor"), &["/Game/T", "/Game/t"], &["Fire"]),
        record("/Game/BP_B", None, &["/Game/T"], &[]),
    ]);
    assert_eq!(strings(graph.references.get("/game/t")), vec!["/game/bp_a", "/game/bp_b"]);
    assert_eq!(strings(graph.derived.get("/script/engine.actor")), vec!["/game/bp_a"]);
    assert_eq!(strings(graph.functions.get("fire")), vec!["/game/bp_a"]);
    assert!(graph.functions.get("Fire").is_none());
}

#[test]
fn updated_assets_stand_under_their_new_names_only() {
    let mut graph = AssetGraph::new();
    insert_asset_record(&mut graph, &record("/Game/BP_A", Some("Old"), &["/Game/X"], &["F"]));
    insert_asset_record(&mut graph, &record("/Game/BP_B", Some("Old"), &["/Game/X"], &[]));
    update_asset(&mut graph, &record("/Game/BP_a", Some("New"), &["/Game/Y"], &[]));
    assert_eq!(strings(graph.derived.get("old")), vec!["/game/bp_b"]);
    assert_eq!(strings(graph.derived.get("new")), vec!["/game/bp_a"]);
    assert_eq!(strings(graph.references.get("/game/x")), vec!["/game/bp_b"]);
    assert_eq!(strings(graph.references.get("/game/y")), vec!["/game/bp_a"]);
    assert_eq!(graph.functions.get("f").map(|l| l.len()), Some(0));
}

#[test]
fn removed_assets_leave_the_others() {
    let mut graph = AssetGraph::new();
    insert_asset_record(&mut graph, &record("/Game/BP_A", None, &["/Game/X"], &[]));
    insert_asset_record(&mut graph, &record("/Game/BP_B", None, &["/Game/X"], &[]));
    remove_asset_from_graph(&mut graph, "/GAME/BP_A");
    assert_eq!(strings(graph.references.get("/game/x")), vec!["/game/bp_b"]);
    remove_asset_from_graph(&mut graph, "/GAME/BP_A");
    assert_eq!(strings(graph.references.get("/game/x")), vec!["/game/bp_b"]);
}

#[test]
fn numbers_are_little_endian() {
    let data = [1, 2, 3, 4, 0xff, 0xff, 0xff, 0xff, 8, 0, 0, 0, 0, 0, 0, 0x80, 9];
    let mut r = Reader { data: &data, pos: 0 };
    assert_eq!(r.u32(), Ok(0x04030201));
    assert_eq!(r.i32(), Ok(-1));
    assert_eq!(r.i64(), Ok(i64::MIN + 8));
    assert_eq!(r.pos, 16);
    assert_eq!(r.u32(), Err(AssetError::Eof));
}

#[test]
fn strings_are_single_or_double_bytes() {
    let mut data = vec![6, 0, 0, 0];
    data.extend_from_slice(b"Hell\xff\0");
    let mut r = Reader { data: &data, pos: 0 };
    assert_eq!(r.read_unreal_string(), Ok("Hell\u{fffd}".to_string()));
    let mut data = (-3i32).to_le_bytes().to_vec();
    for unit in [0x00e9u16, 0x4e2d, 0] {
        data.extend_from_slice(&unit.to_le_bytes());
    }
    let mut r = Reader { data: &data, pos: 0 };
    assert_eq!(r.read_unreal_string(), Ok("\u{e9}\u{4e2d}".to_string()));
    let mut r = Reader { data: &[0, 0, 0, 0], pos: 0 };
    assert_eq!(r.read_unreal_string(), Ok(String::new()));
}

#[test]
fn broken_packages_are_refused() {
    let mut parser = UAssetParser::new();
    assert_eq!(parser.parse(&[1, 0, 0]), Err(AssetError::Eof));
    assert_eq!(parser.parse(&[1, 0, 0, 0, 0, 0, 0, 0]), Err(AssetError::BadTag(1)));
    assert!(matches!(
        parse_asset_record("/g/Content/BP_A.uasset", &PACKAGE_TAG.to_le_bytes()),
        Err(AssetError::Eof)
    ));
}

fn number(out: &mut Vec<u8>, n: i32) {
    out.extend_from_slice(&n.to_le_bytes());
}

fn long(out: &mut Vec<u8>, n: i64) {
    out.extend_from_slice(&n.to_le_bytes());
}

fn string(out: &mut Vec<u8>, s: &str) {
    number(out, s.len() as i32 + 1);
    out.extend_from_slice(s.as_bytes());
    out.push(0);
}

/// A package of a blueprint that derives from an actor and names one function.
fn package() -> Vec<u8> {
    let mut names = Vec::new();
    for name in ["/Script/Engine", "Package", "Class", "Actor", "BP_A_C", "Function", "Fire"] {
        string(&mut names, name);
    }
    let mut imports = Vec::new();
    for (class, outer, name) in [(1, 0, 0), (2, -1, 3), (5, -2, 6)] {
        long(&mut imports, 0);
        long(&mut imports, class);
        number(&mut imports, outer);
        long(&mut imports, name);
    }
    let mut exports = Vec::new();
    for n in [-2, -2, 0] {
        number(&mut exports, n);
    }
    long(&mut exports, 4);
    exports.extend_from_slice(&[0; 200]);
    let mut head = Vec::new();
    head.extend_from_slice(&PACKAGE_TAG.to_le_bytes());
    for n in [-7, 0, 500, 0, 0, 0] {
        number(&mut head, n);
    }
    string(&mut head, "/Game/BP_A");
    number(&mut head, i32::MIN);
    let size = head.len() as i32 + 9 * 4 + 2 * 4 + 16;
    number(&mut head, 7);
    number(&mut head, size);
    long(&mut head, 0);
    number(&mut head, 1);
    number(&mut head, size + names.len() as i32 + imports.len() as i32);
    number(&mut head, 3);
    number(&mut head, size + names.len() as i32);
    for _ in 0..4 {
        number(&mut head, 0);
    }
    head.resize(size as usize, 0);
    head.extend(names);
    head.extend(imports);
    head.extend(exports);
    head
}

#[test]
fn packages_are_read() {
    let record = parse_asset_record("C:/Game/Content/BP_A.uasset", &package()).unwrap();
    assert_eq!(record.asset_path, "/Game/BP_A");
    assert_eq!(record.parent_class.as_deref(), Some("/Script/Engine.Actor"));
    assert_eq!(record.imports, vec!["/Script/Engine".to_string(), "/Script/Engine.Actor".to_string()]);
    assert_eq!(record.functions, vec!["/Script/Engine.Actor:Fire".to_string()]);
}

#[test]
fn parsers_can_be_used_again() {
    let mut parser = UAssetParser::new();
    parser.parse(&package()).unwrap();
    assert_eq!(parser.asset_name, "BP_A");
    assert!(parser.parse(&[]).is_err());
    assert!(parser.imports.is_empty() && parser.parent_class.is_none());
    parser.parse(&package()).unwrap();
    assert_eq!(parser.imports.len(), 2);
}
