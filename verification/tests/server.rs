use u_scanner::cli::{
    is_inline_payload, parse_command, plan_command, plan_scan, CliStep, Command, MissingPayload,
    ScanStep,
};
use u_scanner::server::frame::{encode_frame, try_take_frame, FrameTooLarge, MAX_FRAME_SIZE};
use u_scanner::server::lifecycle::{
    log_path, parse_port, server_addr, Clients, Debounce, IDLE_SHUTDOWN_NANOS,
    WATCH_DEBOUNCE_NANOS,
};
use u_scanner::server::rpc::{
    dispatch_rpc, encode_progress, encode_request, encode_response, handle_rpc_frame, make_response, read_request,
    reply_to, request_frame, request_from, response_frame, ReplyStep, RpcMethod,
};
use u_scanner::server::state::{CompletionCache, COMPLETION_CACHE_CAPACITY};
use u_scanner::server::watcher::{
    classes_to_invalidate, classify_change, find_project_for_path, handle_file_change,
    normalize_watched_path, rescan_input, ChangeKind, ProjectEntry,
};
use u_scanner::types::{ClassInfo, ParseData, ParseResult, StdoutReporter};

fn args(list: &[&str]) -> Vec<String> {
    list.iter().map(|s| s.to_string()).collect()
}

#[test]
fn frames_come_back() {
    let payload: Vec<u8> = (0..300).map(|n| (n % 251) as u8).collect();
    let mut buffer = encode_frame(&payload);
    assert_eq!(&buffer[..4], &[0, 0, 1, 44]);
    buffer.extend_from_slice(&encode_frame(&vec![7]));
    buffer.push(0);
    assert_eq!(try_take_frame(&mut buffer, Some(MAX_FRAME_SIZE)), Ok(Some(payload)));
    assert_eq!(try_take_frame(&mut buffer, None), Ok(Some(vec![7])));
    assert_eq!(try_take_frame(&mut buffer, None), Ok(None));
    assert_eq!(buffer, vec![0]);
}

#[test]
fn partial_frames_wait() {
    let mut buffer = vec![0, 0, 0, 3, 1, 2];
    assert_eq!(try_take_frame(&mut buffer, None), Ok(None));
    assert_eq!(buffer.len(), 6);
    buffer.push(3);
    assert_eq!(try_take_frame(&mut buffer, None), Ok(Some(vec![1, 2, 3])));
    assert!(buffer.is_empty());
}

#[test]
fn long_frames_are_refused() {
    let mut buffer = vec![4, 0, 0, 1];
    assert_eq!(
        try_take_frame(&mut buffer, Some(MAX_FRAME_SIZE)),
        Err(FrameTooLarge { len: 0x4000001 })
    );
    let mut buffer = vec![4, 0, 0, 0];
    assert_eq!(try_take_frame(&mut buffer, Some(MAX_FRAME_SIZE)), Ok(None));
    let mut buffer = vec![4, 0, 0, 1];
    assert_eq!(try_take_frame(&mut buffer, None), Ok(None));
}

#[test]
fn progress_does_not_end_the_wait() {
    let frame = encode_progress(&StdoutReporter.report("scan", 1, 300, "a.h")).unwrap();
    assert_eq!(
        frame,
        b"\0\0\0\x22\x93\x02\xa8progress\x95\xa8progress\xa4scan\x01\xcd\x01\x2c\xa3a.h"[..].to_vec()
    );
    assert_eq!(handle_rpc_frame(&frame[4..]), ReplyStep::Wait);
}

#[test]
fn methods_are_found_by_name() {
    assert_eq!(dispatch_rpc("ping"), Ok(RpcMethod::Ping));
    assert_eq!(dispatch_rpc("modify_target_add_module"), Ok(RpcMethod::ModifyTargetAddModule));
    assert_eq!(dispatch_rpc("Ping"), Err("Unknown RPC method: Ping".to_string()));
}

fn text(s: &str) -> String {
    s.to_string()
}

fn both(list: &[&str]) -> Result<Vec<(String, String)>, String> {
    Ok(list.iter().map(|s| (s.to_string(), format!("shown {}", s))).collect())
}

#[test]
fn answers_bear_a_value_or_an_error() {
    let ok = make_response(9, Ok(text("5")));
    assert_eq!((ok.msg_type, ok.msgid, ok.error, ok.result), (1, 9, None, Some(text("5"))));
    let bad = make_response(10, Err(text("no")));
    assert_eq!((bad.msg_type, bad.msgid, bad.error, bad.result), (1, 10, Some(text("no")), None));
}

#[test]
fn clients_wait_for_the_answer() {
    assert_eq!(reply_to(both(&[])), ReplyStep::Wait);
    assert_eq!(reply_to(both(&["2", "\"progress\"", "{}"])), ReplyStep::Wait);
    assert_eq!(reply_to(both(&["\"1\"", "1", "null", "5"])), ReplyStep::Wait);
    assert_eq!(reply_to(both(&["1", "1", "\"no\"", "5"])), ReplyStep::Fail(text("Server error: \"no\"")));
    assert_eq!(reply_to(both(&["1", "1", "null", "5"])), ReplyStep::Finish(text("shown 5")));
    assert_eq!(reply_to(both(&["1"])), ReplyStep::Finish(text("null")));
    assert_eq!(reply_to(Err(text("broken"))), ReplyStep::Unreadable(text("broken")));
}

#[test]
fn messages_are_read_from_bytes() {
    assert_eq!(
        handle_rpc_frame(b"\x94\x01\x09\xc0\x81\xa1a\x92\x01\x02"),
        ReplyStep::Finish(text("{\n  \"a\": [\n    1,\n    2\n  ]\n}"))
    );
    assert_eq!(
        handle_rpc_frame(b"\x94\x01\x09\x81\xa1a\xc3\xc0"),
        ReplyStep::Fail(text("Server error: {\"a\":true}"))
    );
    assert_eq!(handle_rpc_frame(b"\x93\x02\xa8progress\x90"), ReplyStep::Wait);
    assert_eq!(handle_rpc_frame(b"\x91\xcb\x3f\xf0\0\0\0\0\0\0"), ReplyStep::Wait);
    assert_eq!(handle_rpc_frame(b"\x91\xd0\x01"), ReplyStep::Finish(text("null")));
    assert_eq!(handle_rpc_frame(b"\x90"), ReplyStep::Wait);
    assert_eq!(
        handle_rpc_frame(b"\xc1"),
        ReplyStep::Unreadable(text("wrong msgpack marker Reserved"))
    );
    assert!(matches!(handle_rpc_frame(b""), ReplyStep::Unreadable(_)));
    assert!(matches!(handle_rpc_frame(b"\x94\x01"), ReplyStep::Unreadable(_)));
}

#[test]
fn requests_are_read_from_bytes() {
    let request = read_request(b"\x94\x00\x07\xa5setup\x81\xa1x\xc2").unwrap();
    assert_eq!((request.msgid, request.name.as_str()), (7, "setup"));
    assert_eq!(request.method, Ok(RpcMethod::Setup));
    assert_eq!(request.params, "{\"x\":false}");
    let request = read_request(b"\x94\x05\x08\xa4Ping\xc0").unwrap();
    assert_eq!(request.method, Err(text("Unknown RPC method: Ping")));
    assert_eq!((request.msgid, request.params.as_str()), (8, "null"));
    assert_eq!(read_request(b"\xc1").unwrap_err(), "wrong msgpack marker Reserved");
    assert!(read_request(b"\x93\x00\x07\xa4ping").is_err());
    assert_eq!(request_from(Err(text("broken"))).unwrap_err(), "broken");
    let request = request_from(Ok((0, 3, text("scan"), text("[]")))).unwrap();
    assert_eq!((request.msgid, request.method), (3, Ok(RpcMethod::Scan)));
}

#[test]
fn requests_come_back() {
    let frame = encode_request("ping", " { } ").unwrap();
    assert_eq!(frame, b"\0\0\0\x09\x94\x00\x01\xa4ping\x80");
    let mut buffer = encode_request("query", "{\"type\": \"X\", \"n\": [1, -2.5]}").unwrap();
    let frame = try_take_frame(&mut buffer, Some(MAX_FRAME_SIZE)).unwrap().unwrap();
    let request = read_request(&frame).unwrap();
    assert_eq!((request.msgid, request.name.as_str()), (1, "query"));
    assert_eq!(request.method, Ok(RpcMethod::Query));
    assert_eq!(request.params, "{\"n\":[1,-2.5],\"type\":\"X\"}");
    assert_eq!(
        encode_request("ping", "{").unwrap_err(),
        "JSON parse error: EOF while parsing an object at line 1 column 1"
    );
    assert_eq!(request_frame(Ok(vec![7])), Ok(vec![0, 0, 0, 1, 7]));
    assert_eq!(request_frame(Err(text("x"))), Err(text("JSON parse error: x")));
}

#[test]
fn answers_come_back() {
    let frame = encode_response(&make_response(9, Ok(text("[true]")))).unwrap();
    assert_eq!(frame, b"\0\0\0\x06\x94\x01\x09\xc0\x91\xc3"[..].to_vec());
    assert_eq!(handle_rpc_frame(&frame[4..]), ReplyStep::Finish(text("[\n  true\n]")));
    assert!(read_request(&frame[4..]).is_err());
    let frame = encode_response(&make_response(9, Err(text("a \"b\"")))).unwrap();
    assert_eq!(
        handle_rpc_frame(&frame[4..]),
        ReplyStep::Fail(text("Server error: \"a \\\"b\\\"\""))
    );
    let mut note = make_response(9, Err(text("no")));
    note.msg_type = 2;
    assert_eq!(handle_rpc_frame(&encode_response(&note).unwrap()[4..]), ReplyStep::Wait);
    assert!(encode_response(&make_response(9, Ok(text("nil")))).is_err());
    assert_eq!(response_frame(Ok(vec![])), Ok(vec![0, 0, 0, 0]));
    assert_eq!(response_frame(Err(text("x"))), Err(text("x")));
}

#[test]
fn cached_completions_are_found() {
    let mut cache = CompletionCache::new();
    assert!(cache.is_empty());
    assert_eq!(cache.get("AActor", "Get"), None);
    cache.put(" AActor ", "Get", "[1]".to_string());
    cache.put("AActor", "Set", "[2]".to_string());
    assert_eq!(cache.get("AActor", " Get"), Some("[1]".to_string()));
    assert_eq!(cache.get("AActor", "Set"), Some("[2]".to_string()));
    cache.put("AActor", "Set", "[3]".to_string());
    assert_eq!(cache.get("AActor", "Set"), Some("[3]".to_string()));
    assert_eq!(cache.len(), 2);
}

#[test]
fn dropped_classes_are_not_found() {
    let mut cache = CompletionCache::new();
    cache.put("AActor", "Get", "[1]".to_string());
    cache.put("AActor", "Set", "[2]".to_string());
    cache.put("APawn", "Get", "[3]".to_string());
    cache.invalidate_class("AActor");
    assert_eq!(cache.get("AActor", "Get"), None);
    assert_eq!(cache.get("AActor", "Set"), None);
    assert_eq!(cache.get("APawn", "Get"), Some("[3]".to_string()));
    cache.invalidate_class("AActor");
    assert_eq!(cache.len(), 1);
    cache.put(" UFoo ", "Ge", "1".to_string());
    assert_eq!(cache.get("UFoo", "Ge"), Some("1".to_string()));
    cache.invalidate_class("UFoo");
    assert_eq!(cache.get("UFoo", "Ge"), None);
    cache.put("UFoo", "Ge", "1".to_string());
    cache.invalidate_class(" UFoo");
    assert_eq!(cache.get(" UFoo ", "Ge"), None);
    cache.clear();
    assert_eq!(cache.get("APawn", "Get"), None);
    assert_eq!(cache.len(), 0);
}

#[test]
fn full_cache_drops_what_was_used_longest_ago() {
    let mut cache = CompletionCache::new();
    for n in 0..COMPLETION_CACHE_CAPACITY {
        cache.put(&format!("C{}", n), "", n.to_string());
    }
    assert_eq!(cache.len(), COMPLETION_CACHE_CAPACITY);
    assert_eq!(cache.get("C0", ""), Some("0".to_string()));
    cache.put("New", "", "new".to_string());
    assert_eq!(cache.len(), COMPLETION_CACHE_CAPACITY);
    assert_eq!(cache.get("C1", ""), None);
    assert_eq!(cache.get("C0", ""), Some("0".to_string()));
    assert_eq!(cache.get("New", ""), Some("new".to_string()));
}

fn project(root: &str) -> ProjectEntry {
    ProjectEntry { root: root.to_string(), db_path: format!("{}/db.sqlite", root) }
}

#[test]
fn changes_belong_to_the_innermost_project() {
    let projects = vec![project("C:/Work"), project("C:/Work/Game"), project("D:/Other")];
    let found = find_project_for_path(&projects, "c:/work/GAME/Source/A.h").unwrap();
    assert_eq!(found.root_key, "C:/Work/Game");
    assert_eq!(found.db_path_unix, "C:/Work/Game/db.sqlite");
    assert!(find_project_for_path(&projects, "E:/A.h").is_none());
    let found = find_project_for_path(&projects, "C:/Work/Game2/a.h").unwrap();
    assert_eq!(found.root_key, "C:/Work");
    assert!(find_project_for_path(&vec![project("/p/Game")], "/p/Game2/a.h").is_none());
    assert!(find_project_for_path(&vec![project("/")], "/p/a.h").is_some());
}

#[test]
fn watched_paths_are_normalised() {
    assert_eq!(normalize_watched_path("\\\\?\\c:\\Game\\A.h", true), "C:/Game/A.h");
    assert_eq!(normalize_watched_path("/game/", false), "/game/");
}

#[test]
fn changes_are_classified() {
    assert_eq!(classify_change("/g/Config/DefaultEngine.INI", false), ChangeKind::Config);
    assert_eq!(classify_change("/g/Content/BP_A.uasset", false), ChangeKind::Asset);
    assert_eq!(classify_change("/g/Content/T_A.uasset", false), ChangeKind::Nothing);
    assert_eq!(classify_change("/g/Content/Any.umap", false), ChangeKind::Asset);
    assert_eq!(classify_change("/g/Source/A.cs", false), ChangeKind::Source);
    assert_eq!(classify_change("/g/Source/A.c", false), ChangeKind::Nothing);
    assert_eq!(classify_change("/g/Source/A", false), ChangeKind::Nothing);
}

#[test]
fn only_files_of_projects_are_followed_up() {
    let projects = vec![project("/g")];
    assert!(handle_file_change(&projects, "/g/A.h", false, false).is_none());
    assert!(handle_file_change(&projects, "/h/A.h", true, false).is_none());
    assert!(handle_file_change(&projects, "/g/A.txt", true, false).is_none());
    let change = handle_file_change(&projects, "/g/A.h", true, false).unwrap();
    assert_eq!(change.kind, ChangeKind::Source);
    assert_eq!(change.path, "/g/A.h");
    let input = rescan_input(&change, 5, 7, true);
    assert_eq!(input.path, "/g/A.h");
    assert_eq!((input.mtime, input.module_id), (5, Some(7)));
    assert_eq!(input.db_path.as_deref(), Some("\\g\\db.sqlite"));
}

#[test]
fn read_classes_are_invalidated() {
    let class = ClassInfo {
        class_name: "AThing".to_string(),
        namespace: None,
        base_classes: Vec::new(),
        symbol_type: "class".to_string(),
        line: 1,
        end_line: 2,
        range_start: 0,
        range_end: 1,
        members: Vec::new(),
        is_final: false,
        is_interface: false,
    };
    let mut result = ParseResult {
        path: "/g/A.h".to_string(),
        status: "parsed".to_string(),
        mtime: 1,
        data: None,
        module_id: None,
    };
    assert!(classes_to_invalidate(&result).is_empty());
    result.data = Some(ParseData {
        classes: vec![class],
        calls: Vec::new(),
        includes: Vec::new(),
        parser: String::new(),
        new_hash: String::new(),
    });
    assert_eq!(classes_to_invalidate(&result), vec!["AThing".to_string()]);
}

#[test]
fn changes_in_quick_succession_are_left_alone() {
    let mut seen = Debounce::new();
    assert!(!seen.should_skip_by_debounce("/a", 1000));
    assert!(seen.should_skip_by_debounce("/a", 1000 + WATCH_DEBOUNCE_NANOS - 1));
    assert!(!seen.should_skip_by_debounce("/b", 1001));
    assert!(!seen.should_skip_by_debounce("/a", 1000 + WATCH_DEBOUNCE_NANOS));
    assert!(seen.should_skip_by_debounce("/a", 500));
}

#[test]
fn server_stops_only_when_nobody_uses_it() {
    let mut clients = Clients::new(0);
    assert!(!clients.should_shutdown_for_idle(IDLE_SHUTDOWN_NANOS));
    assert!(clients.should_shutdown_for_idle(IDLE_SHUTDOWN_NANOS + 1));
    assert!(clients.register_client(10, 5));
    assert!(!clients.register_client(10, 6));
    assert!(clients.register_client(11, 7));
    assert!(!clients.should_shutdown_for_idle(IDLE_SHUTDOWN_NANOS * 2));
    clients.remove_dead_clients(&vec![11, 12]);
    assert_eq!(clients.pids, vec![11]);
    clients.remove_dead_clients(&vec![]);
    assert!(!clients.should_shutdown_for_idle(IDLE_SHUTDOWN_NANOS * 3));
    assert!(clients.should_shutdown_for_idle(IDLE_SHUTDOWN_NANOS * 3 + 1));
}

#[test]
fn ports_default() {
    assert_eq!(parse_port(None), 30110);
    assert_eq!(parse_port(Some("8080")), 8080);
    assert_eq!(parse_port(Some("65535")), 65535);
    assert_eq!(parse_port(Some("65536")), 30110);
    assert_eq!(parse_port(Some("-1")), 30110);
    assert_eq!(server_addr(8080), "127.0.0.1:8080");
}

#[test]
fn log_stands_beside_the_registry() {
    assert_eq!(log_path(None, false), "u_scanner.log");
    assert_eq!(log_path(Some("/var/reg.json"), false), "/var/u_scanner.log");
}

#[test]
fn command_line_is_read() {
    assert!(matches!(parse_command(&args(&["p"])), Ok(None)));
    assert!(matches!(parse_command(&args(&["p", "query"])), Err(MissingPayload)));
    match parse_command(&args(&["p", "query", "{}"])) {
        Ok(Some(Command::Proxy { method, payload })) => {
            assert_eq!(method, "query");
            assert_eq!(payload, "{}");
        }
        other => panic!("unexpected: {:?}", other),
    }
    assert!(matches!(
        parse_command(&args(&["p", "status", "x"])),
        Ok(Some(Command::ServerStatus { .. }))
    ));
    assert!(matches!(parse_command(&args(&["p", "what"])), Ok(Some(Command::ScanStdin))));
    assert!(is_inline_payload("  {\"a\":1}"));
    assert!(is_inline_payload("[1]"));
    assert!(!is_inline_payload("request.json"));
}

#[test]
fn commands_without_server() {
    let proxy = |method: &str| Command::Proxy { method: method.to_string(), payload: "{}".to_string() };
    assert!(matches!(plan_command(Some(proxy("query")), true), CliStep::AskServer { .. }));
    assert!(matches!(plan_command(Some(proxy("refresh")), false), CliStep::RefreshHere { .. }));
    match plan_command(Some(proxy("query")), false) {
        CliStep::Fail { message } => assert_eq!(message, "Server is not running for command: query"),
        other => panic!("unexpected: {:?}", other),
    }
    let status = Command::ServerStatus { method: "status".to_string() };
    assert!(matches!(plan_command(Some(status), false), CliStep::SayNotRunning));
    assert!(matches!(plan_command(None, true), CliStep::ReadScan));
    assert_eq!(plan_scan(" \n", true), ScanStep::Nothing);
    assert_eq!(plan_scan("{}", true), ScanStep::AskServer);
    assert_eq!(plan_scan("{}", false), ScanStep::ScanHere);
}
