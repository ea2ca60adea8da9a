use u_scanner::query::config::{
    apply_op, cache_is_fresh, display_config_source_name, format_value, get_available_platforms,
    get_config_stack, ini_files_in, parse_ini, platform_checks, platform_root_dirs,
    resolve_platform, usual_platform_names, ConfigOp, ConfigPlace, ConfigSource, ConfigValue,
};
use u_scanner::types::ConfigCache;

fn source(name: &str, content: &str) -> ConfigSource {
    ConfigSource {
        path: format!("C:\\Game\\Config\\{}", name),
        name: name.to_string(),
        content: content.to_string(),
    }
}

#[test]
fn ini_lines_are_read() {
    let items = parse_ini("; note\nTop=1\n[/Script/Engine]\n  # note\n+Paths = A ; tail\n!Paths=x\nnothing\n=v\n");
    assert_eq!(items.len(), 3);
    assert_eq!(items[0].key, "Top");
    assert_eq!(items[0].line, 2);
    assert_eq!(items[1].section, "/Script/Engine");
    assert_eq!(items[1].key, "Paths");
    assert_eq!(items[1].value, "A ; tail");
    assert_eq!(items[1].line, 5);
    assert!(items[1].op == ConfigOp::Add);
    assert_eq!(items[2].op.as_str(), "!");
}

#[test]
fn operations_change_the_value() {
    let v = apply_op(ConfigValue::Null, ConfigOp::Add, "a");
    let v = apply_op(v, ConfigOp::Add, "b");
    assert_eq!(format_value(&v), "[Array x2] b");
    let v = apply_op(v, ConfigOp::Remove, "b");
    assert_eq!(format_value(&v), "[Array x1] a");
    let v = apply_op(v, ConfigOp::Remove, "a");
    assert!(matches!(v, ConfigValue::Null));
    assert_eq!(format_value(&v), "nil");
    let v = apply_op(ConfigValue::Text("x".to_string()), ConfigOp::Clear, "y");
    assert!(matches!(v, ConfigValue::Null));
    let v = apply_op(v, ConfigOp::Assign, "z");
    assert_eq!(format_value(&v), "z");
}

#[test]
fn later_files_win_and_history_is_kept() {
    let platform = resolve_platform(
        "Default (Editor)",
        "Default",
        false,
        &vec![
            source("BaseEngine.ini", "[A]\nKey=1\n[B]\nOther=x\n"),
            source("DefaultEngine.ini", "[A]\nKey=2\n"),
        ],
    );
    assert_eq!(platform.name, "Default (Editor)");
    assert_eq!(platform.sections.len(), 2);
    let a = &platform.sections[0];
    assert_eq!(a.name, "A");
    assert_eq!(a.parameters[0].key, "Key");
    assert_eq!(a.parameters[0].value, "2");
    assert_eq!(a.parameters[0].history.len(), 2);
    assert_eq!(a.parameters[0].history[0].value, "1");
    assert_eq!(a.parameters[0].history[1].full_path, "C:/Game/Config/DefaultEngine.ini");
    assert_eq!(platform.sections[1].name, "B");
}

#[test]
fn engine_files_come_before_project_files() {
    let places = get_config_stack("/game", Some("/ue"), "Windows");
    let of = |p: &ConfigPlace| match p {
        ConfigPlace::File(f) => f.clone(),
        ConfigPlace::Directory(d) => d.clone(),
    };
    let first = of(&places[0]);
    let last = of(&places[places.len() - 1]);
    assert!(first.starts_with("/ue/"), "{}", first);
    assert!(last.starts_with("/game/"), "{}", last);
    assert!(get_config_stack("/game", None, "Default").iter().all(|p| of(p).starts_with("/game/")));
}

#[test]
fn only_ini_files_count() {
    let names = vec!["b.ini".to_string(), "a.INI".to_string(), "c.txt".to_string()];
    let files = ini_files_in(&names, false);
    assert_eq!(files, vec!["b.ini".to_string()]);
}

#[test]
fn platforms_are_sorted_and_unique() {
    let found = vec!["Windows".to_string(), "Android".to_string(), "Windows".to_string()];
    assert_eq!(get_available_platforms(&found), vec!["Android".to_string(), "Windows".to_string()]);
    assert!(usual_platform_names().contains(&"Windows"));
    assert!(!platform_root_dirs("/game", Some("/ue")).is_empty());
    assert!(!platform_checks("/ue/Engine/Config", "Windows").is_empty());
    assert!(!display_config_source_name("/game/Config/DefaultEngine.ini", false).is_empty());
}

#[test]
fn dirty_caches_are_not_used() {
    assert!(!cache_is_fresh(None));
    assert!(!cache_is_fresh(Some(&ConfigCache { data: Vec::new(), is_dirty: true })));
    assert!(cache_is_fresh(Some(&ConfigCache { data: Vec::new(), is_dirty: false })));
}
