use u_scanner::paths::{
    components_of, extension_of, file_name_of, file_stem_of, join_native, join_path,
    lower_extension_of, parent_of, path_begins_with,
};
use u_scanner::server::utils::{
    normalize_for, normalize_path_key, normalize_to_native, normalize_to_unix, path_key_for,
    path_starts_with,
};

fn chars(s: &str) -> Vec<char> {
    s.chars().collect()
}

fn text(s: Option<&[char]>) -> Option<String> {
    s.map(|v| v.iter().collect())
}

#[test]
fn unc_prefix_is_removed() {
    assert_eq!(normalize_to_unix("\\\\?\\C:\\Game\\A.h"), "C:/Game/A.h");
    assert_eq!(normalize_to_unix("//?/C:/Game"), "C:/Game");
}

#[test]
fn native_paths_follow_the_platform() {
    assert_eq!(normalize_for("C:/Game/A.h", true), "C:\\Game\\A.h");
    assert_eq!(normalize_for("C:\\Game\\A.h", false), "C:/Game/A.h");
    let native = normalize_to_native("a\\b/c");
    let separator = std::path::MAIN_SEPARATOR.to_string();
    assert_eq!(native, format!("a{}b{}c", separator, separator));
}

#[test]
fn path_keys_have_no_trailing_slash() {
    assert_eq!(path_key_for("c:\\Game\\\\", true), "C:/Game");
    assert_eq!(path_key_for("c:\\Game\\\\", false), "c:/Game");
    assert_eq!(path_key_for("/", false), "/");
    assert_eq!(path_key_for("C:/", true), "C:/");
    assert_eq!(path_key_for("C://", true), "C:/");
    assert_eq!(normalize_path_key("/game/"), "/game");
}

#[test]
fn key_of_a_key_is_the_key() {
    let key = path_key_for("\\\\?\\d:\\Work\\Game\\", true);
    assert_eq!(key, "D:/Work/Game");
    assert_eq!(path_key_for(&key, true), key);
}

#[test]
fn inside_ignores_case_but_not_boundaries() {
    assert!(path_starts_with("C:/Game/Source/A.h", "c:\\game"));
    assert!(path_starts_with("C:/Game", "C:/Game/"));
    assert!(!path_starts_with("C:/Game2/A.h", "C:/Game"));
    assert!(!path_starts_with("C:/", "C:/Game"));
    assert!(path_starts_with("/home/me/a.h", "/"));
    assert!(path_starts_with("C:/Game/A.h", "C:/"));
    assert!(path_starts_with("/", "/"));
    assert!(!path_starts_with("D:/Game", "C:/"));
}

#[test]
fn parents_and_names() {
    assert_eq!(text(parent_of(&chars("/a/b.c"), false)), Some("/a".to_string()));
    assert_eq!(text(parent_of(&chars("/a"), false)), Some("/".to_string()));
    assert_eq!(text(parent_of(&chars("a"), false)), Some(String::new()));
    assert_eq!(text(parent_of(&chars("/"), false)), None);
    assert_eq!(text(file_name_of(&chars("/a/b.c/"), false)), Some("b.c".to_string()));
    assert_eq!(text(file_name_of(&chars("a\\b"), true)), Some("b".to_string()));
    assert_eq!(text(file_name_of(&chars("a\\b"), false)), Some("a\\b".to_string()));
    assert_eq!(text(file_name_of(&chars("/a/.."), false)), None);
}

#[test]
fn extensions_and_stems() {
    assert_eq!(text(extension_of(&chars("/a/b.tar.GZ"), false)), Some("GZ".to_string()));
    assert_eq!(text(extension_of(&chars("/a/.git"), false)), None);
    assert_eq!(
        lower_extension_of(&chars("/a/b.tar.GZ"), false).map(|v| v.iter().collect::<String>()),
        Some("gz".to_string())
    );
    assert_eq!(file_stem_of(&chars("/a/b.tar.gz"), false), Some("b.tar".to_string()));
}

#[test]
fn components_are_compared_whole() {
    assert_eq!(components_of(&chars("/a//b/./c"), false).len(), 4);
    assert!(path_begins_with("/a/b/c", "/a/b", false));
    assert!(path_begins_with("/a/b/c", "/a/b/", false));
    assert!(!path_begins_with("/a/bc", "/a/b", false));
    assert!(!path_begins_with("a/b", "/a", false));
}

#[test]
fn paths_are_joined_with_one_separator() {
    assert_eq!(join_path("/a", "b"), "/a/b");
    assert_eq!(join_path("/a/", "b"), "/a/b");
    assert_eq!(join_native("C:\\a", "b", true), "C:\\a\\b");
    assert_eq!(join_native("/a", "b", false), "/a/b");
}
