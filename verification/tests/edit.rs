use u_scanner::edit::layout::{detect_newline, escape, validate_field, FieldFault};
use u_scanner::edit::{target, uproject};

const PROJECT: &str = "{\n\t\"FileVersion\": 3,\n\t\"Modules\": [\n\t\t{\n\t\t\t\"Name\": \"Game\",\n\t\t\t\"Type\": \"Runtime\"\n\t\t}\n\t]\n}\n";

#[test]
fn module_is_added_behind_the_last_one() {
    let out = uproject::add_module(PROJECT, "Extra", "Editor", "Default").unwrap().unwrap();
    assert!(out.contains("\"Name\": \"Game\""));
    assert!(out.contains("\"Name\": \"Extra\""));
    assert!(out.contains("\"Type\": \"Editor\""));
    assert!(out.contains("\"LoadingPhase\": \"Default\""));
    assert!(out.find("\"Game\"").unwrap() < out.find("\"Extra\"").unwrap());
    assert!(out.ends_with("]\n}\n"));
}

#[test]
fn module_that_is_there_is_not_added_again() {
    assert_eq!(uproject::add_module(PROJECT, "Game", "Runtime", "Default"), Ok(None));
}

#[test]
fn list_of_modules_is_made_where_there_is_none() {
    let out = uproject::add_module("{\n    \"FileVersion\": 3\n}\n", "Game", "Runtime", "Default")
        .unwrap()
        .unwrap();
    assert!(out.contains("\"Modules\": ["));
    assert!(out.contains("\"FileVersion\": 3,"));
    assert!(out.contains("\"Name\": \"Game\""));
}

#[test]
fn project_errors_are_reported() {
    assert_eq!(
        uproject::add_module(PROJECT, "", "Runtime", "Default"),
        Err(uproject::UprojectError::Name(FieldFault::Empty))
    );
    assert_eq!(
        uproject::add_module(PROJECT, "A", "a\0b", "Default"),
        Err(uproject::UprojectError::Type(FieldFault::Nul))
    );
    assert_eq!(
        uproject::add_module(PROJECT, "A", "Runtime", " "),
        Err(uproject::UprojectError::Phase(FieldFault::Empty))
    );
    assert_eq!(
        uproject::add_module("[1]", "A", "Runtime", "Default"),
        Err(uproject::UprojectError::RootNotObject)
    );
    assert_eq!(
        uproject::add_module("{}", "A", "Runtime", "Default"),
        Err(uproject::UprojectError::NoRootPair)
    );
}

const TARGET: &str = "using UnrealBuildTool;\n\npublic class GameTarget : TargetRules\n{\n    public GameTarget(TargetInfo Target) : base(Target)\n    {\n        Type = TargetType.Game;\n    }\n}\n";

#[test]
fn target_registers_a_module() {
    let once = target::add_module(TARGET, "Extra").unwrap();
    assert!(once.contains("\"Extra\""));
    assert!(once.contains(target::REGISTER_METHOD));
    assert_eq!(once.matches(target::REGISTER_METHOD).count(), 2);
    let more = target::add_module(&once, "Other").unwrap();
    assert!(more.contains("\"Extra\"") && more.contains("\"Other\""));
    assert_eq!(more.matches(target::REGISTER_METHOD).count(), 2);
    assert_eq!(more.matches("AddRange").count(), 1);
}

#[test]
fn target_registers_a_module_once() {
    let once = target::add_module(TARGET, "Extra").unwrap();
    assert_eq!(target::add_module(&once, "Extra"), Ok(once.clone()));
    let more = target::add_module(&once, "Other").unwrap();
    let most = target::add_module(&more, "Third").unwrap();
    for name in ["Extra", "Other", "Third"] {
        assert_eq!(most.matches(&format!("\"{}\"", name)).count(), 1);
        assert_eq!(target::add_module(&most, name), Ok(most.clone()));
    }
    assert!(most.contains("            \"Extra\",\n            \"Other\",\n            \"Third\"\n"));
}

fn with_list(list: &str) -> String {
    format!(
        "public class GameTarget : TargetRules\n{{\n    public GameTarget(TargetInfo Target) : base(Target)\n    {{\n        Type = TargetType.Game;\n        {m}();\n    }}\n\n    private void {m}()\n    {{\n        Other.AddRange(new string[] {{ \"Extra\" }});\n        ExtraModuleNames.AddRange(new string[] {list});\n    }}\n}}\n",
        m = target::REGISTER_METHOD,
        list = list
    )
}

#[test]
fn target_modules_go_into_the_list() {
    for list in [
        "{ \"A\", \"B\" }",
        "{ \"A\", \"B\", }",
        "{ }",
        "{\n        }",
        "{\n            \"A\", // first\n            \"B\" // last\n        }",
        "{\n            \"A\",\n            \"B\",\n        }",
    ] {
        let raw = with_list(list);
        let once = target::add_module(&raw, "Extra").unwrap();
        assert_eq!(once.matches("\"Extra\"").count(), 2, "{}", once);
        assert_eq!(target::add_module(&once, "Extra"), Ok(once.clone()));
        let twice = target::add_module(&once, "Last").unwrap();
        assert_eq!(target::add_module(&twice, "Extra"), Ok(twice.clone()));
        assert_eq!(target::add_module(&twice, "Last"), Ok(twice.clone()));
    }
    let raw = with_list("{ \"A\", \"B\" }");
    assert_eq!(target::add_module(&raw, "A"), Ok(raw.clone()));
    let out = target::add_module(&raw, "C").unwrap();
    assert!(out.contains("AddRange(new string[] { \"A\", \"B\",\n            \"C\"\n });\n"));
    let out = target::add_module(&with_list("{ }"), "C").unwrap();
    assert!(out.contains("AddRange(new string[] { \n            \"C\"\n});\n"));
}

#[test]
fn target_errors_are_reported() {
    assert_eq!(
        target::add_module(TARGET, ""),
        Err(target::TargetError::Name(FieldFault::Empty))
    );
    assert!(target::add_module("class A { }", "X").is_err());
}

#[test]
fn line_ends_are_kept() {
    let windows = PROJECT.replace('\n', "\r\n");
    let out = uproject::add_module(&windows, "Extra", "Editor", "Default").unwrap().unwrap();
    assert!(!out.replace("\r\n", "").contains('\n'));
    let raw: Vec<char> = "a\r\nb".chars().collect();
    assert_eq!(detect_newline(&raw), "\r\n");
}

#[test]
fn quotes_are_escaped() {
    let out: String = escape("a\"b\\c").iter().collect();
    assert_eq!(out, "a\\\"b\\\\c");
    assert_eq!(validate_field("ok"), None);
    assert_eq!(validate_field("  "), Some(FieldFault::Empty));
    assert_eq!(validate_field("a\0"), Some(FieldFault::Nul));
}
