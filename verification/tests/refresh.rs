use u_scanner::refresh::build_cs::parse_build_cs;
use u_scanner::refresh::dependencies::resolve_modules;
use u_scanner::refresh::files::{
    build_file_plan, load_existing_files, DirectoryRow, FileRow, FoundFile, KnownFile, ModuleEntry,
};
use u_scanner::refresh::project::{
    components_sorted_by_depth, discover_project, discovery_progress, examine_entry, find_uproject,
    BuildFile, RefreshContext, RefreshError,
};
use u_scanner::refresh::rows::{
    analysis_progress, analysis_start, component_row, deleted_keys, discovery_message,
    engine_version_rows, failed_result, global_module_row, module_row, upsert_non_source_files,
    UeBuildVersion,
};
use u_scanner::types::{ComponentDef, InputFile, ModuleDef, RefreshRequest, UEPConfig};

fn request(db: Option<&str>) -> RefreshRequest {
    RefreshRequest {
        msg_type: "refresh".to_string(),
        project_root: "/work\\Game".to_string(),
        engine_root: Some("/ue".to_string()),
        db_path: db.map(|s| s.to_string()),
        cache_db_path: None,
        config: UEPConfig {
            excludes_directory: vec!["Saved".to_string()],
            include_extensions: vec![".H".to_string(), "cpp".to_string()],
        },
        scope: None,
        vcs_hash: None,
    }
}

fn module(name: &str, public: &[&str], private: &[&str]) -> ModuleDef {
    ModuleDef {
        name: name.to_string(),
        path: format!("C:\\Game\\{}\\{}.Build.cs", name, name),
        root: format!("C:\\Game\\{}", name),
        public_deps: public.iter().map(|s| s.to_string()).collect(),
        private_deps: private.iter().map(|s| s.to_string()).collect(),
        mod_type: "Runtime".to_string(),
        owner_name: "Game".to_string(),
        component_name: Some("Game".to_string()),
    }
}

#[test]
fn requests_are_normalised() {
    let ctx = RefreshContext::new(&request(Some("/db\\x")), false).unwrap();
    assert_eq!(ctx.project_root, "/work/Game");
    assert_eq!(ctx.db_path_native, "/db/x");
    assert_eq!(ctx.scope, "Full");
    assert_eq!(ctx.excludes, vec!["saved".to_string()]);
    assert_eq!(ctx.include_extensions, vec!["h".to_string(), "cpp".to_string()]);
    assert_eq!(ctx.search_roots(), vec!["/work/Game".to_string(), "/ue".to_string()]);
    assert!(ctx.is_excluded("SAVED"));
    assert!(!ctx.is_excluded("Source"));
    let mut game = request(Some("/db"));
    game.scope = Some("Game".to_string());
    let ctx = RefreshContext::new(&game, false).unwrap();
    assert_eq!(ctx.search_roots().len(), 1);
}

#[test]
fn refresh_needs_a_database() {
    assert_eq!(
        RefreshContext::new(&request(None), false).err(),
        Some(RefreshError::DbPathRequired)
    );
}

#[test]
fn entries_are_examined() {
    let ctx = RefreshContext::new(&request(Some("/db")), false).unwrap();
    let plugin = examine_entry(&ctx, "/work/Game/Plugins/Foo/Foo.uplugin", true, false);
    let component = plugin.plugin.unwrap();
    assert_eq!(component.name, "Foo");
    assert_eq!(component.display_name, "Foo");
    assert_eq!(component.comp_type, "Plugin");
    assert_eq!(component.owner_name, "Game");
    assert!(plugin.file.is_none());
    let build = examine_entry(&ctx, "/ue/Source/Core/Core.Build.cs", true, false);
    assert_eq!(build.build_owner.as_deref(), Some("ue"));
    let source = examine_entry(&ctx, "/work/Game/Source/A.H", true, false);
    assert_eq!(source.file.unwrap().extension, "h");
    assert!(examine_entry(&ctx, "/work/Game/Source/A.H", false, false).file.is_none());
    assert!(examine_entry(&ctx, "/work/Game/Source/A.txt", true, false).file.is_none());
}

#[test]
fn build_files_name_their_dependencies() {
    let (public, private) = parse_build_cs(
        "PublicDependencyModuleNames.AddRange(new string[] { \"Engine\", \"Core\",\n \"Core\" });\n\
         PrivateDependencyModuleNames . Add( \"Slate\" );\n\
         PublicDependencyModuleNames.Add(\"UMG\");\n",
    );
    assert_eq!(public, vec!["Core".to_string(), "Engine".to_string(), "UMG".to_string()]);
    assert_eq!(private, vec!["Slate".to_string()]);
}

#[test]
fn dependencies_are_resolved_through_others() {
    let modules = vec![
        module("A", &["B"], &[]),
        module("B", &[], &["C"]),
        module("C", &["Outside"], &[]),
    ];
    let deep = resolve_modules(&modules);
    assert_eq!(deep[0], vec!["B".to_string(), "C".to_string(), "Outside".to_string()]);
    assert_eq!(deep[1], vec!["C".to_string(), "Outside".to_string()]);
    assert_eq!(deep[2], vec!["Outside".to_string()]);
}

#[test]
fn circular_dependencies_end() {
    let deep = resolve_modules(&vec![module("A", &["B"], &[]), module("B", &["A"], &[])]);
    assert_eq!(deep[0], vec!["A".to_string(), "B".to_string()]);
    let names = |list: &[&str]| list.iter().map(|s| s.to_string()).collect::<Vec<_>>();
    let a = || module("A", &["B", "C"], &[]);
    let b = || module("B", &["A"], &[]);
    let c = || module("C", &[], &[]);
    let all = names(&["A", "B", "C"]);
    assert_eq!(resolve_modules(&vec![a(), b(), c()]), vec![all.clone(), all.clone(), vec![]]);
    assert_eq!(resolve_modules(&vec![c(), b(), a()]), vec![vec![], all.clone(), all]);
}

#[test]
fn projects_are_discovered() {
    let ctx = RefreshContext::new(&request(Some("/db")), false).unwrap();
    let plugin = examine_entry(&ctx, "/work/Game/Plugins/Foo/Foo.uplugin", true, false).plugin.unwrap();
    let found = discover_project(
        &ctx,
        Some("/work/Game/Game.uproject"),
        &vec![plugin.clone(), plugin],
        &vec![BuildFile {
            path: "/work/Game/Plugins/Foo/Source/Foo/Foo.Build.cs".to_string(),
            owner: "Game".to_string(),
            content: "PublicDependencyModuleNames.Add(\"Core\");".to_string(),
        }],
        false,
    );
    let names: Vec<&str> = found.components.iter().map(|c| c.name.as_str()).collect();
    assert_eq!(names, vec!["Game", "ue", "Foo"]);
    assert_eq!(found.components[0].uproject_path.as_deref(), Some("/work/Game/Game.uproject"));
    let names: Vec<&str> = found.modules.iter().map(|m| m.name.as_str()).collect();
    assert_eq!(names, vec!["_GameConfig", "_EngineConfig", "_EngineShaders", "Foo"]);
    assert_eq!(found.modules[1].root, "/ue/Engine/Config");
    let foo = &found.modules[3];
    assert_eq!(foo.component_name.as_deref(), Some("Foo"));
    assert_eq!(foo.root, "/work/Game/Plugins/Foo/Source/Foo");
    assert_eq!(foo.public_deps, vec!["Core".to_string()]);
}

#[test]
fn longer_roots_come_first() {
    let component = |name: &str, root: &str| ComponentDef {
        name: name.to_string(),
        display_name: name.to_string(),
        comp_type: "Plugin".to_string(),
        root_path: root.to_string(),
        uproject_path: None,
        uplugin_path: Some("C:\\p".to_string()),
        owner_name: "Game".to_string(),
    };
    let sorted = components_sorted_by_depth(&vec![
        component("a", "/a"),
        component("b", "/a/bb"),
        component("c", "/c"),
    ]);
    let names: Vec<&str> = sorted.iter().map(|c| c.name.as_str()).collect();
    assert_eq!(names, vec!["b", "a", "c"]);
    assert_eq!(component_row(&sorted[0]).uplugin_path.as_deref(), Some("C:/p"));
    assert_eq!(
        find_uproject(&vec!["/g/a.txt".to_string(), "/g/G.UProject".to_string()], false).as_deref(),
        Some("/g/G.UProject")
    );
}

#[test]
fn progress_of_the_walk_is_bounded() {
    assert_eq!(discovery_progress(999), None);
    assert_eq!(discovery_progress(1000), Some(1));
    assert_eq!(discovery_progress(500_000), Some(69));
    assert_eq!(discovery_message(2000), "Discovery: 2000 files seen");
}

fn directory(id: i64, parent: Option<i64>, name: &str) -> DirectoryRow {
    DirectoryRow { id, parent, name: name.to_string() }
}

#[test]
fn recorded_paths_are_put_together() {
    let directories = vec![
        directory(3, Some(2), "Source"),
        directory(1, None, "C:"),
        directory(2, Some(1), "Game"),
        directory(9, Some(9), "Loop"),
    ];
    let file = |directory: i64| FileRow { directory, filename: "A.h".to_string(), mtime: 4 };
    let known = load_existing_files(&directories, &vec![file(3), file(77), file(1)]);
    assert_eq!(known[0].path, "C:/Game/Source/A.h");
    assert_eq!(known[0].mtime, 4);
    assert_eq!(known[1].path, "A.h");
    assert_eq!(known[2].path, "C:/A.h");
    let row = |id: i64, parent: Option<i64>, name: &str| DirectoryRow {
        id,
        parent,
        name: name.to_string(),
    };
    let unix = vec![row(1, None, "/"), row(2, Some(1), "home"), row(3, Some(2), "me")];
    let known = load_existing_files(&unix, &vec![file(3), file(1)]);
    assert_eq!(known[0].path, "/home/me/A.h");
    assert_eq!(known[1].path, "/A.h");
    let drive = vec![row(1, None, "C:"), row(2, Some(1), "/"), row(3, Some(2), "Game")];
    assert_eq!(load_existing_files(&drive, &vec![file(3)])[0].path, "C:/Game/A.h");
}

fn found(path: &str, extension: &str, mtime: i64) -> FoundFile {
    FoundFile { path: path.to_string(), extension: extension.to_string(), mtime }
}

#[test]
fn only_changed_sources_are_parsed() {
    let known = |path: &str, mtime: i64| KnownFile { path: path.to_string(), mtime };
    let entry = |root: &str, id: i64| ModuleEntry { root: root.to_string(), id };
    let plan = build_file_plan(
        &vec![
            found("/g/Core/A.h", "h", 5),
            found("/g/Core/Sub/B.cpp", "cpp", 7),
            found("/g/C.ini", "ini", 1),
            found("/x/D.h", "h", 2),
        ],
        &vec![known("/g/Core/A.h", 5), known("/g/Core/Sub/B.cpp", 6), known("/g/Gone.h", 1), known("/g/Gone.h", 2)],
        &vec![entry("/g/Core", 1), entry("/g/Core/Sub", 2), entry("/g", 3)],
        "\\g",
    );
    let sources: Vec<(&str, u64, Option<i64>)> = plan
        .sources_to_parse
        .iter()
        .map(|f| (f.path.as_str(), f.mtime, f.module_id))
        .collect();
    assert_eq!(sources, vec![("/g/Core/Sub/B.cpp", 7, Some(2)), ("/x/D.h", 2, Some(3))]);
    let others: Vec<(&str, i64)> =
        plan.other_files.iter().map(|f| (f.path.as_str(), f.module_id)).collect();
    assert_eq!(others, vec![("/g/Core/A.h", 1), ("/g/C.ini", 3)]);
    assert_eq!(plan.deleted, vec!["/g/Gone.h".to_string()]);
    let rows = upsert_non_source_files(&plan.other_files, false);
    assert_eq!(rows[0].key.directory, "/g/Core");
    assert_eq!(rows[0].key.filename, "A.h");
    assert!(rows[0].is_header && !rows[1].is_header);
    let keys = deleted_keys(&plan.deleted, false);
    assert_eq!((keys[0].directory.as_str(), keys[0].filename.as_str()), ("/g", "Gone.h"));
}

#[test]
fn modules_are_recorded_with_their_dependencies() {
    let row = module_row(&module("A", &[], &[]), &vec!["B\"".to_string(), "C".to_string()]).unwrap();
    assert_eq!(row.deep_dependencies.as_deref(), Some("[\"B\\\"\",\"C\"]"));
    assert_eq!(row.scope, "Individual");
    assert_eq!(row.build_cs_path.as_deref(), Some("C:/Game/A/A.Build.cs"));
    assert_eq!(row.map_root, "C:/Game/A");
    let global = global_module_row("C:\\Game");
    assert_eq!((global.name.as_str(), global.mod_type.as_str(), global.scope.as_str()), ("_Global", "Global", "Game"));
    assert_eq!(global.map_root, "C:/Game");
}

#[test]
fn engine_versions_are_recorded() {
    let rows = engine_version_rows(&UeBuildVersion {
        major: 5,
        minor: -3,
        patch: 0,
        branch: "++UE5".to_string(),
    });
    let pairs: Vec<(&str, &str)> =
        rows.iter().map(|r| (r.key.as_str(), r.value.as_str())).collect();
    assert_eq!(
        pairs,
        vec![
            ("ue_version_major", "5"),
            ("ue_version_minor", "-3"),
            ("ue_version_patch", "0"),
            ("ue_version_branch", "++UE5"),
        ]
    );
}

#[test]
fn analysis_is_reported() {
    assert!(analysis_start(0).is_none());
    assert_eq!(analysis_start(3).unwrap().message, "Analyzing 3 files...");
    let (percent, report) = analysis_progress(1, 200, 0).map_or((0, None), |(p, r)| (p, Some(r)));
    assert_eq!(percent, 0);
    assert!(report.is_none());
    let (percent, report) = analysis_progress(2, 200, 0).unwrap();
    assert_eq!(percent, 1);
    assert_eq!(report.message, "Analyzing: 2/200");
    assert_eq!(analysis_progress(200, 200, 100).unwrap().0, 100);
    let failed = failed_result(&InputFile {
        path: "/a".to_string(),
        mtime: 3,
        old_hash: None,
        module_id: Some(1),
        db_path: None,
    });
    assert_eq!(failed.status, "error");
    assert_eq!((failed.mtime, failed.module_id), (3, Some(1)));
}
