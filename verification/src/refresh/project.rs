//! What a project consists of: its components and modules, and the files that
//! are indexed.

use vstd::prelude::*;
use vstd::slice::slice_subrange;

use super::build_cs::parse_build_cs;
#[allow(unused_imports)]
use super::build_cs::{added_names, captured, ADD_RANGE, ADD_SINGLE};
#[allow(unused_imports)]
use crate::order::ascending;
use crate::paths::{file_name_of, file_stem_of, join_native, lower_extension_of, parent_of,
    path_begins_with};
#[allow(unused_imports)]
use crate::paths::{begins_with, file_name, joined_native, lower_extension, name_stem, parent};
use crate::text::{byte_count, chars_of, copy_opt, ends_with_str, find_char_at, has_text, is_str,
    owned, replace_char, str_eq, string_of, to_lower};
#[allow(unused_imports)]
use crate::text::{byte_len, ends, index_of, lower, opt_str, opt_text, swap_char, texts, views};
use crate::types::{ComponentDef, ModuleDef, RefreshRequest};

verus! {

/// What a build file ends with, in lower case.
pub const BUILD_CS_SUFFIX: &'static str = ".build.cs";

// ---------------------------------------------------------------------------
// Requests
// ---------------------------------------------------------------------------
/// Why a refresh is refused.
#[derive(Debug, Clone, Copy, PartialEq, Eq, Structural)]
pub enum RefreshError {
    /// The request names no database.
    DbPathRequired,
    /// The project does not exist.
    ProjectRootMissing,
}

/// A refresh as it is carried out.
#[derive(Debug, Clone)]
pub struct RefreshContext {
    pub project_root: String,
    pub engine_root: Option<String>,
    pub db_path_native: String,
    pub scope: String,
    pub excludes: Vec<String>,
    pub include_extensions: Vec<String>,
}

/// The path with the separators of the platform.
pub open spec fn native(s: Seq<char>, windows: bool) -> Seq<char> {
    if windows {
        swap_char(s, '/', '\\')
    } else {
        swap_char(s, '\\', '/')
    }
}

/// The path with the separators of the platform.
pub fn to_native_path(path: &str, windows: bool) -> (r: String)
    ensures
        r@ == native(path@, windows),
{
    let v = chars_of(path);
    let v = if windows {
        replace_char(v.as_slice(), '/', '\\')
    } else {
        replace_char(v.as_slice(), '\\', '/')
    };
    string_of(v.as_slice())
}

/// The path with slashes only.
pub fn normalize_path(path: &str) -> (r: String)
    ensures
        r@ == swap_char(path@, '\\', '/'),
{
    let v = chars_of(path);
    let v = replace_char(v.as_slice(), '\\', '/');
    string_of(v.as_slice())
}

/// The names in lower case.
pub open spec fn lower_all(v: Seq<Seq<char>>) -> Seq<Seq<char>> {
    v.map_values(|s: Seq<char>| lower(s))
}

/// The extension without leading dots, in lower case.
pub open spec fn bare(s: Seq<char>) -> Seq<char>
    decreases s.len(),
{
    if s.len() > 0 && s[0] == '.' {
        bare(s.skip(1))
    } else {
        lower(s)
    }
}

/// The extensions without leading dots, in lower case.
pub open spec fn bare_all(v: Seq<Seq<char>>) -> Seq<Seq<char>> {
    v.map_values(|s: Seq<char>| bare(s))
}

/// The names in lower case.
fn lower_names(v: &Vec<String>) -> (r: Vec<String>)
    ensures
        texts(r@) == lower_all(texts(v@)),
{
    let ghost goal = lower_all(texts(v@));
    let mut out: Vec<String> = Vec::new();
    let mut i: usize = 0;
    assert(texts(out@) =~= goal.take(0));
    while i < v.len()
        invariant
            i <= v@.len(),
            goal == lower_all(texts(v@)),
            texts(out@) == goal.take(i as int),
        decreases v.len() - i,
    {
        assert(texts(v@)[i as int] == v@[i as int]@);
        let c = chars_of(v[i].as_str());
        let l = to_lower(c.as_slice());
        let ghost before = texts(out@);
        out.push(string_of(l.as_slice()));
        assert(texts(out@) =~= before.push(l@));
        assert(texts(out@) =~= goal.take(i + 1));
        i = i + 1;
    }
    assert(goal.take(goal.len() as int) =~= goal);
    out
}

/// The extension without leading dots, in lower case.
fn bare_extension(s: &str) -> (r: String)
    ensures
        r@ == bare(s@),
{
    let v = chars_of(s);
    let mut i: usize = 0;
    assert(v@.skip(0) =~= v@);
    while i < v.len() && v[i] == '.'
        invariant
            i <= v@.len(),
            bare(v@) == bare(v@.skip(i as int)),
        decreases v.len() - i,
    {
        assert(v@.skip(i as int).skip(1) =~= v@.skip(i + 1));
        i = i + 1;
    }
    assert(v@.subrange(i as int, v@.len() as int) =~= v@.skip(i as int));
    let l = to_lower(slice_subrange(v.as_slice(), i, v.len()));
    string_of(l.as_slice())
}

/// The extensions without leading dots, in lower case.
fn bare_names(v: &Vec<String>) -> (r: Vec<String>)
    ensures
        texts(r@) == bare_all(texts(v@)),
{
    let ghost goal = bare_all(texts(v@));
    let mut out: Vec<String> = Vec::new();
    let mut i: usize = 0;
    assert(texts(out@) =~= goal.take(0));
    while i < v.len()
        invariant
            i <= v@.len(),
            goal == bare_all(texts(v@)),
            texts(out@) == goal.take(i as int),
        decreases v.len() - i,
    {
        assert(texts(v@)[i as int] == v@[i as int]@);
        let e = bare_extension(v[i].as_str());
        let ghost before = texts(out@);
        out.push(e);
        assert(texts(out@) =~= before.push(e@));
        assert(texts(out@) =~= goal.take(i + 1));
        i = i + 1;
    }
    assert(goal.take(goal.len() as int) =~= goal);
    out
}

impl RefreshContext {
    /// The refresh is the one that was asked for.
    pub open spec fn is_for(self, req: RefreshRequest, windows: bool) -> bool {
        &&& self.project_root@ == native(req.project_root@, windows)
        &&& opt_text(self.engine_root) == (match req.engine_root {
            Some(e) => Some(native(e@, windows)),
            None => None,
        })
        &&& req.db_path matches Some(db) && self.db_path_native@ == native(db@, windows)
        &&& self.scope@ == (match req.scope {
            Some(s) => s@,
            None => "Full"@,
        })
        &&& texts(self.excludes@) == lower_all(texts(req.config.excludes_directory@))
        &&& texts(self.include_extensions@) == bare_all(texts(req.config.include_extensions@))
    }

    /// The refresh that a request asks for.
    pub fn new(req: &RefreshRequest, windows: bool) -> (r: Result<RefreshContext, RefreshError>)
        ensures
            match r {
                Ok(c) => c.is_for(*req, windows),
                Err(e) => e == RefreshError::DbPathRequired && req.db_path is None,
            },
            req.db_path is Some ==> r is Ok,
    {
        let db = match &req.db_path {
            Some(p) => p,
            None => {
                return Err(RefreshError::DbPathRequired);
            },
        };
        let engine_root: Option<String> = match &req.engine_root {
            Some(e) => Some(to_native_path(e.as_str(), windows)),
            None => None,
        };
        let scope = match &req.scope {
            Some(s) => s.clone(),
            None => owned("Full"),
        };
        Ok(
            RefreshContext {
                project_root: to_native_path(req.project_root.as_str(), windows),
                engine_root,
                db_path_native: to_native_path(db.as_str(), windows),
                scope,
                excludes: lower_names(&req.config.excludes_directory),
                include_extensions: bare_names(&req.config.include_extensions),
            },
        )
    }

    /// The directories that are walked: that of the project, and that of the
    /// engine where the scope takes it in.
    pub fn search_roots(&self) -> (r: Vec<String>)
        ensures
            texts(r@) == (match self.engine_root {
                Some(e) if self.scope@ == "Full"@ || self.scope@ == "Engine"@ => seq![
                    self.project_root@,
                    e@,
                ],
                _ => seq![self.project_root@],
            }),
    {
        let mut out = vec![self.project_root.clone()];
        assert(texts(out@) =~= seq![self.project_root@]);
        if str_eq(self.scope.as_str(), "Full") || str_eq(self.scope.as_str(), "Engine") {
            match &self.engine_root {
                Some(e) => {
                    out.push(e.clone());
                    assert(texts(out@) =~= seq![self.project_root@, e@]);
                },
                None => {},
            }
        }
        out
    }

    /// Whether an entry of the walk is left out, with all that is below it.
    pub fn is_excluded(&self, name: &str) -> (r: bool)
        ensures
            r == texts(self.excludes@).contains(lower(name@)),
    {
        let v = chars_of(name);
        let l = to_lower(v.as_slice());
        let s = string_of(l.as_slice());
        has_text(&self.excludes, s.as_str())
    }
}

// ---------------------------------------------------------------------------
// Components and modules
// ---------------------------------------------------------------------------
/// What a component says.
pub struct ComponentView {
    pub name: Seq<char>,
    pub display_name: Seq<char>,
    pub comp_type: Seq<char>,
    pub root_path: Seq<char>,
    pub uproject_path: Option<Seq<char>>,
    pub uplugin_path: Option<Seq<char>>,
    pub owner_name: Seq<char>,
}

impl View for ComponentDef {
    type V = ComponentView;

    open spec fn view(&self) -> ComponentView {
        ComponentView {
            name: self.name@,
            display_name: self.display_name@,
            comp_type: self.comp_type@,
            root_path: self.root_path@,
            uproject_path: opt_text(self.uproject_path),
            uplugin_path: opt_text(self.uplugin_path),
            owner_name: self.owner_name@,
        }
    }
}

/// What a module says.
pub struct ModuleView {
    pub name: Seq<char>,
    pub path: Seq<char>,
    pub root: Seq<char>,
    pub public_deps: Seq<Seq<char>>,
    pub private_deps: Seq<Seq<char>>,
    pub mod_type: Seq<char>,
    pub owner_name: Seq<char>,
    pub component_name: Option<Seq<char>>,
}

impl View for ModuleDef {
    type V = ModuleView;

    open spec fn view(&self) -> ModuleView {
        ModuleView {
            name: self.name@,
            path: self.path@,
            root: self.root@,
            public_deps: texts(self.public_deps@),
            private_deps: texts(self.private_deps@),
            mod_type: self.mod_type@,
            owner_name: self.owner_name@,
            component_name: opt_text(self.component_name),
        }
    }
}

/// The name of a directory.
pub open spec fn root_name(path: Seq<char>, windows: bool) -> Seq<char> {
    match file_name(path, windows) {
        Some(n) => n,
        None => "Unknown"@,
    }
}

/// The name of a directory.
pub fn root_name_of(path: &str, windows: bool) -> (r: String)
    ensures
        r@ == root_name(path@, windows),
{
    let v = chars_of(path);
    match file_name_of(v.as_slice(), windows) {
        Some(n) => string_of(n),
        None => owned("Unknown"),
    }
}

/// The components of every project: the game, and the engine where it is known.
pub open spec fn first_components(
    project: Seq<char>,
    engine: Option<Seq<char>>,
    uproject: Option<Seq<char>>,
    windows: bool,
) -> Seq<ComponentView> {
    let name = root_name(project, windows);
    let game = ComponentView {
        name,
        display_name: match file_name(project, windows) {
            Some(n) => n,
            None => name,
        },
        comp_type: "Game"@,
        root_path: project,
        uproject_path: uproject,
        uplugin_path: None,
        owner_name: name,
    };
    match engine {
        Some(e) => seq![
            game,
            ComponentView {
                name: root_name(e, windows),
                display_name: "Engine"@,
                comp_type: "Engine"@,
                root_path: e,
                uproject_path: None,
                uplugin_path: None,
                owner_name: root_name(e, windows),
            },
        ],
        None => seq![game],
    }
}

/// The components of every project.
pub fn base_components(
    project_root: &str,
    engine_root: Option<&str>,
    uproject: Option<&str>,
    windows: bool,
) -> (r: Vec<ComponentDef>)
    ensures
        views(r@) == first_components(
            project_root@,
            opt_str(engine_root),
            opt_str(uproject),
            windows,
        ),
{
    let name = root_name_of(project_root, windows);
    let v = chars_of(project_root);
    let display_name = match file_name_of(v.as_slice(), windows) {
        Some(n) => string_of(n),
        None => name.clone(),
    };
    let uproject_path: Option<String> = match uproject {
        Some(p) => Some(owned(p)),
        None => None,
    };
    let mut out = vec![
        ComponentDef {
            name: name.clone(),
            display_name,
            comp_type: owned("Game"),
            root_path: owned(project_root),
            uproject_path,
            uplugin_path: None,
            owner_name: name,
        },
    ];
    match engine_root {
        Some(e) => {
            let engine = root_name_of(e, windows);
            out.push(
                ComponentDef {
                    name: engine.clone(),
                    display_name: owned("Engine"),
                    comp_type: owned("Engine"),
                    root_path: owned(e),
                    uproject_path: None,
                    uplugin_path: None,
                    owner_name: engine,
                },
            );
        },
        None => {},
    }
    assert(views(out@) =~= first_components(
        project_root@,
        opt_str(engine_root),
        opt_str(uproject),
        windows,
    ));
    out
}

/// A module that stands for a directory without a build file.
pub open spec fn directory_module(
    name: Seq<char>,
    path: Seq<char>,
    kind: Seq<char>,
    owner: Seq<char>,
) -> ModuleView {
    ModuleView {
        name,
        path,
        root: path,
        public_deps: seq![],
        private_deps: seq![],
        mod_type: kind,
        owner_name: owner,
        component_name: Some(owner),
    }
}

/// A module that stands for a directory without a build file.
fn make_directory_module(name: &str, path: String, kind: &str, owner: &str) -> (r: ModuleDef)
    ensures
        r@ == directory_module(name@, path@, kind@, owner@),
{
    let r = ModuleDef {
        name: owned(name),
        root: path.clone(),
        path,
        public_deps: Vec::new(),
        private_deps: Vec::new(),
        mod_type: owned(kind),
        owner_name: owned(owner),
        component_name: Some(owned(owner)),
    };
    assert(r@.public_deps =~= seq![]);
    assert(r@.private_deps =~= seq![]);
    r
}

/// The modules of every project that have no build file.
pub open spec fn first_modules(project: Seq<char>, engine: Option<Seq<char>>, windows: bool) -> Seq<
    ModuleView,
> {
    let game = directory_module(
        "_GameConfig"@,
        joined_native(project, "Config"@, windows),
        "Config"@,
        root_name(project, windows),
    );
    match engine {
        Some(e) => seq![
            game,
            directory_module(
                "_EngineConfig"@,
                joined_native(e, "Engine/Config"@, windows),
                "Config"@,
                root_name(e, windows),
            ),
            directory_module(
                "_EngineShaders"@,
                joined_native(e, "Engine/Shaders"@, windows),
                "Shader"@,
                root_name(e, windows),
            ),
        ],
        None => seq![game],
    }
}

/// The modules of every project that have no build file.
pub fn virtual_modules(project_root: &str, engine_root: Option<&str>, windows: bool) -> (r: Vec<
    ModuleDef,
>)
    ensures
        views(r@) == first_modules(project_root@, opt_str(engine_root), windows),
{
    let name = root_name_of(project_root, windows);
    let mut out = vec![
        make_directory_module(
            "_GameConfig",
            join_native(project_root, "Config", windows),
            "Config",
            name.as_str(),
        ),
    ];
    match engine_root {
        Some(e) => {
            let engine = root_name_of(e, windows);
            out.push(
                make_directory_module(
                    "_EngineConfig",
                    join_native(e, "Engine/Config", windows),
                    "Config",
                    engine.as_str(),
                ),
            );
            out.push(
                make_directory_module(
                    "_EngineShaders",
                    join_native(e, "Engine/Shaders", windows),
                    "Shader",
                    engine.as_str(),
                ),
            );
        },
        None => {},
    }
    assert(views(out@) =~= first_modules(project_root@, opt_str(engine_root), windows));
    out
}

/// The first of the paths that is a project file.
pub open spec fn uproject_among(paths: Seq<Seq<char>>, windows: bool, i: int) -> Option<Seq<char>>
    decreases paths.len() - i,
{
    if i < 0 || i >= paths.len() {
        None
    } else if lower_extension(paths[i], windows) == Some("uproject"@) {
        Some(paths[i])
    } else {
        uproject_among(paths, windows, i + 1)
    }
}

/// The first of the paths that is a project file.
pub fn find_uproject(paths: &Vec<String>, windows: bool) -> (r: Option<String>)
    ensures
        opt_text(r) == uproject_among(texts(paths@), windows, 0),
{
    let ghost all = texts(paths@);
    let mut i: usize = 0;
    while i < paths.len()
        invariant
            i <= paths@.len(),
            all == texts(paths@),
            uproject_among(all, windows, 0) == uproject_among(all, windows, i as int),
        decreases paths.len() - i,
    {
        assert(all[i as int] == paths@[i as int]@);
        let v = chars_of(paths[i].as_str());
        match lower_extension_of(v.as_slice(), windows) {
            Some(e) => {
                if is_str(e.as_slice(), "uproject") {
                    return Some(paths[i].clone());
                }
            },
            None => {},
        }
        i = i + 1;
    }
    None
}

// ---------------------------------------------------------------------------
// Entries of the walk
// ---------------------------------------------------------------------------
/// The component of a plugin, from the path of its description.
pub open spec fn plugin_of(
    path: Seq<char>,
    project: Seq<char>,
    engine: Option<Seq<char>>,
    windows: bool,
) -> Option<ComponentView> {
    match (parent(path, windows), file_name(path, windows)) {
        (Some(root), Some(name)) => Some(
            ComponentView {
                name: root_name(root, windows),
                display_name: name_stem(name),
                comp_type: "Plugin"@,
                root_path: root,
                uproject_path: None,
                uplugin_path: Some(path),
                owner_name: if begins_with(root, project, windows) {
                    root_name(project, windows)
                } else {
                    match engine {
                        Some(e) => root_name(e, windows),
                        None => "Engine"@,
                    }
                },
            },
        ),
        _ => None,
    }
}

/// The component of a plugin, from the path of its description.
pub fn plugin_component(
    path: &str,
    project_root: &str,
    engine_root: Option<&str>,
    windows: bool,
) -> (r: Option<ComponentDef>)
    ensures
        match r {
            Some(c) => plugin_of(path@, project_root@, opt_str(engine_root), windows) == Some(c@),
            None => plugin_of(path@, project_root@, opt_str(engine_root), windows) is None,
        },
{
    let v = chars_of(path);
    let root = match parent_of(v.as_slice(), windows) {
        Some(p) => string_of(p),
        None => {
            return None;
        },
    };
    let display_name = match file_stem_of(v.as_slice(), windows) {
        Some(s) => s,
        None => {
            return None;
        },
    };
    let owner_name = if path_begins_with(root.as_str(), project_root, windows) {
        root_name_of(project_root, windows)
    } else {
        match engine_root {
            Some(e) => root_name_of(e, windows),
            None => owned("Engine"),
        }
    };
    Some(
        ComponentDef {
            name: root_name_of(root.as_str(), windows),
            display_name,
            comp_type: owned("Plugin"),
            root_path: root,
            uproject_path: None,
            uplugin_path: Some(owned(path)),
            owner_name,
        },
    )
}

/// Whose a path is: the engine's, the project's, or unknown.
pub open spec fn owner_of(
    path: Seq<char>,
    project: Seq<char>,
    engine: Option<Seq<char>>,
    windows: bool,
) -> Seq<char> {
    match engine {
        Some(e) if begins_with(path, e, windows) => root_name(e, windows),
        _ => if begins_with(path, project, windows) {
            root_name(project, windows)
        } else {
            "Unknown"@
        },
    }
}

/// Whose a path is.
pub fn owner_name_for_path(
    path: &str,
    project_root: &str,
    engine_root: Option<&str>,
    windows: bool,
) -> (r: String)
    ensures
        r@ == owner_of(path@, project_root@, opt_str(engine_root), windows),
{
    match engine_root {
        Some(e) => {
            if path_begins_with(path, e, windows) {
                return root_name_of(e, windows);
            }
        },
        None => {},
    }
    if path_begins_with(path, project_root, windows) {
        root_name_of(project_root, windows)
    } else {
        owned("Unknown")
    }
}

/// The path is that of a build file.
pub open spec fn build_file(path: Seq<char>, windows: bool) -> bool {
    match file_name(path, windows) {
        Some(n) => ends(lower(n), BUILD_CS_SUFFIX@),
        None => false,
    }
}

/// Whether the path is that of a build file.
pub fn is_build_cs(path: &str, windows: bool) -> (r: bool)
    ensures
        r == build_file(path@, windows),
{
    let v = chars_of(path);
    match file_name_of(v.as_slice(), windows) {
        Some(n) => {
            let l = to_lower(n);
            ends_with_str(l.as_slice(), BUILD_CS_SUFFIX)
        },
        None => false,
    }
}

/// The extension of a path in lower case, or nothing.
pub open spec fn ext_of(path: Seq<char>, windows: bool) -> Seq<char> {
    match lower_extension(path, windows) {
        Some(e) => e,
        None => ""@,
    }
}

/// The extension of a path in lower case, or nothing.
pub fn file_extension(path: &str, windows: bool) -> (r: String)
    ensures
        r@ == ext_of(path@, windows),
{
    let v = chars_of(path);
    match lower_extension_of(v.as_slice(), windows) {
        Some(e) => string_of(e.as_slice()),
        None => owned(""),
    }
}

/// A file that is indexed.
#[derive(Debug, Clone)]
pub struct DiscoveredFile {
    pub path: String,
    pub extension: String,
}

/// What an entry of the walk adds: a plugin, a build file with its owner, or a
/// file.
#[derive(Debug, Clone)]
pub struct EntryFinding {
    pub plugin: Option<ComponentDef>,
    pub build_owner: Option<String>,
    pub file: Option<DiscoveredFile>,
}

/// What an entry of the walk adds.
pub fn examine_entry(ctx: &RefreshContext, path: &str, is_file: bool, windows: bool) -> (r:
    EntryFinding)
    ensures
        match r.plugin {
            Some(c) => ext_of(path@, windows) == "uplugin"@ && plugin_of(
                path@,
                ctx.project_root@,
                opt_text(ctx.engine_root),
                windows,
            ) == Some(c@),
            None => ext_of(path@, windows) != "uplugin"@ || plugin_of(
                path@,
                ctx.project_root@,
                opt_text(ctx.engine_root),
                windows,
            ) is None,
        },
        opt_text(r.build_owner) == (if build_file(path@, windows) {
            Some(owner_of(path@, ctx.project_root@, opt_text(ctx.engine_root), windows))
        } else {
            None
        }),
        match r.file {
            Some(f) => is_file && texts(ctx.include_extensions@).contains(ext_of(path@, windows))
                && f.path@ == swap_char(path@, '\\', '/') && f.extension@ == ext_of(
                path@,
                windows,
            ),
            None => !is_file || !texts(ctx.include_extensions@).contains(ext_of(path@, windows)),
        },
{
    let extension = file_extension(path, windows);
    let engine: Option<&str> = match &ctx.engine_root {
        Some(e) => Some(e.as_str()),
        None => None,
    };
    let plugin: Option<ComponentDef> = if str_eq(extension.as_str(), "uplugin") {
        plugin_component(path, ctx.project_root.as_str(), engine, windows)
    } else {
        None
    };
    let build_owner: Option<String> = if is_build_cs(path, windows) {
        Some(owner_name_for_path(path, ctx.project_root.as_str(), engine, windows))
    } else {
        None
    };
    let file: Option<DiscoveredFile> = if is_file && has_text(
        &ctx.include_extensions,
        extension.as_str(),
    ) {
        Some(DiscoveredFile { path: normalize_path(path), extension })
    } else {
        None
    };
    EntryFinding { plugin, build_owner, file }
}

/// How far the walk counts as having come: one step for each thousand entries,
/// up to a bound.
pub fn discovery_progress(count: usize) -> (r: Option<usize>)
    ensures
        r == (if count % 1000 != 0 {
            None
        } else if count / 1000 < 1 {
            Some(1usize)
        } else if count / 1000 > 69 {
            Some(69usize)
        } else {
            Some((count / 1000) as usize)
        }),
{
    if count % 1000 != 0 {
        return None;
    }
    let n: usize = count / 1000;
    if n < 1 {
        Some(1)
    } else if n > 69 {
        Some(69)
    } else {
        Some(n)
    }
}

// ---------------------------------------------------------------------------
// Putting it together
// ---------------------------------------------------------------------------
/// One of the components has the name.
pub open spec fn has_name(cs: Seq<ComponentView>, name: Seq<char>) -> bool {
    exists|i: int| 0 <= i < cs.len() && (#[trigger] cs[i]).name == name
}

/// The first `n` components, of several of one name the first.
pub open spec fn deduped(cs: Seq<ComponentView>, n: int) -> Seq<ComponentView>
    decreases n,
{
    if n <= 0 {
        seq![]
    } else {
        let before = deduped(cs, n - 1);
        if has_name(before, cs[n - 1].name) {
            before
        } else {
            before.push(cs[n - 1])
        }
    }
}

/// No two of the components that are kept have the same name, and every name is
/// kept.
pub proof fn law_deduped(cs: Seq<ComponentView>, n: int)
    requires
        0 <= n <= cs.len(),
    ensures
        forall|i: int, j: int|
            0 <= i < j < deduped(cs, n).len() ==> (#[trigger] deduped(cs, n)[i]).name != (
            #[trigger] deduped(cs, n)[j]).name,
        forall|i: int| 0 <= i < n ==> has_name(deduped(cs, n), (#[trigger] cs[i]).name),
    decreases n,
{
    if n > 0 {
        law_deduped(cs, n - 1);
        let before = deduped(cs, n - 1);
        let after = deduped(cs, n);
        assert forall|i: int| 0 <= i < n implies has_name(after, (#[trigger] cs[i]).name) by {
            if i < n - 1 {
                let j = choose|j: int| 0 <= j < before.len() && (#[trigger] before[j]).name
                    == cs[i].name;
                assert(after[j] == before[j]);
            } else if !has_name(before, cs[i].name) {
                assert(after[after.len() - 1] == cs[i]);
            }
        }
    }
}

/// A copy of a component.
fn copy_component(c: &ComponentDef) -> (r: ComponentDef)
    ensures
        r@ == c@,
{
    ComponentDef {
        name: c.name.clone(),
        display_name: c.display_name.clone(),
        comp_type: c.comp_type.clone(),
        root_path: c.root_path.clone(),
        uproject_path: copy_opt(&c.uproject_path),
        uplugin_path: copy_opt(&c.uplugin_path),
        owner_name: c.owner_name.clone(),
    }
}

/// Whether one of the components has the name.
fn is_known_name(cs: &Vec<ComponentDef>, name: &str) -> (r: bool)
    ensures
        r == has_name(views(cs@), name@),
{
    let ghost all = views(cs@);
    let mut i: usize = 0;
    while i < cs.len()
        invariant
            i <= cs@.len(),
            all == views(cs@),
            forall|j: int| 0 <= j < i ==> (#[trigger] all[j]).name != name@,
        decreases cs.len() - i,
    {
        assert(all[i as int] == cs@[i as int]@);
        if str_eq(cs[i].name.as_str(), name) {
            assert(all[i as int].name == name@);
            return true;
        }
        i = i + 1;
    }
    false
}

/// The components, of several of one name the first.
pub fn dedupe_components(components: &Vec<ComponentDef>) -> (r: Vec<ComponentDef>)
    ensures
        views(r@) == deduped(views(components@), components@.len() as int),
{
    let ghost all = views(components@);
    let mut out: Vec<ComponentDef> = Vec::new();
    assert(views(out@) =~= Seq::<ComponentView>::empty());
    let mut i: usize = 0;
    while i < components.len()
        invariant
            i <= components@.len(),
            all == views(components@),
            views(out@) == deduped(all, i as int),
        decreases components.len() - i,
    {
        assert(all[i as int] == components@[i as int]@);
        if !is_known_name(&out, components[i].name.as_str()) {
            let ghost before = views(out@);
            let c = copy_component(&components[i]);
            out.push(c);
            assert(views(out@) =~= before.push(c@));
        }
        i = i + 1;
    }
    out
}

/// The first of the components from `i` on whose root is shorter than `len`.
pub open spec fn first_shorter(cs: Seq<ComponentView>, len: nat, i: int) -> int
    decreases cs.len() - i,
{
    if i < 0 || i >= cs.len() {
        cs.len() as int
    } else if byte_len(cs[i].root_path) < len {
        i
    } else {
        first_shorter(cs, len, i + 1)
    }
}

/// The first `n` components, those with longer roots first, else in the order in
/// which they came.
pub open spec fn by_depth(cs: Seq<ComponentView>, n: int) -> Seq<ComponentView>
    decreases n,
{
    if n <= 0 {
        seq![]
    } else {
        let before = by_depth(cs, n - 1);
        before.insert(first_shorter(before, byte_len(cs[n - 1].root_path), 0), cs[n - 1])
    }
}

proof fn lemma_first_shorter(cs: Seq<ComponentView>, len: nat, i: int)
    requires
        0 <= i <= cs.len(),
    ensures
        i <= first_shorter(cs, len, i) <= cs.len(),
        forall|k: int|
            i <= k < first_shorter(cs, len, i) ==> byte_len((#[trigger] cs[k]).root_path) >= len,
        first_shorter(cs, len, i) < cs.len() ==> byte_len(
            cs[first_shorter(cs, len, i)].root_path,
        ) < len,
    decreases cs.len() - i,
{
    if i < cs.len() && byte_len(cs[i].root_path) >= len {
        lemma_first_shorter(cs, len, i + 1);
    }
}

/// The components stand in the order of their depth, and none is lost.
pub proof fn law_by_depth(cs: Seq<ComponentView>, n: int)
    requires
        0 <= n <= cs.len(),
    ensures
        by_depth(cs, n).to_multiset() == cs.take(n).to_multiset(),
        forall|i: int, j: int|
            0 <= i < j < by_depth(cs, n).len() ==> byte_len(
                (#[trigger] by_depth(cs, n)[i]).root_path,
            ) >= byte_len((#[trigger] by_depth(cs, n)[j]).root_path),
    decreases n,
{
    broadcast use vstd::seq_lib::group_to_multiset_ensures;

    if n > 0 {
        law_by_depth(cs, n - 1);
        let before = by_depth(cs, n - 1);
        let c = cs[n - 1];
        let k = first_shorter(before, byte_len(c.root_path), 0);
        lemma_first_shorter(before, byte_len(c.root_path), 0);
        let after = before.insert(k, c);
        assert(cs.take(n) =~= cs.take(n - 1).push(c));
        vstd::seq_lib::to_multiset_insert(before, k, c);
        assert forall|i: int, j: int| 0 <= i < j < after.len() implies byte_len(
            (#[trigger] after[i]).root_path,
        ) >= byte_len((#[trigger] after[j]).root_path) by {
            if j < k {
                assert(after[i] == before[i] && after[j] == before[j]);
            } else if j == k {
                assert(after[i] == before[i]);
            } else if i < k {
                assert(after[i] == before[i] && after[j] == before[j - 1]);
            } else if i == k {
                assert(after[j] == before[j - 1]);
                if j - 1 > k {
                    assert(byte_len(before[k].root_path) >= byte_len(before[j - 1].root_path));
                }
            } else {
                assert(after[i] == before[i - 1] && after[j] == before[j - 1]);
            }
        }
    } else {
        assert(cs.take(0) =~= Seq::<ComponentView>::empty());
    }
}

/// The components, those with longer roots first.
pub fn components_sorted_by_depth(components: &Vec<ComponentDef>) -> (r: Vec<ComponentDef>)
    ensures
        views(r@) == by_depth(views(components@), components@.len() as int),
{
    let ghost all = views(components@);
    let mut out: Vec<ComponentDef> = Vec::new();
    assert(views(out@) =~= Seq::<ComponentView>::empty());
    let mut i: usize = 0;
    while i < components.len()
        invariant
            i <= components@.len(),
            all == views(components@),
            views(out@) == by_depth(all, i as int),
        decreases components.len() - i,
    {
        assert(all[i as int] == components@[i as int]@);
        let c = copy_component(&components[i]);
        let v = chars_of(c.root_path.as_str());
        let len: u128 = byte_count(v.as_slice());
        let ghost before = views(out@);
        let mut k: usize = 0;
        while k < out.len()
            invariant_except_break
                first_shorter(before, byte_len(c.root_path@), 0) == first_shorter(
                    before,
                    byte_len(c.root_path@),
                    k as int,
                ),
            invariant
                k <= out@.len(),
                before == views(out@),
                len == byte_len(c.root_path@),
            ensures
                k == first_shorter(before, byte_len(c.root_path@), 0),
            decreases out.len() - k,
        {
            assert(before[k as int] == out@[k as int]@);
            let w = chars_of(out[k].root_path.as_str());
            if byte_count(w.as_slice()) < len {
                break;
            }
            k = k + 1;
        }
        out.insert(k, c);
        assert(views(out@) =~= before.insert(k as int, c@));
        i = i + 1;
    }
    out
}

/// The name of the first of the components from `i` on that holds the directory.
pub open spec fn component_of(cs: Seq<ComponentView>, root: Seq<char>, windows: bool, i: int) -> Option<
    Seq<char>,
>
    decreases cs.len() - i,
{
    if i < 0 || i >= cs.len() {
        None
    } else if begins_with(root, cs[i].root_path, windows) {
        Some(cs[i].name)
    } else {
        component_of(cs, root, windows, i + 1)
    }
}

/// The name up to its first dot.
pub open spec fn first_part(name: Seq<char>) -> Seq<char> {
    match index_of(name, '.') {
        Some(i) => name.take(i),
        None => name,
    }
}

/// The module of a build file has the dependencies that the file adds, and
/// belongs to the first of the components that holds its directory.
pub open spec fn is_module_of(
    m: ModuleView,
    path: Seq<char>,
    owner: Seq<char>,
    content: Seq<char>,
    cs: Seq<ComponentView>,
    windows: bool,
) -> bool {
    &&& parent(path, windows) == Some(m.root)
    &&& file_name(path, windows) matches Some(n) && m.name == first_part(n)
    &&& m.path == path
    &&& m.mod_type == "Runtime"@
    &&& m.owner_name == owner
    &&& m.component_name == component_of(cs, m.root, windows, 0)
    &&& ascending(m.public_deps)
    &&& m.public_deps.to_set() == added_names(
        captured(ADD_RANGE@, content),
        captured(ADD_SINGLE@, content),
        true,
    ).to_set()
    &&& ascending(m.private_deps)
    &&& m.private_deps.to_set() == added_names(
        captured(ADD_RANGE@, content),
        captured(ADD_SINGLE@, content),
        false,
    ).to_set()
}

/// The component that holds a directory.
fn find_component(cs: &Vec<ComponentDef>, root: &str, windows: bool) -> (r: Option<String>)
    ensures
        opt_text(r) == component_of(views(cs@), root@, windows, 0),
{
    let ghost all = views(cs@);
    let mut i: usize = 0;
    while i < cs.len()
        invariant
            i <= cs@.len(),
            all == views(cs@),
            component_of(all, root@, windows, 0) == component_of(all, root@, windows, i as int),
        decreases cs.len() - i,
    {
        assert(all[i as int] == cs@[i as int]@);
        if path_begins_with(root, cs[i].root_path.as_str(), windows) {
            return Some(cs[i].name.clone());
        }
        i = i + 1;
    }
    None
}

/// The module of a build file; none where the path leads to no file.
pub fn build_file_to_module(
    path: &str,
    owner: &str,
    content: &str,
    components: &Vec<ComponentDef>,
    windows: bool,
) -> (r: Option<ModuleDef>)
    ensures
        match r {
            Some(m) => is_module_of(m@, path@, owner@, content@, views(components@), windows),
            None => parent(path@, windows) is None || file_name(path@, windows) is None,
        },
        parent(path@, windows) is Some && file_name(path@, windows) is Some ==> r is Some,
{
    let v = chars_of(path);
    let root = match parent_of(v.as_slice(), windows) {
        Some(p) => string_of(p),
        None => {
            return None;
        },
    };
    let name = match file_name_of(v.as_slice(), windows) {
        Some(n) => match find_char_at(n, '.', 0) {
            Some(i) => {
                assert(n@.subrange(0, i as int) =~= n@.take(i as int));
                string_of(slice_subrange(n, 0, i))
            },
            None => string_of(n),
        },
        None => {
            return None;
        },
    };
    let (public_deps, private_deps) = parse_build_cs(content);
    let component_name = find_component(components, root.as_str(), windows);
    Some(
        ModuleDef {
            name,
            path: owned(path),
            root,
            public_deps,
            private_deps,
            mod_type: owned("Runtime"),
            owner_name: owned(owner),
            component_name,
        },
    )
}

/// A build file with its owner and its content.
#[derive(Debug, Clone)]
pub struct BuildFile {
    pub path: String,
    pub owner: String,
    pub content: String,
}

/// The build file yields a module.
pub open spec fn yields_module(b: BuildFile, windows: bool) -> bool {
    parent(b.path@, windows) is Some && file_name(b.path@, windows) is Some
}

/// The first `n` build files that yield modules.
pub open spec fn module_files(bs: Seq<BuildFile>, windows: bool, n: int) -> Seq<BuildFile>
    decreases n,
{
    if n <= 0 {
        seq![]
    } else if yields_module(bs[n - 1], windows) {
        module_files(bs, windows, n - 1).push(bs[n - 1])
    } else {
        module_files(bs, windows, n - 1)
    }
}

/// The components and the modules of a project.
pub struct Discovery {
    pub components: Vec<ComponentDef>,
    pub modules: Vec<ModuleDef>,
}

/// The components and the modules of a project, from the plugins and the build
/// files that the walk has found: each component once, and a module for each
/// build file behind those that every project has.
pub fn discover_project(
    ctx: &RefreshContext,
    uproject: Option<&str>,
    plugins: &Vec<ComponentDef>,
    build_files: &Vec<BuildFile>,
    windows: bool,
) -> (r: Discovery)
    ensures
        ({
            let first = first_components(
                ctx.project_root@,
                opt_text(ctx.engine_root),
                opt_str(uproject),
                windows,
            );
            let all = first + views(plugins@);
            let kept = deduped(all, all.len() as int);
            let sorted = by_depth(kept, kept.len() as int);
            let given = first_modules(ctx.project_root@, opt_text(ctx.engine_root), windows);
            let files = module_files(build_files@, windows, build_files@.len() as int);
            &&& views(r.components@) == kept
            &&& r.modules@.len() == given.len() + files.len()
            &&& forall|i: int|
                0 <= i < given.len() ==> (#[trigger] r.modules@[i])@ == given[i]
            &&& forall|i: int|
                given.len() <= i < r.modules@.len() ==> is_module_of(
                    (#[trigger] r.modules@[i])@,
                    files[i - given.len()].path@,
                    files[i - given.len()].owner@,
                    files[i - given.len()].content@,
                    sorted,
                    windows,
                )
        }),
{
    let engine: Option<&str> = match &ctx.engine_root {
        Some(e) => Some(e.as_str()),
        None => None,
    };
    let mut components = base_components(ctx.project_root.as_str(), engine, uproject, windows);
    let ghost first = views(components@);
    let mut i: usize = 0;
    assert(first + views(plugins@).take(0) =~= first);
    while i < plugins.len()
        invariant
            i <= plugins@.len(),
            views(components@) == first + views(plugins@).take(i as int),
        decreases plugins.len() - i,
    {
        let ghost before = views(components@);
        let c = copy_component(&plugins[i]);
        components.push(c);
        assert(views(components@) =~= before.push(c@));
        assert(views(plugins@)[i as int] == plugins@[i as int]@);
        assert(views(components@) =~= first + views(plugins@).take(i + 1));
        i = i + 1;
    }
    assert(views(plugins@).take(plugins@.len() as int) =~= views(plugins@));
    let components = dedupe_components(&components);
    let sorted = components_sorted_by_depth(&components);
    let mut modules = virtual_modules(ctx.project_root.as_str(), engine, windows);
    let ghost given = views(modules@);
    let ghost sv = views(sorted@);
    assert(forall|j: int|
        0 <= j < given.len() ==> (#[trigger] modules@[j])@ == given[j]);
    let mut k: usize = 0;
    while k < build_files.len()
        invariant
            k <= build_files@.len(),
            sv == views(sorted@),
            modules@.len() == given.len() + module_files(build_files@, windows, k as int).len(),
            forall|j: int| 0 <= j < given.len() ==> (#[trigger] modules@[j])@ == given[j],
            forall|j: int|
                given.len() <= j < modules@.len() ==> is_module_of(
                    (#[trigger] modules@[j])@,
                    module_files(build_files@, windows, k as int)[j - given.len()].path@,
                    module_files(build_files@, windows, k as int)[j - given.len()].owner@,
                    module_files(build_files@, windows, k as int)[j - given.len()].content@,
                    sv,
                    windows,
                ),
        decreases build_files.len() - k,
    {
        match build_file_to_module(
            build_files[k].path.as_str(),
            build_files[k].owner.as_str(),
            build_files[k].content.as_str(),
            &sorted,
            windows,
        ) {
            Some(m) => {
                modules.push(m);
            },
            None => {},
        }
        k = k + 1;
    }
    Discovery { components, modules }
}

} // verus!
