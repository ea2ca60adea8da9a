//! The data that requests, parsers and queries exchange.

use vstd::prelude::*;

use crate::text::owned;
#[allow(unused_imports)]
use crate::text::{opt_text, texts, views};

verus! {

// -----------------------------------------------------------------------------
// Top-level requests
// -----------------------------------------------------------------------------

/// A request that is read from the standard input.
#[derive(Debug, Clone)]
pub enum RawRequest {
    Refresh(RefreshRequest),

    Scan(ScanRequest),
}

/// Request to scan a batch of files.
#[derive(Debug, Clone)]
pub struct ScanRequest {
    pub files: Vec<InputFile>,
}

/// Request to refresh the whole project index.
#[derive(Debug, Clone)]
pub struct RefreshRequest {
    pub msg_type: String,
    pub project_root: String,
    pub engine_root: Option<String>,
    pub db_path: Option<String>,
    pub cache_db_path: Option<String>,
    pub config: UEPConfig,
    pub scope: Option<String>,
    pub vcs_hash: Option<String>,
}

/// Request to start watching a project.
#[derive(Debug, Clone)]
pub struct WatchRequest {
    pub project_root: String,
    pub db_path: Option<String>,
}

/// Request to register/setup a project.
#[derive(Debug, Clone)]
pub struct SetupRequest {
    pub project_root: String,
    pub db_path: String,
    pub cache_db_path: Option<String>,
    pub config: UEPConfig,
    pub vcs_hash: Option<String>,
}

/// User config for project indexing.
#[derive(Debug, Clone)]
pub struct UEPConfig {
    pub excludes_directory: Vec<String>,
    pub include_extensions: Vec<String>,
}

impl Default for UEPConfig {
    fn default() -> (r: Self)
        ensures
            texts(r.excludes_directory@) == default_excludes(),
            texts(r.include_extensions@) == default_extensions(),
    {
        let r = UEPConfig {
            excludes_directory: vec![owned("Intermediate"), owned("Binaries"), owned("Build"), owned("Saved"), owned(".git"), owned(".vs")],
            include_extensions: vec![owned("h"), owned("hh"), owned("hpp"), owned("cpp"), owned("cc"), owned("cxx"), owned("inl"), owned("cs"), owned("ini"), owned("uasset"), owned("umap"), owned("uproject"), owned("uplugin")],
        };
        assert(texts(r.excludes_directory@) =~= default_excludes());
        assert(texts(r.include_extensions@) =~= default_extensions());
        r
    }
}

/// The directories that are not indexed by default.
pub open spec fn default_excludes() -> Seq<Seq<char>> {
    seq!["Intermediate"@, "Binaries"@, "Build"@, "Saved"@, ".git"@, ".vs"@]
}

/// The file extensions that are indexed by default.
pub open spec fn default_extensions() -> Seq<Seq<char>> {
    seq!["h"@, "hh"@, "hpp"@, "cpp"@, "cc"@, "cxx"@, "inl"@, "cs"@, "ini"@, "uasset"@, "umap"@, "uproject"@, "uplugin"@]
}

// -----------------------------------------------------------------------------
// Parser input/output
// -----------------------------------------------------------------------------

/// Input file passed to parser/scanner.
#[derive(Debug, Clone)]
pub struct InputFile {
    pub path: String,
    pub mtime: u64,
    pub old_hash: Option<String>,
    pub module_id: Option<i64>,
    pub db_path: Option<String>,
}

/// Single-file parse result.
#[derive(Debug, Clone)]
pub struct ParseResult {
    pub path: String,
    pub status: String,
    pub mtime: u64,
    pub data: Option<ParseData>,
    pub module_id: Option<i64>,
}

/// Parsed data extracted from one source file.
#[derive(Debug, Clone)]
pub struct ParseData {
    pub classes: Vec<ClassInfo>,
    pub calls: Vec<CallInfo>,
    pub includes: Vec<String>,
    pub parser: String,
    pub new_hash: String,
}

/// One function or symbol call.
#[derive(Debug, Clone)]
pub struct CallInfo {
    pub name: String,
    pub line: usize,
}

/// Class, struct, enum, typedef, or Unreal reflected type.
#[derive(Debug, Clone)]
pub struct ClassInfo {
    pub class_name: String,
    pub namespace: Option<String>,
    pub base_classes: Vec<String>,
    pub symbol_type: String,
    pub line: usize,
    pub end_line: usize,
    pub range_start: usize,
    pub range_end: usize,
    pub members: Vec<MemberInfo>,
    pub is_final: bool,
    pub is_interface: bool,
}

/// Class member, function, property, or enum item.
#[derive(Debug, Clone)]
pub struct MemberInfo {
    pub name: String,
    pub mem_type: String,
    pub flags: String,
    pub access: String,
    pub line: usize,
    pub end_line: usize,
    pub detail: Option<String>,
    pub return_type: Option<String>,
}

/// What a member says.
pub struct MemberView {
    pub name: Seq<char>,
    pub mem_type: Seq<char>,
    pub flags: Seq<char>,
    pub access: Seq<char>,
    pub line: usize,
    pub end_line: usize,
    pub detail: Option<Seq<char>>,
    pub return_type: Option<Seq<char>>,
}

impl View for MemberInfo {
    type V = MemberView;

    open spec fn view(&self) -> MemberView {
        MemberView {
            name: self.name@,
            mem_type: self.mem_type@,
            flags: self.flags@,
            access: self.access@,
            line: self.line,
            end_line: self.end_line,
            detail: opt_text(self.detail),
            return_type: opt_text(self.return_type),
        }
    }
}

/// What a class says.
pub struct ClassView {
    pub class_name: Seq<char>,
    pub namespace: Option<Seq<char>>,
    pub base_classes: Seq<Seq<char>>,
    pub symbol_type: Seq<char>,
    pub line: usize,
    pub end_line: usize,
    pub range_start: usize,
    pub range_end: usize,
    pub members: Seq<MemberView>,
    pub is_final: bool,
    pub is_interface: bool,
}

impl View for ClassInfo {
    type V = ClassView;

    open spec fn view(&self) -> ClassView {
        ClassView {
            class_name: self.class_name@,
            namespace: opt_text(self.namespace),
            base_classes: texts(self.base_classes@),
            symbol_type: self.symbol_type@,
            line: self.line,
            end_line: self.end_line,
            range_start: self.range_start,
            range_end: self.range_end,
            members: views(self.members@),
            is_final: self.is_final,
            is_interface: self.is_interface,
        }
    }
}

/// What a call says.
pub struct CallView {
    pub name: Seq<char>,
    pub line: usize,
}

impl View for CallInfo {
    type V = CallView;

    open spec fn view(&self) -> CallView {
        CallView { name: self.name@, line: self.line }
    }
}

// -----------------------------------------------------------------------------
// Progress reporting
// -----------------------------------------------------------------------------

/// Progress event sent to client.
#[derive(Debug, Clone)]
pub struct Progress {
    pub msg_type: String,
    pub stage: String,
    pub current: usize,
    pub total: usize,
    pub message: String,
}

impl Progress {
    /// The event that reports how far a stage has come.
    pub fn event(stage: &str, current: usize, total: usize, message: &str) -> (r: Self)
        ensures
            r.msg_type@ == "progress"@,
            r.stage@ == stage@,
            r.current == current,
            r.total == total,
            r.message@ == message@,
    {
        Progress {
            msg_type: owned("progress"),
            stage: owned(stage),
            current,
            total,
            message: owned(message),
        }
    }
}

/// The reporter of the command line: one event, one line of output.
pub struct StdoutReporter;

impl StdoutReporter {
    /// The event to be written for a progress report.
    pub fn report(&self, stage: &str, current: usize, total: usize, message: &str) -> (r: Progress)
        ensures
            r.msg_type@ == "progress"@,
            r.stage@ == stage@,
            r.current == current,
            r.total == total,
            r.message@ == message@,
    {
        Progress::event(stage, current, total, message)
    }
}

/// The event that the command line writes to report progress.
pub fn report_progress(stage: &str, current: usize, total: usize, message: &str) -> (r: Progress)
    ensures
        r.msg_type@ == "progress"@,
        r.stage@ == stage@,
        r.current == current,
        r.total == total,
        r.message@ == message@,
{
    StdoutReporter.report(stage, current, total, message)
}

// -----------------------------------------------------------------------------
// Project/module/component data
// -----------------------------------------------------------------------------

/// Discovered Unreal module definition.
#[derive(Debug, Clone)]
pub struct ModuleDef {
    pub name: String,
    pub path: String,
    pub root: String,
    pub public_deps: Vec<String>,
    pub private_deps: Vec<String>,
    pub mod_type: String,
    pub owner_name: String,
    pub component_name: Option<String>,
}

/// Discovered project component: Game, Engine, or Plugin.
#[derive(Debug, Clone)]
pub struct ComponentDef {
    pub name: String,
    pub display_name: String,
    pub comp_type: String,
    pub root_path: String,
    pub uproject_path: Option<String>,
    pub uplugin_path: Option<String>,
    pub owner_name: String,
}

/// Minimal .uproject/.uplugin JSON shape.
#[derive(Debug, Clone)]
pub struct UProjectPluginJson {
    pub modules: Option<Vec<UModuleJson>>,
}

/// Module entry inside .uproject/.uplugin.
#[derive(Debug, Clone)]
pub struct UModuleJson {
    pub name: String,
    pub mod_type: String,
}

// -----------------------------------------------------------------------------
// Unreal config query data
// -----------------------------------------------------------------------------

/// Resolved config for one platform.
#[derive(Debug, Clone)]
pub struct ConfigPlatform {
    pub name: String,
    pub platform: String,
    pub is_profile: bool,
    pub sections: Vec<ConfigSection>,
}

/// One config section.
#[derive(Debug, Clone)]
pub struct ConfigSection {
    pub name: String,
    pub parameters: Vec<ConfigParameter>,
}

/// One config parameter and its history.
#[derive(Debug, Clone)]
pub struct ConfigParameter {
    pub key: String,
    pub value: String,
    pub history: Vec<ConfigHistory>,
}

/// One config override history entry.
#[derive(Debug, Clone)]
pub struct ConfigHistory {
    pub file: String,
    pub full_path: String,
    pub value: String,
    pub op: String,
    pub line: usize,
}

/// In-memory config query cache.
#[derive(Debug, Clone)]
pub struct ConfigCache {
    pub data: Vec<ConfigPlatform>,
    pub is_dirty: bool,
}

// -----------------------------------------------------------------------------
// Query protocol
// -----------------------------------------------------------------------------

/// Query requests sent from Neovim/Lua to Rust server.
#[derive(Debug, Clone)]
pub enum QueryRequest {
    // Derived/inheritance queries.
    FindDerivedClasses { base_class: String },
    GetRecursiveDerivedClasses { base_class: String },
    GetRecursiveParentClasses { child_class: String },
    FindSymbolInInheritanceChain {
        class_name: String,
        symbol_name: String,
        mode: Option<String>,
    },
    GetVirtualFunctionsInInheritanceChain { class_name: String },

    // Class/type/member queries.
    FindClassByName { name: String },
    SearchClassesPrefix { prefix: String, limit: Option<usize> },
    GetClasses {
        extra_where: Option<String>,
        params: Option<Vec<String>>,
    },
    GetStructs {
        extra_where: Option<String>,
        params: Option<Vec<String>>,
    },
    GetStructsOnly,
    GetFileSymbols { file_path: String },
    GetClassFilePath { class_name: String },
    GetClassMembersById { class_id: i64 },
    GetClassMembers { class_name: String },
    GetClassMethods { class_name: String },
    GetClassProperties { class_name: String },
    GetClassMembersRecursive {
        class_name: String,
        namespace: Option<String>,
    },
    GetEnumValues { enum_name: String },

    // Module/component queries.
    GetComponents,
    GetModules,
    GetModuleByName { name: String },
    GetModuleIdByName { name: String },
    GetModuleRootPath { name: String },
    GetFilesInModule { module_id: i64 },
    GetFilesInModules {
        modules: Vec<String>,
        extensions: Option<Vec<String>>,
        filter: Option<String>,
    },
    GetFilesInModulesAsync {
        modules: Vec<String>,
        extensions: Option<Vec<String>>,
        filter: Option<String>,
    },
    GetClassesInModules {
        modules: Vec<String>,
        symbol_type: Option<String>,
    },
    GetClassesInModulesAsync {
        modules: Vec<String>,
        symbol_type: Option<String>,
    },
    FindSymbolInModule { module: String, symbol: String },
    SearchFilesInModules {
        modules: Vec<String>,
        filter: String,
        limit: Option<usize>,
    },
    SearchFilesInModulesAsync {
        modules: Vec<String>,
        filter: String,
        limit: Option<usize>,
    },
    SearchSymbolsInModules {
        modules: Vec<String>,
        symbol_type: Option<String>,
        filter: String,
        limit: Option<usize>,
    },

    // File queries.
    SearchFiles { part: String },
    SearchFilesByPathPart { part: String },
    SearchFilesByPathPartAsync { part: String },
    GetDirectoriesInModule { module_id: i64 },
    GetModuleFilesByNameAndRoot { name: String, root: String },
    GetModuleDirsByNameAndRoot { name: String, root: String },
    GetDependFiles {
        file_path: String,
        recursive: bool,
        game_only: bool,
    },
    GetTargetFiles,
    GetAllFilePaths,
    GetAllFilesMetadata,

    // Symbol search and usage.
    SearchSymbols { pattern: String, limit: usize },
    FindSymbolUsages {
        symbol_name: String,
        file_path: Option<String>,
        content: Option<String>,
        line: Option<u32>,
        character: Option<u32>,
    },
    FindSymbolUsagesAsync {
        symbol_name: String,
        file_path: Option<String>,
    },

    // Buffer/navigation/completion.
    ParseBuffer {
        content: String,
        file_path: Option<String>,
        line: Option<u32>,
        character: Option<u32>,
    },
    GotoDefinition {
        content: String,
        line: u32,
        character: u32,
        file_path: Option<String>,
    },
    GotoImplementation {
        content: String,
        line: u32,
        character: u32,
        file_path: Option<String>,
    },
    GetCompletions {
        content: String,
        line: u32,
        character: u32,
        file_path: Option<String>,
    },
    GetDiagnostics {
        content: String,
        file_path: Option<String>,
    },
    ParseBuildDiagnostics {
        output: String,
    },

    // Asset queries.
    GetAssets,
    GetAssetUsages { asset_path: String },
    GetAssetDependencies { asset_path: String },
    GrepAssets { pattern: String },

    // Config queries.
    GetConfigData {
        engine_root: Option<String>,
    },

    // Extension points.
    LoadComponentData { component: String },
    GetProgramFiles,
    GetAllIniFiles,
    UpdateMemberReturnType {
        class_name: String,
        member_name: String,
        return_type: String,
    },
}

// -----------------------------------------------------------------------------
// Modify protocol
// -----------------------------------------------------------------------------

/// Request to add a module entry to .uproject or .uplugin.
#[derive(Debug, Clone)]
pub struct ModifyUprojectAddModuleRequest {
    pub file_path: String,
    pub module_name: String,
    pub module_type: String,
    pub loading_phase: String,
}

/// Request to add a module entry to .Target.cs.
#[derive(Debug, Clone)]
pub struct ModifyTargetAddModuleRequest {
    pub file_path: String,
    pub module_name: String,
}

/// Result returned by file modification RPC calls.
#[derive(Debug, Clone)]
pub struct ModifyResult {
    pub success: bool,
    pub message: Option<String>,
}

} // verus!
