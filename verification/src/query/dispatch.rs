//! What each request asks of the index.

use vstd::prelude::*;

use super::asset::get_assets;
#[allow(unused_imports)]
use super::asset::ASSETS;
use super::class::{enum_name_candidates, get_class_members, search_classes_prefix};
#[allow(unused_imports)]
use super::class::{classes_beginning, enum_candidates, MEMBERS_OF_NAME};
use super::file::{get_all_file_paths, get_all_files_metadata, get_target_files};
#[allow(unused_imports)]
use super::file::{ALL_FILES_METADATA, ALL_FILE_PATHS, TARGET_FILES};
use super::module::{get_module_by_name, get_modules};
#[allow(unused_imports)]
use super::module::{MODULES, MODULE_NAMED};
use super::search::{get_structs, search_symbols};
#[allow(unused_imports)]
use super::search::{all_symbols, find_symbols, STRUCTS};
use super::sql::{no_params, plain_statement, Statement};
#[allow(unused_imports)]
use super::sql::{chained, on_paths, ParamView, StatementView};
#[allow(unused_imports)]
use crate::db::project_path::PATH_CTE;
#[allow(unused_imports)]
use crate::text::{texts, trim};
use crate::types::QueryRequest;

verus! {

/// The components of the project.
pub const COMPONENTS: &'static str = "SELECT
            name,
            display_name,
            type,
            owner_name,
            root_path,
            uplugin_path,
            uproject_path,
            engine_association
         FROM components";

/// What the columns of a row are.
#[derive(Debug, Clone, Copy, PartialEq, Eq, Structural)]
pub enum RowShape {
    TargetFile,
    FilePath,
    FileMetadata,
    Symbol,
    Struct,
    ClassMember,
    Class,
    Module,
    Component,
    Asset,
}

/// What a request asks of the index.
#[derive(Debug, Clone)]
pub enum QueryPlan {
    /// The rows of a statement.
    Rows { statement: Statement, shape: RowShape },
    /// The first row of a statement, or nothing.
    FirstRow { statement: Statement, shape: RowShape },
    /// An empty list.
    EmptyList,
    /// Nothing.
    Nothing,
    /// The files of modules.
    FilesInModules {
        modules: Vec<String>,
        extensions: Option<Vec<String>>,
        filter: Option<String>,
    },
    /// The files that a file names.
    DependFiles { file_path: String, recursive: bool, game_only: bool },
    /// The files by a part of their path.
    FilesByPathPart { part: String },
    /// The symbols of a file.
    FileSymbols { file_path: String },
    /// The classes of modules by file.
    ClassesInModules { modules: Vec<String>, symbol_type: Option<String> },
    /// The values of the first enumeration that has one of the names.
    EnumValues { candidates: Vec<String> },
    /// What a buffer holds.
    Buffer {
        content: String,
        file_path: Option<String>,
        line: Option<u32>,
        character: Option<u32>,
    },
    /// A jump, to an implementation or to a declaration.
    Jump {
        content: String,
        line: u32,
        character: u32,
        file_path: Option<String>,
        implementation: bool,
    },
    /// A member of a class or of one of its parents.
    MemberInChain { class_name: String, symbol_name: String },
    /// A symbol in a module.
    SymbolInModule { module: String, symbol: String },
    /// The uses of a symbol.
    Usages { symbol_name: String, file_path: Option<String> },
    /// The assets that hold a text.
    GrepAssets { pattern: String },
    /// The request is refused with a message.
    Refused { message: &'static str },
    /// The request is none that the index answers.
    Unknown { request: QueryRequest },
}

/// The plan is to show the rows of the statement.
pub open spec fn shows_rows(p: QueryPlan, s: StatementView, shape: RowShape) -> bool {
    p matches QueryPlan::Rows { statement, shape: given } && statement@ == s && given == shape
}

/// The plan is the one for the request.
pub open spec fn is_plan(request: QueryRequest, p: QueryPlan) -> bool {
    match request {
        QueryRequest::GetFilesInModules { modules, extensions, filter } => p
            == QueryPlan::FilesInModules { modules, extensions, filter },
        QueryRequest::GetDependFiles { file_path, recursive, game_only } => p
            == QueryPlan::DependFiles { file_path, recursive, game_only },
        QueryRequest::SearchFiles { part } => p == QueryPlan::FilesByPathPart { part },
        QueryRequest::SearchFilesByPathPart { part } => p == QueryPlan::FilesByPathPart { part },
        QueryRequest::GetTargetFiles => shows_rows(
            p,
            on_paths(TARGET_FILES@, seq![]),
            RowShape::TargetFile,
        ),
        QueryRequest::GetAllFilePaths => shows_rows(
            p,
            on_paths(ALL_FILE_PATHS@, seq![]),
            RowShape::FilePath,
        ),
        QueryRequest::GetAllFilesMetadata => shows_rows(
            p,
            on_paths(ALL_FILES_METADATA@, seq![]),
            RowShape::FileMetadata,
        ),
        QueryRequest::SearchSymbols { pattern, limit } => shows_rows(
            p,
            if trim(pattern@).len() == 0 {
                all_symbols(limit as int, 0)
            } else {
                find_symbols(trim(pattern@), limit as int, 0)
            },
            RowShape::Symbol,
        ),
        QueryRequest::GetStructsOnly => shows_rows(
            p,
            StatementView { sql: chained(seq![PATH_CTE@, STRUCTS@]), params: seq![] },
            RowShape::Struct,
        ),
        QueryRequest::GetFileSymbols { file_path } => p == QueryPlan::FileSymbols { file_path },
        QueryRequest::GetClassMembers { class_name } => shows_rows(
            p,
            StatementView { sql: MEMBERS_OF_NAME@, params: seq![ParamView::Text(class_name@)] },
            RowShape::ClassMember,
        ),
        QueryRequest::SearchClassesPrefix { prefix, limit } => if trim(prefix@).len() == 0 {
            p == QueryPlan::EmptyList
        } else {
            shows_rows(
                p,
                classes_beginning(
                    trim(prefix@),
                    match limit {
                        Some(l) => l as int,
                        None => 50,
                    },
                ),
                RowShape::Class,
            )
        },
        QueryRequest::GetClassesInModules { modules, symbol_type } => p
            == QueryPlan::ClassesInModules { modules, symbol_type },
        QueryRequest::GetEnumValues { enum_name } => p matches QueryPlan::EnumValues { candidates }
            && texts(candidates@) == enum_candidates(enum_name@),
        QueryRequest::GetClassFilePath { .. } => p == (QueryPlan::Refused {
            message: "GetClassFilePath is not implemented",
        }),
        QueryRequest::GetModules => shows_rows(
            p,
            on_paths(MODULES@, seq![]),
            RowShape::Module,
        ),
        QueryRequest::GetModuleByName { name } => if trim(name@).len() == 0 {
            p == QueryPlan::Nothing
        } else {
            p matches QueryPlan::FirstRow { statement, shape } && statement@ == on_paths(
                MODULE_NAMED@,
                seq![ParamView::Text(trim(name@))],
            ) && shape == RowShape::Module
        },
        QueryRequest::ParseBuffer { content, file_path, line, character } => p
            == QueryPlan::Buffer { content, file_path, line, character },
        QueryRequest::GotoDefinition { content, line, character, file_path } => p
            == QueryPlan::Jump { content, line, character, file_path, implementation: false },
        QueryRequest::GotoImplementation { content, line, character, file_path } => p
            == QueryPlan::Jump { content, line, character, file_path, implementation: true },
        QueryRequest::FindSymbolInInheritanceChain { class_name, symbol_name, .. } => p
            == QueryPlan::MemberInChain { class_name, symbol_name },
        QueryRequest::FindSymbolInModule { module, symbol } => p == QueryPlan::SymbolInModule {
            module,
            symbol,
        },
        QueryRequest::FindSymbolUsages { symbol_name, file_path, .. } => p == QueryPlan::Usages {
            symbol_name,
            file_path,
        },
        QueryRequest::GetAssets => shows_rows(p, on_paths(ASSETS@, seq![]), RowShape::Asset),
        QueryRequest::GrepAssets { pattern } => p == QueryPlan::GrepAssets { pattern },
        QueryRequest::GetComponents => shows_rows(
            p,
            StatementView { sql: COMPONENTS@, params: seq![] },
            RowShape::Component,
        ),
        QueryRequest::GetConfigData { .. } => p == (QueryPlan::Refused {
            message: "GetConfigData must be handled by server state",
        }),
        _ => p == QueryPlan::Unknown { request },
    }
}

/// What a request asks of the index.
pub fn process_query(request: QueryRequest) -> (r: QueryPlan)
    ensures
        is_plan(request, r),
{
    match request {
        QueryRequest::GetFilesInModules { modules, extensions, filter } => {
            QueryPlan::FilesInModules { modules, extensions, filter }
        },
        QueryRequest::GetDependFiles { file_path, recursive, game_only } => {
            QueryPlan::DependFiles { file_path, recursive, game_only }
        },
        QueryRequest::SearchFiles { part } => QueryPlan::FilesByPathPart { part },
        QueryRequest::SearchFilesByPathPart { part } => QueryPlan::FilesByPathPart { part },
        QueryRequest::GetTargetFiles => QueryPlan::Rows {
            statement: get_target_files(),
            shape: RowShape::TargetFile,
        },
        QueryRequest::GetAllFilePaths => QueryPlan::Rows {
            statement: get_all_file_paths(),
            shape: RowShape::FilePath,
        },
        QueryRequest::GetAllFilesMetadata => QueryPlan::Rows {
            statement: get_all_files_metadata(),
            shape: RowShape::FileMetadata,
        },
        QueryRequest::SearchSymbols { pattern, limit } => QueryPlan::Rows {
            statement: search_symbols(pattern.as_str(), limit, 0),
            shape: RowShape::Symbol,
        },
        QueryRequest::GetStructsOnly => QueryPlan::Rows {
            statement: get_structs(),
            shape: RowShape::Struct,
        },
        QueryRequest::GetFileSymbols { file_path } => QueryPlan::FileSymbols { file_path },
        QueryRequest::GetClassMembers { class_name } => QueryPlan::Rows {
            statement: get_class_members(class_name.as_str()),
            shape: RowShape::ClassMember,
        },
        QueryRequest::SearchClassesPrefix { prefix, limit } => {
            match search_classes_prefix(prefix.as_str(), limit) {
                Some(statement) => QueryPlan::Rows { statement, shape: RowShape::Class },
                None => QueryPlan::EmptyList,
            }
        },
        QueryRequest::GetClassesInModules { modules, symbol_type } => {
            QueryPlan::ClassesInModules { modules, symbol_type }
        },
        QueryRequest::GetEnumValues { enum_name } => QueryPlan::EnumValues {
            candidates: enum_name_candidates(enum_name.as_str()),
        },
        QueryRequest::GetClassFilePath { .. } => QueryPlan::Refused {
            message: "GetClassFilePath is not implemented",
        },
        QueryRequest::GetModules => QueryPlan::Rows {
            statement: get_modules(),
            shape: RowShape::Module,
        },
        QueryRequest::GetModuleByName { name } => match get_module_by_name(name.as_str()) {
            Some(statement) => QueryPlan::FirstRow { statement, shape: RowShape::Module },
            None => QueryPlan::Nothing,
        },
        QueryRequest::ParseBuffer { content, file_path, line, character } => QueryPlan::Buffer {
            content,
            file_path,
            line,
            character,
        },
        QueryRequest::GotoDefinition { content, line, character, file_path } => QueryPlan::Jump {
            content,
            line,
            character,
            file_path,
            implementation: false,
        },
        QueryRequest::GotoImplementation { content, line, character, file_path } => {
            QueryPlan::Jump { content, line, character, file_path, implementation: true }
        },
        QueryRequest::FindSymbolInInheritanceChain { class_name, symbol_name, .. } => {
            QueryPlan::MemberInChain { class_name, symbol_name }
        },
        QueryRequest::FindSymbolInModule { module, symbol } => QueryPlan::SymbolInModule {
            module,
            symbol,
        },
        QueryRequest::FindSymbolUsages { symbol_name, file_path, .. } => QueryPlan::Usages {
            symbol_name,
            file_path,
        },
        QueryRequest::GetAssets => QueryPlan::Rows {
            statement: get_assets(),
            shape: RowShape::Asset,
        },
        QueryRequest::GrepAssets { pattern } => QueryPlan::GrepAssets { pattern },
        QueryRequest::GetComponents => QueryPlan::Rows {
            statement: plain_statement(COMPONENTS, no_params()),
            shape: RowShape::Component,
        },
        QueryRequest::GetConfigData { .. } => QueryPlan::Refused {
            message: "GetConfigData must be handled by server state",
        },
        other => QueryPlan::Unknown { request: other },
    }
}

/// What a request asks whose answer may be streamed.
#[derive(Debug, Clone)]
pub enum StreamPlan {
    GrepAssets { pattern: String },
    FilesInModules {
        modules: Vec<String>,
        extensions: Option<Vec<String>>,
        filter: Option<String>,
    },
    SearchInModules { modules: Vec<String>, filter: String, limit: Option<usize> },
    FilesByPathPart { part: String },
    ClassesInModules { modules: Vec<String>, symbol_type: Option<String> },
    Usages { symbol_name: String, file_path: Option<String> },
    /// The answer comes at once.
    AtOnce { plan: QueryPlan },
}

/// What a request asks whose answer may be streamed.
pub fn process_query_streaming(request: QueryRequest) -> (r: StreamPlan)
    ensures
        match request {
            QueryRequest::GrepAssets { pattern } => r == StreamPlan::GrepAssets { pattern },
            QueryRequest::GetFilesInModulesAsync { modules, extensions, filter } => r
                == StreamPlan::FilesInModules { modules, extensions, filter },
            QueryRequest::SearchFilesInModulesAsync { modules, filter, limit } => r
                == StreamPlan::SearchInModules { modules, filter, limit },
            QueryRequest::SearchFilesByPathPartAsync { part } => r
                == StreamPlan::FilesByPathPart { part },
            QueryRequest::GetClassesInModulesAsync { modules, symbol_type } => r
                == StreamPlan::ClassesInModules { modules, symbol_type },
            QueryRequest::FindSymbolUsagesAsync { symbol_name, file_path } => r
                == StreamPlan::Usages { symbol_name, file_path },
            _ => r matches StreamPlan::AtOnce { plan } && is_plan(request, plan),
        },
{
    match request {
        QueryRequest::GrepAssets { pattern } => StreamPlan::GrepAssets { pattern },
        QueryRequest::GetFilesInModulesAsync { modules, extensions, filter } => {
            StreamPlan::FilesInModules { modules, extensions, filter }
        },
        QueryRequest::SearchFilesInModulesAsync { modules, filter, limit } => {
            StreamPlan::SearchInModules { modules, filter, limit }
        },
        QueryRequest::SearchFilesByPathPartAsync { part } => StreamPlan::FilesByPathPart { part },
        QueryRequest::GetClassesInModulesAsync { modules, symbol_type } => {
            StreamPlan::ClassesInModules { modules, symbol_type }
        },
        QueryRequest::FindSymbolUsagesAsync { symbol_name, file_path } => StreamPlan::Usages {
            symbol_name,
            file_path,
        },
        other => StreamPlan::AtOnce { plan: process_query(other) },
    }
}

} // verus!
