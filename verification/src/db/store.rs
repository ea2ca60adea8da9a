//! What is written into the index: the rows that a parsed file gives, how far
//! the writing has come, and whether an index has to be made anew.

use vstd::prelude::*;

use crate::paths::{file_name_of, lower_extension_of, parent_of};
#[allow(unused_imports)]
use crate::paths::{file_name, lower_extension, parent};
use crate::text::{chars_of, concat, copy_opt, decimal_of, has_str, is_str, owned, parse_u32,
    replace_char, starts_with, str_eq, string_of, to_lower};
#[allow(unused_imports)]
use crate::text::{contains, decimal, law_decimal_comes_back, lower, opt_str, opt_text, parse_decimal, starts, swap_char,
    texts, views};
use crate::types::{CallInfo, ClassInfo, MemberInfo, ParseResult};
#[allow(unused_imports)]
use crate::types::{CallView, ClassView, MemberView};

verus! {

// ---------------------------------------------------------------------------
// Versions
// ---------------------------------------------------------------------------
/// The version of the tables and of what they mean.
pub const DB_VERSION: i32 = 19;

/// The version of the cached completions.
pub const COMPLETION_CACHE_VERSION: i32 = 4;

/// The recorded text is the given version.
pub open spec fn is_version(stored: Option<Seq<char>>, version: i32) -> bool {
    match stored {
        Some(s) => parse_decimal(s, u32::MAX as nat) == Some(version as nat),
        None => false,
    }
}

/// Whether the recorded text is the given version.
pub fn version_matches(stored: Option<&str>, version: i32) -> (r: bool)
    requires
        version > 0,
    ensures
        r == is_version(opt_str(stored), version),
{
    match stored {
        Some(s) => {
            let v = chars_of(s);
            match parse_u32(v.as_slice()) {
                Some(n) => n == version as u32,
                None => false,
            }
        },
        None => false,
    }
}

/// What to do with an index.
#[derive(Debug, Clone, Copy, PartialEq, Eq, Structural)]
pub enum VersionStep {
    /// It can be used.
    Keep,
    /// It has to be removed and made anew.
    Rebuild,
    /// There is none yet.
    Create,
}

/// What to do with an index that exists or does not, and the version recorded
/// in it.
pub open spec fn version_step(exists: bool, stored: Option<Seq<char>>) -> VersionStep {
    if !exists {
        VersionStep::Create
    } else if is_version(stored, DB_VERSION) {
        VersionStep::Keep
    } else {
        VersionStep::Rebuild
    }
}

/// What to do with an index that exists or does not, and the version recorded
/// in it.
pub fn ensure_correct_version(exists: bool, stored: Option<&str>) -> (r: VersionStep)
    ensures
        r == version_step(exists, opt_str(stored)),
{
    if !exists {
        VersionStep::Create
    } else if version_matches(stored, DB_VERSION) {
        VersionStep::Keep
    } else {
        VersionStep::Rebuild
    }
}

/// The text under which a version is recorded.
pub fn version_text(version: i32) -> (r: String)
    requires
        version > 0,
    ensures
        r@ == decimal(version as nat),
{
    let v = decimal_of(version as u64);
    string_of(v.as_slice())
}

/// The version that is recorded once a step was taken: an index that is made holds
/// the current one.
pub open spec fn recorded_after(step: VersionStep, stored: Option<Seq<char>>) -> Option<Seq<char>> {
    match step {
        VersionStep::Keep => stored,
        VersionStep::Rebuild => Some(decimal(DB_VERSION as nat)),
        VersionStep::Create => Some(decimal(DB_VERSION as nat)),
    }
}

/// A version is known again by the text under which it is recorded.
pub proof fn law_version_comes_back(version: i32)
    requires
        version > 0,
    ensures
        is_version(Some(decimal(version as nat)), version),
{
    law_decimal_comes_back(version as nat, u32::MAX as nat);
}

/// Once an index was looked after, it is kept: only the step that makes it finds
/// anything to do.
pub proof fn law_index_is_kept(exists: bool, stored: Option<Seq<char>>)
    ensures
        ({
            let after = recorded_after(version_step(exists, stored), stored);
            &&& version_step(true, after) == VersionStep::Keep
            &&& recorded_after(version_step(true, after), after) == after
        }),
{
    law_version_comes_back(DB_VERSION);
}

/// Whether the cached completions have to be dropped.
pub fn cache_is_outdated(stored: Option<&str>) -> (r: bool)
    ensures
        r == !is_version(opt_str(stored), COMPLETION_CACHE_VERSION),
{
    !version_matches(stored, COMPLETION_CACHE_VERSION)
}

// ---------------------------------------------------------------------------
// Progress
// ---------------------------------------------------------------------------
/// How much of the total has been done, in percent.
pub open spec fn percent(current: int, total: int) -> int {
    if total == 0 {
        100
    } else if current * 100 / total > 100 {
        100
    } else {
        current * 100 / total
    }
}

/// How much of the total has been done, in percent.
pub fn progress_percent(current: usize, total: usize) -> (r: usize)
    ensures
        r == percent(current as int, total as int),
        r <= 100,
{
    if total == 0 {
        return 100;
    }
    let p: u128 = (current as u128) * 100 / (total as u128);
    if p > 100 {
        100
    } else {
        p as usize
    }
}

/// The percentage lies between zero and a hundred, never falls, and reaches a
/// hundred with the last item.
pub proof fn law_percent(a: int, b: int, total: int)
    requires
        0 <= a <= b,
        0 <= total,
    ensures
        0 <= percent(a, total) <= percent(b, total) <= 100,
        b >= total ==> percent(b, total) == 100,
{
    if total > 0 {
        assert(a * 100 / total <= b * 100 / total) by (nonlinear_arith)
            requires
                0 <= a <= b,
                total > 0,
        ;
        assert(0 <= a * 100 / total) by (nonlinear_arith)
            requires
                0 <= a,
                total > 0,
        ;
        if b >= total {
            assert(b * 100 / total >= 100) by (nonlinear_arith)
                requires
                    b >= total,
                    total > 0,
            ;
        }
    }
}

/// Item `current` is reported: the last one, and every one with which the
/// percentage has grown since the last report.
pub fn report_is_due(current: usize, total: usize, last_percent: usize) -> (r: Option<usize>)
    ensures
        r == (if current == total || percent(current as int, total as int) > last_percent {
            Some(percent(current as int, total as int) as usize)
        } else {
            None
        }),
{
    let p: usize = progress_percent(current, total);
    if current == total || p > last_percent {
        Some(p)
    } else {
        None
    }
}

/// The message of a report.
pub fn saving_message(current: usize, total: usize) -> (r: String)
    ensures
        r@ == "Saving results ("@ + decimal(current as nat) + "/"@ + decimal(total as nat) + ")"@,
{
    let c = string_of(decimal_of(current as u64).as_slice());
    let t = string_of(decimal_of(total as u64).as_slice());
    let s = concat("Saving results (", c.as_str());
    let s = concat(s.as_str(), "/");
    let s = concat(s.as_str(), t.as_str());
    concat(s.as_str(), ")")
}

// ---------------------------------------------------------------------------
// Rows
// ---------------------------------------------------------------------------
/// One row that is written. The rows of classes, calls and included files
/// belong to the file before them, those of parents, values and members to the
/// class before them, and a row for the search to the row right before it.
#[derive(Debug, Clone)]
pub enum WriteOp {
    File {
        directory: String,
        filename: String,
        extension: String,
        mtime: i64,
        file_hash: String,
        module_id: Option<i64>,
        is_header: bool,
    },
    Class {
        name: String,
        namespace: Option<String>,
        base_class: Option<String>,
        line: i64,
        symbol_type: String,
        end_line: i64,
    },
    Search { name: String, kind: String, class_name: String },
    Parent { name: String },
    EnumValue { name: String, line: i64 },
    Member {
        name: String,
        kind: String,
        flags: String,
        access: String,
        detail: Option<String>,
        return_type: Option<String>,
        is_static: bool,
        line: i64,
    },
    Call { line: i64, name: String },
    Include { path: String, base_name: String },
}

/// What a row says.
pub enum OpView {
    File {
        directory: Seq<char>,
        filename: Seq<char>,
        extension: Seq<char>,
        mtime: i64,
        file_hash: Seq<char>,
        module_id: Option<i64>,
        is_header: bool,
    },
    Class {
        name: Seq<char>,
        namespace: Option<Seq<char>>,
        base_class: Option<Seq<char>>,
        line: i64,
        symbol_type: Seq<char>,
        end_line: i64,
    },
    Search { name: Seq<char>, kind: Seq<char>, class_name: Seq<char> },
    Parent { name: Seq<char> },
    EnumValue { name: Seq<char>, line: i64 },
    Member {
        name: Seq<char>,
        kind: Seq<char>,
        flags: Seq<char>,
        access: Seq<char>,
        detail: Option<Seq<char>>,
        return_type: Option<Seq<char>>,
        is_static: bool,
        line: i64,
    },
    Call { line: i64, name: Seq<char> },
    Include { path: Seq<char>, base_name: Seq<char> },
}

impl View for WriteOp {
    type V = OpView;

    open spec fn view(&self) -> OpView {
        match self {
            WriteOp::File {
                directory,
                filename,
                extension,
                mtime,
                file_hash,
                module_id,
                is_header,
            } => OpView::File {
                directory: directory@,
                filename: filename@,
                extension: extension@,
                mtime: *mtime,
                file_hash: file_hash@,
                module_id: *module_id,
                is_header: *is_header,
            },
            WriteOp::Class { name, namespace, base_class, line, symbol_type, end_line } =>
            OpView::Class {
                name: name@,
                namespace: opt_text(*namespace),
                base_class: opt_text(*base_class),
                line: *line,
                symbol_type: symbol_type@,
                end_line: *end_line,
            },
            WriteOp::Search { name, kind, class_name } => OpView::Search {
                name: name@,
                kind: kind@,
                class_name: class_name@,
            },
            WriteOp::Parent { name } => OpView::Parent { name: name@ },
            WriteOp::EnumValue { name, line } => OpView::EnumValue { name: name@, line: *line },
            WriteOp::Member {
                name,
                kind,
                flags,
                access,
                detail,
                return_type,
                is_static,
                line,
            } => OpView::Member {
                name: name@,
                kind: kind@,
                flags: flags@,
                access: access@,
                detail: opt_text(*detail),
                return_type: opt_text(*return_type),
                is_static: *is_static,
                line: *line,
            },
            WriteOp::Call { line, name } => OpView::Call { line: *line, name: name@ },
            WriteOp::Include { path, base_name } => OpView::Include {
                path: path@,
                base_name: base_name@,
            },
        }
    }
}

/// The rows of a member: a value of an enumeration has one of its own kind, any
/// other member can be searched.
pub open spec fn member_rows(m: MemberView, class_name: Seq<char>) -> Seq<OpView> {
    if m.mem_type == "enum_item"@ {
        seq![OpView::EnumValue { name: m.name, line: m.line as i64 }]
    } else {
        seq![
            OpView::Member {
                name: m.name,
                kind: m.mem_type,
                flags: m.flags,
                access: m.access,
                detail: m.detail,
                return_type: m.return_type,
                is_static: contains(m.flags, "static"@),
                line: m.line as i64,
            },
            OpView::Search { name: m.name, kind: m.mem_type, class_name },
        ]
    }
}

/// The rows of the first `n` members of a class.
pub open spec fn members_rows(c: ClassView, n: int) -> Seq<OpView>
    decreases n,
{
    if n <= 0 {
        seq![]
    } else {
        members_rows(c, n - 1) + member_rows(c.members[n - 1], c.class_name)
    }
}

/// The rows of the parents of a class.
pub open spec fn parent_rows(bases: Seq<Seq<char>>) -> Seq<OpView> {
    bases.map_values(|b: Seq<char>| OpView::Parent { name: b })
}

/// The rows of a class: its own, that for the search, its parents, and its
/// members.
pub open spec fn class_rows(c: ClassView) -> Seq<OpView> {
    seq![
        OpView::Class {
            name: c.class_name,
            namespace: c.namespace,
            base_class: if c.base_classes.len() > 0 {
                Some(c.base_classes[0])
            } else {
                None
            },
            line: c.line as i64,
            symbol_type: c.symbol_type,
            end_line: c.end_line as i64,
        },
        OpView::Search { name: c.class_name, kind: c.symbol_type, class_name: c.class_name },
    ] + parent_rows(c.base_classes) + members_rows(c, c.members.len() as int)
}

/// The rows of the first `n` classes of a file.
pub open spec fn classes_rows(cs: Seq<ClassView>, n: int) -> Seq<OpView>
    decreases n,
{
    if n <= 0 {
        seq![]
    } else {
        classes_rows(cs, n - 1) + class_rows(cs[n - 1])
    }
}

/// The rows of the calls of a file.
pub open spec fn call_rows(cs: Seq<CallView>) -> Seq<OpView> {
    cs.map_values(|c: CallView| OpView::Call { line: c.line as i64, name: c.name })
}

/// The rows of the files that a file names.
pub open spec fn include_rows(ps: Seq<Seq<char>>, windows: bool) -> Seq<OpView> {
    ps.map_values(
        |p: Seq<char>|
            OpView::Include {
                path: p,
                base_name: match file_name(p, windows) {
                    Some(b) => b,
                    None => p,
                },
            },
    )
}

/// The extension is that of a header.
pub open spec fn header_ext(e: Seq<char>) -> bool {
    e == "h"@ || e == "hpp"@ || e == "hh"@ || e == "inl"@
}

/// The row of a file.
pub open spec fn file_row(
    path: Seq<char>,
    windows: bool,
    mtime: u64,
    hash: Seq<char>,
    module_id: Option<i64>,
) -> OpView {
    let ext = match lower_extension(path, windows) {
        Some(e) => e,
        None => ""@,
    };
    OpView::File {
        directory: match parent(path, windows) {
            Some(p) => p,
            None => ""@,
        },
        filename: match file_name(path, windows) {
            Some(f) => f,
            None => "unknown"@,
        },
        extension: ext,
        mtime: mtime as i64,
        file_hash: hash,
        module_id,
        is_header: header_ext(ext),
    }
}

/// The rows of one result: none unless the file was parsed.
pub open spec fn result_rows(r: ParseResult, windows: bool) -> Seq<OpView> {
    match r.data {
        Some(d) if r.status@ == "parsed"@ => {
            let classes = views(d.classes@);
            seq![file_row(r.path@, windows, r.mtime, d.new_hash@, r.module_id)] + classes_rows(
                classes,
                classes.len() as int,
            ) + call_rows(views(d.calls@)) + include_rows(texts(d.includes@), windows)
        },
        _ => seq![],
    }
}

/// Whether the extension is that of a header.
pub fn is_header_extension(e: &[char]) -> (r: bool)
    ensures
        r == header_ext(e@),
{
    is_str(e, "h") || is_str(e, "hpp") || is_str(e, "hh") || is_str(e, "inl")
}

/// Adds a row.
fn add_row(out: &mut Vec<WriteOp>, op: WriteOp)
    ensures
        views(final(out)@) == views(old(out)@).push(op@),
{
    let ghost before = views(out@);
    let ghost ov = op@;
    out.push(op);
    assert(views(out@) =~= before.push(ov));
}

/// Adds the rows of a member.
fn add_member(out: &mut Vec<WriteOp>, m: &MemberInfo, class_name: &str)
    ensures
        views(final(out)@) == views(old(out)@) + member_rows(m@, class_name@),
{
    let ghost before = views(out@);
    let line: i64 = #[verifier::truncate]
    (m.line as i64);
    if str_eq(m.mem_type.as_str(), "enum_item") {
        add_row(out, WriteOp::EnumValue { name: m.name.clone(), line });
        assert(views(out@) =~= before + member_rows(m@, class_name@));
        return;
    }
    let f = chars_of(m.flags.as_str());
    add_row(
        out,
        WriteOp::Member {
            name: m.name.clone(),
            kind: m.mem_type.clone(),
            flags: m.flags.clone(),
            access: m.access.clone(),
            detail: copy_opt(&m.detail),
            return_type: copy_opt(&m.return_type),
            is_static: has_str(f.as_slice(), "static"),
            line,
        },
    );
    add_row(
        out,
        WriteOp::Search {
            name: m.name.clone(),
            kind: m.mem_type.clone(),
            class_name: owned(class_name),
        },
    );
    assert(views(out@) =~= before + member_rows(m@, class_name@));
}

/// Adds the rows of a class.
pub fn save_class(out: &mut Vec<WriteOp>, c: &ClassInfo)
    ensures
        views(final(out)@) == views(old(out)@) + class_rows(c@),
{
    let ghost start = views(out@);
    let ghost cv = c@;
    let base_class: Option<String> = if c.base_classes.len() > 0 {
        assert(cv.base_classes[0] == c.base_classes@[0]@);
        Some(c.base_classes[0].clone())
    } else {
        None
    };
    add_row(
        out,
        WriteOp::Class {
            name: c.class_name.clone(),
            namespace: copy_opt(&c.namespace),
            base_class,
            line: #[verifier::truncate]
            (c.line as i64),
            symbol_type: c.symbol_type.clone(),
            end_line: #[verifier::truncate]
            (c.end_line as i64),
        },
    );
    add_row(
        out,
        WriteOp::Search {
            name: c.class_name.clone(),
            kind: c.symbol_type.clone(),
            class_name: c.class_name.clone(),
        },
    );
    let ghost two = views(out@);
    let ghost parents = parent_rows(cv.base_classes);
    let mut i: usize = 0;
    assert(two + parents.take(0) =~= two);
    while i < c.base_classes.len()
        invariant
            i <= c.base_classes@.len(),
            cv == c@,
            parents == parent_rows(cv.base_classes),
            views(out@) == two + parents.take(i as int),
        decreases c.base_classes.len() - i,
    {
        assert(cv.base_classes[i as int] == c.base_classes@[i as int]@);
        add_row(out, WriteOp::Parent { name: c.base_classes[i].clone() });
        assert(parents.take(i + 1) =~= parents.take(i as int).push(parents[i as int]));
        assert(views(out@) =~= two + parents.take(i + 1));
        i = i + 1;
    }
    assert(parents.take(parents.len() as int) =~= parents);
    let ghost three = views(out@);
    let mut k: usize = 0;
    assert(three + members_rows(cv, 0) =~= three);
    while k < c.members.len()
        invariant
            k <= c.members@.len(),
            cv == c@,
            views(out@) == three + members_rows(cv, k as int),
        decreases c.members.len() - k,
    {
        assert(cv.members[k as int] == c.members@[k as int]@);
        add_member(out, &c.members[k], c.class_name.as_str());
        assert(views(out@) =~= three + members_rows(cv, k + 1));
        k = k + 1;
    }
    assert(views(out@) =~= start + class_rows(cv));
}

/// Adds the rows of calls.
pub fn save_calls(out: &mut Vec<WriteOp>, calls: &Vec<CallInfo>)
    ensures
        views(final(out)@) == views(old(out)@) + call_rows(views(calls@)),
{
    let ghost start = views(out@);
    let ghost rows = call_rows(views(calls@));
    let mut i: usize = 0;
    assert(start + rows.take(0) =~= start);
    while i < calls.len()
        invariant
            i <= calls@.len(),
            rows == call_rows(views(calls@)),
            views(out@) == start + rows.take(i as int),
        decreases calls.len() - i,
    {
        assert(views(calls@)[i as int] == calls@[i as int]@);
        add_row(
            out,
            WriteOp::Call {
                line: #[verifier::truncate]
                (calls[i].line as i64),
                name: calls[i].name.clone(),
            },
        );
        assert(views(out@) =~= start + rows.take(i + 1));
        i = i + 1;
    }
    assert(rows.take(rows.len() as int) =~= rows);
}

/// Adds the rows of the files that a file names.
pub fn save_includes(out: &mut Vec<WriteOp>, paths: &Vec<String>, windows: bool)
    ensures
        views(final(out)@) == views(old(out)@) + include_rows(texts(paths@), windows),
{
    let ghost start = views(out@);
    let ghost rows = include_rows(texts(paths@), windows);
    let mut i: usize = 0;
    assert(start + rows.take(0) =~= start);
    while i < paths.len()
        invariant
            i <= paths@.len(),
            rows == include_rows(texts(paths@), windows),
            views(out@) == start + rows.take(i as int),
        decreases paths.len() - i,
    {
        assert(texts(paths@)[i as int] == paths@[i as int]@);
        let v = chars_of(paths[i].as_str());
        let base_name = match file_name_of(v.as_slice(), windows) {
            Some(b) => string_of(b),
            None => paths[i].clone(),
        };
        add_row(out, WriteOp::Include { path: paths[i].clone(), base_name });
        assert(views(out@) =~= start + rows.take(i + 1));
        i = i + 1;
    }
    assert(rows.take(rows.len() as int) =~= rows);
}

/// The rows that one result gives.
pub fn save_to_db(result: &ParseResult, windows: bool) -> (r: Vec<WriteOp>)
    ensures
        views(r@) == result_rows(*result, windows),
{
    let mut out: Vec<WriteOp> = Vec::new();
    assert(views(out@) =~= Seq::<OpView>::empty());
    if !str_eq(result.status.as_str(), "parsed") {
        return out;
    }
    match &result.data {
        None => {},
        Some(data) => {
            let path = chars_of(result.path.as_str());
            let directory = match parent_of(path.as_slice(), windows) {
                Some(p) => string_of(p),
                None => owned(""),
            };
            let filename = match file_name_of(path.as_slice(), windows) {
                Some(f) => string_of(f),
                None => owned("unknown"),
            };
            let ext = match lower_extension_of(path.as_slice(), windows) {
                Some(e) => e,
                None => chars_of(""),
            };
            let is_header = is_header_extension(ext.as_slice());
            add_row(
                &mut out,
                WriteOp::File {
                    directory,
                    filename,
                    extension: string_of(ext.as_slice()),
                    mtime: #[verifier::truncate]
                    (result.mtime as i64),
                    file_hash: data.new_hash.clone(),
                    module_id: result.module_id,
                    is_header,
                },
            );
            let ghost first = views(out@);
            let ghost classes = views(data.classes@);
            let mut i: usize = 0;
            assert(first + classes_rows(classes, 0) =~= first);
            while i < data.classes.len()
                invariant
                    i <= data.classes@.len(),
                    classes == views(data.classes@),
                    views(out@) == first + classes_rows(classes, i as int),
                decreases data.classes.len() - i,
            {
                assert(classes[i as int] == data.classes@[i as int]@);
                save_class(&mut out, &data.classes[i]);
                assert(views(out@) =~= first + classes_rows(classes, i + 1));
                i = i + 1;
            }
            save_calls(&mut out, &data.calls);
            save_includes(&mut out, &data.includes, windows);
            assert(views(out@) =~= result_rows(*result, windows));
        },
    }
    out
}

/// A file that was not parsed gives no rows.
pub proof fn law_only_parsed_files_are_stored(r: ParseResult, windows: bool)
    ensures
        r.status@ != "parsed"@ || r.data is None ==> result_rows(r, windows).len() == 0,
        r.status@ == "parsed"@ && r.data is Some ==> result_rows(r, windows).len() > 0
            && result_rows(r, windows)[0] is File,
{
}

// ---------------------------------------------------------------------------
// Files that are stored
// ---------------------------------------------------------------------------
/// The two rows are rows of one file: the directory and the name are the same.
pub open spec fn same_file(a: OpView, b: OpView) -> bool {
    match (a, b) {
        (
            OpView::File { directory: d, filename: f, .. },
            OpView::File { directory: e, filename: g, .. },
        ) => d == e && f == g,
        _ => false,
    }
}

/// The rows of the table that are rows of the file.
pub open spec fn rows_of_file(table: Seq<OpView>, row: OpView) -> Seq<OpView>
    decreases table.len(),
{
    if table.len() == 0 {
        seq![]
    } else if same_file(table.last(), row) {
        rows_of_file(table.drop_last(), row).push(table.last())
    } else {
        rows_of_file(table.drop_last(), row)
    }
}

/// The rows of the table that are not rows of the file.
pub open spec fn without_file(table: Seq<OpView>, row: OpView) -> Seq<OpView>
    decreases table.len(),
{
    if table.len() == 0 {
        seq![]
    } else if same_file(table.last(), row) {
        without_file(table.drop_last(), row)
    } else {
        without_file(table.drop_last(), row).push(table.last())
    }
}

/// The table of the files once the first `n` rows were written: the row of a file
/// takes the place of those that the file had.
pub open spec fn files_after(table: Seq<OpView>, ops: Seq<OpView>, n: int) -> Seq<OpView>
    decreases n,
{
    if n <= 0 {
        table
    } else {
        let before = files_after(table, ops, n - 1);
        if ops[n - 1] is File {
            without_file(before, ops[n - 1]).push(ops[n - 1])
        } else {
            before
        }
    }
}

/// The table of the files once the first `n` results were saved.
pub open spec fn saved(table: Seq<OpView>, rs: Seq<ParseResult>, n: int, windows: bool) -> Seq<
    OpView,
>
    decreases n,
{
    if n <= 0 {
        table
    } else {
        let ops = result_rows(rs[n - 1], windows);
        files_after(saved(table, rs, n - 1, windows), ops, ops.len() as int)
    }
}

/// The row of the last of the first `n` results that is a parsed one of the file.
pub open spec fn last_row(rs: Seq<ParseResult>, n: int, windows: bool, row: OpView) -> Option<
    OpView,
>
    decreases n,
{
    if n <= 0 {
        None
    } else {
        let ops = result_rows(rs[n - 1], windows);
        if ops.len() > 0 && same_file(ops[0], row) {
            Some(ops[0])
        } else {
            last_row(rs, n - 1, windows, row)
        }
    }
}

/// No row is that of a file.
spec fn no_file(ops: Seq<OpView>) -> bool {
    forall|i: int| 0 <= i < ops.len() ==> !(#[trigger] ops[i] is File)
}

proof fn lemma_no_file_add(a: Seq<OpView>, b: Seq<OpView>)
    requires
        no_file(a),
        no_file(b),
    ensures
        no_file(a + b),
{
    assert forall|i: int| 0 <= i < (a + b).len() implies !(#[trigger] (a + b)[i] is File) by {
        if i < a.len() {
            assert((a + b)[i] == a[i]);
        } else {
            assert((a + b)[i] == b[i - a.len()]);
        }
    }
}

proof fn lemma_no_file_members(c: ClassView, n: int)
    ensures
        no_file(members_rows(c, n)),
    decreases n,
{
    if n > 0 {
        lemma_no_file_members(c, n - 1);
        assert(no_file(member_rows(c.members[n - 1], c.class_name)));
        lemma_no_file_add(
            members_rows(c, n - 1),
            member_rows(c.members[n - 1], c.class_name),
        );
    }
}

proof fn lemma_no_file_classes(cs: Seq<ClassView>, n: int)
    ensures
        no_file(classes_rows(cs, n)),
    decreases n,
{
    if n > 0 {
        lemma_no_file_classes(cs, n - 1);
        let c = cs[n - 1];
        let members = members_rows(c, c.members.len() as int);
        lemma_no_file_members(c, c.members.len() as int);
        let own = class_rows(c).take(2 + c.base_classes.len() as int);
        assert(class_rows(c) =~= own + members);
        assert(no_file(own)) by {
            assert forall|i: int| 0 <= i < own.len() implies !(#[trigger] own[i] is File) by {
                if i >= 2 {
                    assert(own[i] == parent_rows(c.base_classes)[i - 2]);
                }
            }
        }
        lemma_no_file_add(own, members);
        lemma_no_file_add(classes_rows(cs, n - 1), class_rows(c));
    }
}

/// The first row of a parsed result is that of its file, and no other row is one.
proof fn lemma_one_file(r: ParseResult, windows: bool)
    ensures
        result_rows(r, windows).len() > 0 ==> result_rows(r, windows)[0] is File,
        forall|i: int|
            1 <= i < result_rows(r, windows).len() ==> !(#[trigger] result_rows(
                r,
                windows,
            )[i] is File),
{
    let ops = result_rows(r, windows);
    if ops.len() > 0 {
        let d = r.data.unwrap();
        let classes = views(d.classes@);
        let a = classes_rows(classes, classes.len() as int);
        let b = call_rows(views(d.calls@));
        let c = include_rows(texts(d.includes@), windows);
        lemma_no_file_classes(classes, classes.len() as int);
        assert(no_file(b));
        assert(no_file(c));
        lemma_no_file_add(a, b);
        lemma_no_file_add(a + b, c);
        let rest = a + b + c;
        assert forall|i: int| 1 <= i < ops.len() implies !(#[trigger] ops[i] is File) by {
            assert(ops[i] == rest[i - 1]);
        }
    }
}

proof fn lemma_files_after(table: Seq<OpView>, ops: Seq<OpView>, n: int)
    requires
        1 <= n <= ops.len(),
        ops[0] is File,
        forall|i: int| 1 <= i < ops.len() ==> !(#[trigger] ops[i] is File),
    ensures
        files_after(table, ops, n) == without_file(table, ops[0]).push(ops[0]),
    decreases n,
{
    if n > 1 {
        lemma_files_after(table, ops, n - 1);
    } else {
        assert(files_after(table, ops, 0) == table);
    }
}

proof fn lemma_replaced(table: Seq<OpView>, new: OpView, row: OpView)
    requires
        new is File,
    ensures
        rows_of_file(without_file(table, new).push(new), row) == (if same_file(new, row) {
            seq![new]
        } else {
            rows_of_file(table, row)
        }),
{
    let w = without_file(table, new);
    lemma_without(table, new, row);
    assert(w.push(new).drop_last() =~= w);
    if same_file(new, row) {
        assert(rows_of_file(w, row).push(new) =~= seq![new]);
    }
}

proof fn lemma_without(table: Seq<OpView>, new: OpView, row: OpView)
    requires
        new is File,
    ensures
        rows_of_file(without_file(table, new), row) == (if same_file(new, row) {
            seq![]
        } else {
            rows_of_file(table, row)
        }),
    decreases table.len(),
{
    if table.len() > 0 {
        let few = table.drop_last();
        lemma_without(few, new, row);
        let w = without_file(few, new);
        assert(w.push(table.last()).drop_last() =~= w);
    }
}

/// A file of which a result was saved has one row, that of the last such result;
/// every other file has the rows that it had.
pub proof fn law_one_row_per_file(
    table: Seq<OpView>,
    rs: Seq<ParseResult>,
    n: int,
    windows: bool,
    row: OpView,
)
    requires
        0 <= n <= rs.len(),
    ensures
        rows_of_file(saved(table, rs, n, windows), row) == (match last_row(rs, n, windows, row) {
            Some(last) => seq![last],
            None => rows_of_file(table, row),
        }),
    decreases n,
{
    if n > 0 {
        law_one_row_per_file(table, rs, n - 1, windows, row);
        let ops = result_rows(rs[n - 1], windows);
        lemma_one_file(rs[n - 1], windows);
        if ops.len() > 0 {
            let before = saved(table, rs, n - 1, windows);
            lemma_files_after(before, ops, ops.len() as int);
            lemma_replaced(before, ops[0], row);
        }
    }
}

/// Saving the same results again changes the rows of no file.
pub proof fn law_saved_twice(
    table: Seq<OpView>,
    rs: Seq<ParseResult>,
    windows: bool,
    row: OpView,
)
    ensures
        ({
            let n = rs.len() as int;
            let once = saved(table, rs, n, windows);
            rows_of_file(saved(once, rs, n, windows), row) == rows_of_file(once, row)
        }),
{
    let n = rs.len() as int;
    law_one_row_per_file(table, rs, n, windows, row);
    law_one_row_per_file(saved(table, rs, n, windows), rs, n, windows, row);
}

// ---------------------------------------------------------------------------
// Modules of files
// ---------------------------------------------------------------------------
/// The path as it is compared.
pub open spec fn compared(s: Seq<char>) -> Seq<char> {
    lower(swap_char(s, '\\', '/'))
}

/// The path as it is compared.
pub fn normalize_path_for_compare(path: &str) -> (r: Vec<char>)
    ensures
        r@ == compared(path@),
{
    let v = chars_of(path);
    let v = replace_char(v.as_slice(), '\\', '/');
    to_lower(v.as_slice())
}

/// A module and its root.
#[derive(Debug, Clone)]
pub struct ModuleRoot {
    pub id: i64,
    pub root: String,
}

/// The module owns the path: its root is the beginning of it, and not empty.
pub open spec fn owns(m: ModuleRoot, path: Seq<char>) -> bool {
    compared(m.root@).len() > 0 && starts(compared(path), compared(m.root@))
}

/// The first of the first `n` modules that owns the path with the longest root.
pub open spec fn best_owner(ms: Seq<ModuleRoot>, path: Seq<char>, n: int) -> Option<int>
    decreases n,
{
    if n <= 0 {
        None
    } else {
        let before = best_owner(ms, path, n - 1);
        if !owns(ms[n - 1], path) {
            before
        } else {
            match before {
                Some(k) => if compared(ms[n - 1].root@).len() > compared(ms[k].root@).len() {
                    Some(n - 1)
                } else {
                    before
                },
                None => Some(n - 1),
            }
        }
    }
}

/// The module that a file belongs to: the one with the longest root that the
/// path begins with.
pub fn get_module_id_for_path(modules: &Vec<ModuleRoot>, file_path: &str) -> (r: Option<i64>)
    ensures
        r == (match best_owner(modules@, file_path@, modules@.len() as int) {
            Some(k) => Some(modules@[k].id),
            None => None,
        }),
{
    let path = normalize_path_for_compare(file_path);
    let mut best: Option<usize> = None;
    let mut best_len: usize = 0;
    let mut i: usize = 0;
    while i < modules.len()
        invariant
            i <= modules@.len(),
            path@ == compared(file_path@),
            match best {
                Some(k) => k < i && best_owner(modules@, file_path@, i as int) == Some(k as int)
                    && best_len == compared(modules@[k as int].root@).len() && best_len > 0,
                None => best_len == 0 && best_owner(modules@, file_path@, i as int) is None,
            },
        decreases modules.len() - i,
    {
        let root = normalize_path_for_compare(modules[i].root.as_str());
        if starts_with(path.as_slice(), root.as_slice()) && root.len() > best_len {
            best = Some(i);
            best_len = root.len();
        }
        i = i + 1;
    }
    match best {
        Some(k) => Some(modules[k].id),
        None => None,
    }
}

/// The chosen module owns the path, and no module that owns it has a longer
/// root; none is chosen only where none owns it.
pub proof fn law_longest_root(ms: Seq<ModuleRoot>, path: Seq<char>, n: int)
    requires
        0 <= n <= ms.len(),
    ensures
        match best_owner(ms, path, n) {
            Some(k) => 0 <= k < n && owns(ms[k], path) && forall|i: int|
                0 <= i < n && owns(#[trigger] ms[i], path) ==> compared(ms[i].root@).len()
                    <= compared(ms[k].root@).len(),
            None => forall|i: int| 0 <= i < n ==> !owns(#[trigger] ms[i], path),
        },
    decreases n,
{
    if n > 0 {
        law_longest_root(ms, path, n - 1);
    }
}

} // verus!
