//! Unreal asset packages: names, imports, exports and what they refer to.

use vstd::prelude::*;
use vstd::slice::slice_subrange;

use crate::bytes::{from_utf16_lossy, from_utf8_lossy, read_i32, read_i64, read_u16, read_u32};
use crate::text::{chars_of, concat, has_str, owned, push_str, rfind_char, starts_with_str, str_eq,
    string_of};
#[allow(unused_imports)]
use crate::bytes::{i32_at, i64_at, u16_at, u32_at, utf16_lossy, utf8_lossy};
#[allow(unused_imports)]
use crate::order::ascending;
#[allow(unused_imports)]
use crate::text::{contains, last_index_of, starts, texts, views};

verus! {

/// Why a package cannot be read.
#[derive(Debug, Clone, Copy, PartialEq, Eq, Structural)]
pub enum AssetError {
    /// The package ends too early.
    Eof,
    /// The package does not begin with a package tag.
    BadTag(u32),
    /// A string of single bytes is too long.
    AnsiTooLong(i32),
    /// A string of double bytes is too long.
    WideTooLong(i64),
    /// The count of a table is negative.
    NegativeCount(Table, i32),
    /// The offset of a table lies outside of the package.
    BadOffset(Table, i32),
}

/// A table of a package.
#[derive(Debug, Clone, Copy, PartialEq, Eq, Structural)]
pub enum Table {
    Names,
    Imports,
    Exports,
}

// ---------------------------------------------------------------------------
// Reading
// ---------------------------------------------------------------------------
/// The position after `n` bytes, if the package holds them.
pub open spec fn adv(b: Seq<u8>, p: Option<int>, n: int) -> Option<int> {
    match p {
        Some(p) => if p + n <= b.len() {
            Some(p + n)
        } else {
            None
        },
        None => None,
    }
}

/// The position after `n` bytes that are not read, at most the end.
pub open spec fn skip_to(b: Seq<u8>, p: Option<int>, n: int) -> Option<int> {
    match p {
        Some(p) => if p + n <= b.len() {
            Some(p + n)
        } else {
            Some(b.len() as int)
        },
        None => None,
    }
}

/// The bytes without a zero at their end.
pub open spec fn unterminated(b: Seq<u8>) -> Seq<u8> {
    if b.len() > 0 && b.last() == 0 {
        b.drop_last()
    } else {
        b
    }
}

/// The units without a zero at their end.
pub open spec fn unterminated_wide(u: Seq<u16>) -> Seq<u16> {
    if u.len() > 0 && u.last() == 0 {
        u.drop_last()
    } else {
        u
    }
}

/// The units that begin at `p`.
pub open spec fn units_at(b: Seq<u8>, p: int, n: nat) -> Seq<u16> {
    Seq::new(n, |i: int| u16_at(b, p + 2 * i))
}

/// The string at `p` and the position after it: a length, then so many bytes,
/// or, where it is negative, so many units. A package that ends inside of it
/// is read to its end.
#[verifier::opaque]
pub open spec fn string_at(b: Seq<u8>, p: int) -> (Result<Seq<char>, AssetError>, int) {
    let n = i32_at(b, p) as int;
    let q = p + 4;
    if q > b.len() {
        (Err(AssetError::Eof), b.len() as int)
    } else if n == 0 {
        (Ok(seq![]), q)
    } else if n > 0 {
        if n > 32768 {
            (Err(AssetError::AnsiTooLong(n as i32)), q)
        } else if q + n > b.len() {
            (Err(AssetError::Eof), b.len() as int)
        } else {
            (Ok(utf8_lossy(unterminated(b.subrange(q, q + n)))), q + n)
        }
    } else {
        if -n > 16384 {
            (Err(AssetError::WideTooLong((-n) as i64)), q)
        } else if q + 2 * (-n) > b.len() {
            (Err(AssetError::Eof), b.len() as int)
        } else {
            (Ok(utf16_lossy(unterminated_wide(units_at(b, q, (-n) as nat)))), q + 2 * (-n))
        }
    }
}

/// A reader of a package: its bytes and how far it has come.
pub struct Reader<'a> {
    pub data: &'a [u8],
    pub pos: usize,
}

impl<'a> Reader<'a> {
    /// The reader stands within the package.
    pub open spec fn wf(self) -> bool {
        self.pos <= self.data@.len()
    }

    /// Reads an unsigned number.
    pub fn u32(&mut self) -> (r: Result<u32, AssetError>)
        requires
            old(self).wf(),
        ensures
            final(self).wf(),
            final(self).data == old(self).data,
            match r {
                Ok(v) => adv(old(self).data@, Some(old(self).pos as int), 4) == Some(
                    final(self).pos as int,
                ) && v == u32_at(old(self).data@, old(self).pos as int),
                Err(e) => e == AssetError::Eof && adv(
                    old(self).data@,
                    Some(old(self).pos as int),
                    4,
                ) is None && final(self).pos == old(self).data@.len(),
            },
    {
        if self.data.len() - self.pos < 4 {
            self.pos = self.data.len();
            return Err(AssetError::Eof);
        }
        let at: usize = self.pos;
        let part = slice_subrange(self.data, at, at + 4);
        self.pos = at + 4;
        proof {
            reveal(u32_at);
        }
        Ok(read_u32(part))
    }

    /// Reads a signed number.
    pub fn i32(&mut self) -> (r: Result<i32, AssetError>)
        requires
            old(self).wf(),
        ensures
            final(self).wf(),
            final(self).data == old(self).data,
            match r {
                Ok(v) => adv(old(self).data@, Some(old(self).pos as int), 4) == Some(
                    final(self).pos as int,
                ) && v == i32_at(old(self).data@, old(self).pos as int),
                Err(e) => e == AssetError::Eof && adv(
                    old(self).data@,
                    Some(old(self).pos as int),
                    4,
                ) is None && final(self).pos == old(self).data@.len(),
            },
    {
        if self.data.len() - self.pos < 4 {
            self.pos = self.data.len();
            return Err(AssetError::Eof);
        }
        let at: usize = self.pos;
        let part = slice_subrange(self.data, at, at + 4);
        self.pos = at + 4;
        proof {
            reveal(i32_at);
        }
        Ok(read_i32(part))
    }

    /// Reads a long signed number.
    pub fn i64(&mut self) -> (r: Result<i64, AssetError>)
        requires
            old(self).wf(),
        ensures
            final(self).wf(),
            final(self).data == old(self).data,
            match r {
                Ok(v) => adv(old(self).data@, Some(old(self).pos as int), 8) == Some(
                    final(self).pos as int,
                ) && v == i64_at(old(self).data@, old(self).pos as int),
                Err(e) => e == AssetError::Eof && adv(
                    old(self).data@,
                    Some(old(self).pos as int),
                    8,
                ) is None && final(self).pos == old(self).data@.len(),
            },
    {
        if self.data.len() - self.pos < 8 {
            self.pos = self.data.len();
            return Err(AssetError::Eof);
        }
        let at: usize = self.pos;
        let part = slice_subrange(self.data, at, at + 8);
        self.pos = at + 8;
        proof {
            reveal(i64_at);
        }
        Ok(read_i64(part))
    }

    /// Goes forward by `n` bytes, at most to the end.
    pub fn skip_bytes(&mut self, n: usize)
        requires
            old(self).wf(),
        ensures
            final(self).wf(),
            final(self).data == old(self).data,
            skip_to(old(self).data@, Some(old(self).pos as int), n as int) == Some(
                final(self).pos as int,
            ),
    {
        if self.data.len() - self.pos < n {
            self.pos = self.data.len();
        } else {
            self.pos = self.pos + n;
        }
    }

    /// Reads a string.
    pub fn read_unreal_string(&mut self) -> (r: Result<String, AssetError>)
        requires
            old(self).wf(),
        ensures
            final(self).wf(),
            final(self).data == old(self).data,
            final(self).pos == string_at(old(self).data@, old(self).pos as int).1,
            match r {
                Ok(s) => string_at(old(self).data@, old(self).pos as int).0 == Ok::<
                    Seq<char>,
                    AssetError,
                >(s@),
                Err(e) => string_at(old(self).data@, old(self).pos as int).0 == Err::<
                    Seq<char>,
                    AssetError,
                >(e),
            },
    {
        proof {
            reveal(string_at);
        }
        let ghost b = self.data@;
        let n: i32 = self.i32()?;
        let len: usize = self.data.len();
        if n == 0 {
            let r = String::new();
            assert(r@ =~= Seq::<char>::empty());
            return Ok(r);
        }
        if n > 0 {
            if n > 32768 {
                return Err(AssetError::AnsiTooLong(n));
            }
            let count: usize = n as usize;
            if len - self.pos < count {
                self.pos = len;
                return Err(AssetError::Eof);
            }
            let at: usize = self.pos;
            self.pos = at + count;
            let mut end: usize = at + count;
            if self.data[end - 1] == 0 {
                end = end - 1;
            }
            let part = slice_subrange(self.data, at, end);
            assert(part@ =~= unterminated(b.subrange(at as int, at + count)));
            return Ok(from_utf8_lossy(part));
        }
        let wide: i64 = -(n as i64);
        if wide > 16384 {
            return Err(AssetError::WideTooLong(wide));
        }
        let count: usize = wide as usize;
        if len - self.pos < 2 * count {
            self.pos = len;
            return Err(AssetError::Eof);
        }
        let at: usize = self.pos;
        let mut units: Vec<u16> = Vec::new();
        let mut i: usize = 0;
        while i < count
            invariant
                i <= count <= 16384,
                at + 2 * count <= len,
                len == self.data@.len(),
                b == self.data@,
                units@.len() == i,
                forall|j: int| 0 <= j < i ==> units@[j] == u16_at(b, at + 2 * j),
            decreases count - i,
        {
            let part = slice_subrange(self.data, at + 2 * i, at + 2 * i + 2);
            proof {
                reveal(u16_at);
            }
            units.push(read_u16(part));
            i = i + 1;
        }
        assert(units@ =~= units_at(b, at as int, count as nat));
        self.pos = at + 2 * count;
        let ghost all = units@;
        if units[count - 1] == 0 {
            units.pop();
            assert(units@ =~= all.drop_last());
        }
        Ok(from_utf16_lossy(units.as_slice()))
    }
}

// ---------------------------------------------------------------------------
// Summary
// ---------------------------------------------------------------------------
/// The tag that a package begins with.
pub const PACKAGE_TAG: u32 = 0x9E2A83C1;

/// The tag of a package with the bytes the other way round.
pub const PACKAGE_TAG_SWAPPED: u32 = 0xC1832A9E;

/// What the head of a package says of the rest.
#[derive(Debug, Clone)]
pub struct PackageSummary {
    pub ue4_version: i32,
    pub ue5_version: i32,
    pub has_unversioned_properties: bool,
    pub asset_name: String,
    pub name_count: i32,
    pub name_offset: i32,
    pub import_count: i32,
    pub import_offset: i32,
    pub export_count: i32,
    pub export_offset: i32,
}

/// What the head of a package says of the rest.
pub struct SummaryView {
    pub ue4_version: i32,
    pub ue5_version: i32,
    pub has_unversioned_properties: bool,
    pub asset_name: Seq<char>,
    pub name_count: i32,
    pub name_offset: i32,
    pub import_count: i32,
    pub import_offset: i32,
    pub export_count: i32,
    pub export_offset: i32,
}

impl View for PackageSummary {
    type V = SummaryView;

    open spec fn view(&self) -> SummaryView {
        SummaryView {
            ue4_version: self.ue4_version,
            ue5_version: self.ue5_version,
            has_unversioned_properties: self.has_unversioned_properties,
            asset_name: self.asset_name@,
            name_count: self.name_count,
            name_offset: self.name_offset,
            import_count: self.import_count,
            import_offset: self.import_offset,
            export_count: self.export_count,
            export_offset: self.export_offset,
        }
    }
}

/// The position of an optional position, or the start.
pub open spec fn or_start(p: Option<int>) -> int {
    match p {
        Some(p) => p,
        None => 0,
    }
}

/// The versions that a package gives at its start, and the position of what
/// follows them: the layout version, then those of the two engine lines.
pub open spec fn versions_at(b: Seq<u8>) -> Result<(i32, i32, i32, int), AssetError> {
    let p1 = adv(b, Some(0), 4);
    let tag = u32_at(b, 0);
    let p2 = adv(b, p1, 4);
    let legacy = i32_at(b, 4);
    let p3 = if legacy != -4 {
        adv(b, p2, 4)
    } else {
        p2
    };
    let ue4 = i32_at(b, or_start(p3));
    let p4 = adv(b, p3, 4);
    let ue5 = if legacy <= -8 {
        i32_at(b, or_start(p4))
    } else {
        0
    };
    let p5 = if legacy <= -8 {
        adv(b, p4, 4)
    } else {
        p4
    };
    let p6 = adv(b, p5, 4);
    let p7 = if legacy <= -9 {
        adv(b, skip_to(b, p6, 20), 4)
    } else {
        p6
    };
    let count = i32_at(b, or_start(p7));
    let p8 = if legacy <= -2 {
        let q = adv(b, p7, 4);
        if 0 <= count < 2000 {
            skip_to(b, q, count * 20)
        } else {
            q
        }
    } else {
        p7
    };
    let p9 = if legacy > -9 {
        adv(b, p8, 4)
    } else {
        p8
    };
    if p1 is Some && tag != PACKAGE_TAG && tag != PACKAGE_TAG_SWAPPED {
        Err(AssetError::BadTag(tag))
    } else {
        match p9 {
            Some(p) => Ok((legacy, ue4, ue5, p)),
            None => Err(AssetError::Eof),
        }
    }
}

/// What follows the last slash of a path.
pub open spec fn last_part(s: Seq<char>) -> Seq<char> {
    match last_index_of(s, '/') {
        Some(i) => s.skip(i + 1),
        None => s,
    }
}

/// What stands after the name of a package, from `p` on: whether its
/// properties are unversioned, the count and the offset of its names, and the
/// position of what follows.
pub open spec fn names_place(b: Seq<u8>, ue5: i32, p: int) -> Option<(bool, i32, i32, int)> {
    let p0 = Some(p);
    let unversioned = (u32_at(b, p) & 0x8000_0000u32) != 0;
    let p1 = adv(b, p0, 4);
    let name_count = i32_at(b, or_start(p1));
    let p2 = adv(b, p1, 4);
    let name_offset = i32_at(b, or_start(p2));
    let p3 = adv(b, p2, 4);
    let p4 = if ue5 >= 4 {
        skip_to(b, p3, 8)
    } else {
        p3
    };
    let p5 = if unversioned {
        p4
    } else {
        match p4 {
            Some(q) => Some(string_at(b, q).1),
            None => None,
        }
    };
    match skip_to(b, p5, 8) {
        Some(p6) => Some((unversioned, name_count, name_offset, p6)),
        None => None,
    }
}

/// What stands from `p` on: the count and the offset of the exports, then
/// those of the imports; `None` where the package ends before what follows
/// them.
pub open spec fn tables_place(b: Seq<u8>, ue4: i32, p: int) -> Option<(i32, i32, i32, i32)> {
    let p6 = Some(p);
    let export_count = i32_at(b, p);
    let p7 = adv(b, p6, 4);
    let export_offset = i32_at(b, or_start(p7));
    let p8 = adv(b, p7, 4);
    let import_count = i32_at(b, or_start(p8));
    let p9 = adv(b, p8, 4);
    let import_offset = i32_at(b, or_start(p9));
    let p10 = adv(b, p9, 4);
    let p11 = adv(b, p10, 4);
    let p12 = if ue4 >= 515 {
        skip_to(b, p11, 8)
    } else {
        p11
    };
    let p13 = if ue4 >= 516 {
        adv(b, p12, 4)
    } else {
        p12
    };
    match adv(b, p13, 4) {
        Some(_) => Some((export_count, export_offset, import_count, import_offset)),
        None => None,
    }
}

/// What is wrong with the places of the three tables.
pub open spec fn tables_fault(
    names: (i32, i32),
    imports: (i32, i32),
    exports: (i32, i32),
    size: nat,
) -> Option<AssetError> {
    if table_fault(Table::Names, names.0, names.1, size) is Some {
        table_fault(Table::Names, names.0, names.1, size)
    } else if table_fault(Table::Imports, imports.0, imports.1, size) is Some {
        table_fault(Table::Imports, imports.0, imports.1, size)
    } else {
        table_fault(Table::Exports, exports.0, exports.1, size)
    }
}

/// The head of a package from the position after its versions on.
pub open spec fn summary_from(b: Seq<u8>, ue4: i32, ue5: i32, p: int) -> Result<
    SummaryView,
    AssetError,
> {
    match string_at(b, p).0 {
        Err(e) => Err(e),
        Ok(package_name) => match names_place(b, ue5, string_at(b, p).1) {
            None => Err(AssetError::Eof),
            Some((unversioned, nc, no, q)) => match tables_place(b, ue4, q) {
                None => Err(AssetError::Eof),
                Some((ec, eo, ic, io)) => match tables_fault((nc, no), (ic, io), (ec, eo), b.len()) {
                    Some(e) => Err(e),
                    None => Ok(
                        SummaryView {
                            ue4_version: ue4,
                            ue5_version: ue5,
                            has_unversioned_properties: unversioned,
                            asset_name: last_part(package_name),
                            name_count: nc,
                            name_offset: no,
                            import_count: ic,
                            import_offset: io,
                            export_count: ec,
                            export_offset: eo,
                        },
                    ),
                },
            },
        },
    }
}

/// The head of a package.
pub open spec fn summary_of(b: Seq<u8>) -> Result<SummaryView, AssetError> {
    match versions_at(b) {
        Err(e) => Err(e),
        Ok((legacy, ue4, ue5, p)) => summary_from(b, ue4, ue5, p),
    }
}

/// What is wrong with the place of a table. An empty table may lie anywhere.
pub open spec fn table_fault(table: Table, count: i32, offset: i32, size: nat) -> Option<
    AssetError,
> {
    if count < 0 {
        Some(AssetError::NegativeCount(table, count))
    } else if count > 0 && (offset <= 0 || offset >= size) {
        Some(AssetError::BadOffset(table, offset))
    } else {
        None
    }
}

/// Tells what is wrong with the place of a table.
fn validate_table(table: Table, count: i32, offset: i32, size: usize) -> (r: Result<(), AssetError>)
    ensures
        match r {
            Ok(_) => table_fault(table, count, offset, size as nat) is None,
            Err(e) => table_fault(table, count, offset, size as nat) == Some(e),
        },
{
    if count < 0 {
        return Err(AssetError::NegativeCount(table, count));
    }
    if count > 0 && (offset <= 0 || offset as u64 >= size as u64) {
        return Err(AssetError::BadOffset(table, offset));
    }
    Ok(())
}

/// Reads the versions at the start of a package.
fn read_versions(reader: &mut Reader) -> (r: Result<(i32, i32, i32), AssetError>)
    requires
        old(reader).wf(),
        old(reader).pos == 0,
    ensures
        final(reader).wf(),
        final(reader).data == old(reader).data,
        match r {
            Ok(v) => versions_at(old(reader).data@) == Ok::<(i32, i32, i32, int), AssetError>(
                (v.0, v.1, v.2, final(reader).pos as int),
            ),
            Err(e) => versions_at(old(reader).data@) == Err::<(i32, i32, i32, int), AssetError>(e),
        },
{
    let tag: u32 = reader.u32()?;
    if tag != PACKAGE_TAG && tag != PACKAGE_TAG_SWAPPED {
        return Err(AssetError::BadTag(tag));
    }
    let legacy: i32 = reader.i32()?;
    if legacy != -4 {
        reader.i32()?;
    }
    let ue4: i32 = reader.i32()?;
    let ue5: i32 = if legacy <= -8 {
        reader.i32()?
    } else {
        0
    };
    reader.i32()?;
    if legacy <= -9 {
        reader.skip_bytes(20);
        reader.i32()?;
    }
    if legacy <= -2 {
        let count: i32 = reader.i32()?;
        if 0 <= count && count < 2000 {
            reader.skip_bytes(count as usize * 20);
        }
    }
    if legacy > -9 {
        reader.i32()?;
    }
    Ok((legacy, ue4, ue5))
}

/// Reads what stands after the name of a package.
fn read_names_place(reader: &mut Reader, ue5_version: i32) -> (r: Result<
    (bool, i32, i32),
    AssetError,
>)
    requires
        old(reader).wf(),
    ensures
        final(reader).wf(),
        final(reader).data == old(reader).data,
        match r {
            Ok(v) => names_place(old(reader).data@, ue5_version, old(reader).pos as int) == Some(
                (v.0, v.1, v.2, final(reader).pos as int),
            ),
            Err(e) => e == AssetError::Eof && names_place(
                old(reader).data@,
                ue5_version,
                old(reader).pos as int,
            ) is None,
        },
{
    let flags: u32 = reader.u32()?;
    let has_unversioned_properties = (flags & 0x8000_0000) != 0;
    let name_count: i32 = reader.i32()?;
    let name_offset: i32 = reader.i32()?;
    if ue5_version >= 4 {
        reader.skip_bytes(8);
    }
    if !has_unversioned_properties {
        let _localization_id = reader.read_unreal_string();
    }
    reader.skip_bytes(8);
    Ok((has_unversioned_properties, name_count, name_offset))
}

/// Reads the counts and the offsets of exports and imports.
fn read_tables_place(reader: &mut Reader, ue4_version: i32) -> (r: Result<
    (i32, i32, i32, i32),
    AssetError,
>)
    requires
        old(reader).wf(),
    ensures
        final(reader).wf(),
        final(reader).data == old(reader).data,
        match r {
            Ok(v) => tables_place(old(reader).data@, ue4_version, old(reader).pos as int) == Some(v),
            Err(e) => e == AssetError::Eof && tables_place(
                old(reader).data@,
                ue4_version,
                old(reader).pos as int,
            ) is None,
        },
{
    let export_count: i32 = reader.i32()?;
    let export_offset: i32 = reader.i32()?;
    let import_count: i32 = reader.i32()?;
    let import_offset: i32 = reader.i32()?;
    reader.i32()?;
    if ue4_version >= 515 {
        reader.skip_bytes(8);
    }
    if ue4_version >= 516 {
        reader.i32()?;
    }
    reader.i32()?;
    Ok((export_count, export_offset, import_count, import_offset))
}

impl PackageSummary {
    /// Reads the head of a package.
    pub fn read(reader: &mut Reader) -> (r: Result<PackageSummary, AssetError>)
        requires
            old(reader).wf(),
            old(reader).pos == 0,
        ensures
            final(reader).wf(),
            final(reader).data == old(reader).data,
            match r {
                Ok(v) => summary_of(old(reader).data@) == Ok::<SummaryView, AssetError>(v@),
                Err(e) => summary_of(old(reader).data@) == Err::<SummaryView, AssetError>(e),
            },
    {
        let (_legacy_version, ue4_version, ue5_version) = read_versions(reader)?;
        let package_name = reader.read_unreal_string()?;
        let (has_unversioned_properties, name_count, name_offset) = read_names_place(
            reader,
            ue5_version,
        )?;
        let (export_count, export_offset, import_count, import_offset) = read_tables_place(
            reader,
            ue4_version,
        )?;
        let size: usize = reader.data.len();
        validate_table(Table::Names, name_count, name_offset, size)?;
        validate_table(Table::Imports, import_count, import_offset, size)?;
        validate_table(Table::Exports, export_count, export_offset, size)?;
        let v = chars_of(package_name.as_str());
        let asset_name = match rfind_char(v.as_slice(), '/') {
            Some(i) => {
                assert(v@.subrange(i + 1, v@.len() as int) =~= v@.skip(i + 1));
                string_of(slice_subrange(v.as_slice(), i + 1, v.len()))
            },
            None => package_name,
        };
        Ok(
            PackageSummary {
                ue4_version,
                ue5_version,
                has_unversioned_properties,
                asset_name,
                name_count,
                name_offset,
                import_count,
                import_offset,
                export_count,
                export_offset,
            },
        )
    }
}

// ---------------------------------------------------------------------------
// Tables
// ---------------------------------------------------------------------------
/// One import of a package.
#[derive(Debug, Clone)]
pub struct UObjectImport {
    pub object_name: String,
    pub class_name: String,
    pub outer_index: i32,
}

/// What an import says.
pub struct ImportView {
    pub object_name: Seq<char>,
    pub class_name: Seq<char>,
    pub outer_index: i32,
}

impl View for UObjectImport {
    type V = ImportView;

    open spec fn view(&self) -> ImportView {
        ImportView {
            object_name: self.object_name@,
            class_name: self.class_name@,
            outer_index: self.outer_index,
        }
    }
}

/// One export of a package.
#[derive(Debug, Clone)]
pub struct UObjectExport {
    pub class_index: i32,
    pub super_index: i32,
    pub template_index: i32,
    pub outer_index: i32,
    pub object_name: String,
    pub serial_size: i64,
    pub serial_offset: i64,
}

/// What an export says.
pub struct ExportView {
    pub class_index: i32,
    pub super_index: i32,
    pub template_index: i32,
    pub outer_index: i32,
    pub object_name: Seq<char>,
    pub serial_size: i64,
    pub serial_offset: i64,
}

impl View for UObjectExport {
    type V = ExportView;

    open spec fn view(&self) -> ExportView {
        ExportView {
            class_index: self.class_index,
            super_index: self.super_index,
            template_index: self.template_index,
            outer_index: self.outer_index,
            object_name: self.object_name@,
            serial_size: self.serial_size,
            serial_offset: self.serial_offset,
        }
    }
}

/// The name with the given number, or nothing.
pub open spec fn name_at(names: Seq<Seq<char>>, index: i32) -> Seq<char> {
    if 0 <= index < names.len() {
        names[index as int]
    } else {
        seq![]
    }
}

/// The `n` names from `p` on, behind those already read, and what stopped the
/// reading. In later versions a hash follows each name.
pub open spec fn names_from(
    b: Seq<u8>,
    p: int,
    n: int,
    hashed: bool,
    acc: Seq<Seq<char>>,
) -> (Seq<Seq<char>>, Option<AssetError>)
    decreases n,
{
    if n <= 0 {
        (acc, None)
    } else {
        let s = string_at(b, p);
        match s.0 {
            Err(e) => (acc, Some(e)),
            Ok(name) => {
                let next = if hashed {
                    adv(b, Some(s.1), 4)
                } else {
                    Some(s.1)
                };
                match next {
                    None => (acc.push(name), Some(AssetError::Eof)),
                    Some(q) => names_from(b, q, n - 1, hashed, acc.push(name)),
                }
            },
        }
    }
}

/// The import at `p` and the position after it.
pub open spec fn import_at(b: Seq<u8>, p: int, s: SummaryView, names: Seq<Seq<char>>) -> Option<
    (ImportView, int),
> {
    let p1 = adv(b, Some(p), 8);
    let class_index = i64_at(b, or_start(p1));
    let p2 = adv(b, p1, 8);
    let outer_index = i32_at(b, or_start(p2));
    let p3 = adv(b, p2, 4);
    let object_index = i64_at(b, or_start(p3));
    let p4 = adv(b, p3, 8);
    let p5 = if !s.has_unversioned_properties {
        adv(b, p4, 8)
    } else {
        p4
    };
    let p6 = if s.ue5_version >= 12 {
        adv(b, p5, 4)
    } else {
        p5
    };
    match p6 {
        None => None,
        Some(q) => Some(
            (
                ImportView {
                    object_name: name_at(names, object_index as i32),
                    class_name: name_at(names, class_index as i32),
                    outer_index,
                },
                q,
            ),
        ),
    }
}

/// The `n` imports from `p` on, behind those already read, and what stopped the
/// reading.
pub open spec fn imports_from(
    b: Seq<u8>,
    p: int,
    n: int,
    s: SummaryView,
    names: Seq<Seq<char>>,
    acc: Seq<ImportView>,
) -> (Seq<ImportView>, Option<AssetError>)
    decreases n,
{
    if n <= 0 {
        (acc, None)
    } else {
        match import_at(b, p, s, names) {
            None => (acc, Some(AssetError::Eof)),
            Some((import, q)) => imports_from(b, q, n - 1, s, names, acc.push(import)),
        }
    }
}

/// The position after the fields of an export that are not kept.
pub open spec fn export_tail(b: Seq<u8>, p: Option<int>, s: SummaryView) -> Option<int> {
    let p3 = adv(b, adv(b, adv(b, p, 4), 4), 4);
    let p4 = if s.ue5_version < 1 {
        skip_to(b, p3, 16)
    } else {
        p3
    };
    let p5 = if s.ue5_version >= 6 {
        adv(b, p4, 4)
    } else {
        p4
    };
    let p6 = adv(b, p5, 4);
    let p7 = if s.ue4_version >= 384 {
        adv(b, p6, 4)
    } else {
        p6
    };
    let p8 = if s.ue4_version >= 510 {
        adv(b, p7, 4)
    } else {
        p7
    };
    let p9 = if s.ue5_version >= 7 {
        adv(b, p8, 4)
    } else {
        p8
    };
    let p10 = if s.ue4_version >= 504 {
        skip_to(b, p9, 20)
    } else {
        p9
    };
    if s.ue5_version >= 1 {
        skip_to(b, p10, 16)
    } else {
        p10
    }
}

/// The export at `p` and the position after it.
pub open spec fn export_at(b: Seq<u8>, p: int, s: SummaryView, names: Seq<Seq<char>>) -> Option<
    (ExportView, int),
> {
    let class_index = i32_at(b, p);
    let p1 = adv(b, Some(p), 4);
    let super_index = i32_at(b, or_start(p1));
    let p2 = adv(b, p1, 4);
    let template_index = if s.ue4_version >= 517 {
        i32_at(b, or_start(p2))
    } else {
        0
    };
    let p3 = if s.ue4_version >= 517 {
        adv(b, p2, 4)
    } else {
        p2
    };
    let outer_index = i32_at(b, or_start(p3));
    let p4 = adv(b, p3, 4);
    let object_index = i64_at(b, or_start(p4));
    let p5 = adv(b, p4, 8);
    let p6 = adv(b, p5, 4);
    let width = if s.ue4_version >= 511 {
        8int
    } else {
        4int
    };
    let p7 = adv(b, p6, width);
    let p8 = adv(b, p7, width);
    let serial_size = if s.ue4_version >= 511 {
        i64_at(b, or_start(p6))
    } else {
        i32_at(b, or_start(p6)) as i64
    };
    let serial_offset = if s.ue4_version >= 511 {
        i64_at(b, or_start(p7))
    } else {
        i32_at(b, or_start(p7)) as i64
    };
    match export_tail(b, p8, s) {
        None => None,
        Some(q) => Some(
            (
                ExportView {
                    class_index,
                    super_index,
                    template_index,
                    outer_index,
                    object_name: name_at(names, object_index as i32),
                    serial_size,
                    serial_offset,
                },
                q,
            ),
        ),
    }
}

/// The `n` exports from `p` on, behind those already read, and what stopped the
/// reading.
pub open spec fn exports_from(
    b: Seq<u8>,
    p: int,
    n: int,
    s: SummaryView,
    names: Seq<Seq<char>>,
    acc: Seq<ExportView>,
) -> (Seq<ExportView>, Option<AssetError>)
    decreases n,
{
    if n <= 0 {
        (acc, None)
    } else {
        match export_at(b, p, s, names) {
            None => (acc, Some(AssetError::Eof)),
            Some((export, q)) => exports_from(b, q, n - 1, s, names, acc.push(export)),
        }
    }
}

/// The names of a package, as far as they can be read.
pub open spec fn package_names(b: Seq<u8>, s: SummaryView) -> (Seq<Seq<char>>, Option<AssetError>) {
    if s.name_offset <= 0 || s.name_offset >= b.len() {
        (seq![], Some(AssetError::BadOffset(Table::Names, s.name_offset)))
    } else {
        names_from(b, s.name_offset as int, s.name_count as int, s.ue4_version >= 504, seq![])
    }
}

/// The imports of a package, as far as they can be read.
pub open spec fn package_imports(b: Seq<u8>, s: SummaryView, names: Seq<Seq<char>>) -> (
    Seq<ImportView>,
    Option<AssetError>,
) {
    if s.import_count <= 0 || s.import_offset <= 0 {
        (seq![], None)
    } else if s.import_offset >= b.len() {
        (seq![], Some(AssetError::BadOffset(Table::Imports, s.import_offset)))
    } else {
        imports_from(b, s.import_offset as int, s.import_count as int, s, names, seq![])
    }
}

/// The exports of a package, as far as they can be read.
pub open spec fn package_exports(b: Seq<u8>, s: SummaryView, names: Seq<Seq<char>>) -> (
    Seq<ExportView>,
    Option<AssetError>,
) {
    if s.export_count <= 0 || s.export_offset <= 0 {
        (seq![], None)
    } else if s.export_offset >= b.len() {
        (seq![], Some(AssetError::BadOffset(Table::Exports, s.export_offset)))
    } else {
        exports_from(b, s.export_offset as int, s.export_count as int, s, names, seq![])
    }
}

/// A reader of asset packages and what it has found.
#[derive(Debug)]
pub struct UAssetParser {
    pub name_map: Vec<String>,
    pub import_map: Vec<UObjectImport>,
    pub export_map: Vec<UObjectExport>,
    pub imports: Vec<String>,
    pub functions: Vec<String>,
    pub parent_class: Option<String>,
    pub asset_name: String,
}

/// The name with the given number, or nothing.
fn name_by_index(names: &Vec<String>, index: i32) -> (r: String)
    ensures
        r@ == name_at(texts(names@), index),
{
    if index >= 0 && (index as u64) < names.len() as u64 {
        assert(texts(names@)[index as int] == names@[index as int]@);
        names[index as usize].clone()
    } else {
        let r = String::new();
        assert(r@ =~= Seq::<char>::empty());
        r
    }
}

/// Reads an import.
fn read_import(reader: &mut Reader, s: &PackageSummary, names: &Vec<String>) -> (r: Result<
    UObjectImport,
    AssetError,
>)
    requires
        old(reader).wf(),
    ensures
        final(reader).wf(),
        final(reader).data == old(reader).data,
        match r {
            Ok(v) => import_at(old(reader).data@, old(reader).pos as int, s@, texts(names@)) == Some(
                (v@, final(reader).pos as int),
            ),
            Err(e) => e == AssetError::Eof && import_at(
                old(reader).data@,
                old(reader).pos as int,
                s@,
                texts(names@),
            ) is None,
        },
{
    reader.i64()?;
    let class_index: i64 = reader.i64()?;
    let outer_index: i32 = reader.i32()?;
    let object_index: i64 = reader.i64()?;
    if !s.has_unversioned_properties {
        reader.i64()?;
    }
    if s.ue5_version >= 12 {
        reader.u32()?;
    }
    let class_name_index: i32 = #[verifier::truncate]
    (class_index as i32);
    let object_name_index: i32 = #[verifier::truncate]
    (object_index as i32);
    Ok(
        UObjectImport {
            object_name: name_by_index(names, object_name_index),
            class_name: name_by_index(names, class_name_index),
            outer_index,
        },
    )
}

/// Goes past the fields of an export that are not kept.
fn skip_export_tail(reader: &mut Reader, s: &PackageSummary) -> (r: Result<(), AssetError>)
    requires
        old(reader).wf(),
    ensures
        final(reader).wf(),
        final(reader).data == old(reader).data,
        match r {
            Ok(_) => export_tail(old(reader).data@, Some(old(reader).pos as int), s@) == Some(
                final(reader).pos as int,
            ),
            Err(e) => e == AssetError::Eof && export_tail(
                old(reader).data@,
                Some(old(reader).pos as int),
                s@,
            ) is None,
        },
{
    reader.i32()?;
    reader.i32()?;
    reader.i32()?;
    if s.ue5_version < 1 {
        reader.skip_bytes(16);
    }
    if s.ue5_version >= 6 {
        reader.i32()?;
    }
    reader.u32()?;
    if s.ue4_version >= 384 {
        reader.i32()?;
    }
    if s.ue4_version >= 510 {
        reader.i32()?;
    }
    if s.ue5_version >= 7 {
        reader.i32()?;
    }
    if s.ue4_version >= 504 {
        reader.skip_bytes(20);
    }
    if s.ue5_version >= 1 {
        reader.skip_bytes(16);
    }
    Ok(())
}

/// Reads an export.
fn read_export(reader: &mut Reader, s: &PackageSummary, names: &Vec<String>) -> (r: Result<
    UObjectExport,
    AssetError,
>)
    requires
        old(reader).wf(),
    ensures
        final(reader).wf(),
        final(reader).data == old(reader).data,
        match r {
            Ok(v) => export_at(old(reader).data@, old(reader).pos as int, s@, texts(names@)) == Some(
                (v@, final(reader).pos as int),
            ),
            Err(e) => e == AssetError::Eof && export_at(
                old(reader).data@,
                old(reader).pos as int,
                s@,
                texts(names@),
            ) is None,
        },
{
    let class_index: i32 = reader.i32()?;
    let super_index: i32 = reader.i32()?;
    let template_index: i32 = if s.ue4_version >= 517 {
        reader.i32()?
    } else {
        0
    };
    let outer_index: i32 = reader.i32()?;
    let object_index: i64 = reader.i64()?;
    reader.u32()?;
    let serial_size: i64 = if s.ue4_version >= 511 {
        reader.i64()?
    } else {
        reader.i32()? as i64
    };
    let serial_offset: i64 = if s.ue4_version >= 511 {
        reader.i64()?
    } else {
        reader.i32()? as i64
    };
    skip_export_tail(reader, s)?;
    let object_name_index: i32 = #[verifier::truncate]
    (object_index as i32);
    Ok(
        UObjectExport {
            class_index,
            super_index,
            template_index,
            outer_index,
            object_name: name_by_index(names, object_name_index),
            serial_size,
            serial_offset,
        },
    )
}

/// Goes to the start of a table.
fn seek_checked(reader: &mut Reader, table: Table, offset: i32) -> (r: Result<(), AssetError>)
    requires
        old(reader).wf(),
    ensures
        final(reader).wf(),
        final(reader).data == old(reader).data,
        match r {
            Ok(_) => 0 < offset < old(reader).data@.len() && final(reader).pos == offset,
            Err(e) => e == AssetError::BadOffset(table, offset) && (offset <= 0 || offset >= old(
                reader,
            ).data@.len()),
        },
{
    if offset <= 0 || offset as u64 >= reader.data.len() as u64 {
        return Err(AssetError::BadOffset(table, offset));
    }
    reader.pos = offset as usize;
    Ok(())
}

/// The view of an optional error.
pub open spec fn fault(r: Result<(), AssetError>) -> Option<AssetError> {
    match r {
        Ok(_) => None,
        Err(e) => Some(e),
    }
}

/// Reads the names of a package.
fn read_name_map(names: &mut Vec<String>, reader: &mut Reader, s: &PackageSummary) -> (r: Result<
    (),
    AssetError,
>)
    requires
        old(reader).wf(),
        old(names)@.len() == 0,
    ensures
        final(reader).wf(),
        final(reader).data == old(reader).data,
        (texts(final(names)@), fault(r)) == package_names(old(reader).data@, s@),
{
    let ghost b = reader.data@;
    assert(texts(names@) =~= Seq::<Seq<char>>::empty());
    seek_checked(reader, Table::Names, s.name_offset)?;
    let mut i: i32 = 0;
    let hashed = s.ue4_version >= 504;
    while i < s.name_count
        invariant
            0 <= i,
            i <= s.name_count || s.name_count < 0,
            reader.wf(),
            reader.data == old(reader).data,
            b == reader.data@,
            hashed == (s.ue4_version >= 504),
            package_names(b, s@) == names_from(
                b,
                reader.pos as int,
                s.name_count - i,
                hashed,
                texts(names@),
            ),
        decreases s.name_count - i,
    {
        let ghost before = texts(names@);
        let name = reader.read_unreal_string()?;
        names.push(name);
        assert(texts(names@) =~= before.push(name@));
        if hashed {
            reader.u32()?;
        }
        i = i + 1;
    }
    Ok(())
}

/// Reads the imports of a package.
fn read_import_map(
    imports: &mut Vec<UObjectImport>,
    reader: &mut Reader,
    s: &PackageSummary,
    names: &Vec<String>,
) -> (r: Result<(), AssetError>)
    requires
        old(reader).wf(),
        old(imports)@.len() == 0,
    ensures
        final(reader).wf(),
        final(reader).data == old(reader).data,
        (views(final(imports)@), fault(r)) == package_imports(
            old(reader).data@,
            s@,
            texts(names@),
        ),
{
    let ghost b = reader.data@;
    assert(views(imports@) =~= Seq::<ImportView>::empty());
    if s.import_count <= 0 || s.import_offset <= 0 {
        return Ok(());
    }
    seek_checked(reader, Table::Imports, s.import_offset)?;
    let mut i: i32 = 0;
    while i < s.import_count
        invariant
            0 <= i <= s.import_count,
            reader.wf(),
            reader.data == old(reader).data,
            b == reader.data@,
            package_imports(b, s@, texts(names@)) == imports_from(
                b,
                reader.pos as int,
                s.import_count - i,
                s@,
                texts(names@),
                views(imports@),
            ),
        decreases s.import_count - i,
    {
        let ghost before = views(imports@);
        let import = read_import(reader, s, names)?;
        imports.push(import);
        assert(views(imports@) =~= before.push(import@));
        i = i + 1;
    }
    Ok(())
}

/// Reads the exports of a package.
fn read_export_map(
    exports: &mut Vec<UObjectExport>,
    reader: &mut Reader,
    s: &PackageSummary,
    names: &Vec<String>,
) -> (r: Result<(), AssetError>)
    requires
        old(reader).wf(),
        old(exports)@.len() == 0,
    ensures
        final(reader).wf(),
        final(reader).data == old(reader).data,
        (views(final(exports)@), fault(r)) == package_exports(
            old(reader).data@,
            s@,
            texts(names@),
        ),
{
    let ghost b = reader.data@;
    assert(views(exports@) =~= Seq::<ExportView>::empty());
    if s.export_count <= 0 || s.export_offset <= 0 {
        return Ok(());
    }
    seek_checked(reader, Table::Exports, s.export_offset)?;
    let mut i: i32 = 0;
    while i < s.export_count
        invariant
            0 <= i <= s.export_count,
            reader.wf(),
            reader.data == old(reader).data,
            b == reader.data@,
            package_exports(b, s@, texts(names@)) == exports_from(
                b,
                reader.pos as int,
                s.export_count - i,
                s@,
                texts(names@),
                views(exports@),
            ),
        decreases s.export_count - i,
    {
        let ghost before = views(exports@);
        let export = read_export(reader, s, names)?;
        exports.push(export);
        assert(views(exports@) =~= before.push(export@));
        i = i + 1;
    }
    Ok(())
}

// ---------------------------------------------------------------------------
// References
// ---------------------------------------------------------------------------
/// The greatest depth to which the outer objects of an object are followed.
pub const MAX_RECURSION_DEPTH: usize = 32;

/// The name of an imported object without the mark of a class default.
pub open spec fn plain_object_name(name: Seq<char>) -> Seq<char> {
    if starts(name, "Default__"@) {
        name.skip("Default__"@.len() as int)
    } else {
        name
    }
}

/// The path of the object with the given number: exports count up from one,
/// imports down from minus one. The path of an outer object comes before the
/// name. `None` stands for no object, and for outer objects that are too many.
pub open spec fn object_path(
    imports: Seq<ImportView>,
    exports: Seq<ExportView>,
    index: i32,
    depth: nat,
) -> Seq<char>
    decreases MAX_RECURSION_DEPTH + 1 - depth,
{
    if index == 0 || depth > MAX_RECURSION_DEPTH {
        "None"@
    } else if index < 0 {
        let k = -index - 1;
        if k >= imports.len() {
            "None"@
        } else {
            let name = plain_object_name(imports[k].object_name);
            let outer = object_path(imports, exports, imports[k].outer_index, depth + 1);
            if imports[k].outer_index == 0 || outer == "None"@ {
                name
            } else if outer.len() > 0 && outer[0] == '/' {
                if imports[k].class_name == "Function"@ {
                    outer + ":"@ + name
                } else {
                    outer + "."@ + name
                }
            } else {
                outer + "/"@ + name
            }
        }
    } else {
        let k = index - 1;
        if k >= exports.len() {
            "None"@
        } else {
            let outer = object_path(imports, exports, exports[k].outer_index, depth + 1);
            if exports[k].outer_index == 0 || outer == "None"@ {
                exports[k].object_name
            } else {
                outer + "."@ + exports[k].object_name
            }
        }
    }
}

/// The path of the object with the given number.
fn resolve_object_path(
    import_map: &Vec<UObjectImport>,
    export_map: &Vec<UObjectExport>,
    index: i32,
    depth: usize,
) -> (r: String)
    ensures
        r@ == object_path(views(import_map@), views(export_map@), index, depth as nat),
    decreases MAX_RECURSION_DEPTH + 1 - depth,
{
    let ghost ims = views(import_map@);
    let ghost exs = views(export_map@);
    if index == 0 || depth > MAX_RECURSION_DEPTH {
        return owned("None");
    }
    if index < 0 {
        let k: u64 = (-(index as i64) - 1) as u64;
        if k >= import_map.len() as u64 {
            return owned("None");
        }
        let import = &import_map[k as usize];
        assert(ims[k as int] == import@);
        let full = chars_of(import.object_name.as_str());
        let name = if starts_with_str(full.as_slice(), "Default__") {
            proof {
                reveal_strlit("Default__");
            }
            assert(full@.subrange(9, full@.len() as int) =~= full@.skip(9));
            string_of(slice_subrange(full.as_slice(), 9, full.len()))
        } else {
            import.object_name.clone()
        };
        if import.outer_index == 0 {
            return name;
        }
        let outer = resolve_object_path(import_map, export_map, import.outer_index, depth + 1);
        if str_eq(outer.as_str(), "None") {
            return name;
        }
        let mut path = chars_of(outer.as_str());
        if path.len() > 0 && path[0] == '/' {
            if str_eq(import.class_name.as_str(), "Function") {
                push_str(&mut path, ":");
            } else {
                push_str(&mut path, ".");
            }
        } else {
            push_str(&mut path, "/");
        }
        push_str(&mut path, name.as_str());
        return string_of(path.as_slice());
    }
    let k: u64 = (index as i64 - 1) as u64;
    if k >= export_map.len() as u64 {
        return owned("None");
    }
    let export = &export_map[k as usize];
    assert(exs[k as int] == export@);
    if export.outer_index == 0 {
        return export.object_name.clone();
    }
    let outer = resolve_object_path(import_map, export_map, export.outer_index, depth + 1);
    if str_eq(outer.as_str(), "None") {
        return export.object_name.clone();
    }
    let mut path = chars_of(outer.as_str());
    push_str(&mut path, ".");
    push_str(&mut path, export.object_name.as_str());
    string_of(path.as_slice())
}

/// Import `i` refers to the given path from the root, as a function or as
/// something else.
pub open spec fn import_refers(
    imports: Seq<ImportView>,
    i: int,
    function: bool,
    path: Seq<char>,
) -> bool {
    &&& 0 <= i < imports.len()
    &&& (imports[i].class_name == "Function"@) == function
    &&& path == object_path(imports, seq![], (-(i + 1)) as i32, 0)
    &&& path.len() > 0
    &&& path[0] == '/'
}

/// One of the first `n` imports refers to the path.
pub open spec fn refers(imports: Seq<ImportView>, n: int, function: bool, path: Seq<char>) -> bool {
    exists|i: int| 0 <= i < n && #[trigger] import_refers(imports, i, function, path)
}

/// The list holds the paths to which imports refer, in order.
pub open spec fn lists_references(
    list: Seq<String>,
    imports: Seq<ImportView>,
    n: int,
    function: bool,
) -> bool {
    &&& ascending(texts(list))
    &&& forall|path: Seq<char>| #[trigger]
        texts(list).contains(path) <==> refers(imports, n, function, path)
}

/// Puts a path at its place in the list.
fn add_reference(
    list: &mut Vec<String>,
    path: String,
    Ghost(imports): Ghost<Seq<ImportView>>,
    Ghost(n): Ghost<int>,
    Ghost(function): Ghost<bool>,
)
    requires
        lists_references(old(list)@, imports, n, function),
        import_refers(imports, n, function, path@),
    ensures
        lists_references(final(list)@, imports, n + 1, function),
{
    let ghost before = texts(list@);
    let ghost pv = path@;
    crate::order::insert_ascending(list, path);
    proof {
        let after = texts(list@);
        assert forall|x: Seq<char>| #[trigger] after.contains(x) <==> refers(
            imports,
            n + 1,
            function,
            x,
        ) by {
            assert(after.to_set().contains(x) == after.contains(x));
            assert(before.to_set().contains(x) == before.contains(x));
            if before.contains(x) {
                let i = choose|i: int| 0 <= i < n && #[trigger] import_refers(imports, i, function, x);
                assert(import_refers(imports, i, function, x));
            }
            if x == pv {
                assert(import_refers(imports, n, function, x));
            }
            if refers(imports, n + 1, function, x) {
                let i = choose|i: int|
                    0 <= i < n + 1 && #[trigger] import_refers(imports, i, function, x);
                if i == n {
                    assert(x == pv);
                } else {
                    assert(refers(imports, n, function, x));
                }
            }
        }
    }
}

proof fn lemma_no_reference(imports: Seq<ImportView>, n: int, function: bool, list: Seq<String>)
    requires
        lists_references(list, imports, n, function),
        forall|path: Seq<char>| !#[trigger] import_refers(imports, n, function, path),
    ensures
        lists_references(list, imports, n + 1, function),
{
    assert forall|x: Seq<char>| #[trigger] texts(list).contains(x) <==> refers(
        imports,
        n + 1,
        function,
        x,
    ) by {
        if refers(imports, n, function, x) {
            let i = choose|i: int| 0 <= i < n && #[trigger] import_refers(imports, i, function, x);
            assert(import_refers(imports, i, function, x));
        }
        if refers(imports, n + 1, function, x) {
            let i = choose|i: int|
                0 <= i < n + 1 && #[trigger] import_refers(imports, i, function, x);
            assert(i != n);
            assert(refers(imports, n, function, x));
        }
    }
}

/// The paths from the root to which imports refer: those of functions last.
fn resolve_imports(import_map: &Vec<UObjectImport>) -> (r: (Vec<String>, Vec<String>))
    requires
        import_map@.len() <= i32::MAX,
    ensures
        lists_references(r.0@, views(import_map@), import_map@.len() as int, false),
        lists_references(r.1@, views(import_map@), import_map@.len() as int, true),
{
    let ghost ims = views(import_map@);
    let none: Vec<UObjectExport> = Vec::new();
    assert(views(none@) =~= Seq::<ExportView>::empty());
    let mut imports: Vec<String> = Vec::new();
    let mut functions: Vec<String> = Vec::new();
    let mut i: usize = 0;
    assert(lists_references(imports@, ims, 0, false));
    assert(lists_references(functions@, ims, 0, true));
    while i < import_map.len()
        invariant
            i <= import_map@.len() <= i32::MAX,
            ims == views(import_map@),
            views(none@) == Seq::<ExportView>::empty(),
            lists_references(imports@, ims, i as int, false),
            lists_references(functions@, ims, i as int, true),
        decreases import_map.len() - i,
    {
        let index: i32 = -(i as i32) - 1;
        let path = resolve_object_path(import_map, &none, index, 0);
        let v = chars_of(path.as_str());
        assert(ims[i as int] == import_map@[i as int]@);
        let function = str_eq(import_map[i].class_name.as_str(), "Function");
        if v.len() > 0 && v[0] == '/' {
            assert(import_refers(ims, i as int, function, path@));
            if function {
                add_reference(&mut functions, path, Ghost(ims), Ghost(i as int), Ghost(true));
                proof {
                    lemma_no_reference(ims, i as int, false, imports@);
                }
            } else {
                add_reference(&mut imports, path, Ghost(ims), Ghost(i as int), Ghost(false));
                proof {
                    lemma_no_reference(ims, i as int, true, functions@);
                }
            }
        } else {
            proof {
                lemma_no_reference(ims, i as int, false, imports@);
                lemma_no_reference(ims, i as int, true, functions@);
            }
        }
        i = i + 1;
    }
    (imports, functions)
}

/// The parent class that export `i` gives as the export of the asset itself.
pub open spec fn own_parent(
    imports: Seq<ImportView>,
    exports: Seq<ExportView>,
    asset: Seq<char>,
    i: int,
) -> Option<Seq<char>> {
    let e = exports[i];
    let path = object_path(imports, exports, e.super_index, 0);
    if (e.object_name == asset || e.object_name == asset + "_C"@) && e.super_index != 0 && path
        != "None"@ {
        Some(path)
    } else {
        None
    }
}

/// The parent class that export `i` gives by its native class.
pub open spec fn native_parent(imports: Seq<ImportView>, exports: Seq<ExportView>, i: int) -> Option<
    Seq<char>,
> {
    let e = exports[i];
    let path = object_path(imports, exports, e.class_index, 0);
    if e.outer_index == 0 && e.class_index < 0 && starts(path, "/Script/"@) && !contains(
        path,
        "BlueprintGeneratedClass"@,
    ) {
        Some(path)
    } else {
        None
    }
}

/// The first parent class that the exports from `i` on give.
pub open spec fn parent_from(
    imports: Seq<ImportView>,
    exports: Seq<ExportView>,
    asset: Seq<char>,
    own: bool,
    i: int,
) -> Option<Seq<char>>
    decreases exports.len() - i,
{
    if i < 0 || i >= exports.len() {
        None
    } else {
        let found = if own {
            own_parent(imports, exports, asset, i)
        } else {
            native_parent(imports, exports, i)
        };
        if found is Some {
            found
        } else {
            parent_from(imports, exports, asset, own, i + 1)
        }
    }
}

/// The parent class of an asset: what the first export of the asset itself
/// gives, else the first native class of an outermost export.
pub open spec fn parent_class_of(
    imports: Seq<ImportView>,
    exports: Seq<ExportView>,
    asset: Seq<char>,
) -> Option<Seq<char>> {
    let own = parent_from(imports, exports, asset, true, 0);
    if own is Some {
        own
    } else {
        parent_from(imports, exports, asset, false, 0)
    }
}

/// The parent class of an asset.
fn resolve_parent_class(
    import_map: &Vec<UObjectImport>,
    export_map: &Vec<UObjectExport>,
    asset_name: &str,
) -> (r: Option<String>)
    ensures
        crate::text::opt_text(r) == parent_class_of(
            views(import_map@),
            views(export_map@),
            asset_name@,
        ),
{
    let ghost ims = views(import_map@);
    let ghost exs = views(export_map@);
    let generated = concat(asset_name, "_C");
    let mut i: usize = 0;
    while i < export_map.len()
        invariant
            i <= export_map@.len(),
            ims == views(import_map@),
            exs == views(export_map@),
            generated@ == asset_name@ + "_C"@,
            parent_from(ims, exs, asset_name@, true, 0) == parent_from(
                ims,
                exs,
                asset_name@,
                true,
                i as int,
            ),
        decreases export_map.len() - i,
    {
        let export = &export_map[i];
        assert(exs[i as int] == export@);
        let own = str_eq(export.object_name.as_str(), asset_name) || str_eq(
            export.object_name.as_str(),
            generated.as_str(),
        );
        if own && export.super_index != 0 {
            let parent = resolve_object_path(import_map, export_map, export.super_index, 0);
            if !str_eq(parent.as_str(), "None") {
                return Some(parent);
            }
        }
        i = i + 1;
    }
    let mut k: usize = 0;
    while k < export_map.len()
        invariant
            k <= export_map@.len(),
            ims == views(import_map@),
            exs == views(export_map@),
            parent_from(ims, exs, asset_name@, true, 0) is None,
            parent_from(ims, exs, asset_name@, false, 0) == parent_from(
                ims,
                exs,
                asset_name@,
                false,
                k as int,
            ),
        decreases export_map.len() - k,
    {
        let export = &export_map[k];
        assert(exs[k as int] == export@);
        if export.outer_index == 0 && export.class_index < 0 {
            let path = resolve_object_path(import_map, export_map, export.class_index, 0);
            let v = chars_of(path.as_str());
            if starts_with_str(v.as_slice(), "/Script/") && !has_str(
                v.as_slice(),
                "BlueprintGeneratedClass",
            ) {
                return Some(path);
            }
        }
        k = k + 1;
    }
    None
}

// ---------------------------------------------------------------------------
// Packages
// ---------------------------------------------------------------------------
/// What a package holds, as far as it can be read.
pub struct PackageView {
    pub asset_name: Seq<char>,
    pub names: Seq<Seq<char>>,
    pub imports: Seq<ImportView>,
    pub exports: Seq<ExportView>,
    /// The imports were read to their end.
    pub imports_read: bool,
    /// What stopped the reading.
    pub fault: Option<AssetError>,
}

/// What a package holds, as far as it can be read.
pub open spec fn package_of(b: Seq<u8>) -> PackageView {
    match summary_of(b) {
        Err(e) => PackageView {
            asset_name: seq![],
            names: seq![],
            imports: seq![],
            exports: seq![],
            imports_read: false,
            fault: Some(e),
        },
        Ok(s) => {
            let (names, f1) = package_names(b, s);
            let (imports, f2) = package_imports(b, s, names);
            let (exports, f3) = package_exports(b, s, names);
            PackageView {
                asset_name: s.asset_name,
                names,
                imports: if f1 is None {
                    imports
                } else {
                    seq![]
                },
                exports: if f1 is None && f2 is None {
                    exports
                } else {
                    seq![]
                },
                imports_read: f1 is None && f2 is None,
                fault: if f1 is Some {
                    f1
                } else if f2 is Some {
                    f2
                } else {
                    f3
                },
            }
        },
    }
}

/// The parser holds what the package says.
pub open spec fn parser_holds(p: UAssetParser, v: PackageView) -> bool {
    &&& p.asset_name@ == v.asset_name
    &&& texts(p.name_map@) == v.names
    &&& views(p.import_map@) == v.imports
    &&& views(p.export_map@) == v.exports
    &&& if v.imports_read {
        &&& lists_references(p.imports@, v.imports, v.imports.len() as int, false)
        &&& lists_references(p.functions@, v.imports, v.imports.len() as int, true)
    } else {
        p.imports@.len() == 0 && p.functions@.len() == 0
    }
    &&& crate::text::opt_text(p.parent_class) == if v.fault is None {
        parent_class_of(v.imports, v.exports, v.asset_name)
    } else {
        None
    }
}

proof fn lemma_imports_len(
    b: Seq<u8>,
    p: int,
    n: int,
    s: SummaryView,
    names: Seq<Seq<char>>,
    acc: Seq<ImportView>,
)
    requires
        0 <= n,
    ensures
        imports_from(b, p, n, s, names, acc).0.len() <= acc.len() + n,
    decreases n,
{
    if n > 0 {
        match import_at(b, p, s, names) {
            None => {},
            Some((import, q)) => {
                lemma_imports_len(b, q, n - 1, s, names, acc.push(import));
            },
        }
    }
}

impl UAssetParser {
    /// A parser that has found nothing yet.
    pub fn new() -> (r: Self)
        ensures
            r.name_map@.len() == 0,
            r.import_map@.len() == 0,
            r.export_map@.len() == 0,
            r.imports@.len() == 0,
            r.functions@.len() == 0,
            r.parent_class is None,
            r.asset_name@.len() == 0,
    {
        UAssetParser {
            name_map: Vec::new(),
            import_map: Vec::new(),
            export_map: Vec::new(),
            imports: Vec::new(),
            functions: Vec::new(),
            parent_class: None,
            asset_name: String::new(),
        }
    }

    /// Reads the bytes of a `.uasset` or `.umap` file. What was found before is
    /// forgotten. Where the reading stops, what was read until then stays.
    pub fn parse(&mut self, data: &[u8]) -> (r: Result<(), AssetError>)
        ensures
            fault(r) == package_of(data@).fault,
            parser_holds(*final(self), package_of(data@)),
    {
        let mut p = UAssetParser::new();
        let mut reader = Reader { data, pos: 0 };
        let r = p.read_package(&mut reader);
        *self = p;
        r
    }

    /// Reads a package into an empty parser.
    fn read_package(&mut self, reader: &mut Reader) -> (r: Result<(), AssetError>)
        requires
            old(self).name_map@.len() == 0,
            old(self).import_map@.len() == 0,
            old(self).export_map@.len() == 0,
            old(self).imports@.len() == 0,
            old(self).functions@.len() == 0,
            old(self).parent_class is None,
            old(self).asset_name@.len() == 0,
            old(reader).wf(),
            old(reader).pos == 0,
        ensures
            fault(r) == package_of(old(reader).data@).fault,
            parser_holds(*final(self), package_of(old(reader).data@)),
    {
        let ghost b = reader.data@;
        assert(texts(self.name_map@) =~= Seq::<Seq<char>>::empty());
        assert(views(self.import_map@) =~= Seq::<ImportView>::empty());
        assert(views(self.export_map@) =~= Seq::<ExportView>::empty());
        assert(self.asset_name@ =~= Seq::<char>::empty());
        let summary = PackageSummary::read(reader)?;
        self.asset_name = summary.asset_name.clone();
        read_name_map(&mut self.name_map, reader, &summary)?;
        read_import_map(&mut self.import_map, reader, &summary, &self.name_map)?;
        proof {
            let s = summary@;
            if s.import_count > 0 {
                lemma_imports_len(
                    b,
                    s.import_offset as int,
                    s.import_count as int,
                    s,
                    texts(self.name_map@),
                    seq![],
                );
            }
        }
        let (imports, functions) = resolve_imports(&self.import_map);
        self.imports = imports;
        self.functions = functions;
        read_export_map(&mut self.export_map, reader, &summary, &self.name_map)?;
        self.parent_class = resolve_parent_class(
            &self.import_map,
            &self.export_map,
            self.asset_name.as_str(),
        );
        Ok(())
    }
}

impl Default for UAssetParser {
    fn default() -> (r: Self)
        ensures
            r.name_map@.len() == 0,
            r.import_map@.len() == 0,
            r.export_map@.len() == 0,
            r.imports@.len() == 0,
            r.functions@.len() == 0,
            r.parent_class is None,
            r.asset_name@.len() == 0,
    {
        UAssetParser::new()
    }
}

/// Nothing is listed that is not a path from the root.
pub proof fn law_references_are_rooted(
    list: Seq<String>,
    imports: Seq<ImportView>,
    n: int,
    function: bool,
    i: int,
)
    requires
        lists_references(list, imports, n, function),
        0 <= i < list.len(),
    ensures
        list[i]@.len() > 0 && list[i]@[0] == '/',
{
    assert(texts(list)[i] == list[i]@);
    assert(texts(list).contains(list[i]@));
}

/// What is read of a package depends on its bytes alone: a parser that was used
/// before ends as a new one does.
pub proof fn law_references_determined(
    a: Seq<String>,
    b: Seq<String>,
    imports: Seq<ImportView>,
    n: int,
    function: bool,
)
    requires
        lists_references(a, imports, n, function),
        lists_references(b, imports, n, function),
    ensures
        texts(a) == texts(b),
{
    assert forall|x: Seq<char>| texts(a).to_set().contains(x) == texts(b).to_set().contains(x) by {
        assert(texts(a).to_set().contains(x) == texts(a).contains(x));
        assert(texts(b).to_set().contains(x) == texts(b).contains(x));
    }
    assert(texts(a).to_set() =~= texts(b).to_set());
    crate::order::law_ascending_unique(texts(a), texts(b));
}

} // verus!
