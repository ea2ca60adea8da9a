//! How packed assets are laid out, and what they refer to.

#[allow(unused_imports)]
use crate::bytes::{i32_at, i64_at, le4, u16_at, u32_at, utf16_lossy, utf8_lossy};
#[allow(unused_imports)]
use crate::text::{contains, last_index_of, starts};
#[allow(unused_imports)]
use crate::uasset::{adv, export_at, export_tail, exports_from, import_at, imports_from, last_part, name_at, names_from,
    names_place, native_parent, object_path, or_start, own_parent, package_exports, package_imports, package_names,
    package_of, parent_class_of, parent_from, plain_object_name, skip_to, string_at, summary_from, summary_of,
    table_fault, tables_fault, tables_place, unterminated, versions_at, AssetError, ExportView, ImportView,
    SummaryView, Table, MAX_RECURSION_DEPTH, PACKAGE_TAG, PACKAGE_TAG_SWAPPED};
#[allow(unused_imports)]
use crate::order::ascending;
#[allow(unused_imports)]
use crate::text::texts;
#[allow(unused_imports)]
use crate::uasset::{import_refers, lists_references, unterminated_wide};
use vstd::prelude::*;

verus! {

// ---------------------------------------------------------------------------
// Strings and names
// ---------------------------------------------------------------------------
/// A string of single bytes as a package holds it: its length with the closing
/// zero, the bytes, the zero.
pub open spec fn packed_string(raw: Seq<u8>) -> Seq<u8> {
    let n = raw.len() as int + 1;
    seq![(n % 256) as u8, (n / 256) as u8, 0u8, 0u8] + raw + seq![0u8]
}

/// The bytes stand in the package at the position.
pub open spec fn holds_at(b: Seq<u8>, p: int, part: Seq<u8>) -> bool {
    0 <= p && p + part.len() <= b.len() && b.subrange(p, p + part.len()) == part
}

/// A string is read back as it was packed.
pub proof fn law_string_comes_back(b: Seq<u8>, p: int, raw: Seq<u8>)
    requires
        raw.len() < 0x8000,
        holds_at(b, p, packed_string(raw)),
    ensures
        string_at(b, p) == (Ok::<Seq<char>, AssetError>(utf8_lossy(raw)), p + packed_string(raw).len()),
{
    reveal(string_at);
    reveal(i32_at);
    let part = packed_string(raw);
    let n = raw.len() as int + 1;
    assert(part.len() == raw.len() + 5);
    let here = b.subrange(p, p + part.len());
    assert(here[0] == b[p] && here[1] == b[p + 1] && here[2] == b[p + 2] && here[3] == b[p + 3]);
    assert(0 <= n / 256 < 256);
    assert(n == n % 256 + 256 * (n / 256));
    assert(le4(b, p) == n);
    assert(i32_at(b, p) == n);
    let text = b.subrange(p + 4, p + 4 + n);
    assert forall|k: int| 0 <= k < n implies text[k] == (raw + seq![0u8])[k] by {
        assert(text[k] == here[4 + k]);
    }
    assert(text =~= raw + seq![0u8]);
    assert(text.last() == 0);
    assert(text.drop_last() =~= raw);
}

/// The names of a package as it holds them: each behind the other, and behind each
/// its hash.
pub open spec fn packed_names(raw: Seq<Seq<u8>>, hashes: Seq<Seq<u8>>, n: int) -> Seq<u8>
    decreases n,
{
    if n <= 0 {
        seq![]
    } else {
        packed_names(raw, hashes, n - 1) + packed_string(raw[n - 1]) + hashes[n - 1]
    }
}

proof fn lemma_packed_grows(raw: Seq<Seq<u8>>, hashes: Seq<Seq<u8>>, k: int, n: int)
    requires
        0 <= k <= n <= raw.len(),
        hashes.len() == raw.len(),
    ensures
        packed_names(raw, hashes, k).len() <= packed_names(raw, hashes, n).len(),
        packed_names(raw, hashes, n).take(packed_names(raw, hashes, k).len() as int)
            =~= packed_names(raw, hashes, k),
    decreases n - k,
{
    if k < n {
        lemma_packed_grows(raw, hashes, k, n - 1);
        let few = packed_names(raw, hashes, k);
        let most = packed_names(raw, hashes, n - 1);
        let all = packed_names(raw, hashes, n);
        assert(all.take(few.len() as int) =~= most.take(few.len() as int));
    }
}

proof fn lemma_names_from(
    b: Seq<u8>,
    start: int,
    raw: Seq<Seq<u8>>,
    hashes: Seq<Seq<u8>>,
    hashed: bool,
    k: int,
    acc: Seq<Seq<char>>,
)
    requires
        0 <= k <= raw.len(),
        hashes.len() == raw.len(),
        holds_at(b, start, packed_names(raw, hashes, raw.len() as int)),
        forall|i: int| 0 <= i < raw.len() ==> (#[trigger] raw[i]).len() < 0x8000,
        forall|i: int|
            0 <= i < raw.len() ==> (#[trigger] hashes[i]).len() == (if hashed {
                4int
            } else {
                0int
            }),
        acc == Seq::new(k as nat, |i: int| utf8_lossy(raw[i])),
    ensures
        names_from(
            b,
            start + packed_names(raw, hashes, k).len(),
            raw.len() - k,
            hashed,
            acc,
        ) == (Seq::new(raw.len(), |i: int| utf8_lossy(raw[i])), None::<AssetError>),
    decreases raw.len() - k,
{
    let n = raw.len() as int;
    if k == n {
        assert(acc =~= Seq::new(raw.len(), |i: int| utf8_lossy(raw[i])));
    } else {
        let all = packed_names(raw, hashes, n);
        let few = packed_names(raw, hashes, k);
        let more = packed_names(raw, hashes, k + 1);
        let part = packed_string(raw[k]);
        let p = start + few.len();
        lemma_packed_grows(raw, hashes, k + 1, n);
        assert(more == few + part + hashes[k]);
        assert(raw[k].len() < 0x8000);
        assert(hashes[k].len() == (if hashed {
            4int
        } else {
            0int
        }));
        assert forall|m: int| 0 <= m < part.len() implies b.subrange(p, p + part.len())[m] == part[m] by {
            assert(b.subrange(start, start + all.len())[few.len() + m] == all[few.len() + m]);
            assert(all.take(more.len() as int)[few.len() + m] == more[few.len() + m]);
        }
        assert(b.subrange(p, p + part.len()) =~= part);
        law_string_comes_back(b, p, raw[k]);
        let next = acc.push(utf8_lossy(raw[k]));
        assert(next =~= Seq::new((k + 1) as nat, |i: int| utf8_lossy(raw[i])));
        lemma_names_from(b, start, raw, hashes, hashed, k + 1, next);
    }
}

/// The names of a package are read back as they were packed: with a hash of four
/// bytes behind each from version 504 on, and with nothing behind them before.
pub proof fn law_names_come_back(
    b: Seq<u8>,
    s: SummaryView,
    raw: Seq<Seq<u8>>,
    hashes: Seq<Seq<u8>>,
)
    requires
        0 < s.name_offset < b.len(),
        s.name_count == raw.len(),
        hashes.len() == raw.len(),
        forall|i: int| 0 <= i < raw.len() ==> (#[trigger] raw[i]).len() < 0x8000,
        s.ue4_version >= 504 ==> forall|i: int|
            0 <= i < raw.len() ==> (#[trigger] hashes[i]).len() == 4,
        s.ue4_version < 504 ==> forall|i: int|
            0 <= i < raw.len() ==> (#[trigger] hashes[i]).len() == 0,
        holds_at(b, s.name_offset as int, packed_names(raw, hashes, raw.len() as int)),
    ensures
        package_names(b, s) == (Seq::new(raw.len(), |i: int| utf8_lossy(raw[i])), None::<AssetError>),
{
    let empty = Seq::<Seq<char>>::empty();
    assert(empty =~= Seq::new(0, |i: int| utf8_lossy(raw[i])));
    lemma_names_from(b, s.name_offset as int, raw, hashes, s.ue4_version >= 504, 0, empty);
}

/// A number that names no name stands for nothing, and any other for its name.
pub proof fn law_name_at(names: Seq<Seq<char>>, index: i32)
    ensures
        0 <= index < names.len() ==> name_at(names, index) == names[index as int],
        index < 0 || index >= names.len() ==> name_at(names, index).len() == 0,
{
}

// ---------------------------------------------------------------------------
// The head
// ---------------------------------------------------------------------------
/// A package begins with its tag, in either order of bytes.
pub proof fn law_package_tag(b: Seq<u8>)
    requires
        b.len() >= 4,
    ensures
        u32_at(b, 0) != 0x9E2A83C1u32 && u32_at(b, 0) != 0xC1832A9Eu32 ==> summary_of(b) == Err::<
            SummaryView,
            AssetError,
        >(AssetError::BadTag(u32_at(b, 0))),
        versions_at(b) is Ok ==> u32_at(b, 0) == 0x9E2A83C1u32 || u32_at(b, 0) == 0xC1832A9Eu32,
{
}

/// Where the versions of a package stand: the layout at 4, the engine version behind
/// it, with a version in between that is skipped unless the layout is -4; the
/// version of the second engine line from layout -8 on; then the licensee's version.
pub proof fn law_versions(b: Seq<u8>)
    requires
        versions_at(b) is Ok,
    ensures
        ({
            let (legacy, ue4, ue5, p) = versions_at(b)->Ok_0;
            let at = if legacy == -4 {
                8int
            } else {
                12int
            };
            &&& legacy == i32_at(b, 4)
            &&& ue4 == i32_at(b, at)
            &&& legacy <= -8 ==> ue5 == i32_at(b, at + 4)
            &&& legacy > -8 ==> ue5 == 0
            &&& legacy > -2 ==> p == at + 12
        }),
{
}

/// The list of custom versions, of twenty bytes each, is passed over: what follows
/// begins behind it, four bytes later in layouts before -9.
pub proof fn law_custom_versions(b: Seq<u8>, n: int)
    requires
        b.len() >= 28 + 20 * n,
        i32_at(b, 4) == -7 || i32_at(b, 4) == -8,
        u32_at(b, 0) == 0x9E2A83C1u32,
        0 <= n < 2000,
        i32_at(b, 4) == -7 ==> i32_at(b, 20) == n,
        i32_at(b, 4) == -8 ==> i32_at(b, 24) == n && b.len() >= 32 + 20 * n,
    ensures
        versions_at(b) matches Ok((_, _, _, p)) && p == (if i32_at(b, 4) == -7 {
            28 + 20 * n
        } else {
            32 + 20 * n
        }),
{
}

/// In layout -9 a hash of twenty bytes and the size of the head come before the
/// custom versions, and nothing behind them.
pub proof fn law_newest_layout(b: Seq<u8>, n: int)
    requires
        i32_at(b, 4) == -9,
        u32_at(b, 0) == 0x9E2A83C1u32,
        0 <= n < 2000,
        b.len() >= 52 + 20 * n,
        i32_at(b, 48) == n,
    ensures
        versions_at(b) matches Ok((_, ue4, ue5, p)) && ue4 == i32_at(b, 12) && ue5 == i32_at(b, 16)
            && p == 52 + 20 * n,
{
}

/// Behind the name of the package stand its flags, the count and the offset of its
/// names, the soft references from version 4 of the second line on, and its
/// localisation unless its properties are unversioned.
pub proof fn law_names_place(b: Seq<u8>, ue5: i32, p: int)
    requires
        0 <= p,
        p + 12 <= b.len(),
    ensures
        names_place(b, ue5, p) matches Some((unversioned, count, offset, q)) && unversioned == ((u32_at(
            b,
            p,
        ) & 0x8000_0000u32) != 0) && count == i32_at(b, p + 4) && offset == i32_at(b, p + 8) && (
        unversioned && p + 28 <= b.len() ==> q == p + (if ue5 >= 4 {
            28int
        } else {
            20int
        })) && (!unversioned && p + 20 <= b.len() ==> {
            let at = string_at(
                b,
                p + (if ue5 >= 4 {
                    20int
                } else {
                    12int
                }),
            ).1;
            at + 8 <= b.len() ==> q == at + 8
        }),
{
}

/// The tables of exports and imports stand behind each other, each with its count
/// and its offset, the exports first.
pub proof fn law_tables_place(b: Seq<u8>, ue4: i32, p: int)
    requires
        0 <= p,
        p + 36 <= b.len(),
    ensures
        tables_place(b, ue4, p) == Some(
            (i32_at(b, p), i32_at(b, p + 4), i32_at(b, p + 8), i32_at(b, p + 12)),
        ),
{
}

/// A package that ends inside of its head is refused.
pub proof fn law_short_tables(b: Seq<u8>, ue4: i32, p: int)
    requires
        0 <= p <= b.len(),
    ensures
        p + 24 > b.len() ==> tables_place(b, ue4, p) is None,
        ue4 >= 516 && p + 36 > b.len() && p + 28 <= b.len() ==> tables_place(b, ue4, p) is None,
        ue4 < 515 && p + 24 <= b.len() ==> tables_place(b, ue4, p) is Some,
{
}

/// A table with a negative count is refused, and so is one with entries that begins
/// outside of the package; an empty one may begin anywhere. The names are looked at
/// first, then the imports, then the exports.
pub proof fn law_tables_fault(names: (i32, i32), imports: (i32, i32), exports: (i32, i32), size: nat)
    ensures
        names.0 < 0 ==> tables_fault(names, imports, exports, size) == Some(
            AssetError::NegativeCount(Table::Names, names.0),
        ),
        names.0 > 0 && (names.1 <= 0 || names.1 >= size) ==> tables_fault(
            names,
            imports,
            exports,
            size,
        ) == Some(AssetError::BadOffset(Table::Names, names.1)),
        table_fault(Table::Names, names.0, names.1, size) is None && imports.0 < 0 ==> tables_fault(
            names,
            imports,
            exports,
            size,
        ) == Some(AssetError::NegativeCount(Table::Imports, imports.0)),
        table_fault(Table::Names, names.0, names.1, size) is None && imports.0 > 0 && (imports.1
            <= 0 || imports.1 >= size) ==> tables_fault(names, imports, exports, size) == Some(
            AssetError::BadOffset(Table::Imports, imports.1),
        ),
        tables_fault(names, imports, exports, size) is None <==> ({
            &&& names.0 == 0 || (names.0 > 0 && 0 < names.1 < size)
            &&& imports.0 == 0 || (imports.0 > 0 && 0 < imports.1 < size)
            &&& exports.0 == 0 || (exports.0 > 0 && 0 < exports.1 < size)
        }),
{
}

/// The head of a package gives the counts and the offsets under their tables, and
/// the name of the asset behind the last slash of that of the package.
pub proof fn law_summary(b: Seq<u8>, ue4: i32, ue5: i32, p: int)
    ensures
        summary_from(b, ue4, ue5, p) matches Ok(s) ==> {
            let q = string_at(b, p).1;
            &&& string_at(b, p).0 matches Ok(name) && s.asset_name == last_part(name)
            &&& s.ue4_version == ue4 && s.ue5_version == ue5
            &&& names_place(b, ue5, q) matches Some((unversioned, nc, no, t))
                && s.has_unversioned_properties == unversioned && s.name_count == nc && s.name_offset
                == no && (tables_place(b, ue4, t) matches Some((ec, eo, ic, io)) && s.export_count == ec
                && s.export_offset == eo && s.import_count == ic && s.import_offset == io
                && tables_fault((nc, no), (ic, io), (ec, eo), b.len()) is None)
        },
{
}

/// The name of an asset is what stands behind the last slash.
pub proof fn law_last_part(dir: Seq<char>, name: Seq<char>)
    requires
        !name.contains('/'),
    ensures
        last_part(name) == name,
        last_part(dir.push('/') + name) == name,
{
    lemma_no_slash(name, name.len() as int);
    let s = dir.push('/') + name;
    lemma_slash(s, dir.len() as int, s.len() as int);
    assert(s.skip(dir.len() as int + 1) =~= name);
}

proof fn lemma_no_slash(s: Seq<char>, end: int)
    requires
        0 <= end <= s.len(),
        !s.contains('/'),
    ensures
        crate::text::last_index_before(s, '/', end) is None,
    decreases end,
{
    if end > 0 {
        if s[end - 1] == '/' {
            assert(s.contains('/'));
        }
        lemma_no_slash(s, end - 1);
    }
}

proof fn lemma_slash(s: Seq<char>, at: int, end: int)
    requires
        0 <= at < end <= s.len(),
        s[at] == '/',
        !s.skip(at + 1).contains('/'),
    ensures
        crate::text::last_index_before(s, '/', end) == Some(at),
    decreases end,
{
    if end - 1 > at {
        if s[end - 1] == '/' {
            assert(s.skip(at + 1)[end - 2 - at] == '/');
        }
        lemma_slash(s, at, end - 1);
    }
}

// ---------------------------------------------------------------------------
// Imports and exports
// ---------------------------------------------------------------------------
/// How many bytes an import takes.
pub open spec fn import_size(s: SummaryView) -> int {
    28 + (if !s.has_unversioned_properties {
        8int
    } else {
        0int
    }) + (if s.ue5_version >= 12 {
        4int
    } else {
        0int
    })
}

/// An import: the package of its class, its class, its outer object, its name, its
/// own package unless the properties are unversioned, and whether it is optional in
/// the newest versions.
pub proof fn law_import_layout(b: Seq<u8>, p: int, s: SummaryView, names: Seq<Seq<char>>)
    requires
        0 <= p,
    ensures
        p + import_size(s) <= b.len() ==> (import_at(b, p, s, names) matches Some((i, q)) && q == p
            + import_size(s) && i.class_name == name_at(names, i64_at(b, p + 8) as i32)
            && i.outer_index == i32_at(b, p + 16) && i.object_name == name_at(
            names,
            i64_at(b, p + 20) as i32,
        )),
        p + import_size(s) > b.len() ==> import_at(b, p, s, names) is None,
{
}

/// How many bytes stand before the name of an export.
pub open spec fn before_name(s: SummaryView) -> int {
    if s.ue4_version >= 517 {
        16
    } else {
        12
    }
}

/// How many bytes the size and the offset of an export take each.
pub open spec fn serial_width(s: SummaryView) -> int {
    if s.ue4_version >= 511 {
        8
    } else {
        4
    }
}

/// How many bytes stand behind the offset of an export.
pub open spec fn export_rest(s: SummaryView) -> int {
    12 + (if s.ue5_version < 1 {
        16int
    } else {
        0int
    }) + (if s.ue5_version >= 6 {
        4int
    } else {
        0int
    }) + 4 + (if s.ue4_version >= 384 {
        4int
    } else {
        0int
    }) + (if s.ue4_version >= 510 {
        4int
    } else {
        0int
    }) + (if s.ue5_version >= 7 {
        4int
    } else {
        0int
    }) + (if s.ue4_version >= 504 {
        20int
    } else {
        0int
    }) + (if s.ue5_version >= 1 {
        16int
    } else {
        0int
    })
}

/// An export: its class, its parent, its template from version 517 on, its outer
/// object, its name, its flags, its size and its offset, in eight bytes each from
/// version 511 on, and what is not kept.
pub proof fn law_export_layout(b: Seq<u8>, p: int, s: SummaryView, names: Seq<Seq<char>>)
    requires
        0 <= p,
        p + before_name(s) + 12 + 2 * serial_width(s) + export_rest(s) <= b.len(),
    ensures
        export_at(b, p, s, names) matches Some((e, q)) && q == p + before_name(s) + 12 + 2
            * serial_width(s) + export_rest(s) && e.class_index == i32_at(b, p) && e.super_index
            == i32_at(b, p + 4) && (s.ue4_version >= 517 ==> e.template_index == i32_at(b, p + 8)) && (
        s.ue4_version < 517 ==> e.template_index == 0) && e.outer_index == i32_at(
            b,
            p + before_name(s) - 4,
        ) && e.object_name == name_at(names, i64_at(b, p + before_name(s)) as i32) && (s.ue4_version
            >= 511 ==> e.serial_size == i64_at(b, p + before_name(s) + 12) && e.serial_offset
            == i64_at(b, p + before_name(s) + 20)) && (s.ue4_version < 511 ==> e.serial_size
            == i32_at(b, p + before_name(s) + 12) && e.serial_offset == i32_at(
            b,
            p + before_name(s) + 16,
        )),
{
}

spec fn first_import(b: Seq<u8>, p: int, s: SummaryView, names: Seq<Seq<char>>) -> ImportView {
    let (i, _) = import_at(b, p, s, names)->0;
    i
}

spec fn first_export(b: Seq<u8>, p: int, s: SummaryView, names: Seq<Seq<char>>) -> ExportView {
    let (e, _) = export_at(b, p, s, names)->0;
    e
}

/// The imports and the exports of a package are those that its tables hold, one
/// behind the other.
pub proof fn law_tables_are_read(b: Seq<u8>, p: int, n: int, s: SummaryView, names: Seq<Seq<char>>)
    requires
        n > 0,
    ensures
        import_at(b, p, s, names) matches Some((i, q)) ==> imports_from(
            b,
            p,
            n,
            s,
            names,
            seq![],
        ) == imports_from(b, q, n - 1, s, names, seq![i]),
        import_at(b, p, s, names) is None ==> imports_from(b, p, n, s, names, seq![]) == (Seq::<
            ImportView,
        >::empty(), Some(AssetError::Eof)),
        export_at(b, p, s, names) matches Some((e, q)) ==> exports_from(
            b,
            p,
            n,
            s,
            names,
            seq![],
        ) == exports_from(b, q, n - 1, s, names, seq![e]),
        export_at(b, p, s, names) is None ==> exports_from(b, p, n, s, names, seq![]) == (Seq::<
            ExportView,
        >::empty(), Some(AssetError::Eof)),
{
    assert(Seq::<ImportView>::empty().push(first_import(b, p, s, names)) =~= seq![
        first_import(b, p, s, names),
    ]);
    assert(Seq::<ExportView>::empty().push(first_export(b, p, s, names)) =~= seq![
        first_export(b, p, s, names),
    ]);
}

proof fn lemma_imports_len(
    b: Seq<u8>,
    p: int,
    n: int,
    s: SummaryView,
    names: Seq<Seq<char>>,
    acc: Seq<ImportView>,
)
    requires
        0 <= p,
        0 <= n,
        p + n * import_size(s) <= b.len(),
    ensures
        imports_from(b, p, n, s, names, acc).0.len() == acc.len() + n,
        imports_from(b, p, n, s, names, acc).1 is None,
    decreases n,
{
    if n > 0 {
        let size = import_size(s);
        assert(n * size == size + (n - 1) * size) by (nonlinear_arith);
        assert((n - 1) * size >= 0) by (nonlinear_arith)
            requires
                n > 0,
                size > 0,
        ;
        law_import_layout(b, p, s, names);
        lemma_imports_len(b, p + size, n - 1, s, names, acc.push(first_import(b, p, s, names)));
    }
}

/// A package that is long enough gives all of its imports.
pub proof fn law_all_imports(b: Seq<u8>, s: SummaryView, names: Seq<Seq<char>>)
    requires
        s.import_count > 0,
        0 < s.import_offset < b.len(),
        s.import_offset + s.import_count * import_size(s) <= b.len(),
    ensures
        package_imports(b, s, names).0.len() == s.import_count,
        package_imports(b, s, names).1 is None,
{
    lemma_imports_len(b, s.import_offset as int, s.import_count as int, s, names, seq![]);
}

/// A package without imports or exports has none.
pub proof fn law_empty_tables(b: Seq<u8>, s: SummaryView, names: Seq<Seq<char>>)
    ensures
        s.import_count <= 0 ==> package_imports(b, s, names) == (Seq::<ImportView>::empty(), None::<
            AssetError,
        >),
        s.export_count <= 0 ==> package_exports(b, s, names) == (Seq::<ExportView>::empty(), None::<
            AssetError,
        >),
        s.export_count > 0 && 0 < s.export_offset < b.len() ==> package_exports(b, s, names)
            == exports_from(b, s.export_offset as int, s.export_count as int, s, names, seq![]),
{
}

/// A package is what its head, its names, its imports and its exports say. What
/// stops the reading of one stops what comes behind it.
pub proof fn law_package(b: Seq<u8>)
    ensures
        summary_of(b) matches Err(e) ==> package_of(b).fault == Some(e) && package_of(b).names.len()
            == 0 && package_of(b).imports.len() == 0 && package_of(b).exports.len() == 0,
        summary_of(b) matches Ok(s) ==> {
            let v = package_of(b);
            let names = package_names(b, s);
            let imports = package_imports(b, s, names.0);
            let exports = package_exports(b, s, names.0);
            &&& v.asset_name == s.asset_name && v.names == names.0
            &&& names.1 is Some ==> v.fault == names.1 && v.imports.len() == 0 && v.exports.len()
                == 0 && !v.imports_read
            &&& names.1 is None ==> v.imports == imports.0
            &&& names.1 is None && imports.1 is Some ==> v.fault == imports.1 && v.exports.len()
                == 0 && !v.imports_read
            &&& names.1 is None && imports.1 is None ==> v.exports == exports.0 && v.imports_read
                && v.fault == exports.1
        },
{
}

// ---------------------------------------------------------------------------
// Paths and parents
// ---------------------------------------------------------------------------
/// An imported object without an outer one is known by its name, without the mark
/// of a class default.
pub proof fn law_outermost_import(
    imports: Seq<ImportView>,
    exports: Seq<ExportView>,
    index: i32,
    depth: nat,
)
    requires
        index < 0,
        -index - 1 < imports.len(),
        depth <= MAX_RECURSION_DEPTH,
        imports[-index - 1].outer_index == 0,
    ensures
        object_path(imports, exports, index, depth) == plain_object_name(
            imports[-index - 1].object_name,
        ),
{
}

/// The mark of a class default is not part of a name.
pub proof fn law_plain_object_name(name: Seq<char>)
    ensures
        plain_object_name("Default__"@ + name) == name,
        !starts(name, "Default__"@) ==> plain_object_name(name) == name,
{
    reveal_strlit("Default__");
    let s = "Default__"@ + name;
    assert(s.subrange(0, 9) =~= "Default__"@);
    assert(s.skip(9) =~= name);
}

/// An imported object in a package is known by the path of the package, a dot and
/// its name; a function by a colon and its name; and what lies in anything else by
/// a slash and its name.
pub proof fn law_inner_import(
    imports: Seq<ImportView>,
    exports: Seq<ExportView>,
    index: i32,
    depth: nat,
)
    requires
        index < 0,
        -index - 1 < imports.len(),
        depth <= MAX_RECURSION_DEPTH,
        imports[-index - 1].outer_index != 0,
    ensures
        ({
            let i = imports[-index - 1];
            let outer = object_path(imports, exports, i.outer_index, depth + 1);
            let name = plain_object_name(i.object_name);
            let path = object_path(imports, exports, index, depth);
            &&& outer == "None"@ ==> path == name
            &&& outer != "None"@ && outer.len() > 0 && outer[0] == '/' && i.class_name
                == "Function"@ ==> path == outer + ":"@ + name
            &&& outer != "None"@ && outer.len() > 0 && outer[0] == '/' && i.class_name
                != "Function"@ ==> path == outer + "."@ + name
            &&& outer != "None"@ && outer.len() > 0 && outer[0] != '/' ==> path == outer + "/"@
                + name
        }),
{
}

/// An object of the package itself is known by its name, behind the path of its
/// outer object and a dot.
pub proof fn law_exported_object(
    imports: Seq<ImportView>,
    exports: Seq<ExportView>,
    index: i32,
    depth: nat,
)
    requires
        0 < index <= exports.len(),
        depth <= MAX_RECURSION_DEPTH,
    ensures
        ({
            let e = exports[index - 1];
            let outer = object_path(imports, exports, e.outer_index, depth + 1);
            let path = object_path(imports, exports, index, depth);
            &&& e.outer_index == 0 || outer == "None"@ ==> path == e.object_name
            &&& e.outer_index != 0 && outer != "None"@ ==> path == outer + "."@ + e.object_name
        }),
{
}

/// The number zero, and a number that names no object, lead to nothing.
pub proof fn law_no_object(
    imports: Seq<ImportView>,
    exports: Seq<ExportView>,
    index: i32,
    depth: nat,
)
    requires
        index == 0 || index > exports.len() || -index > imports.len(),
    ensures
        object_path(imports, exports, index, depth) == "None"@,
{
}

/// The parent of an asset is the parent of the export that bears its name, or its
/// name with the mark of a generated class.
pub proof fn law_own_parent(
    imports: Seq<ImportView>,
    exports: Seq<ExportView>,
    asset: Seq<char>,
    k: int,
)
    requires
        0 <= k < exports.len(),
        exports[k].object_name == asset || exports[k].object_name == asset + "_C"@,
        exports[k].super_index != 0,
        object_path(imports, exports, exports[k].super_index, 0) != "None"@,
        forall|m: int|
            0 <= m < k ==> (#[trigger] exports[m]).object_name != asset && exports[m].object_name
                != asset + "_C"@,
    ensures
        parent_class_of(imports, exports, asset) == Some(
            object_path(imports, exports, exports[k].super_index, 0),
        ),
{
    lemma_parent_own(imports, exports, asset, k, 0);
}

proof fn lemma_parent_own(
    imports: Seq<ImportView>,
    exports: Seq<ExportView>,
    asset: Seq<char>,
    k: int,
    i: int,
)
    requires
        0 <= i <= k < exports.len(),
        own_parent(imports, exports, asset, k) is Some,
        forall|m: int| i <= m < k ==> #[trigger] own_parent(imports, exports, asset, m) is None,
    ensures
        parent_from(imports, exports, asset, true, i) == own_parent(imports, exports, asset, k),
    decreases k - i,
{
    if i < k {
        assert(own_parent(imports, exports, asset, i) is None);
        lemma_parent_own(imports, exports, asset, k, i + 1);
    }
}

/// An asset that no export of its own gives a parent has that of its first outermost
/// object of a native class, unless that is the class of all blueprints.
pub proof fn law_native_parent(
    imports: Seq<ImportView>,
    exports: Seq<ExportView>,
    asset: Seq<char>,
    k: int,
)
    requires
        0 <= k < exports.len(),
        forall|m: int|
            0 <= m < exports.len() ==> #[trigger] own_parent(imports, exports, asset, m) is None,
        forall|m: int| 0 <= m < k ==> #[trigger] native_parent(imports, exports, m) is None,
        exports[k].outer_index == 0,
        exports[k].class_index < 0,
        starts(object_path(imports, exports, exports[k].class_index, 0), "/Script/"@),
        !contains(
            object_path(imports, exports, exports[k].class_index, 0),
            "BlueprintGeneratedClass"@,
        ),
    ensures
        parent_class_of(imports, exports, asset) == Some(
            object_path(imports, exports, exports[k].class_index, 0),
        ),
{
    lemma_no_own(imports, exports, asset, 0);
    lemma_parent_native(imports, exports, asset, k, 0);
}

proof fn lemma_no_own(imports: Seq<ImportView>, exports: Seq<ExportView>, asset: Seq<char>, i: int)
    requires
        0 <= i,
        forall|m: int|
            0 <= m < exports.len() ==> #[trigger] own_parent(imports, exports, asset, m) is None,
    ensures
        parent_from(imports, exports, asset, true, i) is None,
    decreases exports.len() - i,
{
    if i < exports.len() {
        assert(own_parent(imports, exports, asset, i) is None);
        lemma_no_own(imports, exports, asset, i + 1);
    }
}

proof fn lemma_parent_native(
    imports: Seq<ImportView>,
    exports: Seq<ExportView>,
    asset: Seq<char>,
    k: int,
    i: int,
)
    requires
        0 <= i <= k < exports.len(),
        native_parent(imports, exports, k) is Some,
        forall|m: int| i <= m < k ==> #[trigger] native_parent(imports, exports, m) is None,
    ensures
        parent_from(imports, exports, asset, false, i) == native_parent(imports, exports, k),
    decreases k - i,
{
    if i < k {
        assert(native_parent(imports, exports, i) is None);
        lemma_parent_native(imports, exports, asset, k, i + 1);
    }
}

/// An export gives no native parent where it lies in another, where its class is one
/// of the package itself, or where that is no script class.
pub proof fn law_no_native_parent(imports: Seq<ImportView>, exports: Seq<ExportView>, i: int)
    requires
        exports[i].outer_index != 0 || exports[i].class_index >= 0 || !starts(
            object_path(imports, exports, exports[i].class_index, 0),
            "/Script/"@,
        ) || contains(
            object_path(imports, exports, exports[i].class_index, 0),
            "BlueprintGeneratedClass"@,
        ),
    ensures
        native_parent(imports, exports, i) is None,
{
}

// ---------------------------------------------------------------------------
// Numbers and references
// ---------------------------------------------------------------------------
/// Numbers are written with the low byte first; negative ones in two's complement.
pub proof fn law_numbers(b: Seq<u8>, p: int, n: u32)
    requires
        0 <= p,
        p + 4 <= b.len(),
    ensures
        b[p] == n % 256 && b[p + 1] == n / 256 % 256 && b[p + 2] == n / 65536 % 256 && b[p + 3] == n
            / 16777216 ==> u32_at(b, p) == n && (n < 0x8000_0000 ==> i32_at(b, p) == n) && (n
            >= 0x8000_0000 ==> i32_at(b, p) == n - 0x1_0000_0000),
        b[p] == n % 256 && b[p + 1] == n / 256 % 256 ==> u16_at(b, p) == n % 65536,
{
    reveal(u32_at);
    reveal(i32_at);
    reveal(u16_at);
    if b[p] == n % 256 && b[p + 1] == n / 256 % 256 {
        assert(n % 65536 == n % 256 + 256 * (n / 256 % 256));
        if b[p + 2] == n / 65536 % 256 && b[p + 3] == n / 16777216 {
            assert(n == n % 256 + 256 * (n / 256 % 256) + 65536 * (n / 65536 % 256) + 16777216 * (n
                / 16777216));
            assert(le4(b, p) == n);
        }
    }
}

/// An eight byte number is its low half and, above it, its high half.
pub proof fn law_long_number(b: Seq<u8>, p: int)
    requires
        le4(b, p + 4) == 0,
        0 <= le4(b, p) < 0x1_0000_0000,
    ensures
        i64_at(b, p) == le4(b, p),
{
    reveal(i64_at);
}

/// What an asset refers to: the paths of its imports from the root, functions apart
/// from the rest, in order and each once.
pub proof fn law_references(list: Seq<String>, imports: Seq<ImportView>, function: bool, i: int)
    requires
        lists_references(list, imports, imports.len() as int, function),
        0 <= i < imports.len(),
    ensures
        ({
            let path = object_path(imports, seq![], (-(i + 1)) as i32, 0);
            (imports[i].class_name == "Function"@) == function && path.len() > 0 && path[0] == '/'
                ==> texts(list).contains(path)
        }),
        ascending(texts(list)),
{
    let path = object_path(imports, seq![], (-(i + 1)) as i32, 0);
    if (imports[i].class_name == "Function"@) == function && path.len() > 0 && path[0] == '/' {
        assert(import_refers(imports, i, function, path));
    }
}

/// Only paths of imports from the root are listed.
pub proof fn law_only_references(
    list: Seq<String>,
    imports: Seq<ImportView>,
    function: bool,
    path: Seq<char>,
)
    requires
        lists_references(list, imports, imports.len() as int, function),
        texts(list).contains(path),
    ensures
        path.len() > 0,
        path[0] == '/',
        exists|i: int|
            0 <= i < imports.len() && ((#[trigger] imports[i]).class_name == "Function"@) == function
                && path == object_path(imports, seq![], (-(i + 1)) as i32, 0),
{
    let i = choose|i: int|
        0 <= i < imports.len() && #[trigger] import_refers(imports, i, function, path);
    assert((imports[i].class_name == "Function"@) == function);
}

/// A zero at the end of a text is taken away, one and no more.
pub proof fn law_unterminated(u: Seq<u16>, x: u16)
    ensures
        unterminated_wide(u.push(0)) == u,
        x != 0 ==> unterminated_wide(u.push(x)) == u.push(x),
        unterminated_wide(Seq::<u16>::empty()).len() == 0,
{
    assert(u.push(0).drop_last() =~= u);
}

/// How much of its head a package needs, by its version.
pub proof fn law_head_length(b: Seq<u8>, ue4: i32, p: int)
    requires
        0 <= p <= b.len(),
    ensures
        ue4 < 515 ==> (tables_place(b, ue4, p) is Some <==> p + 24 <= b.len()),
        ue4 == 515 ==> (tables_place(b, ue4, p) is Some <==> p + 32 <= b.len()),
        ue4 > 515 ==> (tables_place(b, ue4, p) is Some <==> p + 36 <= b.len()),
{
}

} // verus!
