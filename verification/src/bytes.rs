//! Numbers and texts in byte sequences.

use byteorder::{ByteOrder, LittleEndian};
use vstd::prelude::*;
#[allow(unused_imports)]
use vstd::utf8::{decode_utf8, valid_utf8};

verus! {

/// The number that two bytes write, the low byte first.
#[verifier::opaque]
pub open spec fn u16_at(b: Seq<u8>, p: int) -> u16 {
    (b[p] + 0x100 * b[p + 1]) as u16
}

/// The number that four bytes write, the low byte first.
pub open spec fn le4(b: Seq<u8>, p: int) -> int {
    b[p] + 0x100 * b[p + 1] + 0x1_0000 * b[p + 2] + 0x100_0000 * b[p + 3]
}

/// The number that eight bytes write, the low byte first.
pub open spec fn le8(b: Seq<u8>, p: int) -> int {
    le4(b, p) + 0x1_0000_0000 * le4(b, p + 4)
}

/// The unsigned number that four bytes write.
#[verifier::opaque]
pub open spec fn u32_at(b: Seq<u8>, p: int) -> u32 {
    le4(b, p) as u32
}

/// The signed number that four bytes write, in two's complement.
#[verifier::opaque]
pub open spec fn i32_at(b: Seq<u8>, p: int) -> i32 {
    (if le4(b, p) < 0x8000_0000 {
        le4(b, p)
    } else {
        le4(b, p) - 0x1_0000_0000
    }) as i32
}

/// The signed number that eight bytes write, in two's complement.
#[verifier::opaque]
pub open spec fn i64_at(b: Seq<u8>, p: int) -> i64 {
    (if le8(b, p) < 0x8000_0000_0000_0000 {
        le8(b, p)
    } else {
        le8(b, p) - 0x1_0000_0000_0000_0000
    }) as i64
}

/// `byteorder::LittleEndian::read_u16`: the number that the first two bytes
/// write, the low byte first.
#[verifier::external_body]
pub(crate) fn read_u16(buf: &[u8]) -> (r: u16)
    requires
        buf@.len() >= 2,
    ensures
        r == u16_at(buf@, 0),
{
    LittleEndian::read_u16(buf)
}

/// `byteorder::LittleEndian::read_u32`: the number that the first four bytes
/// write, the low byte first.
#[verifier::external_body]
pub(crate) fn read_u32(buf: &[u8]) -> (r: u32)
    requires
        buf@.len() >= 4,
    ensures
        r == u32_at(buf@, 0),
{
    LittleEndian::read_u32(buf)
}

/// `byteorder::LittleEndian::read_i32`: the number that the first four bytes
/// write in two's complement, the low byte first.
#[verifier::external_body]
pub(crate) fn read_i32(buf: &[u8]) -> (r: i32)
    requires
        buf@.len() >= 4,
    ensures
        r == i32_at(buf@, 0),
{
    LittleEndian::read_i32(buf)
}

/// `byteorder::LittleEndian::read_i64`: the number that the first eight bytes
/// write in two's complement, the low byte first.
#[verifier::external_body]
pub(crate) fn read_i64(buf: &[u8]) -> (r: i64)
    requires
        buf@.len() >= 8,
    ensures
        r == i64_at(buf@, 0),
{
    LittleEndian::read_i64(buf)
}

/// The text that bytes write in UTF-8, with replacement characters where they
/// write none.
pub uninterp spec fn utf8_lossy(b: Seq<u8>) -> Seq<char>;

/// `String::from_utf8_lossy`: the text that the bytes write in UTF-8. Valid
/// bytes are decoded as they are.
#[verifier::external_body]
pub(crate) fn from_utf8_lossy(b: &[u8]) -> (r: String)
    ensures
        r@ == utf8_lossy(b@),
        valid_utf8(b@) ==> r@ == decode_utf8(b@),
{
    String::from_utf8_lossy(b).to_string()
}

/// `std::str::from_utf8`: the text that the bytes write in UTF-8, where they are
/// valid.
#[verifier::external_body]
pub(crate) fn from_utf8(b: &[u8]) -> (r: Option<String>)
    ensures
        match r {
            Some(s) => valid_utf8(b@) && s@ == decode_utf8(b@),
            None => !valid_utf8(b@),
        },
{
    std::str::from_utf8(b).ok().map(|s| s.to_string())
}

/// The text that units write in UTF-16, with replacement characters where they
/// write none.
pub uninterp spec fn utf16_lossy(units: Seq<u16>) -> Seq<char>;

/// `String::from_utf16_lossy`: the text that the units write in UTF-16.
#[verifier::external_body]
pub(crate) fn from_utf16_lossy(units: &[u16]) -> (r: String)
    ensures
        r@ == utf16_lossy(units@),
{
    String::from_utf16_lossy(units)
}

} // verus!
