//! Messages with their length in front.

use vstd::prelude::*;
use vstd::slice::slice_subrange;

verus! {

/// The bytes that hold the length of a message.
pub const FRAME_HEADER_SIZE: usize = 4;

/// The longest message that the server takes.
pub const MAX_FRAME_SIZE: usize = 67_108_864;

/// A message that is too long, with its length.
#[derive(Debug, Clone, Copy, PartialEq, Eq, Structural)]
pub struct FrameTooLarge {
    pub len: u32,
}

// ---------------------------------------------------------------------------
// Frames
// ---------------------------------------------------------------------------
/// The number that four bytes write, the most significant first.
pub open spec fn be4(b: Seq<u8>) -> int {
    b[0] * 0x1000000 + b[1] * 0x10000 + b[2] * 0x100 + b[3]
}

/// The four bytes that write a number, the most significant first.
pub open spec fn be4_bytes(n: u32) -> Seq<u8> {
    seq![
        (n / 0x1000000) as u8,
        (n / 0x10000 % 0x100) as u8,
        (n / 0x100 % 0x100) as u8,
        (n % 0x100) as u8,
    ]
}

/// A message with its length in front.
pub open spec fn framed(payload: Seq<u8>) -> Seq<u8> {
    be4_bytes(payload.len() as u32) + payload
}

/// What the bytes begin with.
pub enum FrameView {
    /// No complete message.
    Partial,
    /// A message that is too long.
    TooLarge(u32),
    /// A message of that many bytes, behind its length.
    Complete(int),
}

/// What the bytes begin with.
pub open spec fn first_frame(b: Seq<u8>, limit: Option<usize>) -> FrameView {
    if b.len() < FRAME_HEADER_SIZE {
        FrameView::Partial
    } else {
        let n = be4(b);
        match limit {
            Some(l) if n > l => FrameView::TooLarge(n as u32),
            _ => if b.len() < FRAME_HEADER_SIZE + n {
                FrameView::Partial
            } else {
                FrameView::Complete(n)
            },
        }
    }
}

/// The number that the first four bytes write.
fn frame_len(b: &Vec<u8>) -> (n: u32)
    requires
        b@.len() >= 4,
    ensures
        n == be4(b@),
{
    let high: u32 = (b[0] as u32) * 0x1000000 + (b[1] as u32) * 0x10000;
    high + (b[2] as u32) * 0x100 + (b[3] as u32)
}

/// Takes the first complete message off the buffer.
pub fn try_take_frame(buffer: &mut Vec<u8>, limit: Option<usize>) -> (r: Result<
    Option<Vec<u8>>,
    FrameTooLarge,
>)
    ensures
        match first_frame(old(buffer)@, limit) {
            FrameView::Partial => r matches Ok(None) && final(buffer)@ == old(buffer)@,
            FrameView::TooLarge(n) => r == Err::<Option<Vec<u8>>, FrameTooLarge>(
                (FrameTooLarge { len: n }),
            ) && final(buffer)@ == old(buffer)@,
            FrameView::Complete(n) => r matches Ok(Some(f)) && f@ == old(buffer)@.subrange(
                4,
                4 + n,
            ) && final(buffer)@ == old(buffer)@.skip(4 + n),
        },
{
    if buffer.len() < FRAME_HEADER_SIZE {
        return Ok(None);
    }
    let n: u32 = frame_len(buffer);
    match limit {
        Some(l) => {
            if n as u64 > l as u64 {
                return Err(FrameTooLarge { len: n });
            }
        },
        None => {},
    }
    if (buffer.len() as u64) < 4 + n as u64 {
        return Ok(None);
    }
    let ghost all = buffer@;
    let end: usize = 4 + n as usize;
    let mut frame: Vec<u8> = Vec::new();
    frame.extend_from_slice(slice_subrange(buffer.as_slice(), 4, end));
    assert(frame@ =~= all.subrange(4, end as int));
    let mut rest: Vec<u8> = Vec::new();
    rest.extend_from_slice(slice_subrange(buffer.as_slice(), end, buffer.len()));
    assert(rest@ =~= all.skip(end as int));
    *buffer = rest;
    Ok(Some(frame))
}

/// A message with its length in front.
pub fn encode_frame(payload: &Vec<u8>) -> (r: Vec<u8>)
    ensures
        r@ == framed(payload@),
{
    let n: u32 = #[verifier::truncate]
    (payload.len() as u32);
    let mut out: Vec<u8> = Vec::new();
    out.push((n / 0x1000000) as u8);
    out.push((n / 0x10000 % 0x100) as u8);
    out.push((n / 0x100 % 0x100) as u8);
    out.push((n % 0x100) as u8);
    assert(out@ =~= be4_bytes(n));
    out.extend_from_slice(payload.as_slice());
    assert(out@ =~= framed(payload@));
    out
}

/// The number that its four bytes write is the number itself.
pub proof fn law_length_comes_back(n: u32)
    ensures
        be4(be4_bytes(n)) == n,
        be4_bytes(n).len() == 4,
{
    assert(n / 0x1000000 < 0x100);
    assert(n == n / 0x1000000 * 0x1000000 + n / 0x10000 % 0x100 * 0x10000 + n / 0x100 % 0x100
        * 0x100 + n % 0x100) by (bit_vector);
}

/// What was framed comes back as it was, whatever follows it, unless it is longer
/// than a length can say or than the reader takes.
pub proof fn law_frame_comes_back(payload: Seq<u8>, rest: Seq<u8>, limit: Option<usize>)
    requires
        payload.len() <= u32::MAX,
        match limit {
            Some(l) => payload.len() <= l,
            None => true,
        },
    ensures
        ({
            let b = framed(payload) + rest;
            let n = payload.len() as int;
            &&& first_frame(b, limit) == FrameView::Complete(n)
            &&& b.subrange(4, 4 + n) == payload
            &&& b.skip(4 + n) == rest
        }),
{
    let b = framed(payload) + rest;
    let n = payload.len() as int;
    law_length_comes_back(payload.len() as u32);
    assert(be4(b) == be4(be4_bytes(payload.len() as u32)));
    assert(b.subrange(4, 4 + n) =~= payload);
    assert(b.skip(4 + n) =~= rest);
}

/// Bytes that are still to come change nothing about a message that is complete.
pub proof fn law_frame_is_stable(b: Seq<u8>, more: Seq<u8>, limit: Option<usize>)
    requires
        first_frame(b, limit) is Complete,
    ensures
        first_frame(b + more, limit) == first_frame(b, limit),
        forall|i: int|
            0 <= i < b.len() ==> (#[trigger] (b + more)[i]) == b[i],
{
    assert(be4(b + more) == be4(b));
}

} // verus!
