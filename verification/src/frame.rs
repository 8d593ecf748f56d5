//! The byte layout that host and guest agree on for a tick's result: four
//! bytes of little-endian length, then that many bytes of payload.
//!
//! The guest writes a frame somewhere in its linear memory and returns the
//! offset. The host reads it back and trusts nothing: a frame that would reach
//! past the end of the memory it was handed is not read at all.
use vstd::prelude::*;
use vstd::slice::slice_subrange;
use vstd::slice::slice_to_vec;

verus! {

/// Bytes taken by the length that precedes a payload.
pub const HEADER_LEN: usize = 4;

/// The number that four bytes spell, least significant first.
pub open spec fn le_value(b: Seq<u8>) -> int
    recommends
        b.len() == 4,
{
    b[0] as int + 256 * (b[1] as int) + 65536 * (b[2] as int) + 16777216 * (b[3] as int)
}

/// The four bytes that spell `n`, least significant first.
pub open spec fn le_bytes(n: int) -> Seq<u8>
    recommends
        0 <= n <= u32::MAX,
{
    seq![
        (n % 256) as u8,
        ((n / 256) % 256) as u8,
        ((n / 65536) % 256) as u8,
        ((n / 16777216) % 256) as u8,
    ]
}

/// A payload as a frame: its length, then the payload itself.
pub open spec fn spec_encode(payload: Seq<u8>) -> Seq<u8> {
    le_bytes(payload.len() as int) + payload
}

/// Whether `memory` holds a whole frame at offset `at`: the header and the
/// payload it announces both lie inside.
pub open spec fn frame_fits(memory: Seq<u8>, at: int) -> bool {
    &&& 0 <= at
    &&& at + 4 <= memory.len()
    &&& at + 4 + le_value(memory.subrange(at, at + 4)) <= memory.len()
}

/// The payload of the frame at offset `at`, if a whole frame lies there.
pub open spec fn spec_read_frame(memory: Seq<u8>, at: int) -> Option<Seq<u8>> {
    if frame_fits(memory, at) {
        Some(memory.subrange(at + 4, at + 4 + le_value(memory.subrange(at, at + 4))))
    } else {
        None
    }
}

/// Spelling a length and reading it back gives the length.
pub proof fn lemma_le_round_trip(n: int)
    requires
        0 <= n <= u32::MAX,
    ensures
        le_bytes(n).len() == 4,
        le_value(le_bytes(n)) == n,
{
    let b = le_bytes(n);
    assert(b[0] as int == n % 256);
    assert(b[1] as int == (n / 256) % 256);
    assert(b[2] as int == (n / 65536) % 256);
    assert(b[3] as int == n / 16777216) by {
        assert(n / 16777216 < 256);
    }
}

/// Reading finds what framing wrote, wherever in memory the frame stands and
/// whatever surrounds it.
pub proof fn lemma_frame_round_trip(before: Seq<u8>, payload: Seq<u8>, after: Seq<u8>)
    requires
        payload.len() <= u32::MAX,
    ensures
        spec_read_frame(before + spec_encode(payload) + after, before.len() as int) == Some(
            payload,
        ),
{
    let memory = before + spec_encode(payload) + after;
    let at = before.len() as int;
    lemma_le_round_trip(payload.len() as int);
    assert(memory.subrange(at, at + 4) =~= le_bytes(payload.len() as int));
    assert(memory.subrange(at + 4, at + 4 + payload.len()) =~= payload);
}

/// Frames a payload. A payload whose length does not fit the four-byte header
/// cannot be framed.
pub fn encode_frame(payload: &[u8]) -> (r: Option<Vec<u8>>)
    ensures
        r is Some <==> payload@.len() <= u32::MAX,
        r is Some ==> r->0@ == spec_encode(payload@),
{
    let n = payload.len();
    if n > 0xffff_ffff {
        return None;
    }
    let mut out: Vec<u8> = Vec::new();
    out.push((n % 256) as u8);
    out.push(((n / 256) % 256) as u8);
    out.push(((n / 65536) % 256) as u8);
    out.push(((n / 16777216) % 256) as u8);
    assert(out@ =~= le_bytes(n as int));
    let mut i: usize = 0;
    while i < n
        invariant
            n == payload@.len(),
            i <= n,
            out@ == le_bytes(n as int) + payload@.take(i as int),
        decreases n - i,
    {
        out.push(payload[i]);
        assert(payload@.take(i + 1) =~= payload@.take(i as int).push(payload@[i as int]));
        assert(out@ =~= le_bytes(n as int) + payload@.take(i + 1));
        i += 1;
    }
    assert(payload@.take(n as int) =~= payload@);
    Some(out)
}

/// Reads the frame that the guest says it left at offset `at` of `memory`.
/// Nothing outside `memory` is touched: an offset or a length that would lead
/// past its end gives `None`.
pub fn read_frame(memory: &[u8], at: i32) -> (r: Option<Vec<u8>>)
    ensures
        r is Some <==> frame_fits(memory@, at as int),
        r is Some ==> Some(r->0@) == spec_read_frame(memory@, at as int),
{
    if at < 0 {
        return None;
    }
    let size: u64 = memory.len() as u64;
    let start: u64 = at as u64;
    if start + 4 > size {
        return None;
    }
    let s: usize = at as usize;
    let b0: u64 = memory[s] as u64;
    let b1: u64 = memory[s + 1] as u64;
    let b2: u64 = memory[s + 2] as u64;
    let b3: u64 = memory[s + 3] as u64;
    let len: u64 = b0 + 256 * b1 + 65536 * b2 + 16777216 * b3;
    proof {
        let header = memory@.subrange(at as int, at + 4);
        assert(header[0] == memory@[s as int]);
        assert(header[1] == memory@[s + 1]);
        assert(header[2] == memory@[s + 2]);
        assert(header[3] == memory@[s + 3]);
        assert(len == le_value(header));
    }
    if start + 4 + len > size {
        return None;
    }
    let from: usize = s + 4;
    let to: usize = from + len as usize;
    Some(slice_to_vec(slice_subrange(memory, from, to)))
}

} // verus!
