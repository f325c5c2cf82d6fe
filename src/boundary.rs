//! Addressing across the sandbox boundary.
//!
//! A guest module exports its linear memory as `memory`, an allocator
//! `alloc(len) -> offset` and its release `dealloc(offset, len)`. The host
//! asks `alloc` for room, copies the request there, and calls the entry
//! point with `(offset, len)`; the entry point owns the request from then
//! on. It returns the offset, in its linear memory, of an
//! eight-byte descriptor: the response's offset and then its length, each
//! a little-endian `u32`. The host trusts none of these numbers: a span
//! that does not lie inside the guest's memory is an error of the call,
//! never a read out of bounds.

use vstd::prelude::*;
use vstd::string::*;
use crate::error::PluginError;

verus! {

/// The size of a response descriptor in bytes.
pub const DESCRIPTOR_LEN: usize = 8;

/// The little-endian number held by the four bytes at `at`.
pub open spec fn u32_le(b: Seq<u8>, at: int) -> int {
    b[at] as int + 256 * (b[at + 1] as int) + 65536 * (b[at + 2] as int) + 16777216 * (b[at + 3] as int)
}

/// Whether `len` bytes at `offset` lie inside a memory of `memory_len` bytes.
pub open spec fn within(offset: int, len: int, memory_len: int) -> bool {
    0 <= offset && 0 <= len && offset + len <= memory_len
}

/// The response span that a descriptor gives, when it is one.
pub open spec fn span_of(d: Seq<u8>) -> Option<(int, int)> {
    if d.len() == DESCRIPTOR_LEN {
        Some((u32_le(d, 0), u32_le(d, 4)))
    } else {
        None
    }
}

fn read_u32_le(b: &[u8], at: usize) -> (r: u32)
    requires
        at + 4 <= b@.len(),
    ensures
        r as int == u32_le(b@, at as int),
{
    b[at] as u32 + 256 * (b[at + 1] as u32) + 65536 * (b[at + 2] as u32) + 16777216 * (b[at + 3] as u32)
}

/// Checks where the descriptor of a response lies: `Ok` with its offset
/// exactly when its eight bytes lie inside the guest's memory.
pub fn locate_descriptor(at: u32, memory_len: usize) -> (r: Result<usize, PluginError>)
    ensures
        r is Ok <==> within(at as int, DESCRIPTOR_LEN as int, memory_len as int),
        r is Ok ==> r->Ok_0 == at,
        r is Err ==> r->Err_0 is SandboxTrapError,
{
    if (at as usize) <= memory_len && memory_len - (at as usize) >= DESCRIPTOR_LEN {
        Ok(at as usize)
    } else {
        Err(PluginError::SandboxTrapError(String::from_str("the response descriptor lies outside the module's memory")))
    }
}

/// Reads the response span out of a descriptor: `Ok` with its offset and
/// length exactly when the descriptor has eight bytes and the span lies
/// inside the guest's memory.
pub fn response_span(d: &[u8], memory_len: usize) -> (r: Result<(usize, usize), PluginError>)
    ensures
        r is Ok <==> span_of(d@) is Some && within(
            span_of(d@)->Some_0.0,
            span_of(d@)->Some_0.1,
            memory_len as int,
        ),
        r is Ok ==> span_of(d@) == Some((r->Ok_0.0 as int, r->Ok_0.1 as int)),
        r is Err ==> r->Err_0 is SandboxTrapError,
{
    if d.len() != DESCRIPTOR_LEN {
        return Err(PluginError::SandboxTrapError(String::from_str("the response descriptor is malformed")));
    }
    let offset = read_u32_le(d, 0) as usize;
    let len = read_u32_le(d, 4) as usize;
    if offset <= memory_len && memory_len - offset >= len {
        Ok((offset, len))
    } else {
        Err(PluginError::SandboxTrapError(String::from_str("the response lies outside the module's memory")))
    }
}

fn push_u32_le(out: &mut Vec<u8>, x: u32)
    ensures
        final(out)@.len() == old(out)@.len() + 4,
        final(out)@.take(old(out)@.len() as int) == old(out)@,
        u32_le(final(out)@, old(out)@.len() as int) == x as int,
{
    let b0 = (x % 256) as u8;
    let b1 = (x / 256 % 256) as u8;
    let b2 = (x / 65536 % 256) as u8;
    let b3 = (x / 16777216) as u8;
    assert(b0 as int + 256 * (b1 as int) + 65536 * (b2 as int) + 16777216 * (b3 as int) == x as int);
    let ghost n = out@.len() as int;
    out.push(b0);
    out.push(b1);
    out.push(b2);
    out.push(b3);
    assert(final(out)@.take(n) =~= old(out)@);
}

/// Guest side: the descriptor of a response of `len` bytes at `offset`.
pub fn response_descriptor(offset: u32, len: u32) -> (r: Vec<u8>)
    ensures
        span_of(r@) == Some((offset as int, len as int)),
{
    let mut out: Vec<u8> = Vec::new();
    push_u32_le(&mut out, offset);
    let ghost first = out@;
    push_u32_le(&mut out, len);
    assert(out@[0] == first[0] && out@[1] == first[1] && out@[2] == first[2] && out@[3] == first[3]) by {
        assert(out@.take(4) == first);
    }
    out
}

} // verus!
