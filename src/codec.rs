//! Little-endian field readers and writers shared by the record layouts.
//!
//! Every record is a fixed sequence of fields: one discriminant byte,
//! unsigned integers in little-endian order, 32-byte addresses, optional
//! integers stored as a tag byte (0 absent, 1 present) followed by eight
//! bytes that are zero when absent, and sequences stored as a 4-byte count
//! followed by their items.
use vstd::bytes::{
    lemma_auto_spec_u64_to_from_le_bytes, spec_u64_from_le_bytes, spec_u64_to_le_bytes,
    u64_from_le_bytes, u64_to_le_bytes, spec_u32_from_le_bytes, spec_u32_to_le_bytes,
    u32_from_le_bytes, u32_to_le_bytes, lemma_auto_spec_u32_to_from_le_bytes,
};
use vstd::prelude::*;
use vstd::slice::slice_subrange;

use crate::error::MetadataError;
use crate::pubkey::Pubkey;

verus! {

/// The `u64` stored little-endian at `at`.
pub open spec fn le_u64(s: Seq<u8>, at: int) -> u64 {
    spec_u64_from_le_bytes(s.subrange(at, at + 8))
}

/// The `u32` stored little-endian at `at`.
pub open spec fn le_u32(s: Seq<u8>, at: int) -> u32 {
    spec_u32_from_le_bytes(s.subrange(at, at + 4))
}

/// The optional `u64` stored at `at`: a tag byte, then eight bytes.
pub open spec fn le_option_u64(s: Seq<u8>, at: int) -> Option<u64> {
    if s[at] == 0 {
        None
    } else {
        Some(le_u64(s, at + 1))
    }
}

/// The address stored at `at`.
pub open spec fn address_at(s: Seq<u8>, at: int) -> Seq<u8> {
    s.subrange(at, at + 32)
}

pub open spec fn u64_bytes(v: u64) -> Seq<u8> {
    spec_u64_to_le_bytes(v)
}

pub open spec fn u32_bytes(v: u32) -> Seq<u8> {
    spec_u32_to_le_bytes(v)
}

/// The nine bytes that store an optional `u64`.
pub open spec fn option_u64_bytes(o: Option<u64>) -> Seq<u8> {
    match o {
        None => seq![0u8] + u64_bytes(0),
        Some(v) => seq![1u8] + u64_bytes(v),
    }
}

pub proof fn lemma_u64_bytes(v: u64)
    ensures
        u64_bytes(v).len() == 8,
        spec_u64_from_le_bytes(u64_bytes(v)) == v,
{
    lemma_auto_spec_u64_to_from_le_bytes();
}

pub proof fn lemma_u32_bytes(v: u32)
    ensures
        u32_bytes(v).len() == 4,
        spec_u32_from_le_bytes(u32_bytes(v)) == v,
{
    lemma_auto_spec_u32_to_from_le_bytes();
    assert(spec_u32_to_le_bytes(v).len() == 4);
}

pub proof fn lemma_option_u64_bytes(o: Option<u64>)
    ensures
        option_u64_bytes(o).len() == 9,
        option_u64_bytes(o)[0] <= 1,
        le_option_u64(option_u64_bytes(o), 0) == o,
{
    let b = option_u64_bytes(o);
    match o {
        None => lemma_u64_bytes(0),
        Some(v) => {
            lemma_u64_bytes(v);
            assert(b.subrange(1, 9) =~= u64_bytes(v));
        },
    }
}

pub fn read_u64(data: &[u8], at: usize) -> (r: u64)
    requires
        at + 8 <= data@.len(),
    ensures
        r == le_u64(data@, at as int),
{
    let len = data.len();
    let s = slice_subrange(data, at, at + 8);
    u64_from_le_bytes(s)
}

pub fn read_u32(data: &[u8], at: usize) -> (r: u32)
    requires
        at + 4 <= data@.len(),
    ensures
        r == le_u32(data@, at as int),
{
    let len = data.len();
    let s = slice_subrange(data, at, at + 4);
    u32_from_le_bytes(s)
}

/// Reads an optional `u64`; a tag byte other than 0 or 1 is malformed.
pub fn read_option_u64(data: &[u8], at: usize) -> (r: Result<Option<u64>, MetadataError>)
    requires
        at + 9 <= data@.len(),
    ensures
        data@[at as int] <= 1 ==> r == Ok::<Option<u64>, MetadataError>(
            le_option_u64(data@, at as int),
        ),
        data@[at as int] > 1 ==> r == Err::<Option<u64>, MetadataError>(
            MetadataError::DataTypeMismatch,
        ),
{
    let tag = data[at];
    if tag == 0 {
        Ok(None)
    } else if tag == 1 {
        Ok(Some(read_u64(data, at + 1)))
    } else {
        Err(MetadataError::DataTypeMismatch)
    }
}

pub fn read_pubkey(data: &[u8], at: usize) -> (r: Pubkey)
    requires
        at + 32 <= data@.len(),
    ensures
        r@ == address_at(data@, at as int),
{
    let len = data.len();
    let mut bytes = [0u8; 32];
    let mut i: usize = 0;
    while i < 32
        invariant
            at + 32 <= data@.len(),
            data@.len() == len,
            0 <= i <= 32,
            bytes@.len() == 32,
            forall|j: int| 0 <= j < i ==> bytes@[j] == data@[at + j],
        decreases 32 - i,
    {
        bytes[i] = data[at + i];
        i = i + 1;
    }
    let r = Pubkey { bytes };
    assert(r@ =~= address_at(data@, at as int));
    r
}

pub fn push_u64(out: &mut Vec<u8>, v: u64)
    ensures
        final(out)@ == old(out)@ + u64_bytes(v),
{
    let mut b = u64_to_le_bytes(v);
    out.append(&mut b);
}

pub fn push_u32(out: &mut Vec<u8>, v: u32)
    ensures
        final(out)@ == old(out)@ + u32_bytes(v),
{
    let mut b = u32_to_le_bytes(v);
    out.append(&mut b);
}

pub fn push_option_u64(out: &mut Vec<u8>, o: Option<u64>)
    ensures
        final(out)@ == old(out)@ + option_u64_bytes(o),
{
    let ghost start = out@;
    match o {
        None => {
            out.push(0);
            push_u64(out, 0);
        },
        Some(v) => {
            out.push(1);
            push_u64(out, v);
        },
    }
    assert(out@ =~= start + option_u64_bytes(o));
}

pub fn push_pubkey(out: &mut Vec<u8>, p: &Pubkey)
    ensures
        final(out)@ == old(out)@ + p@,
{
    let ghost start = out@;
    let mut i: usize = 0;
    while i < 32
        invariant
            0 <= i <= 32,
            p@.len() == 32,
            out@ =~= start + p@.subrange(0, i as int),
        decreases 32 - i,
    {
        out.push(p.bytes[i]);
        i = i + 1;
    }
    assert(p@.subrange(0, 32) =~= p@);
}

/// Writes `bytes` over the start of `data`, keeping the rest of it.
pub fn write_prefix(data: &mut [u8], bytes: &Vec<u8>)
    requires
        bytes@.len() <= old(data)@.len(),
    ensures
        final(data)@ == bytes@ + old(data)@.subrange(bytes@.len() as int, old(data)@.len() as int),
{
    let ghost start = data@;
    let n = bytes.len();
    let mut i: usize = 0;
    while i < n
        invariant
            n == bytes@.len(),
            n <= start.len(),
            data@.len() == start.len(),
            0 <= i <= n,
            forall|j: int| 0 <= j < i ==> data@[j] == bytes@[j],
            forall|j: int| i <= j < start.len() ==> data@[j] == start[j],
        decreases n - i,
    {
        data[i] = bytes[i];
        i = i + 1;
    }
    assert(data@ =~= bytes@ + start.subrange(n as int, start.len() as int));
}

/// A record of `size` bytes whose first byte is `tag` or 0 (uninitialized).
pub open spec fn tagged(data: Seq<u8>, tag: u8, size: usize) -> bool {
    data.len() == size && (data[0] == tag || data[0] == 0)
}

/// The buffer that `save` leaves when `encoded` fits in `before`.
pub open spec fn overwritten(before: Seq<u8>, encoded: Seq<u8>) -> Seq<u8> {
    encoded + before.subrange(encoded.len() as int, before.len() as int)
}

/// The result of writing `encoded` over the start of a buffer `before`:
/// refused when it does not fit, else the buffer with that prefix.
pub open spec fn saved(
    before: Seq<u8>,
    after: Seq<u8>,
    encoded: Seq<u8>,
    r: Result<(), MetadataError>,
) -> bool {
    if before.len() < encoded.len() {
        r == Err::<(), MetadataError>(MetadataError::DataTypeMismatch) && after == before
    } else {
        r == Ok::<(), MetadataError>(()) && after == encoded + before.subrange(
            encoded.len() as int,
            before.len() as int,
        )
    }
}

/// Writes `bytes` over the start of `data` when they fit.
pub fn save_bytes(data: &mut [u8], bytes: &Vec<u8>) -> (r: Result<(), MetadataError>)
    ensures
        saved(old(data)@, final(data)@, bytes@, r),
{
    if data.len() < bytes.len() {
        return Err(MetadataError::DataTypeMismatch);
    }
    write_prefix(data, bytes);
    Ok(())
}

} // verus!
