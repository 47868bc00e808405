//! Little-endian encodings of the signed integers that appear in the
//! replay container, stated over their unsigned two's-complement images.

use vstd::prelude::*;
use vstd::bytes::{spec_u32_to_le_bytes, spec_u64_to_le_bytes, u32_to_le_bytes, u64_to_le_bytes};

verus! {

/// The unsigned 32-bit image of a signed value (two's complement).
pub open spec fn u32_of_i32(v: i32) -> u32 {
    if v >= 0 {
        v as u32
    } else {
        (v + 0x1_0000_0000) as u32
    }
}

/// The unsigned 64-bit image of a signed value (two's complement).
pub open spec fn u64_of_i64(v: i64) -> u64 {
    if v >= 0 {
        v as u64
    } else {
        (v + 0x1_0000_0000_0000_0000) as u64
    }
}

/// The four little-endian bytes of a signed 32-bit value.
pub open spec fn enc_i32(v: i32) -> Seq<u8> {
    spec_u32_to_le_bytes(u32_of_i32(v))
}

/// The eight little-endian bytes of a signed 64-bit value.
pub open spec fn enc_i64(v: i64) -> Seq<u8> {
    spec_u64_to_le_bytes(u64_of_i64(v))
}

pub broadcast proof fn lemma_enc_i32_len(v: i32)
    ensures
        (#[trigger] enc_i32(v)).len() == 4,
{
    vstd::bytes::lemma_auto_spec_u32_to_from_le_bytes();
}

pub broadcast proof fn lemma_enc_i64_len(v: i64)
    ensures
        (#[trigger] enc_i64(v)).len() == 8,
{
    vstd::bytes::lemma_auto_spec_u64_to_from_le_bytes();
}

/// The unsigned image of a signed 32-bit value, computed without overflow.
pub fn i32_unsigned(v: i32) -> (r: u32)
    ensures
        r == u32_of_i32(v),
{
    if v >= 0 {
        v as u32
    } else {
        let wide: i64 = (v as i64) + 0x1_0000_0000i64;
        wide as u32
    }
}

/// The unsigned image of a signed 64-bit value, computed without overflow.
pub fn i64_unsigned(v: i64) -> (r: u64)
    ensures
        r == u64_of_i64(v),
{
    if v >= 0 {
        v as u64
    } else {
        let wide: i128 = (v as i128) + 0x1_0000_0000_0000_0000i128;
        wide as u64
    }
}

/// The four little-endian bytes of a signed 32-bit value.
pub fn i32_to_le_vec(v: i32) -> (r: Vec<u8>)
    ensures
        r@ == enc_i32(v),
        r@.len() == 4,
{
    proof {
        lemma_enc_i32_len(v);
    }
    u32_to_le_bytes(i32_unsigned(v))
}

/// The eight little-endian bytes of a signed 64-bit value.
pub fn i64_to_le_vec(v: i64) -> (r: Vec<u8>)
    ensures
        r@ == enc_i64(v),
        r@.len() == 8,
{
    proof {
        lemma_enc_i64_len(v);
    }
    u64_to_le_bytes(i64_unsigned(v))
}

} // verus!
