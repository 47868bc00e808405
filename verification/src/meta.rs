//! The fixed 562-byte metadata record: 48 bytes of little-endian header
//! fields around a 514-byte friendly-name block. The block holds the
//! display string in UTF-16LE over a fill of UTF-16 spaces, with the last
//! two bytes forced to a NUL terminator; a longer string is cut at the byte
//! level.

use vstd::prelude::*;
use vstd::string::*;

use crate::buffer::ReplayBuffer;
use crate::dates::{created_time_spec, parse_created, ticks_from_millis, ticks_of_millis};
use crate::errors::{FormatError, ReplayError};
use crate::nums::{enc_i32, enc_i64, lemma_enc_i32_len, lemma_enc_i64_len};
use crate::utf16::{
    lemma_utf16_bytes_to_units, lemma_utf16_round_trip, utf16_bytes, utf16_decode, utf16_le_bytes,
    utf16_units_of_bytes,
};

verus! {

/// The session metadata consumed exactly once by the record encoder.
#[derive(Debug, Clone, PartialEq)]
pub struct MetaData {
    pub game_mode: String,
    pub friendly_name: String,
    pub competitive: bool,
    pub workshop_mods: String,
    pub live: bool,
    pub total_time: i32,
    pub version: i32,
    pub created: String,
}

/// The display string stored in the friendly-name block:
/// `{gameMode},{friendlyName},{competitive|casual},0,{workshopMods},{live}`.
pub open spec fn display_string_spec(m: MetaData) -> Seq<char> {
    m.game_mode@ + ","@ + m.friendly_name@ + ","@ + (if m.competitive {
        "competitive"@
    } else {
        "casual"@
    }) + ",0,"@ + m.workshop_mods@ + ","@ + (if m.live {
        "true"@
    } else {
        "false"@
    })
}

/// Composes the display string of the friendly-name block.
pub fn display_string(m: &MetaData) -> (r: String)
    ensures
        r@ == display_string_spec(*m),
{
    let mut out = String::new();
    out.append(m.game_mode.as_str());
    out.append(",");
    out.append(m.friendly_name.as_str());
    out.append(",");
    if m.competitive {
        out.append("competitive");
    } else {
        out.append("casual");
    }
    out.append(",0,");
    out.append(m.workshop_mods.as_str());
    out.append(",");
    if m.live {
        out.append("true");
    } else {
        out.append("false");
    }
    out
}

/// The 514-byte friendly-name block: the UTF-16LE encoding of the display
/// string (cut at 514 bytes if longer) over a fill of UTF-16 space
/// characters in the first 512 bytes and a two-byte NUL terminator at the
/// end.
pub open spec fn name_block_spec(s: Seq<char>) -> Seq<u8> {
    Seq::new(
        514,
        |i: int|
            if i < utf16_bytes(s).len() {
                utf16_bytes(s)[i]
            } else if i < 512 {
                if i % 2 == 0 {
                    0x20u8
                } else {
                    0x00u8
                }
            } else {
                0x00u8
            },
    )
}

/// Builds the friendly-name block of a display string.
pub fn build_name_block(s: &str) -> (r: Vec<u8>)
    ensures
        r@ == name_block_spec(s@),
{
    let enc: Vec<u8> = utf16_le_bytes(s);
    let mut block: Vec<u8> = Vec::new();
    let mut i: usize = 0;
    while i < 514
        invariant
            i <= 514,
            block@.len() == i,
            forall|j: int|
                0 <= j < i ==> block@[j] == (if j < 512 {
                    if j % 2 == 0 {
                        0x20u8
                    } else {
                        0x00u8
                    }
                } else {
                    0x00u8
                }),
        decreases 514 - i,
    {
        let b: u8 = if i < 512 && i % 2 == 0 {
            0x20
        } else {
            0x00
        };
        block.push(b);
        i = i + 1;
    }
    let copy_len: usize = if enc.len() < 514 {
        enc.len()
    } else {
        514
    };
    let mut j: usize = 0;
    while j < copy_len
        invariant
            j <= copy_len,
            copy_len <= enc@.len(),
            copy_len <= 514,
            enc@ == utf16_bytes(s@),
            block@.len() == 514,
            forall|k: int| 0 <= k < j ==> block@[k] == enc@[k],
            forall|k: int|
                j <= k < 514 ==> block@[k] == (if k < 512 {
                    if k % 2 == 0 {
                        0x20u8
                    } else {
                        0x00u8
                    }
                } else {
                    0x00u8
                }),
        decreases copy_len - j,
    {
        let b: u8 = enc[j];
        block[j] = b;
        j = j + 1;
    }
    proof {
        assert(block@ =~= name_block_spec(s@));
    }
    block
}

/// The tick count that the record stores for a metadata value: the
/// `created` string parsed as RFC 3339 or as raw Unix seconds, converted to
/// 100-nanosecond ticks since year 1; nothing when the string does not
/// parse or the tick count does not fit 64 bits.
pub open spec fn meta_ticks_spec(m: MetaData) -> Option<int> {
    match created_time_spec(m.created@) {
        Some(t) => if i64::MIN <= ticks_of_millis(t.millis) <= i64::MAX {
            Some(ticks_of_millis(t.millis))
        } else {
            None
        },
        None => None,
    }
}

/// The full 562-byte record: magic, format constant, total time, version,
/// two reserved fields, the friendly-name block, the live flag, the tick
/// count and three reserved zero fields, all integers little-endian.
pub open spec fn meta_record_bytes(m: MetaData, ticks: i64) -> Seq<u8> {
    enc_i32(0x1CA2E27F) + enc_i32(6) + enc_i32(m.total_time) + enc_i32(m.version) + enc_i32(0)
        + enc_i32(-257i32) + name_block_spec(display_string_spec(m)) + enc_i32(
        if m.live {
            1
        } else {
            0
        },
    ) + enc_i64(ticks) + enc_i32(0) + enc_i32(0) + enc_i32(0)
}

/// Encodes the metadata record. For every metadata value whose `created`
/// timestamp parses (and whose tick count fits 64 bits) the result is the
/// record of exactly 562 bytes; otherwise the timestamp is reported as
/// invalid. The internal size validation cannot fail.
pub fn build_meta(meta: &MetaData) -> (r: Result<Vec<u8>, ReplayError>)
    ensures
        match meta_ticks_spec(*meta) {
            Some(t) => {
                &&& r matches Ok(v) && v@ == meta_record_bytes(*meta, t as i64)
                &&& r matches Ok(v) ==> v@.len() == 562
            },
            None => r == Result::<Vec<u8>, ReplayError>::Err(
                ReplayError::FormatError(FormatError::InvalidTimestamp),
            ),
        },
{
    broadcast use lemma_enc_i32_len;
    broadcast use lemma_enc_i64_len;

    let created = match parse_created(meta.created.as_str()) {
        Some(t) => t,
        None => {
            return Err(ReplayError::FormatError(FormatError::InvalidTimestamp));
        },
    };
    let ticks: i64 = match ticks_from_millis(created.millis) {
        Some(t) => t,
        None => {
            return Err(ReplayError::FormatError(FormatError::InvalidTimestamp));
        },
    };
    let expected_size: usize = 48 + 514;
    let mut buf = ReplayBuffer::with_capacity(expected_size);
    buf.write_int32(0x1CA2E27F)?;
    buf.write_int32(6)?;
    buf.write_int32(meta.total_time)?;
    buf.write_int32(meta.version)?;
    buf.write_int32(0)?;
    buf.write_int32(-257)?;
    let disp: String = display_string(meta);
    let block: Vec<u8> = build_name_block(disp.as_str());
    buf.write_bytes(block.as_slice())?;
    buf.write_int32(if meta.live {
        1
    } else {
        0
    })?;
    buf.write_int64(ticks)?;
    buf.write_int32(0)?;
    buf.write_int32(0)?;
    buf.write_int32(0)?;
    buf.validate(expected_size)?;
    let out: Vec<u8> = buf.into_inner();
    proof {
        assert(out@ =~= meta_record_bytes(*meta, ticks));
    }
    Ok(out)
}

/// A display string whose UTF-16LE encoding is at most 512 bytes is stored
/// losslessly: the block starts with exactly the encoded bytes, and reading
/// them back as UTF-16LE yields the original string.
pub proof fn lemma_name_block_round_trip(s: Seq<char>)
    requires
        utf16_bytes(s).len() <= 512,
    ensures
        name_block_spec(s).take(utf16_bytes(s).len() as int) == utf16_bytes(s),
        utf16_decode(
            utf16_units_of_bytes(name_block_spec(s).take(utf16_bytes(s).len() as int)),
        ) == Some(s),
{
    let n = utf16_bytes(s).len() as int;
    assert(name_block_spec(s).take(n) =~= utf16_bytes(s));
    lemma_utf16_bytes_to_units(crate::utf16::utf16_units(s));
    lemma_utf16_round_trip(s);
}

/// A display string whose encoding exceeds the block is cut at the byte
/// level: the block holds exactly the first 514 encoded bytes (which can
/// split a UTF-16 code unit pair, a documented lossy behaviour).
pub proof fn lemma_name_block_truncates(s: Seq<char>)
    requires
        utf16_bytes(s).len() >= 514,
    ensures
        name_block_spec(s) == utf16_bytes(s).take(514),
{
    assert(name_block_spec(s) =~= utf16_bytes(s).take(514));
}

} // verus!
