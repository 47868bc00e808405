//! UTF-16 little-endian encoding of the friendly-name text in the metadata
//! record, together with a decoding spec and the round-trip proof that a
//! name whose encoding fits the padded block is stored losslessly.

use vstd::prelude::*;
use vstd::arithmetic::div_mod::lemma_fundamental_div_mod;
use vstd::bytes::{
    lemma_auto_spec_u16_to_from_le_bytes, spec_u16_from_le_bytes, spec_u16_to_le_bytes,
    u16_to_le_bytes,
};
use vstd::string::*;

verus! {

/// The UTF-16 code units of one character: one unit for a scalar below
/// `0x10000`, a surrogate pair otherwise.
pub open spec fn utf16_units_of_char(c: char) -> Seq<u16> {
    let v = c as u32;
    if v < 0x10000 {
        seq![v as u16]
    } else {
        seq![
            (0xD800 + ((v as int - 0x10000) / 0x400)) as u16,
            (0xDC00 + ((v as int - 0x10000) % 0x400)) as u16,
        ]
    }
}

/// The UTF-16 code units of a character sequence.
pub open spec fn utf16_units(s: Seq<char>) -> Seq<u16>
    decreases s.len(),
{
    if s.len() == 0 {
        Seq::empty()
    } else {
        utf16_units_of_char(s[0]) + utf16_units(s.drop_first())
    }
}

/// Code units laid out as little-endian byte pairs.
pub open spec fn le_bytes_of_utf16(u: Seq<u16>) -> Seq<u8>
    decreases u.len(),
{
    if u.len() == 0 {
        Seq::empty()
    } else {
        spec_u16_to_le_bytes(u[0]) + le_bytes_of_utf16(u.drop_first())
    }
}

/// The UTF-16LE byte encoding of a character sequence.
pub open spec fn utf16_bytes(s: Seq<char>) -> Seq<u8> {
    le_bytes_of_utf16(utf16_units(s))
}

/// Code units read back from little-endian byte pairs; a trailing odd byte
/// is ignored.
pub open spec fn utf16_units_of_bytes(b: Seq<u8>) -> Seq<u16>
    decreases b.len(),
{
    if b.len() < 2 {
        Seq::empty()
    } else {
        seq![spec_u16_from_le_bytes(b.take(2))] + utf16_units_of_bytes(b.skip(2))
    }
}

/// Decoding of UTF-16 code units; `None` on a lone or misordered surrogate.
pub open spec fn utf16_decode(u: Seq<u16>) -> Option<Seq<char>>
    decreases u.len(),
{
    if u.len() == 0 {
        Some(Seq::<char>::empty())
    } else {
        let w = u[0] as u32;
        if w < 0xD800 || w >= 0xE000 {
            match utf16_decode(u.drop_first()) {
                Some(rest) => Some(seq![w as char] + rest),
                None => None,
            }
        } else if w < 0xDC00 && u.len() >= 2 && 0xDC00 <= u[1] as u32 && (u[1] as u32) < 0xE000 {
            let v = (0x10000 + (w as int - 0xD800) * 0x400 + (u[1] as int - 0xDC00)) as u32;
            match utf16_decode(u.skip(2)) {
                Some(rest) => Some(seq![v as char] + rest),
                None => None,
            }
        } else {
            None
        }
    }
}

/// Appending a character appends its code units.
pub proof fn lemma_utf16_units_push(s: Seq<char>, c: char)
    ensures
        utf16_units(s.push(c)) == utf16_units(s) + utf16_units_of_char(c),
    decreases s.len(),
{
    if s.len() == 0 {
        assert(s.push(c)[0] == c);
        assert(s.push(c).drop_first() =~= Seq::<char>::empty());
        assert(utf16_units(s.push(c)) == utf16_units_of_char(c) + utf16_units(
            Seq::<char>::empty(),
        ));
        assert(utf16_units_of_char(c) + Seq::<u16>::empty() =~= utf16_units_of_char(c));
        assert(utf16_units(s) + utf16_units_of_char(c) =~= utf16_units_of_char(c));
    } else {
        assert(s.push(c)[0] == s[0]);
        assert(s.push(c).drop_first() =~= s.drop_first().push(c));
        lemma_utf16_units_push(s.drop_first(), c);
        assert(utf16_units(s.push(c)) == utf16_units_of_char(s[0]) + (utf16_units(s.drop_first())
            + utf16_units_of_char(c)));
        assert(utf16_units_of_char(s[0]) + (utf16_units(s.drop_first()) + utf16_units_of_char(c))
            =~= (utf16_units_of_char(s[0]) + utf16_units(s.drop_first())) + utf16_units_of_char(
            c,
        ));
    }
}

/// Byte layout distributes over concatenation of unit sequences.
pub proof fn lemma_le_bytes_of_utf16_concat(a: Seq<u16>, b: Seq<u16>)
    ensures
        le_bytes_of_utf16(a + b) == le_bytes_of_utf16(a) + le_bytes_of_utf16(b),
    decreases a.len(),
{
    if a.len() == 0 {
        assert(a + b =~= b);
        assert(le_bytes_of_utf16(a + b) =~= le_bytes_of_utf16(a) + le_bytes_of_utf16(b));
    } else {
        assert((a + b).drop_first() =~= a.drop_first() + b);
        lemma_le_bytes_of_utf16_concat(a.drop_first(), b);
        assert(le_bytes_of_utf16(a + b) =~= le_bytes_of_utf16(a) + le_bytes_of_utf16(b));
    }
}

/// Two bytes per code unit.
pub proof fn lemma_le_bytes_of_utf16_len(u: Seq<u16>)
    ensures
        le_bytes_of_utf16(u).len() == 2 * u.len(),
    decreases u.len(),
{
    lemma_auto_spec_u16_to_from_le_bytes();
    if u.len() > 0 {
        lemma_le_bytes_of_utf16_len(u.drop_first());
    }
}

/// Reading the laid-out bytes back gives the original code units.
pub proof fn lemma_utf16_bytes_to_units(u: Seq<u16>)
    ensures
        utf16_units_of_bytes(le_bytes_of_utf16(u)) == u,
    decreases u.len(),
{
    lemma_auto_spec_u16_to_from_le_bytes();
    if u.len() == 0 {
        assert(utf16_units_of_bytes(le_bytes_of_utf16(u)) =~= u);
    } else {
        let b = le_bytes_of_utf16(u);
        let b0 = spec_u16_to_le_bytes(u[0]);
        lemma_le_bytes_of_utf16_len(u.drop_first());
        assert(b.take(2) =~= b0);
        assert(b.skip(2) =~= le_bytes_of_utf16(u.drop_first()));
        lemma_utf16_bytes_to_units(u.drop_first());
        assert(utf16_units_of_bytes(b) =~= u);
    }
}

/// Decoding undoes encoding: UTF-16 code units produced from a character
/// sequence decode back to exactly that sequence.
pub proof fn lemma_utf16_round_trip(s: Seq<char>)
    ensures
        utf16_decode(utf16_units(s)) == Some(s),
    decreases s.len(),
{
    broadcast use vstd::utf8::char_is_scalar;
    broadcast use vstd::utf8::char_u32_cast;

    if s.len() == 0 {
        assert(utf16_decode(utf16_units(s)) == Some(s));
    } else {
        let c = s[0];
        let rest = s.drop_first();
        let v = c as u32;
        let u = utf16_units(s);
        lemma_utf16_round_trip(rest);
        if v < 0x10000 {
            assert(u[0] == v as u16);
            assert(u[0] as u32 == v);
            assert(u.drop_first() =~= utf16_units(rest));
            assert((v as char) == c) by {
                vstd::utf8::char_u32_cast(c, v);
            }
            assert(seq![c] + rest =~= s);
        } else {
            let d = v as int - 0x10000;
            vstd::utf8::char_is_scalar(c);
            assert(v <= 0x10FFFF);
            assert(0 <= d <= 0xFFFFF);
            let q = d / 0x400;
            let r = d % 0x400;
            assert(0 <= r < 0x400);
            assert(0 <= q <= 0x3FF) by (nonlinear_arith)
                requires
                    0 <= d <= 0xFFFFF,
                    q == d / 0x400,
            ;
            let hi = (0xD800 + q) as u16;
            let lo = (0xDC00 + r) as u16;
            assert(u.len() >= 2 && u[0] == hi && u[1] == lo);
            assert(hi as u32 == 0xD800 + q);
            assert(lo as u32 == 0xDC00 + r);
            lemma_fundamental_div_mod(d, 0x400);
            assert(0x10000 + (hi as int - 0xD800) * 0x400 + (lo as int - 0xDC00) == v);
            assert(u.skip(2) =~= utf16_units(rest));
            assert((v as char) == c) by {
                vstd::utf8::char_u32_cast(c, v);
            }
            assert(seq![c] + rest =~= s);
        }
    }
}

/// Encodes a string as UTF-16 little-endian bytes, two per code unit.
pub fn utf16_le_bytes(s: &str) -> (r: Vec<u8>)
    ensures
        r@ == utf16_bytes(s@),
{
    let n: usize = s.unicode_len();
    let mut out: Vec<u8> = Vec::new();
    let mut i: usize = 0;
    while i < n
        invariant
            i <= n,
            n == s@.len(),
            out@ =~= utf16_bytes(s@.take(i as int)),
        decreases n - i,
    {
        let c: char = s.get_char(i);
        let v: u32 = c as u32;
        proof {
            broadcast use vstd::utf8::char_is_scalar;

            assert(s@.take(i + 1 as int) =~= s@.take(i as int).push(s@[i as int]));
            lemma_utf16_units_push(s@.take(i as int), s@[i as int]);
            lemma_le_bytes_of_utf16_concat(
                utf16_units(s@.take(i as int)),
                utf16_units_of_char(s@[i as int]),
            );
        }
        if v < 0x10000 {
            let unit: u16 = v as u16;
            let mut pair: Vec<u8> = u16_to_le_bytes(unit);
            out.append(&mut pair);
            proof {
                assert(utf16_units_of_char(c) =~= seq![unit]);
                assert(seq![unit].drop_first() =~= Seq::<u16>::empty());
                assert(le_bytes_of_utf16(seq![unit]) == spec_u16_to_le_bytes(unit)
                    + le_bytes_of_utf16(Seq::<u16>::empty()));
                assert(le_bytes_of_utf16(utf16_units_of_char(c)) =~= spec_u16_to_le_bytes(unit));
            }
        } else {
            let d: u32 = v - 0x10000;
            let hi: u16 = (0xD800 + (d / 0x400)) as u16;
            let lo: u16 = (0xDC00 + (d % 0x400)) as u16;
            proof {
                assert(0 <= d % 0x400 < 0x400);
                assert(d / 0x400 <= 0x3FF) by (nonlinear_arith)
                    requires
                        d <= 0xFFFFF,
                ;
            }
            let mut hp: Vec<u8> = u16_to_le_bytes(hi);
            out.append(&mut hp);
            let mut lp: Vec<u8> = u16_to_le_bytes(lo);
            out.append(&mut lp);
            proof {
                assert(utf16_units_of_char(c) =~= seq![hi, lo]);
                assert(seq![hi, lo].drop_first() =~= seq![lo]);
                assert(seq![lo].drop_first() =~= Seq::<u16>::empty());
                assert(seq![lo][0] == lo);
                assert(le_bytes_of_utf16(seq![lo]) == spec_u16_to_le_bytes(seq![lo][0])
                    + le_bytes_of_utf16(seq![lo].drop_first()));
                assert(le_bytes_of_utf16(Seq::<u16>::empty()) == Seq::<u8>::empty());
                assert(le_bytes_of_utf16(seq![lo]) =~= spec_u16_to_le_bytes(lo));
                assert(le_bytes_of_utf16(seq![hi, lo]) == spec_u16_to_le_bytes(hi)
                    + le_bytes_of_utf16(seq![lo]));
                assert(le_bytes_of_utf16(utf16_units_of_char(c)) =~= spec_u16_to_le_bytes(hi)
                    + spec_u16_to_le_bytes(lo));
            }
        }
        i = i + 1;
    }
    proof {
        assert(s@.take(n as int) =~= s@);
    }
    out
}

} // verus!
