//! Verified text helpers shared by the pipeline: decimal rendering of
//! counters and date fields, decimal parsing of the timing values that the
//! local chunk directory stores as strings, and the character rewriting
//! used to derive a safe file name from a replay's friendly name.

use vstd::prelude::*;
use vstd::string::*;

verus! {

/// The decimal digit character for a value in `0..10`.
pub open spec fn digit_char(d: int) -> char {
    if d == 0 {
        '0'
    } else if d == 1 {
        '1'
    } else if d == 2 {
        '2'
    } else if d == 3 {
        '3'
    } else if d == 4 {
        '4'
    } else if d == 5 {
        '5'
    } else if d == 6 {
        '6'
    } else if d == 7 {
        '7'
    } else if d == 8 {
        '8'
    } else {
        '9'
    }
}

/// The decimal digits of a natural number, most significant first.
pub open spec fn dec_digits(n: nat) -> Seq<char>
    decreases n,
{
    if n < 10 {
        seq![digit_char(n as int)]
    } else {
        dec_digits(n / 10).push(digit_char((n % 10) as int))
    }
}

/// The decimal digits of `n`, left-padded with `'0'` to at least `width`
/// characters.
pub open spec fn dec_padded(n: nat, width: nat) -> Seq<char> {
    if dec_digits(n).len() >= width {
        dec_digits(n)
    } else {
        Seq::new((width - dec_digits(n).len()) as nat, |i: int| '0') + dec_digits(n)
    }
}

/// The single-character string for a decimal digit.
fn digit_str(d: u64) -> (r: &'static str)
    requires
        d < 10,
    ensures
        r@ == seq![digit_char(d as int)],
{
    let r: &'static str = if d == 0 {
        "0"
    } else if d == 1 {
        "1"
    } else if d == 2 {
        "2"
    } else if d == 3 {
        "3"
    } else if d == 4 {
        "4"
    } else if d == 5 {
        "5"
    } else if d == 6 {
        "6"
    } else if d == 7 {
        "7"
    } else if d == 8 {
        "8"
    } else {
        "9"
    };
    proof {
        reveal_strlit("0");
        reveal_strlit("1");
        reveal_strlit("2");
        reveal_strlit("3");
        reveal_strlit("4");
        reveal_strlit("5");
        reveal_strlit("6");
        reveal_strlit("7");
        reveal_strlit("8");
        reveal_strlit("9");
        assert(r@ =~= seq![digit_char(d as int)]);
    }
    r
}

/// Renders a natural number in decimal.
pub fn format_u64(n: u64) -> (r: String)
    ensures
        r@ == dec_digits(n as nat),
    decreases n,
{
    if n < 10 {
        String::from_str(digit_str(n))
    } else {
        let mut s = format_u64(n / 10);
        s.append(digit_str(n % 10));
        s
    }
}

/// Renders a natural number in decimal, left-padded with zeros to at least
/// `width` characters.
pub fn format_u64_padded(n: u64, width: usize) -> (r: String)
    ensures
        r@ == dec_padded(n as nat, width as nat),
{
    let digits = format_u64(n);
    let len: usize = digits.as_str().unicode_len();
    if len >= width {
        return digits;
    }
    let mut out = String::new();
    let mut k: usize = 0;
    while k < width - len
        invariant
            len == dec_digits(n as nat).len(),
            len < width,
            k <= width - len,
            out@ =~= Seq::new(k as nat, |i: int| '0'),
        decreases width - len - k,
    {
        out.append("0");
        proof {
            reveal_strlit("0");
            assert(out@ =~= Seq::new((k + 1) as nat, |i: int| '0'));
        }
        k = k + 1;
    }
    out.append(digits.as_str());
    proof {
        assert(out@ =~= dec_padded(n as nat, width as nat));
    }
    out
}

/// Whether a character is an ASCII decimal digit.
pub open spec fn is_dec_digit(c: char) -> bool {
    48 <= c as u32 <= 57
}

/// The numeric value of an ASCII decimal digit.
pub open spec fn digit_val(c: char) -> int {
    c as u32 - 48
}

/// Whether every character of the sequence is an ASCII decimal digit.
pub open spec fn all_digits(s: Seq<char>) -> bool {
    forall|i: int| 0 <= i < s.len() ==> is_dec_digit(#[trigger] s[i])
}

/// The value of a sequence of decimal digits, most significant first.
pub open spec fn digits_value(s: Seq<char>) -> int
    decreases s.len(),
{
    if s.len() == 0 {
        0
    } else {
        digits_value(s.drop_last()) * 10 + digit_val(s.last())
    }
}

/// The mathematical integer denoted by a decimal string: an optional sign
/// followed by at least one digit and nothing else, as the standard
/// library's integer parsers read it.
pub open spec fn int_of_dec_str(s: Seq<char>) -> Option<int> {
    let neg = s.len() > 0 && s[0] == '-';
    let signed = s.len() > 0 && (s[0] == '-' || s[0] == '+');
    let ds = if signed {
        s.drop_first()
    } else {
        s
    };
    if ds.len() > 0 && all_digits(ds) {
        if neg {
            Some(-digits_value(ds))
        } else {
            Some(digits_value(ds))
        }
    } else {
        None
    }
}

/// What `str::parse::<i64>` returns: the denoted value when the string is
/// well-formed and the value fits, nothing otherwise.
pub open spec fn parse_i64_spec(s: Seq<char>) -> Option<i64> {
    match int_of_dec_str(s) {
        Some(v) => if i64::MIN <= v <= i64::MAX {
            Some(v as i64)
        } else {
            None
        },
        None => None,
    }
}

/// What `str::parse::<i32>` returns.
pub open spec fn parse_i32_spec(s: Seq<char>) -> Option<i32> {
    match int_of_dec_str(s) {
        Some(v) => if i32::MIN <= v <= i32::MAX {
            Some(v as i32)
        } else {
            None
        },
        None => None,
    }
}

/// What `str::parse::<usize>` returns: as the signed parsers, except that a
/// leading minus sign is rejected outright.
pub open spec fn parse_usize_spec(s: Seq<char>) -> Option<usize> {
    if s.len() > 0 && s[0] == '-' {
        None
    } else {
        match int_of_dec_str(s) {
            Some(v) => if v <= usize::MAX {
                Some(v as usize)
            } else {
                None
            },
            None => None,
        }
    }
}

pub proof fn lemma_digits_value_nonneg(s: Seq<char>)
    requires
        all_digits(s),
    ensures
        digits_value(s) >= 0,
    decreases s.len(),
{
    if s.len() > 0 {
        assert(all_digits(s.drop_last()));
        lemma_digits_value_nonneg(s.drop_last());
    }
}

/// Appending one more digit multiplies the value by ten and adds the digit.
proof fn lemma_digits_value_push(s: Seq<char>, c: char)
    ensures
        digits_value(s.push(c)) == digits_value(s) * 10 + digit_val(c),
{
    assert(s.push(c).drop_last() =~= s);
    assert(s.push(c).last() == c);
}

/// The digits of the magnitude of a decimal string, starting at `start`,
/// clamped just above `bound`: the result is exact while it does not exceed
/// `bound`, and anything larger is reported as `bound + 1`. `None` when the
/// digit run is empty or interrupted.
fn digits_clamped(s: &str, start: usize, bound: u128) -> (r: Option<u128>)
    requires
        start <= s@.len(),
        bound <= 0xffff_ffff_ffff_ffff_ffff,
    ensures
        match r {
            Some(v) => {
                &&& s@.len() > start
                &&& all_digits(s@.skip(start as int))
                &&& (digits_value(s@.skip(start as int)) <= bound ==> v == digits_value(
                    s@.skip(start as int),
                ))
                &&& (digits_value(s@.skip(start as int)) > bound ==> v == bound + 1)
            },
            None => s@.len() == start || !all_digits(s@.skip(start as int)),
        },
{
    let n: usize = s.unicode_len();
    if start == n {
        return None;
    }
    let mut acc: u128 = 0;
    let mut i: usize = start;
    while i < n
        invariant
            start <= i <= n,
            n == s@.len(),
            bound <= 0xffff_ffff_ffff_ffff_ffff,
            all_digits(s@.subrange(start as int, i as int)),
            digits_value(s@.subrange(start as int, i as int)) <= bound ==> acc == digits_value(
                s@.subrange(start as int, i as int),
            ),
            digits_value(s@.subrange(start as int, i as int)) > bound ==> acc == bound + 1,
            acc <= bound + 1,
        decreases n - i,
    {
        let c: char = s.get_char(i);
        let cv: u32 = c as u32;
        if cv < 48 || cv > 57 {
            proof {
                assert(s@.skip(start as int)[i - start] == s@[i as int]);
                assert(!all_digits(s@.skip(start as int)));
            }
            return None;
        }
        let d: u128 = (cv - 48) as u128;
        proof {
            let pref = s@.subrange(start as int, i as int);
            assert(s@.subrange(start as int, i + 1 as int) =~= pref.push(s@[i as int]));
            lemma_digits_value_push(pref, s@[i as int]);
            lemma_digits_value_nonneg(pref);
        }
        if acc > bound {
            acc = bound + 1;
        } else {
            acc = acc * 10 + d;
            if acc > bound {
                acc = bound + 1;
            }
        }
        i = i + 1;
    }
    proof {
        assert(s@.subrange(start as int, n as int) =~= s@.skip(start as int));
    }
    Some(acc)
}

/// Parses a decimal string exactly as `str::parse::<i64>` does.
pub fn parse_i64(s: &str) -> (r: Option<i64>)
    ensures
        r == parse_i64_spec(s@),
{
    let n: usize = s.unicode_len();
    if n == 0 {
        return None;
    }
    let first: char = s.get_char(0);
    let neg: bool = first == '-';
    let signed: bool = neg || first == '+';
    let start: usize = if signed {
        1
    } else {
        0
    };
    let bound: u128 = 0x8000_0000_0000_0000;
    match digits_clamped(s, start, bound) {
        None => {
            proof {
                if signed {
                    assert(s@.drop_first() =~= s@.skip(1));
                } else {
                    assert(s@ =~= s@.skip(0));
                }
            }
            None
        },
        Some(v) => {
            proof {
                if signed {
                    assert(s@.drop_first() =~= s@.skip(1));
                } else {
                    assert(s@ =~= s@.skip(0));
                }
                lemma_digits_value_nonneg(s@.skip(start as int));
            }
            if neg {
                if v <= bound {
                    Some((-(v as i128)) as i64)
                } else {
                    None
                }
            } else {
                if v < bound {
                    Some(v as i64)
                } else {
                    None
                }
            }
        },
    }
}

/// Parses a decimal string exactly as `str::parse::<i32>` does.
pub fn parse_i32(s: &str) -> (r: Option<i32>)
    ensures
        r == parse_i32_spec(s@),
{
    match parse_i64(s) {
        Some(v) => if -0x8000_0000i64 <= v && v <= 0x7fff_ffffi64 {
            Some(v as i32)
        } else {
            None
        },
        None => None,
    }
}

/// Parses a decimal string exactly as `str::parse::<usize>` does.
pub fn parse_usize(s: &str) -> (r: Option<usize>)
    ensures
        r == parse_usize_spec(s@),
{
    let n: usize = s.unicode_len();
    if n == 0 {
        return None;
    }
    let first: char = s.get_char(0);
    if first == '-' {
        return None;
    }
    let start: usize = if first == '+' {
        1
    } else {
        0
    };
    let bound: u128 = usize::MAX as u128;
    match digits_clamped(s, start, bound) {
        None => {
            proof {
                if first == '+' {
                    assert(s@.drop_first() =~= s@.skip(1));
                } else {
                    assert(s@ =~= s@.skip(0));
                }
            }
            None
        },
        Some(v) => {
            proof {
                if first == '+' {
                    assert(s@.drop_first() =~= s@.skip(1));
                } else {
                    assert(s@ =~= s@.skip(0));
                }
                lemma_digits_value_nonneg(s@.skip(start as int));
            }
            if v <= usize::MAX as u128 {
                Some(v as usize)
            } else {
                None
            }
        },
    }
}

/// Relies on `String::push`: appends the given character to the end of the
/// string.
#[verifier::external_body]
pub fn push_char(s: &mut String, c: char)
    ensures
        final(s)@ == old(s)@.push(c),
{
    s.push(c);
}

/// File-name sanitisation: the characters that are unsafe in a file name
/// (space, both slashes and the colon) become dashes.
pub open spec fn sanitize_char(c: char) -> char {
    if c == ' ' || c == '/' || c == '\\' || c == ':' {
        '-'
    } else {
        c
    }
}

/// Rewrites a friendly name so it is safe to use in a file name.
pub fn sanitize_friendly_name(s: &str) -> (r: String)
    ensures
        r@ == s@.map_values(|c: char| sanitize_char(c)),
{
    let n: usize = s.unicode_len();
    let mut out = String::new();
    let mut i: usize = 0;
    while i < n
        invariant
            i <= n,
            n == s@.len(),
            out@ =~= s@.take(i as int).map_values(|c: char| sanitize_char(c)),
        decreases n - i,
    {
        let c: char = s.get_char(i);
        let mapped: char = if c == ' ' || c == '/' || c == '\\' || c == ':' {
            '-'
        } else {
            c
        };
        push_char(&mut out, mapped);
        proof {
            assert(s@.take(i + 1 as int) =~= s@.take(i as int).push(s@[i as int]));
            assert(out@ =~= s@.take(i + 1 as int).map_values(|ch: char| sanitize_char(ch)));
        }
        i = i + 1;
    }
    proof {
        assert(s@.take(n as int) =~= s@);
    }
    out
}

} // verus!
