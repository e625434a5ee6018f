//! Byte-level text parsing for VE.Direct field values.
//!
//! Values arrive as raw bytes.  The rules here mirror how decimal and
//! hexadecimal integers are read from text: an optional leading `+` (and for
//! signed values `-`), then one or more digits, rejecting overflow; plus the
//! literal `ON`/`OFF` switch encoding and UTF-8 validation for the fields
//! that carry text.

use vstd::prelude::*;

verus! {

/// ASCII decimal digit.
pub open spec fn is_digit(b: u8) -> bool {
    48 <= b <= 57
}

/// Every byte of `s` is an ASCII decimal digit.
pub open spec fn all_digits(s: Seq<u8>) -> bool {
    forall|i: int| 0 <= i < s.len() ==> is_digit(s[i])
}

/// The integer spelt by the decimal digits `s` (most significant first).
pub open spec fn dec_value(s: Seq<u8>) -> int
    decreases s.len(),
{
    if s.len() == 0 {
        0
    } else {
        dec_value(s.drop_last()) * 10 + (s.last() - 48)
    }
}

/// ASCII hexadecimal digit, either case.
pub open spec fn is_hex_digit(b: u8) -> bool {
    ||| 48 <= b <= 57
    ||| 97 <= b <= 102
    ||| 65 <= b <= 70
}

/// Every byte of `s` is an ASCII hexadecimal digit.
pub open spec fn all_hex_digits(s: Seq<u8>) -> bool {
    forall|i: int| 0 <= i < s.len() ==> is_hex_digit(s[i])
}

/// Numeric value of one hexadecimal digit.
pub open spec fn hex_digit_value(b: u8) -> int {
    if 48 <= b <= 57 {
        b - 48
    } else if 97 <= b <= 102 {
        b - 87
    } else {
        b - 55
    }
}

/// The integer spelt by the hexadecimal digits `s` (most significant first).
pub open spec fn hex_value(s: Seq<u8>) -> int
    decreases s.len(),
{
    if s.len() == 0 {
        0
    } else {
        hex_value(s.drop_last()) * 16 + hex_digit_value(s.last())
    }
}

/// Drops one leading `+`, which integer parsing accepts before the digits.
pub open spec fn strip_plus(s: Seq<u8>) -> Seq<u8> {
    if s.len() > 0 && s[0] == 43 {
        s.drop_first()
    } else {
        s
    }
}

/// Unbounded reading of `s` as an optionally `+`-signed decimal numeral.
pub open spec fn spec_parse_udec(s: Seq<u8>) -> Option<int> {
    let d = strip_plus(s);
    if d.len() > 0 && all_digits(d) {
        Some(dec_value(d))
    } else {
        None
    }
}

/// `s` as an unsigned 32-bit decimal numeral; overflow is a parse failure.
pub open spec fn spec_parse_u32_dec(s: Seq<u8>) -> Option<u32> {
    match spec_parse_udec(s) {
        Some(v) => if v <= u32::MAX {
            Some(v as u32)
        } else {
            None
        },
        None => None,
    }
}

/// `s` as an unsigned 16-bit decimal numeral; overflow is a parse failure.
pub open spec fn spec_parse_u16_dec(s: Seq<u8>) -> Option<u16> {
    match spec_parse_udec(s) {
        Some(v) => if v <= u16::MAX {
            Some(v as u16)
        } else {
            None
        },
        None => None,
    }
}

/// `s` as an unsigned 8-bit decimal numeral; overflow is a parse failure.
pub open spec fn spec_parse_u8_dec(s: Seq<u8>) -> Option<u8> {
    match spec_parse_udec(s) {
        Some(v) => if v <= u8::MAX {
            Some(v as u8)
        } else {
            None
        },
        None => None,
    }
}

/// `s` as a signed 32-bit decimal numeral with an optional `+` or `-` sign.
pub open spec fn spec_parse_i32_dec(s: Seq<u8>) -> Option<i32> {
    if s.len() > 0 && s[0] == 45 {
        let d = s.drop_first();
        if d.len() > 0 && all_digits(d) && dec_value(d) <= 0x8000_0000 {
            Some((-dec_value(d)) as i32)
        } else {
            None
        }
    } else {
        match spec_parse_udec(s) {
            Some(v) => if v <= i32::MAX {
                Some(v as i32)
            } else {
                None
            },
            None => None,
        }
    }
}

/// `s` as a two-character-prefixed hexadecimal numeral: the first two bytes
/// (the `0x` marker) are discarded unexamined, and the rest must spell an
/// unsigned 32-bit hexadecimal number.
pub open spec fn spec_parse_hex_u32(s: Seq<u8>) -> Option<u32> {
    if s.len() < 2 {
        None
    } else {
        let d = strip_plus(s.skip(2));
        if d.len() > 0 && all_hex_digits(d) && hex_value(d) <= u32::MAX {
            Some(hex_value(d) as u32)
        } else {
            None
        }
    }
}

/// The switch encoding: the literal bytes `ON` or `OFF`, anything else being
/// a parse failure.
pub open spec fn spec_parse_onoff(s: Seq<u8>) -> Option<bool> {
    if s == seq![79u8, 78u8] {
        Some(true)
    } else if s == seq![79u8, 70u8, 70u8] {
        Some(false)
    } else {
        None
    }
}

proof fn lemma_dec_value_nonneg(s: Seq<u8>)
    requires
        all_digits(s),
    ensures
        dec_value(s) >= 0,
    decreases s.len(),
{
    if s.len() > 0 {
        assert(all_digits(s.drop_last()));
        lemma_dec_value_nonneg(s.drop_last());
    }
}

proof fn lemma_dec_value_take_step(s: Seq<u8>, j: int)
    requires
        0 <= j < s.len(),
    ensures
        dec_value(s.take(j + 1)) == dec_value(s.take(j)) * 10 + (s[j] - 48),
{
    assert(s.take(j + 1).drop_last() =~= s.take(j));
    assert(s.take(j + 1).last() == s[j]);
}

/// A numeral is no smaller than the numeral spelt by any of its prefixes.
proof fn lemma_dec_value_prefix_bound(s: Seq<u8>, j: int)
    requires
        all_digits(s),
        0 <= j <= s.len(),
    ensures
        dec_value(s) >= dec_value(s.take(j)),
    decreases s.len() - j,
{
    if j == s.len() {
        assert(s.take(j) =~= s);
    } else {
        assert(all_digits(s.take(j)));
        lemma_dec_value_nonneg(s.take(j));
        lemma_dec_value_take_step(s, j);
        assert(dec_value(s.take(j + 1)) >= dec_value(s.take(j)));
        lemma_dec_value_prefix_bound(s, j + 1);
    }
}

proof fn lemma_hex_value_nonneg(s: Seq<u8>)
    requires
        all_hex_digits(s),
    ensures
        hex_value(s) >= 0,
    decreases s.len(),
{
    if s.len() > 0 {
        assert(all_hex_digits(s.drop_last()));
        lemma_hex_value_nonneg(s.drop_last());
    }
}

proof fn lemma_hex_value_take_step(s: Seq<u8>, j: int)
    requires
        0 <= j < s.len(),
    ensures
        hex_value(s.take(j + 1)) == hex_value(s.take(j)) * 16 + hex_digit_value(s[j]),
{
    assert(s.take(j + 1).drop_last() =~= s.take(j));
    assert(s.take(j + 1).last() == s[j]);
}

proof fn lemma_hex_value_prefix_bound(s: Seq<u8>, j: int)
    requires
        all_hex_digits(s),
        0 <= j <= s.len(),
    ensures
        hex_value(s) >= hex_value(s.take(j)),
    decreases s.len() - j,
{
    if j == s.len() {
        assert(s.take(j) =~= s);
    } else {
        assert(all_hex_digits(s.take(j)));
        lemma_hex_value_nonneg(s.take(j));
        lemma_hex_value_take_step(s, j);
        assert(hex_value(s.take(j + 1)) >= hex_value(s.take(j)));
        lemma_hex_value_prefix_bound(s, j + 1);
    }
}

/// Byte-for-byte equality of two slices.
pub fn bytes_eq(a: &[u8], b: &[u8]) -> (r: bool)
    ensures
        r == (a@ == b@),
{
    if a.len() != b.len() {
        assert(a@ != b@);
        return false;
    }
    let mut i: usize = 0;
    while i < a.len()
        invariant
            i <= a.len(),
            a@.len() == b@.len(),
            forall|j: int| 0 <= j < i ==> a@[j] == b@[j],
        decreases a.len() - i,
    {
        if a[i] != b[i] {
            assert(a@ != b@);
            return false;
        }
        i = i + 1;
    }
    proof {
        assert(a@ =~= b@);
    }
    true
}

/// Reads the decimal digits of `s` from position `from` on, refusing a value
/// above `max`, an empty digit run, or any non-digit byte.
fn parse_digits(s: &[u8], from: usize, max: u64) -> (r: Option<u64>)
    requires
        from <= s@.len(),
        max <= 0x1_0000_0000,
    ensures
        match r {
            Some(v) => {
                let t = s@.skip(from as int);
                &&& t.len() > 0
                &&& all_digits(t)
                &&& dec_value(t) == v
                &&& v <= max
            },
            None => {
                let t = s@.skip(from as int);
                !(t.len() > 0 && all_digits(t) && dec_value(t) <= max)
            },
        },
{
    let ghost t = s@.skip(from as int);
    if from == s.len() {
        return None;
    }
    let mut acc: u64 = 0;
    let mut i: usize = from;
    while i < s.len()
        invariant
            from <= i <= s@.len(),
            from < s@.len(),
            t == s@.skip(from as int),
            max <= 0x1_0000_0000,
            all_digits(t.take(i - from)),
            acc == dec_value(t.take(i - from)),
            acc <= max,
        decreases s@.len() - i,
    {
        let b = s[i];
        if b < 48 || b > 57 {
            assert(t[i - from] == b);
            assert(!all_digits(t));
            return None;
        }
        let d = (b - 48) as u64;
        let next: u64 = acc * 10 + d;
        proof {
            lemma_dec_value_take_step(t, i - from);
        }
        if next > max {
            proof {
                if all_digits(t) && dec_value(t) <= max {
                    lemma_dec_value_prefix_bound(t, i - from + 1);
                }
            }
            return None;
        }
        acc = next;
        i = i + 1;
    }
    proof {
        assert(t.take(i - from) =~= t);
    }
    Some(acc)
}

/// Reads the hexadecimal digits of `s` from position `from` on, refusing a
/// value above `max`, an empty digit run, or any non-hex-digit byte.
fn parse_hex_digits(s: &[u8], from: usize, max: u64) -> (r: Option<u64>)
    requires
        from <= s@.len(),
        max <= 0x1_0000_0000,
    ensures
        match r {
            Some(v) => {
                let t = s@.skip(from as int);
                &&& t.len() > 0
                &&& all_hex_digits(t)
                &&& hex_value(t) == v
                &&& v <= max
            },
            None => {
                let t = s@.skip(from as int);
                !(t.len() > 0 && all_hex_digits(t) && hex_value(t) <= max)
            },
        },
{
    let ghost t = s@.skip(from as int);
    if from == s.len() {
        return None;
    }
    let mut acc: u64 = 0;
    let mut i: usize = from;
    while i < s.len()
        invariant
            from <= i <= s@.len(),
            from < s@.len(),
            t == s@.skip(from as int),
            max <= 0x1_0000_0000,
            all_hex_digits(t.take(i - from)),
            acc == hex_value(t.take(i - from)),
            acc <= max,
        decreases s@.len() - i,
    {
        let b = s[i];
        let d: u64;
        if 48 <= b && b <= 57 {
            d = (b - 48) as u64;
        } else if 97 <= b && b <= 102 {
            d = (b - 87) as u64;
        } else if 65 <= b && b <= 70 {
            d = (b - 55) as u64;
        } else {
            assert(t[i - from] == b);
            assert(!all_hex_digits(t));
            return None;
        }
        assert(d == hex_digit_value(b));
        let next: u64 = acc * 16 + d;
        proof {
            lemma_hex_value_take_step(t, i - from);
        }
        if next > max {
            proof {
                if all_hex_digits(t) && hex_value(t) <= max {
                    lemma_hex_value_prefix_bound(t, i - from + 1);
                }
            }
            return None;
        }
        acc = next;
        i = i + 1;
    }
    proof {
        assert(t.take(i - from) =~= t);
    }
    Some(acc)
}

/// Parses `s` as an unsigned 32-bit decimal numeral.
pub fn parse_u32_dec(s: &[u8]) -> (r: Option<u32>)
    ensures
        r == spec_parse_u32_dec(s@),
{
    let from: usize = if s.len() > 0 && s[0] == 43 {
        1
    } else {
        0
    };
    proof {
        assert(s@.skip(from as int) =~= strip_plus(s@));
    }
    match parse_digits(s, from, 0xffff_ffff) {
        Some(v) => Some(v as u32),
        None => None,
    }
}

/// Parses `s` as an unsigned 16-bit decimal numeral.
pub fn parse_u16_dec(s: &[u8]) -> (r: Option<u16>)
    ensures
        r == spec_parse_u16_dec(s@),
{
    let from: usize = if s.len() > 0 && s[0] == 43 {
        1
    } else {
        0
    };
    proof {
        assert(s@.skip(from as int) =~= strip_plus(s@));
    }
    match parse_digits(s, from, 0xffff) {
        Some(v) => Some(v as u16),
        None => None,
    }
}

/// Parses `s` as an unsigned 8-bit decimal numeral.
pub fn parse_u8_dec(s: &[u8]) -> (r: Option<u8>)
    ensures
        r == spec_parse_u8_dec(s@),
{
    let from: usize = if s.len() > 0 && s[0] == 43 {
        1
    } else {
        0
    };
    proof {
        assert(s@.skip(from as int) =~= strip_plus(s@));
    }
    match parse_digits(s, from, 0xff) {
        Some(v) => Some(v as u8),
        None => None,
    }
}

/// Parses `s` as a signed 32-bit decimal numeral.
pub fn parse_i32_dec(s: &[u8]) -> (r: Option<i32>)
    ensures
        r == spec_parse_i32_dec(s@),
{
    if s.len() > 0 && s[0] == 45 {
        proof {
            assert(s@.skip(1) =~= s@.drop_first());
        }
        match parse_digits(s, 1, 0x8000_0000) {
            Some(v) => {
                if v == 0x8000_0000 {
                    Some(i32::MIN)
                } else {
                    Some(-(v as i32))
                }
            },
            None => None,
        }
    } else {
        let from: usize = if s.len() > 0 && s[0] == 43 {
            1
        } else {
            0
        };
        proof {
            assert(s@.skip(from as int) =~= strip_plus(s@));
        }
        match parse_digits(s, from, 0x7fff_ffff) {
            Some(v) => Some(v as i32),
            None => None,
        }
    }
}

/// Parses `s` as a two-character-prefixed hexadecimal numeral.
pub fn parse_hex_u32(s: &[u8]) -> (r: Option<u32>)
    ensures
        r == spec_parse_hex_u32(s@),
{
    if s.len() < 2 {
        return None;
    }
    let from: usize = if s.len() > 2 && s[2] == 43 {
        3
    } else {
        2
    };
    proof {
        assert(s@.skip(from as int) =~= strip_plus(s@.skip(2)));
    }
    match parse_hex_digits(s, from, 0xffff_ffff) {
        Some(v) => Some(v as u32),
        None => None,
    }
}

/// Parses the literal switch words `ON` and `OFF`.
pub fn parse_onoff(s: &[u8]) -> (r: Option<bool>)
    ensures
        r == spec_parse_onoff(s@),
{
    let on: &[u8] = &[79u8, 78];
    let off: &[u8] = &[79u8, 70, 70];
    proof {
        assert(on@ =~= seq![79u8, 78u8]);
        assert(off@ =~= seq![79u8, 70u8, 70u8]);
    }
    if bytes_eq(s, on) {
        Some(true)
    } else if bytes_eq(s, off) {
        Some(false)
    } else {
        None
    }
}

/// Checks that `s` is a well-formed UTF-8 encoding, against the encoding
/// rules of `vstd::utf8`.
pub fn check_utf8(s: &[u8]) -> (r: bool)
    ensures
        r == vstd::utf8::valid_utf8(s@),
{
    let n = s.len();
    let mut i: usize = 0;
    proof {
        assert(s@.skip(0) =~= s@);
    }
    while i < n
        invariant
            i <= n,
            n == s@.len(),
            vstd::utf8::valid_utf8(s@) == vstd::utf8::valid_utf8(s@.skip(i as int)),
        decreases n - i,
    {
        let ghost t = s@.skip(i as int);
        let b0 = s[i];
        assert(t[0] == b0);
        let width: usize;
        if b0 < 0x80 {
            // one-byte scalar
            width = 1;
            proof {
                assert(vstd::utf8::valid_first_scalar(t));
                assert(vstd::utf8::length_of_first_scalar(t) == 1);
            }
        } else if b0 < 0xc0 {
            // a continuation byte cannot lead
            proof {
                assert(!vstd::utf8::valid_leading_and_continuation_bytes_first_codepoint(t));
                assert(!vstd::utf8::valid_utf8(t));
            }
            return false;
        } else if b0 < 0xe0 {
            if n - i < 2 || !(0x80 <= s[i + 1] && s[i + 1] < 0xc0) {
                proof {
                    assert(!vstd::utf8::valid_leading_and_continuation_bytes_first_codepoint(t));
                    assert(!vstd::utf8::valid_utf8(t));
                }
                return false;
            }
            let b1 = s[i + 1];
            assert(t[1] == b1);
            let cp: u32 = (((b0 & 0x1f) as u32) << 6u32) | ((b1 & 0x3f) as u32);
            proof {
                assert(vstd::utf8::valid_leading_and_continuation_bytes_first_codepoint(t));
                assert(cp == vstd::utf8::decode_first_codepoint(t));
                assert(vstd::utf8::length_of_first_codepoint(t) == 2);
            }
            if cp < 0x80 {
                // overlong two-byte encoding
                proof {
                    assert(!vstd::utf8::valid_first_scalar(t));
                    assert(!vstd::utf8::valid_utf8(t));
                }
                return false;
            }
            assert(cp < 0x800) by (bit_vector)
                requires
                    cp == (((b0 & 0x1f) as u32) << 6u32) | ((b1 & 0x3f) as u32),
            ;
            width = 2;
            proof {
                assert(vstd::utf8::valid_first_scalar(t));
            }
        } else if b0 < 0xf0 {
            if n - i < 3 || !(0x80 <= s[i + 1] && s[i + 1] < 0xc0) || !(0x80 <= s[i + 2] && s[i
                + 2] < 0xc0) {
                proof {
                    assert(!vstd::utf8::valid_leading_and_continuation_bytes_first_codepoint(t));
                    assert(!vstd::utf8::valid_utf8(t));
                }
                return false;
            }
            let b1 = s[i + 1];
            let b2 = s[i + 2];
            assert(t[1] == b1 && t[2] == b2);
            let cp: u32 = (((b0 & 0x0f) as u32) << 12u32) | (((b1 & 0x3f) as u32) << 6u32) | ((b2
                & 0x3f) as u32);
            proof {
                assert(vstd::utf8::valid_leading_and_continuation_bytes_first_codepoint(t));
                assert(cp == vstd::utf8::decode_first_codepoint(t));
                assert(vstd::utf8::length_of_first_codepoint(t) == 3);
            }
            if cp < 0x800 || (0xd800 <= cp && cp <= 0xdfff) {
                proof {
                    assert(!vstd::utf8::valid_first_scalar(t));
                    assert(!vstd::utf8::valid_utf8(t));
                }
                return false;
            }
            width = 3;
            proof {
                assert(vstd::utf8::valid_first_scalar(t));
            }
        } else if b0 < 0xf8 {
            if n - i < 4 || !(0x80 <= s[i + 1] && s[i + 1] < 0xc0) || !(0x80 <= s[i + 2] && s[i
                + 2] < 0xc0) || !(0x80 <= s[i + 3] && s[i + 3] < 0xc0) {
                proof {
                    assert(!vstd::utf8::valid_leading_and_continuation_bytes_first_codepoint(t));
                    assert(!vstd::utf8::valid_utf8(t));
                }
                return false;
            }
            let b1 = s[i + 1];
            let b2 = s[i + 2];
            let b3 = s[i + 3];
            assert(t[1] == b1 && t[2] == b2 && t[3] == b3);
            let cp: u32 = (((b0 & 0x07) as u32) << 18u32) | (((b1 & 0x3f) as u32) << 12u32) | (((b2
                & 0x3f) as u32) << 6u32) | ((b3 & 0x3f) as u32);
            proof {
                assert(vstd::utf8::valid_leading_and_continuation_bytes_first_codepoint(t));
                assert(cp == vstd::utf8::decode_first_codepoint(t));
                assert(vstd::utf8::length_of_first_codepoint(t) == 4);
            }
            if cp < 0x10000 || cp > 0x10ffff {
                proof {
                    assert(!vstd::utf8::valid_first_scalar(t));
                    assert(!vstd::utf8::valid_utf8(t));
                }
                return false;
            }
            width = 4;
            proof {
                assert(vstd::utf8::valid_first_scalar(t));
            }
        } else {
            proof {
                assert(!vstd::utf8::valid_leading_and_continuation_bytes_first_codepoint(t));
                assert(!vstd::utf8::valid_utf8(t));
            }
            return false;
        }
        proof {
            assert(vstd::utf8::length_of_first_scalar(t) == width);
            assert(vstd::utf8::pop_first_scalar(t) =~= s@.skip(i + width));
            assert(vstd::utf8::valid_utf8(t) == vstd::utf8::valid_utf8(s@.skip(i + width)));
        }
        i = i + width;
    }
    proof {
        assert(s@.skip(i as int) =~= Seq::<u8>::empty());
        assert(vstd::utf8::valid_utf8(s@.skip(i as int)));
    }
    true
}

} // verus!
