//! Standard Base64 (RFC 4648, section 4): the encoding that picked images
//! are inlined with, and what can be read back from it.

use vstd::prelude::*;

verus! {

/// The character for a 6-bit value in the standard alphabet:
/// `A`-`Z`, `a`-`z`, `0`-`9`, `+`, `/`.
pub open spec fn base64_digit(v: int) -> char {
    if v < 26 {
        (65 + v) as char
    } else if v < 52 {
        (71 + v) as char
    } else if v < 62 {
        (v - 4) as char
    } else if v == 62 {
        '+'
    } else {
        '/'
    }
}

/// The standard Base64 encoding of some bytes: each group of three bytes
/// becomes four characters of six bits each, big-endian; a last group of one
/// or two bytes is filled with zero bits and padded with `=` to four characters.
pub open spec fn base64_standard(bytes: Seq<u8>) -> Seq<char>
    decreases bytes.len(),
{
    if bytes.len() == 0 {
        Seq::empty()
    } else {
        let a = bytes[0] as int;
        let b = if bytes.len() > 1 { bytes[1] as int } else { 0 };
        let c = if bytes.len() > 2 { bytes[2] as int } else { 0 };
        let group = seq![
            base64_digit(a / 4),
            base64_digit((a % 4) * 16 + b / 16),
            if bytes.len() > 1 { base64_digit((b % 16) * 4 + c / 64) } else { '=' },
            if bytes.len() > 2 { base64_digit(c % 64) } else { '=' },
        ];
        if bytes.len() <= 3 {
            group
        } else {
            group + base64_standard(bytes.skip(3))
        }
    }
}

/// The 6-bit value of a character of the standard alphabet.
pub open spec fn base64_value(c: char) -> int {
    if 'A' <= c && c <= 'Z' {
        c as int - 65
    } else if 'a' <= c && c <= 'z' {
        c as int - 71
    } else if '0' <= c && c <= '9' {
        c as int + 4
    } else if c == '+' {
        62
    } else {
        63
    }
}

/// Reading standard Base64 back: four characters at a time give three bytes,
/// fewer where the group ends in `=` padding.
pub open spec fn base64_decode(s: Seq<char>) -> Seq<u8>
    decreases s.len(),
{
    if s.len() < 4 {
        Seq::empty()
    } else {
        let v0 = base64_value(s[0]);
        let v1 = base64_value(s[1]);
        let v2 = base64_value(s[2]);
        let v3 = base64_value(s[3]);
        let x = (v0 * 4 + v1 / 16) as u8;
        let y = ((v1 % 16) * 16 + v2 / 4) as u8;
        let z = ((v2 % 4) * 64 + v3) as u8;
        if s[2] == '=' {
            seq![x]
        } else if s[3] == '=' {
            seq![x, y]
        } else {
            seq![x, y, z] + base64_decode(s.skip(4))
        }
    }
}

/// A character of the standard Base64 alphabet, or the padding `=`.
pub open spec fn is_base64_char(c: char) -> bool {
    ||| ('A' <= c && c <= 'Z')
    ||| ('a' <= c && c <= 'z')
    ||| ('0' <= c && c <= '9')
    ||| c == '+'
    ||| c == '/'
    ||| c == '='
}

/// Each 6-bit value has its own character of the alphabet, which is not `=`
/// and reads back as the same value.
proof fn lemma_digit(v: int)
    requires
        0 <= v < 64,
    ensures
        base64_value(base64_digit(v)) == v,
        is_base64_char(base64_digit(v)),
        base64_digit(v) != '=',
{
}

/// Splitting a byte into six and two bits, or four and four, or two and six,
/// and joining the parts again gives the byte back.
proof fn lemma_bits(a: int, b: int, c: int)
    requires
        0 <= a < 256,
        0 <= b < 256,
        0 <= c < 256,
    ensures
        0 <= a / 4 < 64,
        0 <= (a % 4) * 16 + b / 16 < 64,
        0 <= (b % 16) * 4 + c / 64 < 64,
        0 <= c % 64 < 64,
        (a / 4) * 4 + ((a % 4) * 16 + b / 16) / 16 == a,
        (((a % 4) * 16 + b / 16) % 16) * 16 + ((b % 16) * 4 + c / 64) / 4 == b,
        (((b % 16) * 4 + c / 64) % 4) * 64 + c % 64 == c,
{
    assert(0 <= a / 4 < 64 && 0 <= a % 4 < 4 && a == (a / 4) * 4 + a % 4) by (nonlinear_arith)
        requires
            0 <= a < 256,
    ;
    assert(0 <= b / 16 < 16 && 0 <= b % 16 < 16 && b == (b / 16) * 16 + b % 16) by (nonlinear_arith)
        requires
            0 <= b < 256,
    ;
    assert(0 <= c / 64 < 4 && 0 <= c % 64 < 64 && c == (c / 64) * 64 + c % 64) by (nonlinear_arith)
        requires
            0 <= c < 256,
    ;
    let (p, q) = (a % 4, b / 16);
    assert(((p * 16 + q) / 16 == p) && ((p * 16 + q) % 16 == q)) by (nonlinear_arith)
        requires
            0 <= p < 4,
            0 <= q < 16,
    ;
    let (r, t) = (b % 16, c / 64);
    assert(((r * 4 + t) / 4 == r) && ((r * 4 + t) % 4 == t)) by (nonlinear_arith)
        requires
            0 <= r < 16,
            0 <= t < 4,
    ;
}

/// The standard Base64 of `n` bytes is `4 * ceil(n / 3)` characters long, and
/// every character is of the standard alphabet or the `=` padding.
pub proof fn lemma_base64_shape(bytes: Seq<u8>)
    ensures
        base64_standard(bytes).len() == 4 * ((bytes.len() + 2) / 3),
        forall|i: int|
            0 <= i < base64_standard(bytes).len() ==> is_base64_char(
                #[trigger] base64_standard(bytes)[i],
            ),
    decreases bytes.len(),
{
    if bytes.len() > 0 {
        let a = bytes[0] as int;
        let b = if bytes.len() > 1 { bytes[1] as int } else { 0 };
        let c = if bytes.len() > 2 { bytes[2] as int } else { 0 };
        lemma_bits(a, b, c);
        lemma_digit(a / 4);
        lemma_digit((a % 4) * 16 + b / 16);
        lemma_digit((b % 16) * 4 + c / 64);
        lemma_digit(c % 64);
        if bytes.len() > 3 {
            lemma_base64_shape(bytes.skip(3));
            let group = base64_standard(bytes).subrange(0, 4);
            let rest = base64_standard(bytes.skip(3));
            assert(base64_standard(bytes) =~= group + rest);
            assert forall|i: int| 0 <= i < base64_standard(bytes).len() implies is_base64_char(
                #[trigger] base64_standard(bytes)[i],
            ) by {
                if i >= 4 {
                    assert(base64_standard(bytes)[i] == rest[i - 4]);
                }
            }
        }
    }
}

/// Standard Base64 reads back as the bytes it encodes: no information is lost.
pub proof fn lemma_base64_round_trip(bytes: Seq<u8>)
    ensures
        base64_decode(base64_standard(bytes)) == bytes,
    decreases bytes.len(),
{
    if bytes.len() > 0 {
        let s = base64_standard(bytes);
        let a = bytes[0] as int;
        let b = if bytes.len() > 1 { bytes[1] as int } else { 0 };
        let c = if bytes.len() > 2 { bytes[2] as int } else { 0 };
        lemma_bits(a, b, c);
        lemma_digit(a / 4);
        lemma_digit((a % 4) * 16 + b / 16);
        lemma_digit((b % 16) * 4 + c / 64);
        lemma_digit(c % 64);
        lemma_base64_shape(bytes);
        let d = base64_decode(s);
        assert(s[0] == base64_digit(a / 4));
        assert(s[1] == base64_digit((a % 4) * 16 + b / 16));
        assert(base64_value(s[0]) == a / 4);
        assert(base64_value(s[1]) == (a % 4) * 16 + b / 16);
        assert(d[0] == bytes[0]);
        if bytes.len() > 1 {
            assert(s[2] == base64_digit((b % 16) * 4 + c / 64));
            assert(base64_value(s[2]) == (b % 16) * 4 + c / 64);
            assert(d[1] == bytes[1]);
        }
        if bytes.len() > 2 {
            assert(s[3] == base64_digit(c % 64));
            assert(base64_value(s[3]) == c % 64);
            assert(d[2] == bytes[2]);
        }
        if bytes.len() > 3 {
            lemma_base64_round_trip(bytes.skip(3));
            let rest = base64_standard(bytes.skip(3));
            assert(s.skip(4) =~= rest);
            assert(d == seq![d[0], d[1], d[2]] + base64_decode(s.skip(4)));
            assert(d =~= bytes);
        } else if bytes.len() == 3 {
            assert(s.skip(4) =~= Seq::<char>::empty());
            assert(base64_decode(s.skip(4)) == Seq::<u8>::empty());
            assert(d == seq![d[0], d[1], d[2]] + base64_decode(s.skip(4)));
            assert(d =~= bytes);
        } else if bytes.len() == 2 {
            assert(d == seq![d[0], d[1]]);
            assert(d =~= bytes);
        } else {
            assert(d == seq![d[0]]);
            assert(d =~= bytes);
        }
    }
}

} // verus!
