use vstd::prelude::*;
use vstd::string::StringSliceAdditionalSpecFns;

use crate::text::{decimal, push_decimal_u8, push_str};

verus! {

/// The value of an ASCII hexadecimal digit, in either case.
pub open spec fn hex_digit(b: u8) -> Option<u8> {
    if 48 <= b <= 57 {
        Some((b - 48) as u8)
    } else if 97 <= b <= 102 {
        Some((b - 87) as u8)
    } else if 65 <= b <= 70 {
        Some((b - 55) as u8)
    } else {
        None
    }
}

/// The message for a byte that is not a hexadecimal digit; the byte is
/// written as a decimal number.
pub open spec fn hex_error_message(b: u8) -> Seq<char> {
    "invalid hex char '"@ + decimal(b as nat) + "'"@
}

/// Decodes the pairs of hexadecimal digits at the front of `s`, up to the
/// first byte that is no digit; a last unpaired byte is ignored. Gives the
/// bytes decoded and, where decoding stopped early, the offending byte.
pub open spec fn decode_hex(s: Seq<u8>) -> (Seq<u8>, Option<u8>)
    decreases s.len(),
{
    if s.len() < 2 {
        (seq![], None)
    } else {
        match hex_digit(s[0]) {
            None => (seq![], Some(s[0])),
            Some(hi) => match hex_digit(s[1]) {
                None => (seq![], Some(s[1])),
                Some(lo) => {
                    let rest = decode_hex(s.skip(2));
                    (seq![(hi * 16 + lo) as u8] + rest.0, rest.1)
                },
            },
        }
    }
}

/// The lower-case ASCII hexadecimal digit for a value below 16.
pub open spec fn hex_char(v: u8) -> u8 {
    if v < 10 {
        (48 + v) as u8
    } else {
        (87 + v) as u8
    }
}

/// Lower-case hexadecimal text of a byte string, two digits per byte, high
/// half first.
pub open spec fn encode_hex_spec(s: Seq<u8>) -> Seq<u8> {
    Seq::new(
        2 * s.len(),
        |i: int|
            if i % 2 == 0 {
                hex_char(s[i / 2] / 16)
            } else {
                hex_char(s[i / 2] % 16)
            },
    )
}

/// Whether two digests are the same bytes.
pub fn same_digest(a: &[u8], b: &[u8]) -> (r: bool)
    ensures
        r == (a@ == b@),
{
    if a.len() != b.len() {
        return false;
    }
    let mut i: usize = 0;
    while i < a.len()
        invariant
            0 <= i <= a.len(),
            a.len() == b.len(),
            forall|j: int| 0 <= j < i ==> a@[j] == b@[j],
        decreases a.len() - i,
    {
        if a[i] != b[i] {
            return false;
        }
        i = i + 1;
    }
    assert(a@ =~= b@);
    true
}

/// The value of one hexadecimal digit, or the message naming the byte.
pub fn hex_val(b: u8) -> (r: Result<u8, String>)
    ensures
        match r {
            Ok(v) => hex_digit(b) == Some(v),
            Err(m) => hex_digit(b) is None && m@ == hex_error_message(b),
        },
{
    let res = if 48u8 <= b && b <= 57u8 {
        b - 48u8
    } else if 97u8 <= b && b <= 102u8 {
        10 + (b - 97u8)
    } else if 65u8 <= b && b <= 70u8 {
        10 + (b - 65u8)
    } else {
        let mut m = String::new();
        push_str(&mut m, "invalid hex char '");
        push_decimal_u8(&mut m, b);
        push_str(&mut m, "'");
        return Err(m);
    };
    Ok(res)
}

/// Decodes the hexadecimal digest `hexs` onto the end of `digest_buf`, two
/// digits per byte; an odd last digit is ignored. On a byte that is no
/// hexadecimal digit it stops with the message naming it, leaving the bytes
/// decoded before it in the buffer.
pub fn decode_digest(hexs: &str, digest_buf: &mut Vec<u8>) -> (r: Result<(), String>)
    ensures
        final(digest_buf)@ == old(digest_buf)@ + decode_hex(hexs.spec_bytes()).0,
        match r {
            Ok(()) => decode_hex(hexs.spec_bytes()).1 is None,
            Err(m) => decode_hex(hexs.spec_bytes()).1 matches Some(b) && m@ == hex_error_message(b),
        },
{
    let bytes = hexs.as_bytes();
    let ghost s = bytes@;
    let ghost mut acc: Seq<u8> = seq![];
    let mut i: usize = 0;
    assert(s.skip(0) =~= s);
    assert(acc + decode_hex(s).0 =~= decode_hex(s).0);
    while i < bytes.len() && bytes.len() - i >= 2
        invariant
            0 <= i <= bytes.len(),
            s == bytes@,
            s == hexs.spec_bytes(),
            digest_buf@ == old(digest_buf)@ + acc,
            decode_hex(s).0 == acc + decode_hex(s.skip(i as int)).0,
            decode_hex(s).1 == decode_hex(s.skip(i as int)).1,
        decreases bytes.len() - i,
    {
        proof {
            assert(s.skip(i as int).skip(2) =~= s.skip(i + 2));
        }
        let hi = match hex_val(bytes[i]) {
            Ok(v) => v,
            Err(m) => return Err(m),
        };
        let lo = match hex_val(bytes[i + 1]) {
            Ok(v) => v,
            Err(m) => return Err(m),
        };
        assert((hi << 4u8) | lo == hi * 16 + lo) by (bit_vector)
            requires
                hi < 16,
                lo < 16,
        ;
        digest_buf.push((hi << 4) | lo);
        proof {
            let b = (hi * 16 + lo) as u8;
            assert(acc + decode_hex(s.skip(i as int)).0 =~= acc.push(b) + decode_hex(s.skip(i + 2)).0);
            acc = acc.push(b);
        }
        i = i + 2;
    }
    Ok(())
}

fn hex_char_of(v: u8) -> (c: u8)
    requires
        v < 16,
    ensures
        c == hex_char(v),
{
    if v < 10 {
        48 + v
    } else {
        87 + v
    }
}

/// Lower-case hexadecimal text of `bytes`, as the digest output prints it.
pub fn encode_hex(bytes: &[u8]) -> (r: Vec<u8>)
    ensures
        r@ == encode_hex_spec(bytes@),
{
    let mut out: Vec<u8> = Vec::new();
    let mut i: usize = 0;
    while i < bytes.len()
        invariant
            0 <= i <= bytes.len(),
            out@ =~= encode_hex_spec(bytes@.take(i as int)),
        decreases bytes.len() - i,
    {
        let b = bytes[i];
        let hi = b >> 4u8;
        let lo = b & 15u8;
        assert(b >> 4u8 == b / 16 && b & 15u8 == b % 16) by (bit_vector);
        out.push(hex_char_of(hi));
        out.push(hex_char_of(lo));
        proof {
            let t = bytes@.take(i + 1);
            assert(t.take(i as int) =~= bytes@.take(i as int));
            assert forall|j: int| 0 <= j < 2 * t.len() implies #[trigger] out@[j]
                == encode_hex_spec(t)[j] by {
                if j < 2 * i {
                    assert(t[j / 2] == bytes@.take(i as int)[j / 2]);
                }
            }
        }
        i = i + 1;
    }
    assert(bytes@.take(i as int) =~= bytes@);
    out
}

proof fn hex_digit_of_hex_char(v: u8)
    requires
        v < 16,
    ensures
        hex_digit(hex_char(v)) == Some(v),
{
}

/// Decoding the hexadecimal text that `encode_hex` produces gives back the
/// bytes it was made from, with no error.
pub proof fn decode_encode_roundtrip(s: Seq<u8>)
    ensures
        decode_hex(encode_hex_spec(s)) == (s, None::<u8>),
    decreases s.len(),
{
    let e = encode_hex_spec(s);
    if s.len() == 0 {
        assert(s =~= seq![]);
    } else {
        let b = s[0];
        assert(e[0] == hex_char(b / 16));
        assert(e[1] == hex_char(b % 16));
        hex_digit_of_hex_char(b / 16);
        hex_digit_of_hex_char(b % 16);
        assert(e.skip(2) =~= encode_hex_spec(s.skip(1))) by {
            assert forall|j: int| 0 <= j < e.skip(2).len() implies #[trigger] e.skip(2)[j]
                == encode_hex_spec(s.skip(1))[j] by {
                assert((j + 2) / 2 == j / 2 + 1);
                assert((j + 2) % 2 == j % 2);
            }
        }
        decode_encode_roundtrip(s.skip(1));
        assert(((b / 16) * 16 + b % 16) as u8 == b);
        assert(seq![b] + s.skip(1) =~= s);
    }
}

/// The byte with ASCII upper-case letters lowered.
pub open spec fn lower_byte(b: u8) -> u8 {
    if 65 <= b <= 90 {
        (b + 32) as u8
    } else {
        b
    }
}

/// The upper-case ASCII hexadecimal digit for a value below 16.
pub open spec fn upper_hex_char(v: u8) -> u8 {
    if v < 10 {
        (48 + v) as u8
    } else {
        (55 + v) as u8
    }
}

/// Upper-case hexadecimal text of a byte string, two digits per byte, high
/// half first.
pub open spec fn encode_upper_hex_spec(s: Seq<u8>) -> Seq<u8> {
    Seq::new(
        2 * s.len(),
        |i: int|
            if i % 2 == 0 {
                upper_hex_char(s[i / 2] / 16)
            } else {
                upper_hex_char(s[i / 2] % 16)
            },
    )
}

/// `t` is a hexadecimal text of `d`, in any mix of cases: two digits per
/// byte, the first worth sixteen times its value.
pub open spec fn is_hex_text_of(t: Seq<u8>, d: Seq<u8>) -> bool {
    &&& t.len() == 2 * d.len()
    &&& forall|i: int|
        0 <= i < d.len() ==> hex_digit(#[trigger] t[2 * i]) is Some && hex_digit(t[2 * i + 1]) is Some
            && d[i] == hex_digit(t[2 * i]).unwrap() * 16 + hex_digit(t[2 * i + 1]).unwrap()
}

/// The digits `0`-`9` are worth 0 to 9, the letters `a`-`f` and `A`-`F`
/// alike 10 to 15, and no other byte is a hexadecimal digit.
pub proof fn hex_digit_values(c: u8)
    ensures
        48 <= c <= 57 ==> hex_digit(c) == Some((c - 48) as u8),
        97 <= c <= 102 ==> hex_digit(c) == Some((c - 97 + 10) as u8),
        65 <= c <= 70 ==> hex_digit(c) == Some((c - 65 + 10) as u8),
        65 <= c <= 70 ==> hex_digit(c) == hex_digit((c + 32) as u8),
        !(48 <= c <= 57 || 97 <= c <= 102 || 65 <= c <= 70) ==> hex_digit(c) is None,
{
}

/// Each decoded byte comes from one pair of digits at its place in the
/// text: sixteen times the value of the first plus the value of the
/// second. Decoding stops only at a byte that is no digit; without one,
/// every pair is decoded.
pub proof fn decode_hex_pairs(s: Seq<u8>)
    ensures
        decode_hex(s).0.len() <= s.len() / 2,
        forall|i: int|
            0 <= i < decode_hex(s).0.len() ==> hex_digit(#[trigger] s[2 * i]) is Some && hex_digit(
                s[2 * i + 1],
            ) is Some && decode_hex(s).0[i] == hex_digit(s[2 * i]).unwrap() * 16 + hex_digit(
                s[2 * i + 1],
            ).unwrap(),
        decode_hex(s).1 matches Some(b) ==> hex_digit(b) is None,
        decode_hex(s).1 is None ==> decode_hex(s).0.len() == s.len() / 2,
    decreases s.len(),
{
    if s.len() >= 2 && hex_digit(s[0]) is Some && hex_digit(s[1]) is Some {
        let t = s.skip(2);
        decode_hex_pairs(t);
        let r = decode_hex(s).0;
        assert forall|i: int| 0 <= i < r.len() implies hex_digit(#[trigger] s[2 * i]) is Some
            && hex_digit(s[2 * i + 1]) is Some && r[i] == hex_digit(s[2 * i]).unwrap() * 16
            + hex_digit(s[2 * i + 1]).unwrap() by {
            if i > 0 {
                assert(s[2 * i] == t[2 * (i - 1)]);
                assert(s[2 * i + 1] == t[2 * (i - 1) + 1]);
                assert(r[i] == decode_hex(t).0[i - 1]);
            } else {
                let hi = hex_digit(s[0]).unwrap();
                let lo = hex_digit(s[1]).unwrap();
                assert(hi < 16 && lo < 16);
            }
        }
    }
}

/// A hexadecimal text of `d`, in any mix of cases, decodes to `d` with no
/// error.
pub proof fn decode_hex_text(t: Seq<u8>, d: Seq<u8>)
    requires
        is_hex_text_of(t, d),
    ensures
        decode_hex(t) == (d, None::<u8>),
    decreases d.len(),
{
    if d.len() == 0 {
        assert(d =~= seq![]);
    } else {
        assert(hex_digit(t[2 * 0int]) is Some);
        let t2 = t.skip(2);
        let d2 = d.skip(1);
        assert forall|i: int| 0 <= i < d2.len() implies hex_digit(#[trigger] t2[2 * i]) is Some
            && hex_digit(t2[2 * i + 1]) is Some && d2[i] == hex_digit(t2[2 * i]).unwrap() * 16
            + hex_digit(t2[2 * i + 1]).unwrap() by {
            assert(t2[2 * i] == t[2 * (i + 1)]);
            assert(t2[2 * i + 1] == t[2 * (i + 1) + 1]);
            assert(hex_digit(t[2 * (i + 1)]) is Some);
        }
        decode_hex_text(t2, d2);
        assert(seq![d[0]] + d2 =~= d);
    }
}

/// Decoding does not see the case of letters: lowering every ASCII letter
/// of the text gives the same bytes, and the same stop, at the lowered
/// offending byte.
pub proof fn decode_ignores_case(s: Seq<u8>)
    ensures
        decode_hex(s.map_values(|b: u8| lower_byte(b))).0 == decode_hex(s).0,
        decode_hex(s.map_values(|b: u8| lower_byte(b))).1 == match decode_hex(s).1 {
            Some(b) => Some(lower_byte(b)),
            None => None::<u8>,
        },
    decreases s.len(),
{
    let ls = s.map_values(|b: u8| lower_byte(b));
    if s.len() >= 2 {
        assert(hex_digit(ls[0]) == hex_digit(s[0]));
        assert(hex_digit(ls[1]) == hex_digit(s[1]));
        assert(ls.skip(2) =~= s.skip(2).map_values(|b: u8| lower_byte(b)));
        decode_ignores_case(s.skip(2));
    }
}

/// Decoding the upper-case hexadecimal text of a byte string gives back
/// that string, with no error.
pub proof fn decode_upper_case_text(d: Seq<u8>)
    ensures
        decode_hex(encode_upper_hex_spec(d)) == (d, None::<u8>),
{
    let t = encode_upper_hex_spec(d);
    assert forall|i: int| 0 <= i < d.len() implies hex_digit(#[trigger] t[2 * i]) is Some
        && hex_digit(t[2 * i + 1]) is Some && d[i] == hex_digit(t[2 * i]).unwrap() * 16
        + hex_digit(t[2 * i + 1]).unwrap() by {
        assert((2 * i) / 2 == i && (2 * i) % 2 == 0);
        assert((2 * i + 1) / 2 == i && (2 * i + 1) % 2 == 1);
        let b = d[i];
        assert(b / 16 < 16 && b % 16 < 16);
        assert(b == (b / 16) * 16 + b % 16);
    }
    decode_hex_text(t, d);
}

} // verus!
