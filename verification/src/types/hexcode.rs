//! Bytes as hexadecimal text, by the `hex` crate.

use vstd::prelude::*;

verus! {

/// The lower-case hexadecimal digit of `n`.
pub open spec fn hex_digit(n: int) -> char {
    if n < 10 {
        (48 + n) as char
    } else {
        (87 + n) as char
    }
}

/// The number that a hexadecimal digit of either case stands for.
pub open spec fn hex_value(c: char) -> Option<int> {
    let u = c as int;
    if 48 <= u <= 57 {
        Some(u - 48)
    } else if 65 <= u <= 70 {
        Some(u - 55)
    } else if 97 <= u <= 102 {
        Some(u - 87)
    } else {
        None
    }
}

/// Two lower-case digits for each byte.
pub open spec fn hex_text(bytes: Seq<u8>) -> Seq<char> {
    Seq::new(
        2 * bytes.len(),
        |i: int|
            hex_digit(
                if i % 2 == 0 {
                    bytes[i / 2] as int / 16
                } else {
                    bytes[i / 2] as int % 16
                },
            ),
    )
}

/// The bytes that pairs of digits stand for; `None` for an odd number of
/// characters or one that is no digit.
pub open spec fn hex_decoded(s: Seq<char>) -> Option<Seq<u8>> {
    if s.len() % 2 == 0 && forall|i: int| 0 <= i < s.len() ==> hex_value(#[trigger] s[i]) is Some {
        Some(
            Seq::new(
                s.len() / 2,
                |i: int| (16 * hex_value(s[2 * i])->0 + hex_value(s[2 * i + 1])->0) as u8,
            ),
        )
    } else {
        None
    }
}

/// Decoding the hexadecimal text of some bytes gives those bytes.
pub proof fn law_hex_roundtrip(bytes: Seq<u8>)
    ensures
        hex_decoded(hex_text(bytes)) == Some(bytes),
{
    let s = hex_text(bytes);
    assert forall|i: int| 0 <= i < s.len() implies hex_value(#[trigger] s[i]) is Some by {
        assert(0 <= bytes[i / 2] as int / 16 < 16);
        assert(0 <= bytes[i / 2] as int % 16 < 16);
    }
    let back = hex_decoded(s)->0;
    assert forall|i: int| 0 <= i < bytes.len() implies #[trigger] back[i] == bytes[i] by {
        let b = bytes[i] as int;
        assert((2 * i) / 2 == i && (2 * i) % 2 == 0);
        assert((2 * i + 1) / 2 == i && (2 * i + 1) % 2 == 1);
        assert(s[2 * i] == hex_digit(b / 16));
        assert(s[2 * i + 1] == hex_digit(b % 16));
        assert(hex_value(hex_digit(b / 16)) == Some(b / 16));
        assert(hex_value(hex_digit(b % 16)) == Some(b % 16));
        assert(16 * (b / 16) + b % 16 == b);
    }
    assert(back =~= bytes);
}

/// Calls `hex::encode`: two lower-case digits for each byte.
#[verifier::external_body]
pub(crate) fn hex_encode(bytes: &[u8]) -> (r: String)
    ensures
        r@ == hex_text(bytes@),
{
    hex::encode(bytes)
}

/// Calls `hex::decode`: the bytes of pairs of digits of either case, an error
/// for an odd length or another character.
#[verifier::external_body]
pub(crate) fn hex_decode(s: &str) -> (r: Option<Vec<u8>>)
    ensures
        match r {
            Some(v) => hex_decoded(s@) == Some(v@),
            None => hex_decoded(s@) is None,
        },
{
    hex::decode(s).ok()
}

/// Each byte becomes two characters, the high four bits first, in digits and
/// lower-case letters.
pub proof fn law_hex_text_is_high_digit_first(bytes: Seq<u8>, i: int)
    requires
        0 <= i < bytes.len(),
    ensures
        hex_text(bytes).len() == 2 * bytes.len(),
        ({
            let high = hex_text(bytes)[2 * i] as int;
            let low = hex_text(bytes)[2 * i + 1] as int;
            &&& 0x30 <= high <= 0x39 || 0x61 <= high <= 0x66
            &&& 0x30 <= low <= 0x39 || 0x61 <= low <= 0x66
            &&& bytes[i] == 16 * (if high <= 0x39 {
                high - 0x30
            } else {
                high - 0x61 + 10
            }) + (if low <= 0x39 {
                low - 0x30
            } else {
                low - 0x61 + 10
            })
        }),
{
    let b = bytes[i] as int;
    assert((2 * i) / 2 == i && (2 * i) % 2 == 0);
    assert((2 * i + 1) / 2 == i && (2 * i + 1) % 2 == 1);
    assert(hex_text(bytes)[2 * i] == hex_digit(b / 16));
    assert(hex_text(bytes)[2 * i + 1] == hex_digit(b % 16));
}

/// Letters of either case are read alike, and nothing but digits and the first
/// six letters is read.
pub proof fn law_hex_digits_of_either_case(c: char)
    ensures
        hex_value(c) is Some <==> ('0' <= c && c <= '9') || ('a' <= c && c <= 'f') || ('A' <= c && c
            <= 'F'),
        '0' <= c && c <= '9' ==> hex_value(c) == Some(c as int - '0' as int),
        'a' <= c && c <= 'f' ==> hex_value(c) == Some(c as int - 'a' as int + 10),
        'A' <= c && c <= 'F' ==> hex_value(c) == Some(c as int - 'A' as int + 10),
{
}

/// Text is read as bytes when it has an even number of digits; each pair then
/// stands for one byte, its first digit for the high four bits.
pub proof fn law_hex_is_read_in_pairs(s: Seq<char>)
    ensures
        hex_decoded(s) is Some <==> s.len() % 2 == 0 && forall|i: int|
            0 <= i < s.len() ==> hex_value(#[trigger] s[i]) is Some,
        hex_decoded(s) matches Some(b) ==> 2 * b.len() == s.len() && forall|i: int|
            0 <= i < b.len() ==> #[trigger] b[i] == 16 * hex_value(s[2 * i])->0 + hex_value(
                s[2 * i + 1],
            )->0,
{
    if hex_decoded(s) is Some {
        let b = hex_decoded(s)->0;
        assert forall|i: int| 0 <= i < b.len() implies #[trigger] b[i] == 16 * hex_value(
            s[2 * i],
        )->0 + hex_value(s[2 * i + 1])->0 by {
            assert(hex_value(s[2 * i]) is Some);
            assert(hex_value(s[2 * i + 1]) is Some);
        }
    }
}

} // verus!
