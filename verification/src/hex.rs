//! Decoding of `0x`-prefixed hexadecimal strings used by the fixtures.

use vstd::prelude::*;
use vstd::string::StringSliceAdditionalSpecFns;
use vstd::utf8::encode_utf8;

verus! {

/// Whether `b` is an ASCII hexadecimal digit of either case.
pub open spec fn is_hex_digit(b: u8) -> bool {
    (48 <= b <= 57) || (97 <= b <= 102) || (65 <= b <= 70)
}

/// The value of a hexadecimal digit.
pub open spec fn hex_digit_value(b: u8) -> int {
    if 48 <= b <= 57 {
        b - 48
    } else if 97 <= b <= 102 {
        b - 87
    } else {
        b - 55
    }
}

/// Whether the two characters at pair `k` after the `0x` prefix spell a
/// byte: two hexadecimal digits, or a `+` sign before one digit.
pub open spec fn pair_ok(text: Seq<u8>, k: int) -> bool {
    let high = text[2 + 2 * k];
    let low = text[3 + 2 * k];
    (is_hex_digit(high) || high == 43u8) && is_hex_digit(low)
}

/// The byte that pair `k` after the `0x` prefix spells, high digit first.
pub open spec fn pair_value(text: Seq<u8>, k: int) -> int {
    let high = text[2 + 2 * k];
    let low = text[3 + 2 * k];
    if high == 43u8 {
        hex_digit_value(low)
    } else {
        hex_digit_value(high) * 16 + hex_digit_value(low)
    }
}

/// Whether `text` is `0x` followed by an even number of characters whose
/// pairs each spell a byte.
pub open spec fn is_hex_text(text: Seq<u8>) -> bool {
    &&& text.len() >= 2
    &&& text[0] == 48u8
    &&& text[1] == 120u8
    &&& (text.len() - 2) % 2 == 0
    &&& forall|k: int| 0 <= k < (text.len() - 2) / 2 ==> #[trigger] pair_ok(text, k)
}

/// The bytes that the pairs after the `0x` prefix spell.
pub open spec fn spec_decode_hex(text: Seq<u8>) -> Seq<u8> {
    Seq::new(((text.len() - 2) / 2) as nat, |k: int| pair_value(text, k) as u8)
}

/// Whether the characters are well-formed hexadecimal text.
pub open spec fn hex_ok(chars: Seq<char>) -> bool {
    is_hex_text(encode_utf8(chars))
}

/// The bytes that well-formed hexadecimal characters spell.
pub open spec fn hex_bytes(chars: Seq<char>) -> Seq<u8> {
    spec_decode_hex(encode_utf8(chars))
}

/// Whether the characters are well-formed hexadecimal text of `n` bytes.
pub open spec fn hex_ok_len(chars: Seq<char>, n: nat) -> bool {
    hex_ok(chars) && hex_bytes(chars).len() == n
}

/// Whether `value` is well-formed hexadecimal text.
pub open spec fn is_hex_str(value: &str) -> bool {
    hex_ok(value@)
}

/// The bytes that well-formed hexadecimal text spells.
pub open spec fn decoded_hex(value: &str) -> Seq<u8> {
    hex_bytes(value@)
}

fn digit_value(b: u8) -> (value: u8)
    requires
        is_hex_digit(b),
    ensures
        value == hex_digit_value(b),
        value < 16,
{
    if b >= 48 && b <= 57 {
        b - 48
    } else if b >= 97 && b <= 102 {
        b - 87
    } else {
        b - 55
    }
}

/// Copies `bytes` into an array of their length.
pub fn to_array<const N: usize>(bytes: &[u8]) -> (array: [u8; N])
    requires
        bytes@.len() == N,
    ensures
        array@ == bytes@,
{
    let mut array: [u8; N] = [0u8; N];
    let mut i: usize = 0;
    while i < N
        invariant
            bytes@.len() == N,
            0 <= i <= N,
            forall|j: int| 0 <= j < i ==> array[j] == bytes@[j],
        decreases N - i,
    {
        array[i] = bytes[i];
        i += 1;
    }
    assert(array@ =~= bytes@);
    array
}

/// Decodes `0x`-prefixed hexadecimal text into bytes, two characters a
/// byte; a pair may be a `+` sign followed by one digit.
pub fn parse_hex(value: &str) -> (bytes: Vec<u8>)
    requires
        is_hex_str(value),
    ensures
        bytes@ == decoded_hex(value),
{
    let text = value.as_bytes();
    let length = text.len();
    let count = (length - 2) / 2;
    let mut bytes: Vec<u8> = Vec::new();
    let mut i: usize = 0;
    while i < count
        invariant
            text@ == value.spec_bytes(),
            length == text@.len(),
            is_hex_text(text@),
            count == (text@.len() - 2) / 2,
            0 <= i <= count,
            bytes@.len() == i,
            forall|j: int| 0 <= j < i ==> bytes@[j] == decoded_hex(value)[j],
        decreases count - i,
    {
        assert(pair_ok(text@, i as int));
        let sign_or_high = text[2 + 2 * i];
        let low = digit_value(text[3 + 2 * i]);
        if sign_or_high == 43u8 {
            bytes.push(low);
        } else {
            let high = digit_value(sign_or_high);
            bytes.push(high * 16 + low);
        }
        i += 1;
    }
    assert(bytes@ =~= decoded_hex(value));
    bytes
}

} // verus!
