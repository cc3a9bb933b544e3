//! Hexadecimal text, as the forge writes message authentication tags.

use vstd::prelude::*;
use vstd::string::*;

verus! {

/// Whether `b` is an ASCII hexadecimal digit of either case.
pub open spec fn is_hex_digit(b: u8) -> bool {
    (0x30 <= b <= 0x39) || (0x41 <= b <= 0x46) || (0x61 <= b <= 0x66)
}

/// The number from 0 to 15 that a hexadecimal digit stands for.
pub open spec fn hex_digit_value(b: u8) -> int
    recommends
        is_hex_digit(b),
{
    if 0x30 <= b <= 0x39 {
        b - 0x30
    } else if 0x41 <= b <= 0x46 {
        b - 0x41 + 10
    } else {
        b - 0x61 + 10
    }
}

/// Whether `text` is an even number of hexadecimal digits and nothing else.
pub open spec fn is_hex_text(text: Seq<u8>) -> bool {
    &&& text.len() % 2 == 0
    &&& forall|i: int| 0 <= i < text.len() ==> is_hex_digit(#[trigger] text[i])
}

/// The byte that the digit pair starting at `2 * k` of `text` spells, high
/// digit first.
pub open spec fn hex_pair_value(text: Seq<u8>, k: int) -> u8
    recommends
        0 <= k,
        2 * k + 1 < text.len(),
{
    (16 * hex_digit_value(text[2 * k]) + hex_digit_value(text[2 * k + 1])) as u8
}

/// The bytes that hexadecimal `text` spells: one byte for each pair of digits.
pub open spec fn hex_decoded(text: Seq<u8>) -> Seq<u8>
    recommends
        is_hex_text(text),
{
    Seq::new(text.len() / 2, |k: int| hex_pair_value(text, k))
}

/// The value of one digit, or `Err` for a byte that is no hexadecimal digit.
pub fn from_digit(digit: u8) -> (r: Result<u8, ()>)
    ensures
        r is Ok <==> is_hex_digit(digit),
        r matches Ok(v) ==> v == hex_digit_value(digit),
{
    if 0x30 <= digit && digit <= 0x39 {
        Ok(digit - 0x30)
    } else if 0x41 <= digit && digit <= 0x46 {
        Ok(10 + (digit - 0x41))
    } else if 0x61 <= digit && digit <= 0x66 {
        Ok(10 + (digit - 0x61))
    } else {
        Err(())
    }
}

proof fn lemma_join_nibbles(hi: u8, lo: u8)
    requires
        hi < 16,
        lo < 16,
    ensures
        ((hi << 4) | lo) == 16 * hi + lo,
{
    assert(((hi << 4) | lo) == 16 * hi + lo) by (bit_vector)
        requires
            hi < 16,
            lo < 16,
    ;
}

/// Decodes hexadecimal digits given as bytes.
///
/// Succeeds exactly on an even number of digits, and then yields the byte
/// spelled by each pair.
pub fn decode_hex(text: &[u8]) -> (r: Result<Vec<u8>, ()>)
    ensures
        r is Ok <==> is_hex_text(text@),
        r matches Ok(bytes) ==> bytes@ == hex_decoded(text@),
{
    let n: usize = text.len();
    if n % 2 != 0 {
        return Err(());
    }
    let mut result: Vec<u8> = Vec::new();
    let mut i: usize = 0;
    while i < n
        invariant
            n == text@.len(),
            n % 2 == 0,
            i % 2 == 0,
            i <= n,
            result@.len() == i / 2,
            forall|j: int| 0 <= j < i ==> is_hex_digit(#[trigger] text@[j]),
            forall|k: int| 0 <= k < result@.len() ==> #[trigger] result@[k] == hex_pair_value(text@, k),
        decreases n - i,
    {
        let hi: u8 = match from_digit(text[i]) {
            Ok(v) => v,
            Err(_) => {
                return Err(());
            },
        };
        let lo: u8 = match from_digit(text[i + 1]) {
            Ok(v) => v,
            Err(_) => {
                return Err(());
            },
        };
        proof {
            lemma_join_nibbles(hi, lo);
        }
        result.push((hi << 4) | lo);
        i = i + 2;
    }
    assert(result@ =~= hex_decoded(text@));
    Ok(result)
}

/// Decodes a hexadecimal string.
///
/// The string is taken byte by byte, as it is encoded: it decodes exactly when
/// it is an even number of ASCII hexadecimal digits.
pub fn from_hex(hex_str: &str) -> (r: Result<Vec<u8>, ()>)
    ensures
        r is Ok <==> is_hex_text(hex_str.spec_bytes()),
        r matches Ok(bytes) ==> bytes@ == hex_decoded(hex_str.spec_bytes()),
{
    decode_hex(hex_str.as_bytes())
}

} // verus!
