//! Byte strings: comparison, ASCII case, and decimal numbers.

use vstd::prelude::*;

verus! {

/// Whether two slices hold the same bytes.
pub fn same_bytes(a: &[u8], b: &[u8]) -> (same: bool)
    ensures
        same == (a@ == b@),
{
    if a.len() != b.len() {
        return false;
    }
    let n: usize = a.len();
    let mut i: usize = 0;
    while i < n
        invariant
            n == a@.len(),
            n == b@.len(),
            i <= n,
            forall|j: int| 0 <= j < i ==> a@[j] == b@[j],
        decreases n - i,
    {
        if a[i] != b[i] {
            return false;
        }
        i = i + 1;
    }
    assert(a@ =~= b@);
    true
}

/// Whether `text` begins with `prefix`.
pub open spec fn has_prefix(text: Seq<u8>, prefix: Seq<u8>) -> bool {
    prefix.len() <= text.len() && text.take(prefix.len() as int) == prefix
}

/// Whether `text` begins with `prefix`.
pub fn starts_with(text: &[u8], prefix: &[u8]) -> (found: bool)
    ensures
        found == has_prefix(text@, prefix@),
{
    if prefix.len() > text.len() {
        return false;
    }
    same_bytes(vstd::slice::slice_subrange(text, 0, prefix.len()), prefix)
}

/// The bytes of an optional slice: those of a header value, if the header is
/// present.
pub open spec fn present(value: Option<&[u8]>) -> Option<Seq<u8>> {
    match value {
        None => None,
        Some(bytes) => Some(bytes@),
    }
}

/// An ASCII capital letter turned into its small letter; any other byte as it
/// is.
pub open spec fn lower_byte(b: u8) -> u8 {
    if 0x41 <= b <= 0x5a {
        (b + 0x20) as u8
    } else {
        b
    }
}

/// `text` with every ASCII capital letter turned into its small letter.
pub open spec fn lowered(text: Seq<u8>) -> Seq<u8> {
    Seq::new(text.len(), |i: int| lower_byte(text[i]))
}

/// Copies `text`, turning ASCII capital letters into small ones.
pub fn to_lower(text: &[u8]) -> (out: Vec<u8>)
    ensures
        out@ == lowered(text@),
{
    let n: usize = text.len();
    let mut out: Vec<u8> = Vec::new();
    let mut i: usize = 0;
    while i < n
        invariant
            n == text@.len(),
            i <= n,
            out@.len() == i,
            forall|j: int| 0 <= j < i ==> out@[j] == lower_byte(text@[j]),
        decreases n - i,
    {
        let b: u8 = text[i];
        if 0x41 <= b && b <= 0x5a {
            out.push(b + 0x20);
        } else {
            out.push(b);
        }
        i = i + 1;
    }
    assert(out@ =~= lowered(text@));
    out
}

/// Whether `b` is an ASCII decimal digit.
pub open spec fn is_digit(b: u8) -> bool {
    0x30 <= b <= 0x39
}

/// Whether every byte of `text` is a decimal digit.
pub open spec fn all_digits(text: Seq<u8>) -> bool {
    forall|i: int| 0 <= i < text.len() ==> is_digit(#[trigger] text[i])
}

/// The number that the decimal digits `digits` spell; 0 for no digits.
pub open spec fn decimal_value(digits: Seq<u8>) -> nat
    decreases digits.len(),
{
    if digits.len() == 0 {
        0
    } else {
        (10 * decimal_value(digits.drop_last()) + (digits.last() - 0x30)) as nat
    }
}

/// The digits of an unsigned number: `text` itself, or what follows a plus
/// sign that it begins with.
pub open spec fn unsigned_digits(text: Seq<u8>) -> Seq<u8> {
    if text.len() > 0 && text[0] == 0x2b {
        text.skip(1)
    } else {
        text
    }
}

/// Whether `text` spells a number that fits `usize`: an optional plus sign,
/// then one or more decimal digits and nothing else.
pub open spec fn is_usize_text(text: Seq<u8>) -> bool {
    &&& unsigned_digits(text).len() > 0
    &&& all_digits(unsigned_digits(text))
    &&& decimal_value(unsigned_digits(text)) <= usize::MAX
}

/// A longer run of digits spells no smaller a number than its beginning.
proof fn lemma_decimal_prefix(digits: Seq<u8>, i: int)
    requires
        all_digits(digits),
        0 <= i <= digits.len(),
    ensures
        decimal_value(digits.take(i)) <= decimal_value(digits),
    decreases digits.len() - i,
{
    if i == digits.len() {
        assert(digits.take(i) =~= digits);
    } else {
        lemma_decimal_prefix(digits, i + 1);
        let longer = digits.take(i + 1);
        assert(longer.drop_last() =~= digits.take(i));
        assert(is_digit(digits[i]));
        assert(longer.last() == digits[i]);
    }
}

/// Reads an unsigned decimal number.
///
/// Gives the number exactly when `text` spells one that fits `usize`.
pub fn parse_usize(text: &[u8]) -> (r: Option<usize>)
    ensures
        r is Some <==> is_usize_text(text@),
        r matches Some(n) ==> n == decimal_value(unsigned_digits(text@)),
{
    let n: usize = text.len();
    let start: usize = if n > 0 && text[0] == 0x2b {
        1
    } else {
        0
    };
    if start == n {
        return None;
    }
    let digits = vstd::slice::slice_subrange(text, start, n);
    assert(digits@ =~= unsigned_digits(text@));
    let len: usize = digits.len();
    let mut value: usize = 0;
    let mut i: usize = 0;
    while i < len
        invariant
            len == digits@.len(),
            len > 0,
            digits@ == unsigned_digits(text@),
            i <= len,
            forall|j: int| 0 <= j < i ==> is_digit(#[trigger] digits@[j]),
            value == decimal_value(digits@.take(i as int)),
        decreases len - i,
    {
        let b: u8 = digits[i];
        if !(0x30 <= b && b <= 0x39) {
            return None;
        }
        let d: usize = (b - 0x30) as usize;
        proof {
            let longer = digits@.take(i + 1);
            assert(longer.drop_last() =~= digits@.take(i as int));
            assert(longer.last() == b);
            assert(decimal_value(longer) == 10 * value + d);
            if all_digits(digits@) {
                lemma_decimal_prefix(digits@, i + 1);
            }
        }
        let tens: usize = match value.checked_mul(10) {
            Some(t) => t,
            None => {
                return None;
            },
        };
        value = match tens.checked_add(d) {
            Some(v) => v,
            None => {
                return None;
            },
        };
        i = i + 1;
    }
    assert(digits@.take(len as int) =~= digits@);
    Some(value)
}

/// The decimal digits of `n`, without leading zeros.
pub open spec fn decimal_digits(n: nat) -> Seq<u8>
    decreases n,
{
    if n < 10 {
        seq![(0x30 + n) as u8]
    } else {
        decimal_digits(n / 10).push((0x30 + n % 10) as u8)
    }
}

/// Writes `n` in decimal digits, without leading zeros.
pub fn format_usize(n: usize) -> (out: Vec<u8>)
    ensures
        out@ == decimal_digits(n as nat),
    decreases n,
{
    if n < 10 {
        let mut out: Vec<u8> = Vec::new();
        out.push(0x30 + (n as u8));
        assert(out@ =~= decimal_digits(n as nat));
        out
    } else {
        let mut out: Vec<u8> = format_usize(n / 10);
        out.push(0x30 + ((n % 10) as u8));
        out
    }
}

/// What `format_usize` writes, `parse_usize` reads back as the same number.
pub proof fn lemma_decimal_round_trip(n: nat)
    ensures
        decimal_digits(n).len() > 0,
        all_digits(decimal_digits(n)),
        unsigned_digits(decimal_digits(n)) == decimal_digits(n),
        decimal_value(decimal_digits(n)) == n,
    decreases n,
{
    let digits = decimal_digits(n);
    if n < 10 {
        assert(digits.drop_last() =~= Seq::<u8>::empty());
        assert(decimal_value(digits.drop_last()) == 0);
    } else {
        lemma_decimal_round_trip(n / 10);
        assert(digits.drop_last() =~= decimal_digits(n / 10));
        assert(digits[0] == decimal_digits(n / 10)[0]);
    }
}

} // verus!
