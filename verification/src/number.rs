//! Balances and amounts as decimal text.
//!
//! Amounts in instructions and balances in the store are both written as
//! base-10 text. This module defines what such text denotes and converts in
//! both directions.
use vstd::prelude::*;

verus! {

/// The byte of the character `0`.
pub const ZERO: u8 = 0x30;

/// The byte of the character `9`.
pub const NINE: u8 = 0x39;

/// The byte of the character `+`.
pub const PLUS: u8 = 0x2b;

/// Whether `b` is one of the characters `0` to `9`.
pub open spec fn is_digit(b: u8) -> bool {
    ZERO <= b <= NINE
}

/// Whether every byte of `s` is a decimal digit.
pub open spec fn all_digits(s: Seq<u8>) -> bool {
    forall|i: int| 0 <= i < s.len() ==> is_digit(#[trigger] s[i])
}

/// The number that the digit `b` stands for; 0 for any other byte.
pub open spec fn digit_value(b: u8) -> nat {
    if is_digit(b) {
        (b - ZERO) as nat
    } else {
        0
    }
}

/// The number that a sequence of digits denotes, most significant digit first.
pub open spec fn digits_value(s: Seq<u8>) -> nat
    decreases s.len(),
{
    if s.len() == 0 {
        0
    } else {
        digits_value(s.drop_last()) * 10 + digit_value(s.last())
    }
}

/// The text without one leading `+`, if it has one.
pub open spec fn unsigned_body(s: Seq<u8>) -> Seq<u8> {
    if s.len() > 0 && s[0] == PLUS {
        s.drop_first()
    } else {
        s
    }
}

/// The 32-bit unsigned number that `s` denotes, if any: an optional `+`
/// followed by at least one digit, nothing else, with a value that fits.
pub open spec fn parse_u32(s: Seq<u8>) -> Option<u32> {
    let body = unsigned_body(s);
    if body.len() > 0 && all_digits(body) && digits_value(body) <= u32::MAX {
        Some(digits_value(body) as u32)
    } else {
        None
    }
}

/// The decimal text of `n`, without sign or leading zeros.
pub open spec fn decimal_digits(n: nat) -> Seq<u8>
    decreases n,
{
    if n < 10 {
        seq![(ZERO + n) as u8]
    } else {
        decimal_digits(n / 10).push((ZERO + n % 10) as u8)
    }
}

/// A prefix of a digit sequence denotes no more than the whole sequence.
proof fn lemma_prefix_value(s: Seq<u8>, k: int)
    requires
        0 <= k <= s.len(),
    ensures
        digits_value(s.subrange(0, k)) <= digits_value(s),
    decreases s.len() - k,
{
    if k == s.len() {
        assert(s.subrange(0, k) == s);
    } else {
        lemma_prefix_value(s.drop_last(), k);
        assert(s.drop_last().subrange(0, k) == s.subrange(0, k));
    }
}

/// Reads an unsigned 32-bit number from decimal text.
pub fn parse_amount(text: &[u8]) -> (r: Option<u32>)
    ensures
        r == parse_u32(text@),
{
    let n: usize = text.len();
    let start: usize = if n > 0 && text[0] == PLUS {
        1
    } else {
        0
    };
    let ghost body = unsigned_body(text@);
    assert(body == text@.subrange(start as int, n as int));
    if start == n {
        return None;
    }
    let mut acc: u64 = 0;
    let mut i: usize = start;
    while i < n
        invariant
            start <= i <= n,
            n == text@.len(),
            body == text@.subrange(start as int, n as int),
            body == unsigned_body(text@),
            acc == digits_value(body.subrange(0, i - start)),
            acc <= u32::MAX,
            all_digits(body.subrange(0, i - start)),
        decreases n - i,
    {
        let b: u8 = text[i];
        assert(b == body[i - start]);
        if b < ZERO || b > NINE {
            assert(!is_digit(body[i - start]));
            return None;
        }
        let ghost next = body.subrange(0, i - start + 1);
        assert(next.drop_last() == body.subrange(0, i - start));
        assert(next.last() == b);
        acc = acc * 10 + (b - ZERO) as u64;
        if acc > 0xffff_ffff {
            proof {
                lemma_prefix_value(body, i - start + 1);
            }
            return None;
        }
        i = i + 1;
    }
    assert(body.subrange(0, n - start) == body);
    Some(acc as u32)
}

/// Writes a number as decimal text.
pub fn format_amount(value: u32) -> (r: Vec<u8>)
    ensures
        r@ == decimal_digits(value as nat),
    decreases value,
{
    if value < 10 {
        let mut out: Vec<u8> = Vec::new();
        out.push(ZERO + value as u8);
        assert(out@ == seq![(ZERO + value as nat) as u8]);
        out
    } else {
        let mut out: Vec<u8> = format_amount(value / 10);
        out.push(ZERO + (value % 10) as u8);
        out
    }
}

/// Decimal text consists of digits only, and denotes the number it was
/// written from.
pub proof fn lemma_decimal_digits_value(n: nat)
    ensures
        decimal_digits(n).len() > 0,
        all_digits(decimal_digits(n)),
        digits_value(decimal_digits(n)) == n,
        decimal_digits(n)[0] != PLUS,
    decreases n,
{
    let d = decimal_digits(n);
    if n < 10 {
        assert(d.drop_last() == Seq::<u8>::empty());
        assert(digits_value(d.drop_last()) == 0);
    } else {
        lemma_decimal_digits_value(n / 10);
        assert(d.drop_last() == decimal_digits(n / 10));
        assert(d[0] == decimal_digits(n / 10)[0]);
    }
}

/// Reading back what `format_amount` wrote gives the number that was written.
pub proof fn lemma_parse_formatted(value: u32)
    ensures
        parse_u32(decimal_digits(value as nat)) == Some(value),
{
    lemma_decimal_digits_value(value as nat);
}

} // verus!
