//! Decimal text of integers: the model of the digits that the format stores,
//! and verified conversions in both directions.

use vstd::prelude::*;

verus! {

/// The byte `0`.
pub const DIGIT_ZERO: u8 = 0x30;

/// The byte `9`.
pub const DIGIT_NINE: u8 = 0x39;

/// The byte `+`.
pub const PLUS: u8 = 0x2b;

/// The byte `-`.
pub const MINUS: u8 = 0x2d;

/// Whether a byte is an ASCII decimal digit.
pub open spec fn is_digit(b: u8) -> bool {
    DIGIT_ZERO <= b <= DIGIT_NINE
}

/// Whether every byte of `s` is an ASCII decimal digit.
pub open spec fn all_digits(s: Seq<u8>) -> bool {
    forall|i: int| 0 <= i < s.len() ==> is_digit(#[trigger] s[i])
}

/// The number that a run of digits denotes, most significant digit first.
pub open spec fn digits_value(s: Seq<u8>) -> nat
    decreases s.len(),
{
    if s.len() == 0 {
        0
    } else {
        (digits_value(s.drop_last()) * 10 + (s.last() - DIGIT_ZERO)) as nat
    }
}

/// The magnitude that `s` denotes if it is a non-empty run of digits whose
/// value does not exceed `max`.
pub open spec fn spec_parse_digits(s: Seq<u8>, max: nat) -> Option<nat> {
    if s.len() > 0 && all_digits(s) && digits_value(s) <= max {
        Some(digits_value(s))
    } else {
        None
    }
}

/// What is left of `s` once an optional leading `+` is dropped.
pub open spec fn strip_plus(s: Seq<u8>) -> Seq<u8> {
    if s.len() > 0 && s[0] == PLUS {
        s.skip(1)
    } else {
        s
    }
}

/// The unsigned number that the text `s` denotes, none above `max`: an
/// optional `+`, then one or more digits. Leading zeros are allowed.
pub open spec fn spec_parse_unsigned(s: Seq<u8>, max: nat) -> Option<nat> {
    spec_parse_digits(strip_plus(s), max)
}

/// The 64-bit unsigned number that the text `s` denotes.
pub open spec fn spec_parse_u64(s: Seq<u8>) -> Option<u64> {
    match spec_parse_unsigned(s, u64::MAX as nat) {
        Some(n) => Some(n as u64),
        None => None,
    }
}

/// The size that the text `s` denotes.
pub open spec fn spec_parse_usize(s: Seq<u8>) -> Option<usize> {
    match spec_parse_unsigned(s, usize::MAX as nat) {
        Some(n) => Some(n as usize),
        None => None,
    }
}

/// The 64-bit signed number that the text `s` denotes: an optional `+` or
/// `-`, then one or more digits.
pub open spec fn spec_parse_i64(s: Seq<u8>) -> Option<i64> {
    if s.len() > 0 && s[0] == MINUS {
        match spec_parse_digits(s.skip(1), (-(i64::MIN as int)) as nat) {
            Some(n) => Some((-(n as int)) as i64),
            None => None,
        }
    } else {
        match spec_parse_digits(strip_plus(s), i64::MAX as nat) {
            Some(n) => Some(n as i64),
            None => None,
        }
    }
}

/// The canonical decimal text of `n`: no sign, no leading zeros.
pub open spec fn spec_decimal(n: nat) -> Seq<u8>
    decreases n,
{
    if n < 10 {
        seq![(DIGIT_ZERO + n) as u8]
    } else {
        spec_decimal(n / 10).push((DIGIT_ZERO + n % 10) as u8)
    }
}

/// The canonical decimal text of `i`: a `-` before the magnitude of a
/// negative number.
pub open spec fn spec_decimal_signed(i: int) -> Seq<u8> {
    if i < 0 {
        seq![MINUS] + spec_decimal((-i) as nat)
    } else {
        spec_decimal(i as nat)
    }
}

/// A prefix of a run of digits denotes no more than the whole run.
pub proof fn lemma_digits_value_prefix(s: Seq<u8>, k: int)
    requires
        all_digits(s),
        0 <= k <= s.len(),
    ensures
        digits_value(s.take(k)) <= digits_value(s),
    decreases s.len(),
{
    if k == s.len() {
        assert(s.take(k) =~= s);
    } else {
        assert(s.drop_last().take(k) =~= s.take(k));
        lemma_digits_value_prefix(s.drop_last(), k);
    }
}

/// The canonical text of `n` is a non-empty run of digits that denotes `n`,
/// and its first byte is a digit.
pub proof fn lemma_decimal_digits(n: nat)
    ensures
        spec_decimal(n).len() >= 1,
        all_digits(spec_decimal(n)),
        digits_value(spec_decimal(n)) == n,
        is_digit(spec_decimal(n)[0]),
    decreases n,
{
    let d = spec_decimal(n);
    if n < 10 {
        assert(d.drop_last() =~= Seq::<u8>::empty());
        assert(digits_value(d.drop_last()) == 0);
    } else {
        lemma_decimal_digits(n / 10);
        let head = spec_decimal(n / 10);
        assert(d.drop_last() =~= head);
        assert(d.last() == (DIGIT_ZERO + n % 10) as u8);
        assert(d[0] == head[0]);
    }
}

/// Reading the canonical text of an unsigned number gives the number back.
pub proof fn lemma_parse_decimal_unsigned(n: nat, max: nat)
    requires
        n <= max,
    ensures
        spec_parse_unsigned(spec_decimal(n), max) == Some(n),
{
    lemma_decimal_digits(n);
}

/// Reading the canonical text of a signed 64-bit number gives the number
/// back.
pub proof fn lemma_parse_decimal_signed(i: i64)
    ensures
        spec_parse_i64(spec_decimal_signed(i as int)) == Some(i),
{
    let text = spec_decimal_signed(i as int);
    if i < 0 {
        let m = (-(i as int)) as nat;
        lemma_decimal_digits(m);
        assert(text.skip(1) =~= spec_decimal(m));
    } else {
        lemma_decimal_digits(i as nat);
    }
}

/// Reads the digits of `bytes` from `start` on as a number of at most `max`.
pub fn parse_digits(bytes: &[u8], start: usize, max: u64) -> (value: Option<u64>)
    requires
        start <= bytes@.len(),
    ensures
        match spec_parse_digits(bytes@.skip(start as int), max as nat) {
            Some(n) => value == Some(n as u64),
            None => value is None,
        },
{
    let ghost body = bytes@.skip(start as int);
    let mut i: usize = start;
    let mut acc: u64 = 0;
    while i < bytes.len()
        invariant
            start <= i <= bytes@.len(),
            body == bytes@.skip(start as int),
            all_digits(body.take(i - start)),
            acc == digits_value(body.take(i - start)),
            acc <= max,
        decreases bytes@.len() - i,
    {
        let b: u8 = bytes[i];
        let ghost next = body.take(i - start + 1);
        proof {
            assert(next.drop_last() =~= body.take(i - start));
            assert(next.last() == b);
        }
        if b < DIGIT_ZERO || b > DIGIT_NINE {
            assert(!is_digit(body[i - start]));
            return None;
        }
        let d: u64 = (b - DIGIT_ZERO) as u64;
        if acc > max / 10 || d > max - acc * 10 {
            proof {
                assert(digits_value(next) > max);
                if all_digits(body) {
                    lemma_digits_value_prefix(body, i - start + 1);
                }
            }
            return None;
        }
        acc = acc * 10 + d;
        i = i + 1;
        proof {
            assert forall|j: int| 0 <= j < next.len() implies is_digit(#[trigger] next[j]) by {
                if j < next.len() - 1 {
                    assert(next[j] == body.take(i - start - 1)[j]);
                }
            }
        }
    }
    proof {
        assert(body.take(i - start) =~= body);
    }
    if i == start {
        None
    } else {
        Some(acc)
    }
}

/// Reads `bytes` as an unsigned number of at most `max`.
pub fn parse_unsigned(bytes: &[u8], max: u64) -> (value: Option<u64>)
    ensures
        match spec_parse_unsigned(bytes@, max as nat) {
            Some(n) => value == Some(n as u64),
            None => value is None,
        },
{
    if bytes.len() > 0 && bytes[0] == PLUS {
        parse_digits(bytes, 1, max)
    } else {
        proof {
            assert(bytes@.skip(0) =~= bytes@);
        }
        parse_digits(bytes, 0, max)
    }
}

/// Reads `bytes` as an unsigned 64-bit number.
pub fn parse_u64(bytes: &[u8]) -> (value: Option<u64>)
    ensures
        value == spec_parse_u64(bytes@),
{
    parse_unsigned(bytes, u64::MAX)
}

/// Reads `bytes` as a size.
pub fn parse_usize(bytes: &[u8]) -> (value: Option<usize>)
    ensures
        value == spec_parse_usize(bytes@),
{
    match parse_unsigned(bytes, usize::MAX as u64) {
        Some(n) => Some(n as usize),
        None => None,
    }
}

/// Reads `bytes` as a signed 64-bit number.
pub fn parse_i64(bytes: &[u8]) -> (value: Option<i64>)
    ensures
        value == spec_parse_i64(bytes@),
{
    if bytes.len() > 0 && bytes[0] == MINUS {
        match parse_digits(bytes, 1, 0x8000_0000_0000_0000u64) {
            Some(n) => {
                if n == 0x8000_0000_0000_0000u64 {
                    Some(i64::MIN)
                } else {
                    Some(-(n as i64))
                }
            },
            None => None,
        }
    } else {
        match parse_unsigned(bytes, i64::MAX as u64) {
            Some(n) => Some(n as i64),
            None => None,
        }
    }
}

/// Appends the canonical decimal text of `n` to `out`.
pub fn push_decimal(out: &mut Vec<u8>, n: u128)
    ensures
        final(out)@ == old(out)@ + spec_decimal(n as nat),
    decreases n,
{
    if n >= 10 {
        push_decimal(out, n / 10);
    }
    out.push(DIGIT_ZERO + (n % 10) as u8);
    assert(final(out)@ =~= old(out)@ + spec_decimal(n as nat));
}

/// Appends the canonical decimal text of `i` to `out`.
pub fn push_decimal_signed(out: &mut Vec<u8>, i: i64)
    ensures
        final(out)@ == old(out)@ + spec_decimal_signed(i as int),
{
    if i < 0 {
        out.push(MINUS);
        let magnitude: u128 = if i == i64::MIN {
            0x8000_0000_0000_0000u128
        } else {
            (-i) as u128
        };
        push_decimal(out, magnitude);
        proof {
            assert(final(out)@ =~= old(out)@ + spec_decimal_signed(i as int));
        }
    } else {
        push_decimal(out, i as u128);
    }
}

} // verus!
