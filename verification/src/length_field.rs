//! The length field of a frame: 24 ASCII decimal digits, zero-padded.

use crate::error::ReceiveError;
use vstd::prelude::*;

verus! {

/// Number of bytes in the length field.
pub const LENGTH_FIELD_LEN: usize = 24;

/// The smallest length that 24 decimal digits cannot represent: ten to the 24th.
pub const LENGTH_LIMIT: u128 = 1_000_000_000_000_000_000_000_000;

/// `b` is one of the ASCII characters `0` to `9`.
pub open spec fn is_digit(b: u8) -> bool {
    0x30 <= b <= 0x39
}

/// Every byte of `s` is an ASCII decimal digit.
pub open spec fn all_digits(s: Seq<u8>) -> bool {
    forall|i: int| 0 <= i < s.len() ==> is_digit(#[trigger] s[i])
}

/// Ten to the power `k`.
pub open spec fn pow10(k: nat) -> nat
    decreases k,
{
    if k == 0 {
        1
    } else {
        10 * pow10((k - 1) as nat)
    }
}

/// The number that the decimal digits `s` spell, most significant digit first.
pub open spec fn decimal_value(s: Seq<u8>) -> nat
    decreases s.len(),
{
    if s.len() == 0 {
        0
    } else {
        decimal_value(s.drop_last()) * 10 + (s.last() - 0x30) as nat
    }
}

/// The last `width` decimal digits of `n`, most significant first, padded with `0` on the left.
pub open spec fn decimal_digits(n: nat, width: nat) -> Seq<u8>
    decreases width,
{
    if width == 0 {
        Seq::empty()
    } else {
        decimal_digits(n / 10, (width - 1) as nat).push((0x30 + n % 10) as u8)
    }
}

/// The length field that announces a payload of `n` bytes.
pub open spec fn length_field(n: nat) -> Seq<u8> {
    decimal_digits(n, 24)
}

/// Ten to the 24th is the limit constant.
pub proof fn lemma_pow10_24()
    ensures
        pow10(24) == LENGTH_LIMIT,
{
    reveal_with_fuel(pow10, 25);
}

/// A digit string of a given width has that width and holds digits only.
pub proof fn lemma_decimal_digits_shape(n: nat, width: nat)
    ensures
        decimal_digits(n, width).len() == width,
        all_digits(decimal_digits(n, width)),
    decreases width,
{
    if width > 0 {
        lemma_decimal_digits_shape(n / 10, (width - 1) as nat);
    }
}

/// Reading back the `width` digits written for `n` gives `n`, when `n` has at most `width` digits.
pub proof fn lemma_value_of_digits(n: nat, width: nat)
    requires
        n < pow10(width),
    ensures
        decimal_value(decimal_digits(n, width)) == n,
    decreases width,
{
    if width > 0 {
        let rest = decimal_digits(n / 10, (width - 1) as nat);
        let d = (0x30 + n % 10) as u8;
        lemma_value_of_digits(n / 10, (width - 1) as nat);
        assert(rest.push(d).drop_last() =~= rest);
        assert(rest.push(d).last() == d);
    }
}

/// Writing the number that a digit string spells, at the same width, gives the string back.
pub proof fn lemma_digits_of_value(s: Seq<u8>)
    requires
        all_digits(s),
    ensures
        decimal_digits(decimal_value(s), s.len()) == s,
    decreases s.len(),
{
    if s.len() > 0 {
        let head = s.drop_last();
        let d = (s.last() - 0x30) as nat;
        lemma_digits_of_value(head);
        assert(is_digit(s[s.len() - 1]));
        assert((decimal_value(head) * 10 + d) / 10 == decimal_value(head));
        assert((decimal_value(head) * 10 + d) % 10 == d);
        assert(head.push(s.last()) =~= s);
    }
}

/// Dropping one more low digit of `n` before taking `width` digits.
proof fn lemma_digits_step(n: nat, scale: nat, width: nat)
    requires
        scale > 0,
    ensures
        decimal_digits(n / scale, width + 1) == decimal_digits(n / (scale * 10), width).push(
            (0x30 + (n / scale) % 10) as u8,
        ),
{
    vstd::arithmetic::div_mod::lemma_div_denominator(n as int, scale as int, 10);
}

/// Formats `n` as a length field. `None` when `n` needs more than 24 digits.
pub fn format_length(n: u128) -> (field: Option<Vec<u8>>)
    ensures
        n < LENGTH_LIMIT ==> field.is_some() && field.unwrap()@ == length_field(n as nat),
        n >= LENGTH_LIMIT ==> field.is_none(),
{
    if n >= LENGTH_LIMIT {
        return None;
    }
    let mut field: Vec<u8> = Vec::new();
    let mut scale: u128 = LENGTH_LIMIT;
    let mut written: usize = 0;
    proof {
        lemma_pow10_24();
        assert(n as nat / (scale as nat) == 0);
    }
    while written < 24
        invariant
            written <= 24,
            scale == pow10((24 - written) as nat),
            scale <= LENGTH_LIMIT,
            field@ == decimal_digits(n as nat / (scale as nat), written as nat),
        decreases 24 - written,
    {
        proof {
            assert(pow10((24 - written) as nat) == 10 * pow10((24 - written - 1) as nat));
            lemma_pow10_monotone((24 - written - 1) as nat, 24);
        }
        scale = scale / 10;
        let digit: u128 = (n / scale) % 10;
        proof {
            lemma_digits_step(n as nat, scale as nat, written as nat);
        }
        field.push(0x30u8 + digit as u8);
        written += 1;
    }
    proof {
        assert(pow10(0) == 1);
        assert(scale == 1);
        assert(n as nat / (scale as nat) == n as nat) by (nonlinear_arith)
            requires
                scale == 1,
        ;
    }
    Some(field)
}

/// Reads a length field. Accepts exactly 24 ASCII digits and nothing else.
pub fn parse_length(field: &[u8]) -> (length: Result<u128, ReceiveError>)
    ensures
        field@.len() == 24 && all_digits(field@) ==> length == Ok::<u128, ReceiveError>(
            decimal_value(field@) as u128,
        ) && decimal_value(field@) < LENGTH_LIMIT,
        !(field@.len() == 24 && all_digits(field@)) ==> length == Err::<u128, ReceiveError>(
            ReceiveError::MalformedLength,
        ),
{
    if field.len() != 24 {
        return Err(ReceiveError::MalformedLength);
    }
    let mut value: u128 = 0;
    let mut i: usize = 0;
    proof {
        lemma_pow10_24();
    }
    while i < 24
        invariant
            i <= 24,
            field@.len() == 24,
            all_digits(field@.take(i as int)),
            value == decimal_value(field@.take(i as int)),
            value < pow10(i as nat),
            pow10(24) == LENGTH_LIMIT,
        decreases 24 - i,
    {
        let b: u8 = field[i];
        if b < 0x30 || b > 0x39 {
            assert(!is_digit(field@[i as int]));
            return Err(ReceiveError::MalformedLength);
        }
        proof {
            let next = field@.take(i + 1);
            assert(next.drop_last() =~= field@.take(i as int));
            assert(next.last() == b);
            assert forall|k: int| 0 <= k < next.len() implies is_digit(#[trigger] next[k]) by {
                if k < i {
                    assert(next[k] == field@.take(i as int)[k]);
                }
            }
            lemma_pow10_monotone((i + 1) as nat, 24);
        }
        value = value * 10 + (b - 0x30) as u128;
        i += 1;
    }
    proof {
        assert(field@.take(24) =~= field@);
    }
    Ok(value)
}

/// Ten to a smaller power is no larger.
pub proof fn lemma_pow10_monotone(a: nat, b: nat)
    requires
        a <= b,
    ensures
        pow10(a) <= pow10(b),
        pow10(a) >= 1,
    decreases b,
{
    if a < b {
        lemma_pow10_monotone(a, (b - 1) as nat);
    } else if a > 0 {
        lemma_pow10_monotone((a - 1) as nat, (a - 1) as nat);
    }
}

} // verus!
