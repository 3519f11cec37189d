//! Decimal rendering of integers, used for the `id` field of the JSON body.

use vstd::prelude::*;
use vstd::arithmetic::div_mod::{lemma_div_denominator, lemma_fundamental_div_mod};

verus! {

/// The character for one decimal digit.
pub open spec fn digit_char(d: nat) -> char {
    if d == 0 {
        '0'
    } else if d == 1 {
        '1'
    } else if d == 2 {
        '2'
    } else if d == 3 {
        '3'
    } else if d == 4 {
        '4'
    } else if d == 5 {
        '5'
    } else if d == 6 {
        '6'
    } else if d == 7 {
        '7'
    } else if d == 8 {
        '8'
    } else {
        '9'
    }
}

/// The decimal digits of a nonnegative integer, most significant first,
/// with no leading zeros (a single `'0'` for zero).
pub open spec fn dec_digits(n: nat) -> Seq<char>
    decreases n,
{
    if n < 10 {
        seq![digit_char(n)]
    } else {
        dec_digits(n / 10).push(digit_char(n % 10))
    }
}

/// The decimal text of a signed integer: a leading `'-'` for negatives.
pub open spec fn dec_int(n: int) -> Seq<char> {
    if n < 0 {
        seq!['-'] + dec_digits((-n) as nat)
    } else {
        dec_digits(n as nat)
    }
}

/// The decimal digit characters `'0'` through `'9'`.
pub open spec fn is_digit_char(c: char) -> bool {
    48 <= c as u32 <= 57
}

/// The numeric value of a decimal digit character.
pub open spec fn digit_val(c: char) -> nat {
    (c as u32 - 48) as nat
}

/// A digit character is classified as one and carries its value back.
pub proof fn lemma_digit_char_val(d: nat)
    requires
        d < 10,
    ensures
        is_digit_char(digit_char(d)),
        digit_val(digit_char(d)) == d,
{
}

/// Two values below ten with the same digit character are equal.
pub proof fn lemma_digit_char_inj(a: nat, b: nat)
    requires
        a < 10,
        b < 10,
        digit_char(a) == digit_char(b),
    ensures
        a == b,
{
}

/// Every character of `dec_digits` is a decimal digit, and there is at
/// least one.
pub proof fn lemma_dec_digits_wf(n: nat)
    ensures
        dec_digits(n).len() >= 1,
        forall|i: int|
            0 <= i < dec_digits(n).len() ==> is_digit_char(#[trigger] dec_digits(n)[i]),
    decreases n,
{
    if n >= 10 {
        lemma_dec_digits_wf(n / 10);
    }
}

/// Distinct values have distinct digit sequences.
pub proof fn lemma_dec_digits_inj(a: nat, b: nat)
    requires
        dec_digits(a) == dec_digits(b),
    ensures
        a == b,
    decreases a,
{
    lemma_dec_digits_wf(a);
    lemma_dec_digits_wf(b);
    if a < 10 && b < 10 {
        assert(dec_digits(a)[0] == digit_char(a));
        assert(dec_digits(b)[0] == digit_char(b));
        lemma_digit_char_inj(a, b);
    } else if a < 10 && b >= 10 {
        lemma_dec_digits_wf(b / 10);
        assert(dec_digits(b).len() >= 2);
    } else if a >= 10 && b < 10 {
        lemma_dec_digits_wf(a / 10);
        assert(dec_digits(a).len() >= 2);
    } else {
        assert(dec_digits(a).last() == digit_char(a % 10));
        assert(dec_digits(b).last() == digit_char(b % 10));
        lemma_digit_char_inj(a % 10, b % 10);
        assert(dec_digits(a).drop_last() =~= dec_digits(a / 10));
        assert(dec_digits(b).drop_last() =~= dec_digits(b / 10));
        lemma_dec_digits_inj(a / 10, b / 10);
        lemma_fundamental_div_mod(a as int, 10);
        lemma_fundamental_div_mod(b as int, 10);
    }
}

/// Every character of `dec_int` is a digit or a leading minus sign, and
/// there is at least one.
pub proof fn lemma_dec_int_wf(n: int)
    ensures
        dec_int(n).len() >= 1,
        forall|i: int|
            0 <= i < dec_int(n).len() ==> is_digit_char(#[trigger] dec_int(n)[i]) || dec_int(
                n,
            )[i] == '-',
{
    if n < 0 {
        lemma_dec_digits_wf((-n) as nat);
    } else {
        lemma_dec_digits_wf(n as nat);
    }
}

/// Distinct integers have distinct decimal texts.
pub proof fn lemma_dec_int_inj(a: int, b: int)
    requires
        dec_int(a) == dec_int(b),
    ensures
        a == b,
{
    if a >= 0 && b >= 0 {
        lemma_dec_digits_inj(a as nat, b as nat);
    } else if a < 0 && b < 0 {
        let na = (-a) as nat;
        let nb = (-b) as nat;
        assert(dec_int(a) == seq!['-'] + dec_digits(na));
        assert(dec_int(b) == seq!['-'] + dec_digits(nb));
        assert((seq!['-'] + dec_digits(na)).len() == 1 + dec_digits(na).len());
        assert((seq!['-'] + dec_digits(nb)).len() == 1 + dec_digits(nb).len());
        assert(dec_digits(na).len() == dec_digits(nb).len());
        assert forall|i: int| 0 <= i < dec_digits(na).len() implies dec_digits(na)[i]
            == dec_digits(nb)[i] by {
            assert(dec_int(a)[i + 1] == dec_digits(na)[i]);
            assert(dec_int(b)[i + 1] == dec_digits(nb)[i]);
        }
        assert(dec_digits(na) =~= dec_digits(nb));
        lemma_dec_digits_inj(na, nb);
    } else if a < 0 && b >= 0 {
        lemma_dec_digits_wf((-a) as nat);
        lemma_dec_digits_wf(b as nat);
        assert(dec_int(a)[0] == '-');
        assert(is_digit_char(dec_int(b)[0]));
    } else {
        lemma_dec_digits_wf(a as nat);
        lemma_dec_digits_wf((-b) as nat);
        assert(dec_int(b)[0] == '-');
        assert(is_digit_char(dec_int(a)[0]));
    }
}

/// A two-digit zero-padded decimal, for values below one hundred.
pub open spec fn pad2(n: nat) -> Seq<char> {
    seq![digit_char(n / 10), digit_char(n % 10)]
}

/// A four-digit zero-padded decimal, for values below ten thousand.
pub open spec fn pad4(n: nat) -> Seq<char> {
    seq![
        digit_char(n / 1000),
        digit_char(n / 100 % 10),
        digit_char(n / 10 % 10),
        digit_char(n % 10),
    ]
}

/// Two zero-padded digits determine the value below one hundred.
pub proof fn lemma_pad2_inj(a: nat, b: nat)
    requires
        a < 100,
        b < 100,
        pad2(a) == pad2(b),
    ensures
        a == b,
{
    assert(pad2(a)[0] == pad2(b)[0]);
    assert(pad2(a)[1] == pad2(b)[1]);
    lemma_digit_char_inj(a / 10, b / 10);
    lemma_digit_char_inj(a % 10, b % 10);
    lemma_fundamental_div_mod(a as int, 10);
    lemma_fundamental_div_mod(b as int, 10);
}

/// A value below ten thousand is recomposed from its four digits.
pub(crate) proof fn lemma_recompose4(n: nat)
    requires
        n < 10000,
    ensures
        n == n / 1000 * 1000 + (n / 100 % 10) * 100 + (n / 10 % 10) * 10 + n % 10,
{
    lemma_fundamental_div_mod(n as int, 10);
    lemma_fundamental_div_mod(n as int / 10, 10);
    lemma_fundamental_div_mod(n as int / 100, 10);
    lemma_div_denominator(n as int, 10, 10);
    lemma_div_denominator(n as int, 100, 10);
}

/// Four zero-padded digits determine the value below ten thousand.
pub proof fn lemma_pad4_inj(a: nat, b: nat)
    requires
        a < 10000,
        b < 10000,
        pad4(a) == pad4(b),
    ensures
        a == b,
{
    assert(pad4(a)[0] == pad4(b)[0]);
    assert(pad4(a)[1] == pad4(b)[1]);
    assert(pad4(a)[2] == pad4(b)[2]);
    assert(pad4(a)[3] == pad4(b)[3]);
    lemma_digit_char_inj(a / 1000, b / 1000);
    lemma_digit_char_inj(a / 100 % 10, b / 100 % 10);
    lemma_digit_char_inj(a / 10 % 10, b / 10 % 10);
    lemma_digit_char_inj(a % 10, b % 10);
    lemma_recompose4(a);
    lemma_recompose4(b);
}

/// Relies on `String::push` of std: appends the given char to the end of
/// the string.
pub assume_specification[ String::push ](s: &mut String, ch: char)
    ensures
        final(s)@ == old(s)@.push(ch),
;

/// Append one decimal digit.
fn push_digit(out: &mut String, d: u8)
    requires
        d < 10,
    ensures
        final(out)@ == old(out)@ + seq![digit_char(d as nat)],
{
    let c: char = match d {
        0 => '0',
        1 => '1',
        2 => '2',
        3 => '3',
        4 => '4',
        5 => '5',
        6 => '6',
        7 => '7',
        8 => '8',
        _ => '9',
    };
    out.push(c);
    proof {
        assert(c == digit_char(d as nat));
        assert(out@ =~= old(out)@ + seq![digit_char(d as nat)]);
    }
}

/// Append the decimal digits of `n`.
pub fn push_u64(out: &mut String, n: u64)
    ensures
        final(out)@ == old(out)@ + dec_digits(n as nat),
    decreases n,
{
    if n < 10 {
        push_digit(out, n as u8);
    } else {
        push_u64(out, n / 10);
        push_digit(out, (n % 10) as u8);
        proof {
            assert(out@ =~= old(out)@ + dec_digits(n as nat));
        }
    }
}

/// Append `n` as exactly two digits, zero-padded.
pub fn push_pad2(out: &mut String, n: u8)
    requires
        n < 100,
    ensures
        final(out)@ == old(out)@ + pad2(n as nat),
{
    push_digit(out, n / 10);
    push_digit(out, n % 10);
    proof {
        assert(out@ =~= old(out)@ + pad2(n as nat));
    }
}

/// Append `n` as exactly four digits, zero-padded.
pub fn push_pad4(out: &mut String, n: u16)
    requires
        n < 10000,
    ensures
        final(out)@ == old(out)@ + pad4(n as nat),
{
    push_digit(out, (n / 1000) as u8);
    push_digit(out, (n / 100 % 10) as u8);
    push_digit(out, (n / 10 % 10) as u8);
    push_digit(out, (n % 10) as u8);
    proof {
        assert(out@ =~= old(out)@ + pad4(n as nat));
    }
}

/// Append the decimal text of `n`, with a leading `'-'` when negative.
pub fn push_i64(out: &mut String, n: i64)
    ensures
        final(out)@ == old(out)@ + dec_int(n as int),
{
    if n >= 0 {
        push_u64(out, n as u64);
    } else {
        out.push('-');
        let m: u64 = ((-(n + 1)) as u64) + 1;
        assert(m as int == -(n as int));
        push_u64(out, m);
        proof {
            assert(out@ =~= old(out)@ + dec_int(n as int));
        }
    }
}

} // verus!
