//! Integer arithmetic behind the float exactness checks: bit lengths of odd
//! parts, little-endian decimal digit strings, and explicit infinity names.

use vstd::prelude::*;

use crate::big_decimal::{is_negative_infinity_name, is_positive_infinity_name};
use crate::numeric_text::{
    analyze_mantissa, dot_position, exponent_text, find_exponent, has_exponent, is_decimal_text,
    is_i64_text,
    is_valid_mantissa, lemma_dot_position_facts, lemma_zero_digits_value, mantissa_digits,
    mantissa_text, parse_i64_text, pow10, signed_digits_value, split_sign, strip_sign,
};
use crate::text::{
    all_digits, char_digit_value, chars_eq_ignore_ascii_case, chars_of, copy_range, digit_value,
    digits_value, is_ascii_digit,
};

verus! {

/// The number of binary digits of `v`; zero has none.
pub open spec fn bit_length(v: nat) -> nat
    decreases v,
{
    if v == 0 {
        0
    } else {
        1 + bit_length(v / 2)
    }
}

/// `v` with every factor of two removed; zero stays zero.
pub open spec fn odd_part(v: nat) -> nat
    decreases v,
{
    if v == 0 || v % 2 == 1 {
        v
    } else {
        odd_part(v / 2)
    }
}

/// Whether a binary float with `bits` significand bits holds `v` exactly:
/// the odd part of `v` needs at most `bits` binary digits.
pub open spec fn fits_significand(v: nat, bits: nat) -> bool {
    bit_length(odd_part(v)) <= bits
}

/// Decimal digits of `v`, least significant first, without trailing zeros;
/// zero has none.
pub open spec fn le_decimal_digits(v: nat) -> Seq<u8>
    decreases v,
{
    if v == 0 {
        Seq::empty()
    } else {
        seq![(v % 10) as u8] + le_decimal_digits(v / 10)
    }
}

/// The value of decimal digits ordered least significant first.
pub open spec fn le_digits_value(digits: Seq<u8>) -> nat
    decreases digits.len(),
{
    if digits.len() == 0 {
        0
    } else {
        digits[0] as nat + 10 * le_digits_value(digits.drop_first())
    }
}

/// Little-endian digits without a most significant zero.
pub open spec fn no_high_zero(digits: Seq<u8>) -> bool {
    digits.len() == 0 || digits.last() != 0
}

/// Every entry is a decimal digit.
pub open spec fn all_decimal(digits: Seq<u8>) -> bool {
    forall|i: int| 0 <= i < digits.len() ==> #[trigger] digits[i] < 10
}

/// Reports whether a binary float with `mantissa_digits` significand bits
/// represents `value` exactly.
pub fn unsigned_integer_is_exact(value: u128, mantissa_digits: u32) -> (exact: bool)
    ensures
        exact == fits_significand(value as nat, mantissa_digits as nat),
{
    if value == 0 {
        return true;
    }
    let mut odd = value;
    while odd % 2 == 0
        invariant
            odd > 0,
            odd_part(odd as nat) == odd_part(value as nat),
        decreases odd,
    {
        odd = odd / 2;
    }
    let mut rest = odd;
    let mut remaining = mantissa_digits;
    while rest > 0 && remaining > 0
        invariant
            remaining <= mantissa_digits,
            bit_length(rest as nat) + (mantissa_digits - remaining) == bit_length(odd as nat),
        decreases remaining,
    {
        rest = rest / 2;
        remaining = remaining - 1;
    }
    rest == 0
}

/// Reports whether an `f64` represents `value` exactly.
pub fn unsigned_integer_is_exact_f64(value: u128) -> (exact: bool)
    ensures
        exact == fits_significand(value as nat, 53),
{
    unsigned_integer_is_exact(value, 53)
}

/// The decimal digits of `value`, least significant first; zero has none.
pub fn decimal_digits(value: u128) -> (digits: Vec<u8>)
    ensures
        digits@ == le_decimal_digits(value as nat),
{
    let mut digits: Vec<u8> = Vec::new();
    let mut rest = value;
    while rest != 0
        invariant
            digits@ + le_decimal_digits(rest as nat) == le_decimal_digits(value as nat),
        decreases rest,
    {
        let ghost before = digits@;
        digits.push((rest % 10) as u8);
        assert(before + le_decimal_digits(rest as nat) =~= digits@ + le_decimal_digits(
            (rest / 10) as nat,
        ));
        rest = rest / 10;
    }
    assert(digits@ + Seq::<u8>::empty() =~= digits@);
    digits
}

/// Appending a most significant digit adds it times a power of ten.
proof fn lemma_le_digits_push(s: Seq<u8>, d: u8)
    ensures
        le_digits_value(s.push(d)) == le_digits_value(s) + pow10(s.len()) * d,
    decreases s.len(),
{
    if s.len() == 0 {
        assert(s.push(d).drop_first() =~= Seq::<u8>::empty());
        assert(s.push(d)[0] == d);
        assert(le_digits_value(s.push(d)) == d as nat + 10 * le_digits_value(
            s.push(d).drop_first(),
        ));
        assert(pow10(0) == 1);
        assert(pow10(s.len()) * d == d);
    } else {
        lemma_le_digits_push(s.drop_first(), d);
        assert(s.push(d).drop_first() =~= s.drop_first().push(d));
        assert(s.push(d)[0] == s[0]);
        let a = le_digits_value(s.drop_first());
        let p = pow10(s.drop_first().len());
        assert(pow10(s.len()) == 10 * p);
        assert(10 * (a + p * d) == 10 * a + (10 * p) * d) by (nonlinear_arith);
    }
}

/// Multiplies little-endian decimal digits by `factor` in place.
pub fn multiply_decimal_digits(digits: &mut Vec<u8>, factor: u8)
    requires
        all_decimal(old(digits)@),
    ensures
        all_decimal(final(digits)@),
        le_digits_value(final(digits)@) == le_digits_value(old(digits)@) * factor,
        no_high_zero(old(digits)@) && factor > 0 ==> no_high_zero(final(digits)@),
{
    let ghost initial = digits@;
    let mut carry: u16 = 0;
    let mut i: usize = 0;
    let n = digits.len();
    proof {
        assert(digits@.take(0) =~= Seq::<u8>::empty());
        assert(initial.take(0) =~= Seq::<u8>::empty());
        assert(pow10(0) * 0 == 0);
        assert(0 * factor == 0);
    }
    while i < n
        invariant
            n == digits.len() == initial.len(),
            i <= n,
            carry < 255,
            all_decimal(digits@),
            forall|j: int| i <= j < n ==> #[trigger] digits@[j] == initial[j],
            le_digits_value(digits@.take(i as int)) + pow10(i as nat) * carry == le_digits_value(
                initial.take(i as int),
            ) * factor,
            i == n && n > 0 && initial.last() != 0 && factor > 0 ==> carry != 0 || digits@[n - 1]
                != 0,
        decreases n - i,
    {
        let digit = digits[i];
        assert(digit < 10);
        let wide_digit = digit as u16;
        let wide_factor = factor as u16;
        assert(wide_digit * wide_factor <= 9 * 255) by (nonlinear_arith)
            requires
                wide_digit < 10,
                wide_factor <= 255,
        ;
        let product: u16 = wide_digit * wide_factor + carry;
        let next_digit = (product % 10) as u8;
        let next_carry = product / 10;
        proof {
            lemma_le_digits_push(digits@.take(i as int), next_digit);
            lemma_le_digits_push(initial.take(i as int), digit);
            assert(digits@.take(i as int).push(next_digit) =~= digits@.update(
                i as int,
                next_digit,
            ).take(i + 1));
            assert(initial.take(i as int).push(digit) =~= initial.take(i + 1));
            let p = pow10(i as nat);
            let a = le_digits_value(digits@.take(i as int));
            let b = le_digits_value(initial.take(i as int));
            assert(pow10((i + 1) as nat) == 10 * p);
            assert(a + p * next_digit + (10 * p) * next_carry == (b + p * digit) * factor)
                by (nonlinear_arith)
                requires
                    a + p * carry == b * factor,
                    product == digit * factor + carry,
                    product == 10 * next_carry + next_digit,
            ;
        }
        proof {
            if digit != 0 && factor > 0 {
                assert(product >= 1) by (nonlinear_arith)
                    requires
                        wide_digit >= 1,
                        wide_factor >= 1,
                        product == wide_digit * wide_factor + carry,
                ;
            }
        }
        digits.set(i, next_digit);
        carry = next_carry;
        i += 1;
    }
    assert(initial.take(n as int) =~= initial);
    assert(digits@.take(n as int) =~= digits@);
    while carry != 0
        invariant
            all_decimal(digits@),
            le_digits_value(digits@) + pow10(digits@.len()) * carry == le_digits_value(initial)
                * factor,
            no_high_zero(initial) && factor > 0 ==> carry != 0 || no_high_zero(digits@),
        decreases carry,
    {
        let next_digit = (carry % 10) as u8;
        let next_carry = carry / 10;
        proof {
            lemma_le_digits_push(digits@, next_digit);
            let p = pow10(digits@.len());
            assert(pow10(digits@.len() + 1) == 10 * p);
            assert(p * carry == p * next_digit + (10 * p) * next_carry) by (nonlinear_arith)
                requires
                    carry == 10 * next_carry + next_digit,
            ;
        }
        digits.push(next_digit);
        carry = next_carry;
    }
    assert(digits@.take(digits@.len() as int) =~= digits@);
}

/// Whether text names an infinity explicitly, and which: `Some(false)` for a
/// positive one, `Some(true)` for a negative one, ignoring ASCII case.
pub fn explicit_infinity_is_negative(value: &str) -> (negative: Option<bool>)
    ensures
        negative == (if is_positive_infinity_name(value@) {
            Some(false)
        } else if is_negative_infinity_name(value@) {
            Some(true)
        } else {
            None::<bool>
        }),
{
    let chars = chars_of(value);
    if chars_eq_ignore_ascii_case(&chars, &chars_of("inf")) || chars_eq_ignore_ascii_case(
        &chars,
        &chars_of("+inf"),
    ) || chars_eq_ignore_ascii_case(&chars, &chars_of("infinity")) || chars_eq_ignore_ascii_case(
        &chars,
        &chars_of("+infinity"),
    ) {
        Some(false)
    } else if chars_eq_ignore_ascii_case(&chars, &chars_of("-inf")) || chars_eq_ignore_ascii_case(
        &chars,
        &chars_of("-infinity"),
    ) {
        Some(true)
    } else {
        None
    }
}

/// `b` raised to `e`.
pub open spec fn power(b: nat, e: nat) -> nat
    decreases e,
{
    if e == 0 {
        1
    } else {
        b * power(b, (e - 1) as nat)
    }
}

/// Powers add their exponents.
proof fn lemma_power_adds(b: nat, e1: nat, e2: nat)
    ensures
        power(b, e1 + e2) == power(b, e1) * power(b, e2),
    decreases e1,
{
    if e1 > 0 {
        lemma_power_adds(b, (e1 - 1) as nat, e2);
        assert(power(b, e1 + e2) == b * power(b, (e1 - 1 + e2) as nat));
        let x = power(b, (e1 - 1) as nat);
        let y = power(b, e2);
        assert(b * (x * y) == (b * x) * y) by (nonlinear_arith);
    } else {
        assert(power(b, e1) == 1);
        assert(1 * power(b, e2) == power(b, e2));
    }
}

/// A value has at most `d` binary digits exactly when it is below `2^d`.
pub(crate) proof fn lemma_bit_length_bound(x: nat, d: nat)
    ensures
        bit_length(x) <= d <==> x < power(2, d),
    decreases d,
{
    if d == 0 {
        assert(power(2, 0) == 1);
    } else {
        lemma_bit_length_bound(x / 2, (d - 1) as nat);
        assert(power(2, d) == 2 * power(2, (d - 1) as nat));
    }
}

/// A value is its odd part times a power of two.
pub(crate) proof fn lemma_odd_part_scaled(v: nat) -> (k: nat)
    ensures
        v == odd_part(v) * power(2, k),
    decreases v,
{
    if v == 0 || v % 2 == 1 {
        assert(power(2, 0) == 1);
        assert(v * 1 == v);
        0
    } else {
        let k = lemma_odd_part_scaled(v / 2);
        let o = odd_part(v / 2);
        let p = power(2, k);
        assert(odd_part(v) == o);
        assert(power(2, k + 1) == 2 * p);
        assert(2 * (o * p) == o * (2 * p)) by (nonlinear_arith);
        k + 1
    }
}

/// Scaling by a power of two keeps the odd part.
pub(crate) proof fn lemma_odd_part_of_scaled(m: nat, k: nat)
    ensures
        odd_part(m * power(2, k)) == odd_part(m),
    decreases k,
{
    if k == 0 {
        assert(power(2, 0) == 1);
        assert(m * 1 == m);
    } else {
        lemma_odd_part_of_scaled(m, (k - 1) as nat);
        let q = m * power(2, (k - 1) as nat);
        assert(power(2, k) == 2 * power(2, (k - 1) as nat));
        assert(m * power(2, k) == 2 * q) by (nonlinear_arith)
            requires
                power(2, k) == 2 * power(2, (k - 1) as nat),
                q == m * power(2, (k - 1) as nat),
        ;
        if q != 0 {
            assert((2 * q) % 2 == 0);
            assert((2 * q) / 2 == q);
        }
    }
}

/// The odd part of a value is at most the value.
pub(crate) proof fn lemma_odd_part_at_most(v: nat)
    ensures
        odd_part(v) <= v,
    decreases v,
{
    if !(v == 0 || v % 2 == 1) {
        lemma_odd_part_at_most(v / 2);
    }
}

/// Powers of ten are products of powers of two and five.
proof fn lemma_power_ten(e: nat)
    ensures
        power(10, e) == power(2, e) * power(5, e),
        pow10(e) == power(10, e),
    decreases e,
{
    if e > 0 {
        lemma_power_ten((e - 1) as nat);
        let a = power(2, (e - 1) as nat);
        let c = power(5, (e - 1) as nat);
        assert(10 * (a * c) == (2 * a) * (5 * c)) by (nonlinear_arith);
        assert(power(10, e) == 10 * power(10, (e - 1) as nat));
        assert(power(2, e) == 2 * a);
        assert(power(5, e) == 5 * c);
    } else {
        assert(power(2, e) * power(5, e) == 1 * 1);
    }
}

/// Little-endian decimal digits denote their number.
pub(crate) proof fn lemma_le_decimal_digits_value(v: nat)
    ensures
        le_digits_value(le_decimal_digits(v)) == v,
    decreases v,
{
    if v > 0 {
        lemma_le_decimal_digits_value(v / 10);
        let s = le_decimal_digits(v);
        assert(s.drop_first() =~= le_decimal_digits(v / 10));
        assert(s[0] == (v % 10) as u8);
    }
}

/// Little-endian decimal digits have no most significant zero.
proof fn lemma_le_decimal_digits_no_high_zero(v: nat)
    ensures
        no_high_zero(le_decimal_digits(v)),
    decreases v,
{
    if v > 0 {
        lemma_le_decimal_digits_no_high_zero(v / 10);
        let s = le_decimal_digits(v);
        let rest = le_decimal_digits(v / 10);
        if rest.len() == 0 {
            assert(v / 10 == 0) by {
                if v / 10 > 0 {
                    assert(rest.len() > 0);
                }
            }
            assert(s.last() == (v % 10) as u8);
        } else {
            assert(s.last() == rest.last());
        }
    }
}

/// Little-endian decimal digits are decimal digits.
proof fn lemma_le_decimal_digits_decimal(v: nat)
    ensures
        all_decimal(le_decimal_digits(v)),
    decreases v,
{
    if v > 0 {
        lemma_le_decimal_digits_decimal(v / 10);
        let s = le_decimal_digits(v);
        let rest = le_decimal_digits(v / 10);
        assert forall|i: int| 0 <= i < s.len() implies #[trigger] s[i] < 10 by {
            if i > 0 {
                assert(s[i] == rest[i - 1]);
            }
        }
    }
}

/// The magnitude of a finite `f64` from its bits with the sign cleared: its
/// integer significand and binary exponent, the value being
/// `significand × 2^exponent`.
pub open spec fn float_parts(bits: u64) -> (int, int) {
    let exponent = (bits / 0x10_0000_0000_0000) % 0x800;
    let fraction = bits % 0x10_0000_0000_0000;
    if exponent == 0 {
        (fraction as int, -1074)
    } else {
        (0x10_0000_0000_0000 + fraction, exponent - 1075)
    }
}

/// Splits the bits of a finite, non-negative `f64` into its integer
/// significand and binary exponent.
pub fn finite_float_parts(bits: u64) -> (parts: (u128, i32))
    ensures
        (parts.0 as int, parts.1 as int) == float_parts(bits),
{
    let exponent = ((bits / 0x10_0000_0000_0000) % 0x800) as i32;
    let fraction = (bits % 0x10_0000_0000_0000) as u128;
    if exponent == 0 {
        (fraction, -1074)
    } else {
        (0x10_0000_0000_0000 + fraction, exponent - 1075)
    }
}

/// Number of zero digits at the least significant end.
pub open spec fn low_zero_count(digits: Seq<u8>) -> int
    decreases digits.len(),
{
    if digits.len() > 0 && digits[0] == 0 {
        1 + low_zero_count(digits.drop_first())
    } else {
        0
    }
}

/// The exact decimal expansion of `significand × 2^exponent`: its digits,
/// least significant first, how many of them are low zeros, and its scale
/// once those zeros are dropped, so that the value is the digits' value
/// divided by ten to the scale plus the zero count.
pub fn exact_float_decimal(significand: u128, exponent: i32) -> (expansion: (Vec<u8>, usize, i128))
    ensures
        all_decimal(expansion.0@),
        no_high_zero(expansion.0@),
        expansion.1 as int == low_zero_count(expansion.0@),
        expansion.1 <= expansion.0.len(),
        expansion.2 + expansion.1 >= 0,
        exponent >= 0 ==> expansion.2 + expansion.1 == 0 && le_digits_value(expansion.0@)
            == significand * power(2, exponent as nat),
        exponent < 0 ==> le_digits_value(expansion.0@) * power(2, (-exponent) as nat)
            == significand * power(10, (expansion.2 + expansion.1) as nat),
{
    let mut remaining_significand = significand;
    let factor: u8;
    let count: u32;
    let mut scale: i128;
    let ghost cancelled_count: nat = 0;
    if exponent >= 0 {
        factor = 2;
        count = exponent as u32;
        scale = 0;
    } else {
        let denominator_power: u32 = (-(exponent as i64)) as u32;
        let mut cancelled: u32 = 0;
        assert(power(2, 0) == 1);
        assert(remaining_significand * 1 == significand);
        while cancelled < denominator_power && remaining_significand % 2 == 0
            && remaining_significand != 0
            invariant
                cancelled <= denominator_power,
                remaining_significand * power(2, cancelled as nat) == significand,
            decreases denominator_power - cancelled,
        {
            proof {
                let r = remaining_significand;
                let p = power(2, cancelled as nat);
                assert(power(2, (cancelled + 1) as nat) == 2 * p);
                assert((r / 2) * (2 * p) == r * p) by (nonlinear_arith)
                    requires
                        r % 2 == 0,
                ;
            }
            remaining_significand = remaining_significand / 2;
            cancelled = cancelled + 1;
        }
        factor = 5;
        count = denominator_power - cancelled;
        scale = count as i128;
        proof {
            cancelled_count = cancelled as nat;
        }
    }
    let mut digits = decimal_digits(remaining_significand);
    proof {
        lemma_le_decimal_digits_value(remaining_significand as nat);
        lemma_le_decimal_digits_decimal(remaining_significand as nat);
        lemma_le_decimal_digits_no_high_zero(remaining_significand as nat);
    }
    let mut i: u32 = 0;
    while i < count
        invariant
            i <= count,
            all_decimal(digits@),
            no_high_zero(digits@),
            factor > 0,
            le_digits_value(digits@) == remaining_significand * power(factor as nat, i as nat),
        decreases count - i,
    {
        multiply_decimal_digits(&mut digits, factor);
        proof {
            let v = remaining_significand * power(factor as nat, i as nat);
            assert(v * factor == remaining_significand * power(factor as nat, (i + 1) as nat))
                by (nonlinear_arith)
                requires
                    v == remaining_significand * power(factor as nat, i as nat),
                    power(factor as nat, (i + 1) as nat) == factor * power(factor as nat, i as nat),
            ;
        }
        i += 1;
    }
    let mut zeros: usize = 0;
    assert(digits@.skip(0) =~= digits@);
    while zeros < digits.len() && digits[zeros] == 0
        invariant
            zeros <= digits.len(),
            forall|j: int| 0 <= j < zeros ==> #[trigger] digits@[j] == 0,
            low_zero_count(digits@) == zeros + low_zero_count(digits@.skip(zeros as int)),
        decreases digits.len() - zeros,
    {
        assert(digits@.skip(zeros as int).drop_first() =~= digits@.skip(zeros + 1));
        zeros += 1;
    }
    proof {
        if zeros < digits.len() {
            assert(digits@.skip(zeros as int)[0] != 0);
        }
    }
    scale = scale - zeros as i128;
    proof {
        if exponent < 0 {
            let d = (-exponent) as nat;
            let r = count as nat;
            let c = cancelled_count;
            assert(d == c + r);
            lemma_power_adds(2, c, r);
            lemma_power_ten(r);
            let s = remaining_significand as int;
            let v = le_digits_value(digits@) as int;
            assert(v == s * power(5, r));
            assert(s * power(2, c) == significand);
            assert(v * power(2, d) == significand * power(10, r)) by (nonlinear_arith)
                requires
                    v == s * power(5, r),
                    s * power(2, c) == significand,
                    power(2, d) == power(2, c) * power(2, r),
                    power(10, r) == power(2, r) * power(5, r),
            ;
        }
    }
    (digits, zeros, scale)
}
/// Number of `0` characters at the start of `d`.
pub open spec fn leading_zero_chars(d: Seq<char>) -> int
    decreases d.len(),
{
    if d.len() > 0 && d[0] == '0' {
        1 + leading_zero_chars(d.drop_first())
    } else {
        0
    }
}

/// Number of `0` characters at the end of `d`.
pub open spec fn trailing_zero_chars(d: Seq<char>) -> int
    decreases d.len(),
{
    if d.len() > 0 && d.last() == '0' {
        1 + trailing_zero_chars(d.drop_last())
    } else {
        0
    }
}

/// Number of digits after the decimal point of a mantissa.
pub open spec fn fraction_digit_count(m: Seq<char>) -> int {
    if dot_position(m) < m.len() {
        m.len() - dot_position(m) - 1
    } else {
        0
    }
}

/// Whether decimal text states exactly the value of a float whose exact
/// decimal expansion is `digits` (least significant first), with
/// `low_zeros` low zero digits and scale `scale`.
///
/// The text's significand loses its leading and trailing zeros, its scale is
/// its fractional digit count minus its exponent (an `i64`) minus those
/// trailing zeros, and both the scales and the significant digits must agree;
/// an all-zero significand matches exactly a zero float.
pub open spec fn text_matches_expansion(
    t: Seq<char>,
    converted_is_zero: bool,
    digits: Seq<u8>,
    low_zeros: int,
    scale: int,
) -> bool {
    let u = strip_sign(t);
    let m = mantissa_text(u);
    let d = mantissa_digits(m);
    let lz = leading_zero_chars(d);
    if !is_valid_mantissa(m) {
        false
    } else if lz == d.len() {
        converted_is_zero
    } else if converted_is_zero {
        false
    } else if has_exponent(u) && !is_i64_text(exponent_text(u)) {
        false
    } else {
        let e = if has_exponent(u) {
            signed_digits_value(exponent_text(u))
        } else {
            0
        };
        let tz = trailing_zero_chars(d);
        let significant = d.len() - lz - tz;
        &&& fraction_digit_count(m) - e - tz == scale
        &&& significant == digits.len() - low_zeros
        &&& forall|i: int|
            0 <= i < significant ==> digit_value(#[trigger] d[lz + i]) == digits[digits.len() - 1
                - i] as int
    }
}

/// Counts the `0` characters at the start.
fn count_leading_zero_chars(d: &Vec<char>) -> (count: usize)
    ensures
        count == leading_zero_chars(d@),
        count <= d.len(),
        forall|j: int| 0 <= j < count ==> #[trigger] d@[j] == '0',
        count < d.len() ==> d@[count as int] != '0',
{
    let mut i: usize = 0;
    assert(d@.skip(0) =~= d@);
    while i < d.len() && d[i] == '0'
        invariant
            i <= d.len(),
            forall|j: int| 0 <= j < i ==> #[trigger] d@[j] == '0',
            leading_zero_chars(d@) == i + leading_zero_chars(d@.skip(i as int)),
        decreases d.len() - i,
    {
        assert(d@.skip(i as int).drop_first() =~= d@.skip(i + 1));
        i += 1;
    }
    proof {
        if i < d.len() {
            assert(d@.skip(i as int)[0] != '0');
        }
    }
    i
}

/// Counts the `0` characters at the end.
fn count_trailing_zero_chars(d: &Vec<char>) -> (count: usize)
    ensures
        count == trailing_zero_chars(d@),
        count <= d.len(),
        forall|j: int| d.len() - count <= j < d.len() ==> #[trigger] d@[j] == '0',
        count < d.len() ==> d@[d.len() - 1 - count] != '0',
{
    let mut i: usize = 0;
    assert(d@.take(d.len() as int) =~= d@);
    while i < d.len() && d[d.len() - 1 - i] == '0'
        invariant
            i <= d.len(),
            forall|j: int| d.len() - i <= j < d.len() ==> #[trigger] d@[j] == '0',
            trailing_zero_chars(d@) == i + trailing_zero_chars(d@.take(d.len() - i)),
        decreases d.len() - i,
    {
        assert(d@.take(d.len() - i).drop_last() =~= d@.take(d.len() - i - 1));
        i += 1;
    }
    proof {
        if i < d.len() {
            assert(d@.take(d.len() - i).last() != '0');
        }
    }
    i
}

/// Decides whether decimal text states exactly the value of a parsed float,
/// given whether the float is zero and its exact decimal expansion (as
/// `exact_float_decimal` computes it).
pub fn text_is_exact_float(
    value: &str,
    converted_is_zero: bool,
    float_digits: &Vec<u8>,
    float_trailing_zeros: usize,
    float_scale: i128,
) -> (exact: bool)
    requires
        float_trailing_zeros <= float_digits.len(),
    ensures
        exact == text_matches_expansion(
            value@,
            converted_is_zero,
            float_digits@,
            float_trailing_zeros as int,
            float_scale as int,
        ),
{
    let chars = chars_of(value);
    let (_, start) = split_sign(&chars);
    let unsigned = copy_range(&chars, start, chars.len());
    assert(unsigned@ =~= strip_sign(value@)) by {
        assert(chars@.subrange(start as int, chars@.len() as int) =~= chars@.skip(start as int));
    }
    let position = find_exponent(&unsigned);
    let mantissa = copy_range(&unsigned, 0, position);
    assert(mantissa@ =~= mantissa_text(unsigned@));
    let (digits, point) = match analyze_mantissa(&mantissa) {
        Some(parts) => parts,
        None => {
            return false;
        },
    };
    let leading = count_leading_zero_chars(&digits);
    if leading == digits.len() {
        return converted_is_zero;
    }
    if converted_is_zero {
        return false;
    }
    let exponent: i64 = if position < unsigned.len() {
        let exponent_chars = copy_range(&unsigned, position + 1, unsigned.len());
        assert(exponent_chars@ =~= exponent_text(unsigned@));
        match parse_i64_text(&exponent_chars) {
            Some(x) => x,
            None => {
                return false;
            },
        }
    } else {
        0
    };
    let trailing = count_trailing_zero_chars(&digits);
    proof {
        assert(digits@[leading as int] != '0');
        if leading + trailing > digits.len() {
            assert(digits@[leading as int] == '0');
        }
    }
    let fraction: i128 = if point < mantissa.len() {
        (mantissa.len() - point - 1) as i128
    } else {
        0
    };
    let scale: i128 = fraction - exponent as i128 - trailing as i128;
    let significant = digits.len() - leading - trailing;
    if scale != float_scale || significant != float_digits.len() - float_trailing_zeros {
        return false;
    }
    let n = float_digits.len();
    let ghost matched = forall|j: int|
        0 <= j < significant ==> digit_value(#[trigger] digits@[leading + j]) == float_digits@[n
            - 1 - j] as int;
    assert(text_matches_expansion(
        value@,
        converted_is_zero,
        float_digits@,
        float_trailing_zeros as int,
        float_scale as int,
    ) == matched);
    let mut i: usize = 0;
    while i < significant
        invariant
            text_matches_expansion(
                value@,
                converted_is_zero,
                float_digits@,
                float_trailing_zeros as int,
                float_scale as int,
            ) == (forall|j: int|
                0 <= j < significant ==> digit_value(#[trigger] digits@[leading + j])
                    == float_digits@[n - 1 - j] as int),
            i <= significant,
            significant + leading <= digits.len(),
            significant + float_trailing_zeros == n,
            n == float_digits.len(),
            all_digits(digits@),
            forall|j: int|
                0 <= j < i ==> digit_value(#[trigger] digits@[leading + j]) == float_digits@[n - 1
                    - j] as int,
        decreases significant - i,
    {
        let digit = char_digit_value(digits[leading + i]);
        if digit != float_digits[n - 1 - i] {
            return false;
        }
        i += 1;
    }
    true
}

// ---------------------------------------------------------------------------
// Canonical decimal forms: the facts behind `text_matches_expansion`.
// ---------------------------------------------------------------------------

/// The positive part of an integer.
pub open spec fn positive_part(v: int) -> nat {
    if v > 0 {
        v as nat
    } else {
        0
    }
}

/// Whether `digits × 10^shift` equals `significand × 2^exponent`, compared
/// as integers with both sides multiplied out.
pub open spec fn decimal_equals_binary(digits: nat, shift: int, significand: nat, exponent: int) -> bool {
    digits * power(10, positive_part(shift)) * power(2, positive_part(-exponent)) == significand
        * power(2, positive_part(exponent)) * power(10, positive_part(-shift))
}

/// The digits of a valid mantissa, its point removed, are all digits.
pub(crate) proof fn lemma_mantissa_digits_are_digits(m: Seq<char>)
    requires
        is_valid_mantissa(m),
    ensures
        all_digits(mantissa_digits(m)),
{
    lemma_dot_position_facts(m);
    let p = dot_position(m);
    let d = mantissa_digits(m);
    assert forall|i: int| 0 <= i < d.len() implies is_ascii_digit(#[trigger] d[i]) by {
        if p < m.len() {
            if i < p {
                assert(d[i] == m[i]);
            } else {
                assert(d[i] == m[i + 1]);
                if m[i + 1] == '.' {
                    assert(m[p] == '.');
                }
            }
        } else {
            assert(d[i] == m[i]);
        }
    }
}

/// Leading `0` characters, and the character after them.
pub(crate) proof fn lemma_leading_zero_chars(d: Seq<char>)
    ensures
        0 <= leading_zero_chars(d) <= d.len(),
        forall|j: int| 0 <= j < leading_zero_chars(d) ==> #[trigger] d[j] == '0',
        leading_zero_chars(d) < d.len() ==> d[leading_zero_chars(d)] != '0',
    decreases d.len(),
{
    if d.len() > 0 && d[0] == '0' {
        let r = d.drop_first();
        lemma_leading_zero_chars(r);
        assert forall|j: int| 0 <= j < leading_zero_chars(d) implies #[trigger] d[j] == '0' by {
            if j > 0 {
                assert(d[j] == r[j - 1]);
            }
        }
        if leading_zero_chars(d) < d.len() {
            assert(d[leading_zero_chars(d)] == r[leading_zero_chars(r)]);
        }
    }
}

/// Trailing `0` characters, and the character before them.
proof fn lemma_trailing_zero_chars(d: Seq<char>)
    ensures
        0 <= trailing_zero_chars(d) <= d.len(),
        forall|j: int| d.len() - trailing_zero_chars(d) <= j < d.len() ==> #[trigger] d[j] == '0',
        trailing_zero_chars(d) < d.len() ==> d[d.len() - 1 - trailing_zero_chars(d)] != '0',
    decreases d.len(),
{
    if d.len() > 0 && d.last() == '0' {
        let r = d.drop_last();
        lemma_trailing_zero_chars(r);
        assert forall|j: int| d.len() - trailing_zero_chars(d) <= j < d.len() implies #[trigger] d[j]
            == '0' by {
            if j < d.len() - 1 {
                assert(d[j] == r[j]);
            }
        }
        if trailing_zero_chars(d) < d.len() {
            assert(d[d.len() - 1 - trailing_zero_chars(d)] == r[r.len() - 1 - trailing_zero_chars(r)]);
        }
    }
}

/// Low zero digits, and the digit after them.
proof fn lemma_low_zero_count(s: Seq<u8>)
    ensures
        0 <= low_zero_count(s) <= s.len(),
        forall|j: int| 0 <= j < low_zero_count(s) ==> #[trigger] s[j] == 0,
        low_zero_count(s) < s.len() ==> s[low_zero_count(s)] != 0,
    decreases s.len(),
{
    if s.len() > 0 && s[0] == 0 {
        let r = s.drop_first();
        lemma_low_zero_count(r);
        assert forall|j: int| 0 <= j < low_zero_count(s) implies #[trigger] s[j] == 0 by {
            if j > 0 {
                assert(s[j] == r[j - 1]);
            }
        }
        if low_zero_count(s) < s.len() {
            assert(s[low_zero_count(s)] == r[low_zero_count(r)]);
        }
    }
}

/// The value of concatenated big-endian digits.
proof fn lemma_digits_value_concat(p: Seq<char>, q: Seq<char>)
    ensures
        digits_value(p + q) == digits_value(p) * pow10(q.len()) + digits_value(q),
    decreases q.len(),
{
    if q.len() == 0 {
        assert(p + q =~= p);
        assert(pow10(0) == 1);
    } else {
        lemma_digits_value_concat(p, q.drop_last());
        assert((p + q).drop_last() =~= p + q.drop_last());
        assert((p + q).last() == q.last());
        let a = digits_value(p);
        let b = digits_value(q.drop_last());
        let w = pow10(q.drop_last().len());
        assert(pow10(q.len()) == 10 * w);
        assert((a * w + b) * 10 == a * (10 * w) + b * 10) by (nonlinear_arith);
    }
}

/// Little-endian digits split at `k`.
proof fn lemma_le_digits_split(s: Seq<u8>, k: int)
    requires
        0 <= k <= s.len(),
    ensures
        le_digits_value(s) == le_digits_value(s.take(k)) + pow10(k as nat) * le_digits_value(
            s.skip(k),
        ),
    decreases k,
{
    if k == 0 {
        assert(s.take(0).len() == 0);
        assert(le_digits_value(s.take(0)) == 0);
        assert(s.skip(0) =~= s);
        assert(pow10(0) == 1);
        assert(pow10(0) * le_digits_value(s) == le_digits_value(s));
    } else {
        lemma_le_digits_split(s.drop_first(), k - 1);
        assert(s.drop_first().take(k - 1) =~= s.take(k).drop_first());
        assert(s.drop_first().skip(k - 1) =~= s.skip(k));
        assert(s.take(k)[0] == s[0]);
        let a = le_digits_value(s.drop_first().take(k - 1));
        let b = le_digits_value(s.skip(k));
        let p = pow10((k - 1) as nat);
        assert(le_digits_value(s.take(k)) == s[0] + 10 * a);
        assert(le_digits_value(s) == s[0] + 10 * le_digits_value(s.drop_first()));
        assert(pow10(k as nat) == 10 * p);
        assert(le_digits_value(s.drop_first()) == a + p * b);
        let h = s[0] as int;
        let pk = pow10(k as nat);
        assert(h + 10 * (a + p * b) == (h + 10 * a) + pk * b) by (nonlinear_arith)
            requires
                pk == 10 * p,
        ;
    }
}

/// Zero digits have value zero.
proof fn lemma_le_zero_digits(s: Seq<u8>)
    requires
        forall|j: int| 0 <= j < s.len() ==> #[trigger] s[j] == 0,
    ensures
        le_digits_value(s) == 0,
    decreases s.len(),
{
    if s.len() > 0 {
        assert forall|j: int| 0 <= j < s.drop_first().len() implies #[trigger] s.drop_first()[j]
            == 0 by {
            assert(s.drop_first()[j] == s[j + 1]);
        }
        lemma_le_zero_digits(s.drop_first());
    }
}

/// Big-endian digits read backwards, as digit values.
pub open spec fn reversed_digit_values(p: Seq<char>) -> Seq<u8> {
    Seq::new(p.len(), |j: int| digit_value(p[p.len() - 1 - j]) as u8)
}

/// Reading big-endian digits backwards keeps their value.
proof fn lemma_reversed_digit_values(p: Seq<char>)
    requires
        all_digits(p),
    ensures
        le_digits_value(reversed_digit_values(p)) == digits_value(p),
        all_decimal(reversed_digit_values(p)),
    decreases p.len(),
{
    let r = reversed_digit_values(p);
    if p.len() > 0 {
        let q = p.drop_last();
        assert(all_digits(q)) by {
            assert forall|i: int| 0 <= i < q.len() implies is_ascii_digit(#[trigger] q[i]) by {
                assert(q[i] == p[i]);
            }
        }
        lemma_reversed_digit_values(q);
        assert(r.drop_first() =~= reversed_digit_values(q));
        assert(is_ascii_digit(p[p.len() - 1]));
        assert(r[0] as int == digit_value(p.last()));
    }
    assert forall|i: int| 0 <= i < r.len() implies #[trigger] r[i] < 10 by {
        assert(is_ascii_digit(p[p.len() - 1 - i]));
    }
}

/// Digits without a most significant zero are the canonical digits of
/// their value.
proof fn lemma_canonical_le_digits(q: Seq<u8>)
    requires
        all_decimal(q),
        no_high_zero(q),
    ensures
        q == le_decimal_digits(le_digits_value(q)),
        q.len() > 0 ==> le_digits_value(q) > 0,
    decreases q.len(),
{
    if q.len() > 0 {
        let rest = q.drop_first();
        assert(all_decimal(rest)) by {
            assert forall|i: int| 0 <= i < rest.len() implies #[trigger] rest[i] < 10 by {
                assert(rest[i] == q[i + 1]);
            }
        }
        if rest.len() > 0 {
            assert(rest.last() == q.last());
        } else {
            assert(q[0] == q.last());
        }
        lemma_canonical_le_digits(rest);
        let v = le_digits_value(q);
        let w = le_digits_value(rest);
        assert(q[0] < 10);
        assert(v == q[0] + 10 * w);
        assert(v > 0);
        assert(v % 10 == q[0] as nat && v / 10 == w) by (nonlinear_arith)
            requires
                v == q[0] + 10 * w,
                q[0] < 10,
        ;
        assert(le_decimal_digits(v) == seq![(v % 10) as u8] + le_decimal_digits(v / 10));
        assert(q =~= seq![q[0]] + rest);
    }
}

/// A number not divisible by ten times a power of ten determines both.
pub(crate) proof fn lemma_scaled_forms_equal(c: nat, i: nat, w: nat, j: nat)
    requires
        c % 10 != 0,
        w % 10 != 0,
    ensures
        c * pow10(i) == w * pow10(j) <==> (c == w && i == j),
    decreases i + j,
{
    if i > 0 && j > 0 {
        lemma_scaled_forms_equal(c, (i - 1) as nat, w, (j - 1) as nat);
        let x = c * pow10((i - 1) as nat);
        let y = w * pow10((j - 1) as nat);
        assert(c * pow10(i) == 10 * x) by (nonlinear_arith)
            requires
                pow10(i) == 10 * pow10((i - 1) as nat),
                x == c * pow10((i - 1) as nat),
        ;
        assert(w * pow10(j) == 10 * y) by (nonlinear_arith)
            requires
                pow10(j) == 10 * pow10((j - 1) as nat),
                y == w * pow10((j - 1) as nat),
        ;
    } else if i > 0 {
        let x = c * pow10((i - 1) as nat);
        assert(c * pow10(i) == 10 * x) by (nonlinear_arith)
            requires
                pow10(i) == 10 * pow10((i - 1) as nat),
                x == c * pow10((i - 1) as nat),
        ;
        assert(pow10(j) == 1);
        assert(w * pow10(j) == w) by (nonlinear_arith)
            requires
                pow10(j) == 1,
        ;
        assert((10 * x) % 10 == 0) by (nonlinear_arith);
    } else if j > 0 {
        let y = w * pow10((j - 1) as nat);
        assert(w * pow10(j) == 10 * y) by (nonlinear_arith)
            requires
                pow10(j) == 10 * pow10((j - 1) as nat),
                y == w * pow10((j - 1) as nat),
        ;
        assert(pow10(i) == 1);
        assert(c * pow10(i) == c) by (nonlinear_arith)
            requires
                pow10(i) == 1,
        ;
        assert((10 * y) % 10 == 0) by (nonlinear_arith);
    } else {
        assert(pow10(i) == 1 && pow10(j) == 1);
        assert(c * pow10(i) == c && w * pow10(j) == w) by (nonlinear_arith)
            requires
                pow10(i) == 1,
                pow10(j) == 1,
        ;
    }
}

/// Powers of a positive base are positive.
pub(crate) proof fn lemma_power_positive(b: nat, e: nat)
    requires
        b > 0,
    ensures
        power(b, e) > 0,
    decreases e,
{
    if e > 0 {
        lemma_power_positive(b, (e - 1) as nat);
        let q = power(b, (e - 1) as nat);
        assert(b * q > 0) by (nonlinear_arith)
            requires
                b > 0,
                q > 0,
        ;
    }
}

/// The significant digits of decimal text: its mantissa digits without
/// leading and trailing zeros.
pub open spec fn text_significant_digits(t: Seq<char>) -> Seq<char> {
    let d = mantissa_digits(mantissa_text(strip_sign(t)));
    d.subrange(leading_zero_chars(d), d.len() - trailing_zero_chars(d))
}

/// The value of the mantissa digits of decimal text, its point ignored.
pub open spec fn text_digits_value(t: Seq<char>) -> nat {
    digits_value(mantissa_digits(mantissa_text(strip_sign(t)))) as nat
}

/// Whether the exponent of decimal text, if any, fits `i64`.
pub open spec fn text_exponent_fits(t: Seq<char>) -> bool {
    let u = strip_sign(t);
    !has_exponent(u) || is_i64_text(exponent_text(u))
}

/// The power of ten that scales the mantissa digits of decimal text: its
/// exponent less its fractional digit count.
pub open spec fn text_shift(t: Seq<char>) -> int {
    let u = strip_sign(t);
    let e = if has_exponent(u) {
        signed_digits_value(exponent_text(u))
    } else {
        0
    };
    e - fraction_digit_count(mantissa_text(u))
}

/// The digits of a mantissa with a non-zero value: zeros, the significant
/// digits, zeros; their value is the significant digits' value shifted by
/// the trailing zeros, and the significant digits neither start nor end with
/// zero.
pub(crate) proof fn lemma_text_significant_digits(t: Seq<char>)
    requires
        is_valid_mantissa(mantissa_text(strip_sign(t))),
        text_digits_value(t) != 0,
    ensures
        ({
            let d = mantissa_digits(mantissa_text(strip_sign(t)));
            let core = text_significant_digits(t);
            let c = digits_value(core);
            &&& 0 <= leading_zero_chars(d)
            &&& 0 <= trailing_zero_chars(d)
            &&& leading_zero_chars(d) + trailing_zero_chars(d) < d.len()
            &&& core.len() == d.len() - leading_zero_chars(d) - trailing_zero_chars(d)
            &&& all_digits(core)
            &&& c >= 0
            &&& c % 10 != 0
            &&& text_digits_value(t) == c * pow10(trailing_zero_chars(d) as nat)
            &&& reversed_digit_values(core) == le_decimal_digits(c as nat)
        }),
{
    let m = mantissa_text(strip_sign(t));
    let d = mantissa_digits(m);
    lemma_mantissa_digits_are_digits(m);
    lemma_leading_zero_chars(d);
    lemma_trailing_zero_chars(d);
    let n = d.len() as int;
    let lz = leading_zero_chars(d);
    let tz = trailing_zero_chars(d);
    if lz == n {
        lemma_zero_digits_value(d);
    }
    assert(lz < n);
    assert(lz < n - tz) by {
        if lz >= n - tz {
            assert(d[lz] == '0');
        }
    }
    let core = d.subrange(lz, n - tz);
    let head = d.take(lz);
    let tail = d.skip(n - tz);
    assert(d =~= (head + core) + tail);
    assert forall|j: int| 0 <= j < head.len() implies #[trigger] head[j] == '0' by {
        assert(head[j] == d[j]);
    }
    assert forall|j: int| 0 <= j < tail.len() implies #[trigger] tail[j] == '0' by {
        assert(tail[j] == d[n - tz + j]);
    }
    lemma_zero_digits_value(head);
    lemma_zero_digits_value(tail);
    lemma_digits_value_concat(head + core, tail);
    lemma_digits_value_concat(head, core);
    assert(all_digits(core)) by {
        assert forall|i: int| 0 <= i < core.len() implies is_ascii_digit(#[trigger] core[i]) by {
            assert(core[i] == d[lz + i]);
        }
    }
    crate::numeric_text::lemma_digits_value_nonneg(core);
    let c = digits_value(core);
    assert(digits_value(head) * pow10(core.len()) == 0) by (nonlinear_arith)
        requires
            digits_value(head) == 0,
    ;
    assert(digits_value(head + core) == c);
    assert(digits_value(d) == c * pow10(tz as nat));
    let last = core.last();
    assert(last == d[n - 1 - tz]);
    assert(is_ascii_digit(last));
    let front = digits_value(core.drop_last());
    assert(c == front * 10 + digit_value(last));
    assert(1 <= digit_value(last) <= 9);
    assert(c % 10 != 0) by (nonlinear_arith)
        requires
            c == front * 10 + digit_value(last),
            1 <= digit_value(last) <= 9,
    ;
    lemma_reversed_digit_values(core);
    let r = reversed_digit_values(core);
    assert(r.last() as int == digit_value(core[0]));
    assert(core[0] == d[lz]);
    assert(is_ascii_digit(core[0]));
    lemma_canonical_le_digits(r);
}

/// The digits of an exact expansion with a non-zero value: low zeros, then
/// canonical digits of a value not divisible by ten.
pub(crate) proof fn lemma_expansion_significant_digits(digits: Seq<u8>, zeros: int)
    requires
        all_decimal(digits),
        no_high_zero(digits),
        zeros == low_zero_count(digits),
        le_digits_value(digits) != 0,
    ensures
        ({
            let rest = digits.skip(zeros);
            let w = le_digits_value(rest);
            &&& 0 <= zeros < digits.len()
            &&& w % 10 != 0
            &&& le_digits_value(digits) == w * pow10(zeros as nat)
            &&& rest == le_decimal_digits(w)
        }),
{
    lemma_low_zero_count(digits);
    if zeros == digits.len() {
        lemma_le_zero_digits(digits);
    }
    let head = digits.take(zeros);
    let rest = digits.skip(zeros);
    assert forall|j: int| 0 <= j < head.len() implies #[trigger] head[j] == 0 by {
        assert(head[j] == digits[j]);
    }
    lemma_le_zero_digits(head);
    lemma_le_digits_split(digits, zeros);
    let w = le_digits_value(rest);
    assert(le_digits_value(digits) == w * pow10(zeros as nat)) by (nonlinear_arith)
        requires
            le_digits_value(digits) == le_digits_value(head) + pow10(zeros as nat) * w,
            le_digits_value(head) == 0,
    ;
    assert(rest[0] == digits[zeros]);
    assert(rest[0] < 10);
    let upper = le_digits_value(rest.drop_first());
    assert(w == rest[0] + 10 * upper);
    assert(w % 10 != 0) by (nonlinear_arith)
        requires
            w == rest[0] + 10 * upper,
            1 <= rest[0] < 10,
    ;
    assert(all_decimal(rest)) by {
        assert forall|i: int| 0 <= i < rest.len() implies #[trigger] rest[i] < 10 by {
            assert(rest[i] == digits[zeros + i]);
        }
    }
    assert(rest.last() == digits.last());
    lemma_canonical_le_digits(rest);
}

/// Comparing `d × 10^a` with `s × 2^x` through an expansion `v / 10^z` of
/// `s × 2^x`: the comparison holds exactly when `d × 10^(a⁺ + z) = v × 10^(a⁻)`.
pub(crate) proof fn lemma_compare_through_expansion(d: nat, a: int, s: nat, x: int, v: nat, z: nat)
    requires
        s * power(2, positive_part(x)) * power(10, z) == v * power(2, positive_part(-x)),
    ensures
        decimal_equals_binary(d, a, s, x) <==> d * power(10, positive_part(a) + z) == v * power(
            10,
            positive_part(-a),
        ),
{
    let p = power(2, positive_part(-x));
    let q = power(2, positive_part(x));
    let t = power(10, z);
    let ta = power(10, positive_part(a));
    let tb = power(10, positive_part(-a));
    lemma_power_positive(2, positive_part(-x));
    lemma_power_positive(10, z);
    lemma_power_adds(10, positive_part(a), z);
    assert((d * ta * p == s * q * tb) <==> (d * (ta * t) == v * tb)) by (nonlinear_arith)
        requires
            p > 0,
            t > 0,
            s * q * t == v * p,
    {
        if d * ta * p == s * q * tb {
            assert(d * ta * p * t == s * q * tb * t);
            assert(s * q * tb * t == (s * q * t) * tb);
            assert(d * ta * p * t == (v * p) * tb);
            assert((d * ta * t) * p == (v * tb) * p);
        }
        if d * (ta * t) == v * tb {
            assert(d * ta * t * p == v * tb * p);
            assert(v * p * tb == s * q * t * tb);
            assert((d * ta * p) * t == (s * q * tb) * t);
        }
    }
}

/// Powers of ten add their exponents.
pub(crate) proof fn lemma_pow10_adds(a: nat, b: nat)
    ensures
        pow10(a + b) == pow10(a) * pow10(b),
        pow10(a) == power(10, a),
{
    lemma_power_ten(a);
    lemma_power_ten(b);
    lemma_power_ten(a + b);
    lemma_power_adds(10, a, b);
}

/// Mantissa digits of value zero are all zeros.
pub(crate) proof fn lemma_zero_value_digits(d: Seq<char>)
    requires
        all_digits(d),
        digits_value(d) == 0,
    ensures
        leading_zero_chars(d) == d.len(),
{
    lemma_leading_zero_chars(d);
    let lz = leading_zero_chars(d);
    if lz < d.len() {
        crate::numeric_text::lemma_digits_value_prefix_monotone(d, lz + 1, d.len() as int);
        crate::numeric_text::lemma_digits_value_step(d, lz);
        assert(all_digits(d.take(lz)));
        crate::numeric_text::lemma_digits_value_nonneg(d.take(lz));
        assert(d.take(d.len() as int) =~= d);
        assert(is_ascii_digit(d[lz]));
    }
}

/// Significant digits read backwards equal the significant digits of an
/// expansion exactly when they agree digit by digit from the most
/// significant end.
pub(crate) proof fn lemma_significant_digits_agree(core: Seq<char>, digits: Seq<u8>, zeros: int)
    requires
        all_digits(core),
        0 <= zeros <= digits.len(),
    ensures
        reversed_digit_values(core) == digits.skip(zeros) <==> (core.len() == digits.len() - zeros
            && forall|i: int|
            0 <= i < core.len() ==> digit_value(#[trigger] core[i]) == digits[digits.len() - 1
                - i] as int),
{
    let r = reversed_digit_values(core);
    let rest = digits.skip(zeros);
    let n = core.len() as int;
    if r == rest {
        assert(r.len() == rest.len());
        assert(n == digits.len() - zeros);
        assert forall|i: int| 0 <= i < n implies digit_value(#[trigger] core[i]) == digits[digits.len()
            - 1 - i] as int by {
            assert(is_ascii_digit(core[i]));
            assert(r[n - 1 - i] == rest[n - 1 - i]);
            assert(rest[n - 1 - i] == digits[zeros + n - 1 - i]);
        }
    }
    if n == digits.len() - zeros && forall|i: int|
        0 <= i < n ==> digit_value(#[trigger] core[i]) == digits[digits.len() - 1 - i] as int {
        assert forall|j: int| 0 <= j < n implies r[j] == rest[j] by {
            let i = n - 1 - j;
            assert(digit_value(core[i]) == digits[digits.len() - 1 - i] as int);
            assert(is_ascii_digit(core[i]));
        }
        assert(r =~= rest);
    }
}

/// Decides whether decimal text states exactly the value of a finite `f64`,
/// given by its bits (the sign is ignored): for decimal text, exactly when
/// the number the text writes equals the float's magnitude.
pub fn text_is_exact_for_float_bits(value: &str, bits: u64) -> (exact: bool)
    ensures
        is_decimal_text(value@) ==> (exact <==> if text_digits_value(value@) == 0 {
            float_parts(bits).0 == 0
        } else {
            text_exponent_fits(value@) && decimal_equals_binary(
                text_digits_value(value@),
                text_shift(value@),
                float_parts(bits).0 as nat,
                float_parts(bits).1,
            )
        }),
{
    let (significand, exponent) = finite_float_parts(bits);
    let (digits, zeros, scale) = exact_float_decimal(significand, exponent);
    let exact = text_is_exact_float(value, significand == 0, &digits, zeros, scale);
    proof {
        if is_decimal_text(value@) {
            crate::laws::lemma_exact_text_writes_the_float(
                value@,
                significand as nat,
                exponent as int,
                digits@,
                zeros as int,
                scale as int,
            );
        }
    }
    exact
}

} // verus!
