//! Textual numeric syntax: the decimal grammar with optional sign, fraction
//! and exponent, and its exact integer interpretation.

use vstd::prelude::*;

use crate::big_integer::{
    limbs_value, magnitude_from_decimal, magnitude_times_pow10, BigInteger,
};
use crate::data_type::DataType;
use crate::decimal::string_from_chars;
use crate::error::{text_error, DataConversionError, DataConversionErrorKind};
use crate::policy::NumericConversionPolicy;
use crate::text::{
    all_digits, char_digit_value, char_is_ascii_digit, chars_eq_ignore_ascii_case, chars_of,
    copy_range, digit_value, digits_value, eq_ignore_ascii_case, is_ascii_digit,
};

verus! {

/// `10` raised to `e`.
pub open spec fn pow10(e: nat) -> nat
    decreases e,
{
    if e == 0 {
        1
    } else {
        10 * pow10((e - 1) as nat)
    }
}

/// A leading `+` or `-`.
pub open spec fn is_sign(c: char) -> bool {
    c == '+' || c == '-'
}

/// `t` without one optional leading sign.
pub open spec fn strip_sign(t: Seq<char>) -> Seq<char> {
    if t.len() > 0 && is_sign(t[0]) {
        t.skip(1)
    } else {
        t
    }
}

/// `t` starts with a minus sign.
pub open spec fn has_minus_sign(t: Seq<char>) -> bool {
    t.len() > 0 && t[0] == '-'
}

/// One or more ASCII digits after an optional sign.
pub open spec fn is_integer_text(t: Seq<char>) -> bool {
    strip_sign(t).len() > 0 && all_digits(strip_sign(t))
}

/// A case-insensitive NaN or infinity spelling.
pub open spec fn is_non_finite_name(t: Seq<char>) -> bool {
    eq_ignore_ascii_case(t, "nan"@) || eq_ignore_ascii_case(t, "inf"@) || eq_ignore_ascii_case(
        t,
        "+inf"@,
    ) || eq_ignore_ascii_case(t, "-inf"@) || eq_ignore_ascii_case(t, "infinity"@)
        || eq_ignore_ascii_case(t, "+infinity"@) || eq_ignore_ascii_case(t, "-infinity"@)
}

/// `e` or `E`.
pub open spec fn is_exponent_marker(c: char) -> bool {
    c == 'e' || c == 'E'
}

/// Index of the first exponent marker of `u`, or its length when it has none.
pub open spec fn exponent_position(u: Seq<char>) -> int
    decreases u.len(),
{
    if u.len() == 0 {
        0
    } else if is_exponent_marker(u[0]) {
        0
    } else {
        1 + exponent_position(u.skip(1))
    }
}

/// Index of the first decimal point of `m`, or its length when it has none.
pub open spec fn dot_position(m: Seq<char>) -> int
    decreases m.len(),
{
    if m.len() == 0 {
        0
    } else if m[0] == '.' {
        0
    } else {
        1 + dot_position(m.skip(1))
    }
}

/// The unsigned text has an exponent part.
pub open spec fn has_exponent(u: Seq<char>) -> bool {
    exponent_position(u) < u.len()
}

/// The mantissa: everything before the exponent marker.
pub open spec fn mantissa_text(u: Seq<char>) -> Seq<char> {
    u.take(exponent_position(u))
}

/// The exponent: everything after the exponent marker.
pub open spec fn exponent_text(u: Seq<char>) -> Seq<char> {
    u.skip(exponent_position(u) + 1)
}

/// An exponent is an optional sign and one or more digits.
pub open spec fn is_valid_exponent(e: Seq<char>) -> bool {
    is_integer_text(e)
}

/// Saturates an integer to the `i64` range.
pub open spec fn clamp_i64(v: int) -> int {
    if v < i64::MIN {
        i64::MIN as int
    } else if v > i64::MAX {
        i64::MAX as int
    } else {
        v
    }
}

/// The signed value of integer text.
pub open spec fn signed_digits_value(e: Seq<char>) -> int {
    if has_minus_sign(e) {
        -digits_value(strip_sign(e))
    } else {
        digits_value(strip_sign(e))
    }
}

/// The exponent of unsigned numeric text, saturated to `i64`; zero without
/// an exponent part.
pub open spec fn exponent_value(u: Seq<char>) -> int {
    if has_exponent(u) {
        clamp_i64(signed_digits_value(exponent_text(u)))
    } else {
        0
    }
}

/// A mantissa consists of digits and at most one decimal point, with at
/// least one digit.
pub open spec fn is_valid_mantissa(m: Seq<char>) -> bool {
    &&& forall|i: int| 0 <= i < m.len() ==> (is_ascii_digit(#[trigger] m[i]) || m[i] == '.')
    &&& forall|i: int, j: int|
        0 <= i < m.len() && 0 <= j < m.len() && #[trigger] m[i] == '.' && #[trigger] m[j] == '.'
            ==> i == j
    &&& exists|i: int| 0 <= i < m.len() && is_ascii_digit(#[trigger] m[i])
}

/// The digits of a mantissa with its decimal point removed.
pub open spec fn mantissa_digits(m: Seq<char>) -> Seq<char> {
    if dot_position(m) < m.len() {
        m.take(dot_position(m)) + m.skip(dot_position(m) + 1)
    } else {
        m
    }
}

/// Decimal text: an optional sign, a mantissa, and an optional exponent.
pub open spec fn is_decimal_text(t: Seq<char>) -> bool {
    let u = strip_sign(t);
    &&& u.len() > 0
    &&& has_exponent(u) ==> is_valid_exponent(exponent_text(u))
    &&& is_valid_mantissa(mantissa_text(u))
}

/// The all-digit significand of decimal text.
pub open spec fn significand(t: Seq<char>) -> Seq<char> {
    mantissa_digits(mantissa_text(strip_sign(t)))
}

/// Position of the effective decimal point within the significand once the
/// exponent is applied.
pub open spec fn point_position(t: Seq<char>) -> int {
    let u = strip_sign(t);
    dot_position(mantissa_text(u)) + exponent_value(u)
}

/// Number of the `n` significand digits that precede a decimal point at
/// position `p`.
pub open spec fn integer_digits_at(n: int, p: int) -> int {
    if p <= 0 {
        0
    } else if p < n {
        p
    } else {
        n
    }
}

/// Number of zeros appended after `n` significand digits when the decimal
/// point sits at position `p`.
pub open spec fn zeros_at(n: int, p: int) -> nat {
    if p > n {
        (p - n) as nat
    } else {
        0
    }
}

/// Magnitude of a significand with its decimal point at position `p`,
/// truncated toward zero.
pub open spec fn truncated_value(digits: Seq<char>, p: int) -> int {
    digits_value(digits.take(integer_digits_at(digits.len() as int, p))) * pow10(
        zeros_at(digits.len() as int, p),
    )
}

/// Whether a digit after the decimal point at position `p` is non-zero.
pub open spec fn fraction_is_nonzero(digits: Seq<char>, p: int) -> bool {
    exists|j: int|
        integer_digits_at(digits.len() as int, p) <= j < digits.len() && #[trigger] digits[j]
            != '0'
}

/// Magnitude of decimal text truncated toward zero.
pub open spec fn truncated_magnitude(t: Seq<char>) -> int {
    truncated_value(significand(t), point_position(t))
}

/// Whether truncating decimal text toward zero discards a non-zero digit.
pub open spec fn has_nonzero_fraction(t: Seq<char>) -> bool {
    fraction_is_nonzero(significand(t), point_position(t))
}

/// The stable syntax label for a numeric target.
pub open spec fn numeric_syntax_label(to: DataType) -> &'static str {
    match to {
        DataType::BigDecimal => "decimal number with optional exponent",
        DataType::Float32 | DataType::Float64 => "number",
        _ => "integer",
    }
}

/// The invalid-syntax error of a numeric target.
pub open spec fn numeric_syntax_error(to: DataType) -> DataConversionError {
    text_error(to, DataConversionErrorKind::InvalidSyntax { expected: numeric_syntax_label(to) })
}

/// What parsing decimal text as an integer yields: its sign and magnitude
/// truncated toward zero, or the first applicable rejection.
pub open spec fn integer_text_result(
    t: Seq<char>,
    policy: NumericConversionPolicy,
    to: DataType,
) -> Result<(bool, u128), DataConversionError> {
    if is_non_finite_name(t) {
        Err(text_error(to, DataConversionErrorKind::NonFinite))
    } else if !is_decimal_text(t) {
        Err(numeric_syntax_error(to))
    } else if policy == NumericConversionPolicy::Exact && has_nonzero_fraction(t) {
        Err(text_error(to, DataConversionErrorKind::PrecisionLoss))
    } else if truncated_magnitude(t) > u128::MAX {
        Err(text_error(to, DataConversionErrorKind::OutOfRange))
    } else {
        Ok((has_minus_sign(t) && truncated_magnitude(t) != 0, truncated_magnitude(t) as u128))
    }
}

/// The largest number of decimal digits an arbitrary-precision result parsed
/// from text may have.
pub const MAX_BIG_INTEGER_DIGITS: usize = 1_000_000;

/// Whether some digit of `digits` is not `0`.
pub open spec fn has_nonzero_digit(digits: Seq<char>) -> bool {
    exists|j: int| 0 <= j < digits.len() && #[trigger] digits[j] != '0'
}

/// Number of decimal digits in the truncated magnitude of decimal text,
/// counting the zeros an exponent appends.
pub open spec fn result_digit_count(t: Seq<char>) -> int {
    let n = significand(t).len() as int;
    integer_digits_at(n, point_position(t)) + zeros_at(n, point_position(t))
}

/// What parsing text as an arbitrary-precision integer yields.
///
/// Exact mode rejects a non-zero fractional part, lossy mode truncates toward
/// zero, and a result with more than [`MAX_BIG_INTEGER_DIGITS`] digits is out
/// of range unless every significand digit is zero.
pub open spec fn big_integer_text_result(
    t: Seq<char>,
    policy: NumericConversionPolicy,
    to: DataType,
) -> Result<int, DataConversionError> {
    if is_non_finite_name(t) {
        Err(text_error(to, DataConversionErrorKind::NonFinite))
    } else if !is_decimal_text(t) {
        Err(numeric_syntax_error(to))
    } else if policy == NumericConversionPolicy::Exact && has_nonzero_fraction(t) {
        Err(text_error(to, DataConversionErrorKind::PrecisionLoss))
    } else if has_nonzero_digit(significand(t)) && result_digit_count(t) > MAX_BIG_INTEGER_DIGITS {
        Err(text_error(to, DataConversionErrorKind::OutOfRange))
    } else if has_minus_sign(t) {
        Ok(-truncated_magnitude(t))
    } else {
        Ok(truncated_magnitude(t))
    }
}

// ---------------------------------------------------------------------------
// Lemmas
// ---------------------------------------------------------------------------

/// Digit strings have non-negative values.
pub proof fn lemma_digits_value_nonneg(s: Seq<char>)
    requires
        all_digits(s),
    ensures
        digits_value(s) >= 0,
    decreases s.len(),
{
    if s.len() > 0 {
        lemma_digits_value_nonneg(s.drop_last());
    }
}

/// Extending a digit prefix by one digit.
pub proof fn lemma_digits_value_step(s: Seq<char>, i: int)
    requires
        0 <= i < s.len(),
    ensures
        digits_value(s.take(i + 1)) == digits_value(s.take(i)) * 10 + digit_value(s[i]),
{
    assert(s.take(i + 1).drop_last() =~= s.take(i));
}

/// Longer digit prefixes have values at least as large.
pub proof fn lemma_digits_value_prefix_monotone(s: Seq<char>, i: int, j: int)
    requires
        all_digits(s),
        0 <= i <= j <= s.len(),
    ensures
        digits_value(s.take(i)) <= digits_value(s.take(j)),
    decreases j - i,
{
    if i < j {
        lemma_digits_value_prefix_monotone(s, i, j - 1);
        lemma_digits_value_step(s, j - 1);
        assert(all_digits(s.take(j - 1)));
        lemma_digits_value_nonneg(s.take(j - 1));
    }
}

/// A string of zeros has value zero.
pub proof fn lemma_zero_digits_value(s: Seq<char>)
    requires
        forall|j: int| 0 <= j < s.len() ==> #[trigger] s[j] == '0',
    ensures
        digits_value(s) == 0,
    decreases s.len(),
{
    if s.len() > 0 {
        lemma_zero_digits_value(s.drop_last());
    }
}

/// Powers of ten grow with the exponent.
pub proof fn lemma_pow10_monotone(a: nat, b: nat)
    requires
        a <= b,
    ensures
        1 <= pow10(a) <= pow10(b),
    decreases b,
{
    if a < b {
        lemma_pow10_monotone(a, (b - 1) as nat);
    } else if a > 0 {
        lemma_pow10_monotone((a - 1) as nat, (a - 1) as nat);
    }
}

/// `dot_position` is the first decimal point, found by scanning.
pub proof fn lemma_dot_position(m: Seq<char>, d: int)
    requires
        0 <= d <= m.len(),
        forall|j: int| 0 <= j < d ==> #[trigger] m[j] != '.',
        d == m.len() || m[d] == '.',
    ensures
        dot_position(m) == d,
    decreases d,
{
    if d > 0 {
        let r = m.skip(1);
        assert forall|j: int| 0 <= j < d - 1 implies #[trigger] r[j] != '.' by {
            assert(r[j] == m[j + 1]);
        }
        lemma_dot_position(r, d - 1);
    }
}

/// The first decimal point of a mantissa and the characters before it.
pub(crate) proof fn lemma_dot_position_facts(m: Seq<char>)
    ensures
        0 <= dot_position(m) <= m.len(),
        dot_position(m) < m.len() ==> m[dot_position(m)] == '.',
        forall|j: int| 0 <= j < dot_position(m) ==> #[trigger] m[j] != '.',
    decreases m.len(),
{
    if m.len() > 0 && m[0] != '.' {
        let r = m.skip(1);
        lemma_dot_position_facts(r);
        assert forall|j: int| 0 <= j < dot_position(m) implies #[trigger] m[j] != '.' by {
            if j > 0 {
                assert(m[j] == r[j - 1]);
            }
        }
    }
}

/// `exponent_position` is the first exponent marker, found by scanning.
pub proof fn lemma_exponent_position(u: Seq<char>, d: int)
    requires
        0 <= d <= u.len(),
        forall|j: int| 0 <= j < d ==> !is_exponent_marker(#[trigger] u[j]),
        d == u.len() || is_exponent_marker(u[d]),
    ensures
        exponent_position(u) == d,
    decreases d,
{
    if d > 0 {
        let r = u.skip(1);
        assert forall|j: int| 0 <= j < d - 1 implies !is_exponent_marker(#[trigger] r[j]) by {
            assert(r[j] == u[j + 1]);
        }
        lemma_exponent_position(r, d - 1);
    }
}

// ---------------------------------------------------------------------------
// Executable parsing
// ---------------------------------------------------------------------------

/// Returns the stable syntax label for a numeric target.
pub fn numeric_syntax(to: DataType) -> (label: &'static str)
    ensures
        label == numeric_syntax_label(to),
{
    match to {
        DataType::BigDecimal => "decimal number with optional exponent",
        DataType::Float32 | DataType::Float64 => "number",
        _ => "integer",
    }
}

/// Creates the contextual invalid numeric syntax error.
pub fn invalid_numeric_syntax(to: DataType) -> (error: DataConversionError)
    ensures
        error == numeric_syntax_error(to),
{
    DataConversionError::invalid(
        DataType::String,
        to,
        DataConversionErrorKind::InvalidSyntax { expected: numeric_syntax(to) },
    )
}

/// Splits an optional leading sign: whether it is negative and where the
/// unsigned remainder starts.
pub(crate) fn split_sign(chars: &Vec<char>) -> (split: (bool, usize))
    ensures
        split.0 == has_minus_sign(chars@),
        split.1 <= chars.len(),
        chars@.skip(split.1 as int) == strip_sign(chars@),
{
    if chars.len() > 0 && (chars[0] == '-' || chars[0] == '+') {
        (chars[0] == '-', 1)
    } else {
        assert(chars@.skip(0) =~= chars@);
        (false, 0)
    }
}

/// Tests whether the characters use the canonical integer grammar.
pub fn chars_are_integer_syntax(chars: &Vec<char>) -> (result: bool)
    ensures
        result == is_integer_text(chars@),
{
    let (_, start) = split_sign(chars);
    if start == chars.len() {
        return false;
    }
    let mut i = start;
    while i < chars.len()
        invariant
            start <= i <= chars.len(),
            chars@.skip(start as int) == strip_sign(chars@),
            forall|j: int| start <= j < i ==> is_ascii_digit(#[trigger] chars@[j]),
        decreases chars.len() - i,
    {
        if !char_is_ascii_digit(chars[i]) {
            assert(strip_sign(chars@)[i - start] == chars@[i as int]);
            return false;
        }
        i += 1;
    }
    assert forall|j: int| 0 <= j < strip_sign(chars@).len() implies is_ascii_digit(
        #[trigger] strip_sign(chars@)[j],
    ) by {
        assert(strip_sign(chars@)[j] == chars@[j + start]);
    }
    true
}

/// Tests whether text uses the canonical integer grammar: one or more ASCII
/// digits with an optional leading sign.
pub fn is_integer_syntax(value: &str) -> (result: bool)
    ensures
        result == is_integer_text(value@),
{
    chars_are_integer_syntax(&chars_of(value))
}

/// Reports whether text explicitly names a non-finite value.
pub fn is_explicit_non_finite(chars: &Vec<char>) -> (result: bool)
    ensures
        result == is_non_finite_name(chars@),
{
    chars_eq_ignore_ascii_case(chars, &chars_of("nan")) || chars_eq_ignore_ascii_case(
        chars,
        &chars_of("inf"),
    ) || chars_eq_ignore_ascii_case(chars, &chars_of("+inf")) || chars_eq_ignore_ascii_case(
        chars,
        &chars_of("-inf"),
    ) || chars_eq_ignore_ascii_case(chars, &chars_of("infinity")) || chars_eq_ignore_ascii_case(
        chars,
        &chars_of("+infinity"),
    ) || chars_eq_ignore_ascii_case(chars, &chars_of("-infinity"))
}

/// Finds the first exponent marker, or the length when there is none.
pub(crate) fn find_exponent(u: &Vec<char>) -> (position: usize)
    ensures
        position == exponent_position(u@),
        position <= u.len(),
{
    let mut i: usize = 0;
    while i < u.len() && !(u[i] == 'e' || u[i] == 'E')
        invariant
            i <= u.len(),
            forall|j: int| 0 <= j < i ==> !is_exponent_marker(#[trigger] u@[j]),
        decreases u.len() - i,
    {
        i += 1;
    }
    proof {
        lemma_exponent_position(u@, i as int);
    }
    i
}

/// Reads signed integer text as its sign and its magnitude, capped at 2^64.
fn signed_magnitude_capped(e: &Vec<char>) -> (parts: Option<(bool, u128)>)
    ensures
        parts is Some <==> is_valid_exponent(e@),
        parts matches Some(p) ==> {
            &&& p.0 == has_minus_sign(e@)
            &&& p.1 as int == (if digits_value(strip_sign(e@)) < 0x1_0000_0000_0000_0000 {
                digits_value(strip_sign(e@))
            } else {
                0x1_0000_0000_0000_0000
            })
            &&& digits_value(strip_sign(e@)) >= 0
        },
{
    let (negative, start) = split_sign(e);
    if start == e.len() {
        assert(strip_sign(e@).len() == 0);
        return None;
    }
    let ghost d = strip_sign(e@);
    let cap: u128 = 0x1_0000_0000_0000_0000;
    let mut acc: u128 = 0;
    let mut i = start;
    while i < e.len()
        invariant
            start <= i <= e.len(),
            d == e@.skip(start as int),
            d == strip_sign(e@),
            cap == 0x1_0000_0000_0000_0000,
            forall|j: int| start <= j < i ==> is_ascii_digit(#[trigger] e@[j]),
            acc <= cap,
            acc as int == (if digits_value(d.take(i - start)) < cap {
                digits_value(d.take(i - start))
            } else {
                cap as int
            }),
        decreases e.len() - i,
    {
        if !char_is_ascii_digit(e[i]) {
            assert(strip_sign(e@)[i - start] == e@[i as int]);
            return None;
        }
        let digit = char_digit_value(e[i]);
        proof {
            assert(d[i - start] == e@[i as int]);
            lemma_digits_value_step(d, i - start);
            assert(all_digits(d.take(i - start))) by {
                assert forall|j: int| 0 <= j < d.take(i - start).len() implies is_ascii_digit(
                    #[trigger] d.take(i - start)[j],
                ) by {
                    assert(d.take(i - start)[j] == e@[j + start]);
                }
            }
            lemma_digits_value_nonneg(d.take(i - start));
        }
        let next = acc * 10 + digit as u128;
        acc = if next < cap {
            next
        } else {
            cap
        };
        i += 1;
    }
    proof {
        assert(d.take(i - start) =~= d);
        assert forall|j: int| 0 <= j < d.len() implies is_ascii_digit(#[trigger] d[j]) by {
            assert(d[j] == e@[j + start]);
        }
        lemma_digits_value_nonneg(d);
    }
    Some((negative, acc))
}

/// Reads the exponent of decimal text, saturating at the bounds of `i64`.
fn parse_exponent(e: &Vec<char>) -> (exponent: Option<i64>)
    ensures
        exponent is Some <==> is_valid_exponent(e@),
        exponent matches Some(x) ==> x == clamp_i64(signed_digits_value(e@)),
{
    let (negative, acc) = match signed_magnitude_capped(e) {
        Some(parts) => parts,
        None => {
            return None;
        },
    };
    let limit: u128 = 0x8000_0000_0000_0000;
    if negative {
        if acc >= limit {
            Some(i64::MIN)
        } else {
            Some(-(acc as i64))
        }
    } else {
        if acc >= limit - 1 {
            Some(i64::MAX)
        } else {
            Some(acc as i64)
        }
    }
}

/// Integer text whose value fits in `i64`, as `i64`'s `FromStr` accepts it.
pub open spec fn is_i64_text(e: Seq<char>) -> bool {
    is_integer_text(e) && i64::MIN <= signed_digits_value(e) <= i64::MAX
}

/// Reads integer text as an `i64`, or `None` when it is not integer text or
/// its value does not fit.
pub(crate) fn parse_i64_text(e: &Vec<char>) -> (value: Option<i64>)
    ensures
        value is Some <==> is_i64_text(e@),
        value matches Some(x) ==> x == signed_digits_value(e@),
{
    let (negative, acc) = match signed_magnitude_capped(e) {
        Some(parts) => parts,
        None => {
            return None;
        },
    };
    if negative {
        if acc > 0x8000_0000_0000_0000 {
            None
        } else if acc == 0x8000_0000_0000_0000 {
            Some(i64::MIN)
        } else {
            Some(-(acc as i64))
        }
    } else if acc > 0x7fff_ffff_ffff_ffff {
        None
    } else {
        Some(acc as i64)
    }
}

/// Validates a mantissa; returns its digits and the index of its decimal
/// point (the number of digits before it).
pub(crate) fn analyze_mantissa(m: &Vec<char>) -> (analysis: Option<(Vec<char>, usize)>)
    ensures
        analysis is Some <==> is_valid_mantissa(m@),
        analysis matches Some(parts) ==> {
            &&& parts.0@ == mantissa_digits(m@)
            &&& parts.1 as int == dot_position(m@)
            &&& parts.1 <= parts.0.len()
            &&& all_digits(parts.0@)
        },
{
    let mut digits: Vec<char> = Vec::new();
    let mut seen = false;
    let mut dot: usize = 0;
    let mut i: usize = 0;
    while i < m.len()
        invariant
            i <= m.len(),
            forall|j: int| 0 <= j < i ==> (is_ascii_digit(#[trigger] m@[j]) || m@[j] == '.'),
            !seen ==> forall|j: int| 0 <= j < i ==> is_ascii_digit(#[trigger] m@[j]),
            !seen ==> digits@ == m@.take(i as int),
            seen ==> dot < i && m@[dot as int] == '.',
            seen ==> forall|j: int| 0 <= j < i && j != dot ==> is_ascii_digit(#[trigger] m@[j]),
            seen ==> digits@ == m@.take(dot as int) + m@.subrange(dot + 1, i as int),
            all_digits(digits@),
        decreases m.len() - i,
    {
        let c = m[i];
        if char_is_ascii_digit(c) {
            digits.push(c);
            proof {
                if seen {
                    assert(digits@ =~= m@.take(dot as int) + m@.subrange(dot + 1, i + 1));
                } else {
                    assert(digits@ =~= m@.take(i + 1));
                }
            }
        } else if c == '.' && !seen {
            seen = true;
            dot = i;
            assert(m@.subrange(dot + 1, i + 1) =~= Seq::<char>::empty());
            assert(digits@ =~= m@.take(dot as int) + m@.subrange(dot + 1, i + 1));
        } else {
            assert(!is_valid_mantissa(m@)) by {
                if c == '.' {
                    assert(m@[dot as int] == '.' && m@[i as int] == '.');
                }
            }
            return None;
        }
        i += 1;
    }
    if digits.len() == 0 {
        assert(!is_valid_mantissa(m@)) by {
            assert forall|j: int| 0 <= j < m@.len() implies !is_ascii_digit(#[trigger] m@[j]) by {
                if seen {
                    if j < dot {
                        assert(digits@[j] == m@[j]);
                    } else if j > dot {
                        assert(digits@[j - 1] == m@[j]);
                    }
                } else {
                    assert(digits@[j] == m@[j]);
                }
            }
        }
        return None;
    }
    proof {
        if seen {
            lemma_dot_position(m@, dot as int);
            assert(m@.subrange(dot + 1, m@.len() as int) =~= m@.skip(dot + 1));
            assert(is_ascii_digit(digits@[0]));
            let w: int = if dot > 0 { 0 } else { 1 };
            assert(is_ascii_digit(m@[w]));
        } else {
            lemma_dot_position(m@, m@.len() as int);
            assert(m@.take(m@.len() as int) =~= m@);
            assert(is_ascii_digit(m@[0]));
        }
    }
    let point = if seen { dot } else { m.len() };
    Some((digits, point))
}

/// Reports whether a significand digit at or after index `from`, the first
/// fractional digit, is non-zero.
fn fractional_part_is_non_zero(digits: &Vec<char>, from: usize) -> (result: bool)
    requires
        from <= digits.len(),
    ensures
        result == exists|j: int| from <= j < digits.len() && #[trigger] digits@[j] != '0',
{
    let mut i = from;
    while i < digits.len()
        invariant
            from <= i <= digits.len(),
            forall|j: int| from <= j < i ==> #[trigger] digits@[j] == '0',
        decreases digits.len() - i,
    {
        if digits[i] != '0' {
            return true;
        }
        i += 1;
    }
    false
}

/// Reports whether a digit before index `count` is non-zero.
fn has_nonzero_digit_before(digits: &Vec<char>, count: usize) -> (result: bool)
    requires
        count <= digits.len(),
    ensures
        result == exists|j: int| 0 <= j < count && #[trigger] digits@[j] != '0',
{
    let mut i: usize = 0;
    while i < count
        invariant
            i <= count <= digits.len(),
            forall|j: int| 0 <= j < i ==> #[trigger] digits@[j] == '0',
        decreases count - i,
    {
        if digits[i] != '0' {
            return true;
        }
        i += 1;
    }
    false
}

/// Accumulates the first `count` digits into a `u128`, or `None` when their
/// value exceeds `u128::MAX`.
fn parse_integer_magnitude(digits: &Vec<char>, count: usize) -> (magnitude: Option<u128>)
    requires
        count <= digits.len(),
        all_digits(digits@),
    ensures
        magnitude is Some <==> digits_value(digits@.take(count as int)) <= u128::MAX,
        magnitude matches Some(v) ==> v as int == digits_value(digits@.take(count as int)),
{
    let mut magnitude: u128 = 0;
    let mut i: usize = 0;
    assert(digits@.take(0) =~= Seq::<char>::empty());
    while i < count
        invariant
            i <= count <= digits.len(),
            all_digits(digits@),
            magnitude as int == digits_value(digits@.take(i as int)),
        decreases count - i,
    {
        let digit = char_digit_value(digits[i]);
        proof {
            lemma_digits_value_step(digits@, i as int);
        }
        match magnitude.checked_mul(10) {
            Some(scaled) => match scaled.checked_add(digit as u128) {
                Some(next) => {
                    magnitude = next;
                },
                None => {
                    proof {
                        lemma_digits_value_prefix_monotone(digits@, i + 1, count as int);
                    }
                    return None;
                },
            },
            None => {
                proof {
                    lemma_digits_value_prefix_monotone(digits@, i + 1, count as int);
                }
                return None;
            },
        }
        i += 1;
    }
    Some(magnitude)
}

/// Multiplies a non-zero magnitude by `10^zeros`, or `None` when the product
/// exceeds `u128::MAX`.
fn append_zeros(magnitude: u128, zeros: u128) -> (scaled: Option<u128>)
    requires
        magnitude > 0,
    ensures
        scaled is Some <==> magnitude * pow10(zeros as nat) <= u128::MAX,
        scaled matches Some(v) ==> v == magnitude * pow10(zeros as nat),
{
    let mut value = magnitude;
    let mut i: u128 = 0;
    assert(pow10(0) == 1);
    while i < zeros
        invariant
            i <= zeros,
            value == magnitude * pow10(i as nat),
        decreases zeros - i,
    {
        match value.checked_mul(10) {
            Some(next) => {
                value = next;
                assert(pow10((i + 1) as nat) == 10 * pow10(i as nat));
                assert(value == magnitude * pow10((i + 1) as nat)) by (nonlinear_arith)
                    requires
                        value == (magnitude * pow10(i as nat)) * 10,
                        pow10((i + 1) as nat) == 10 * pow10(i as nat),
                ;
            },
            None => {
                proof {
                    lemma_pow10_monotone((i + 1) as nat, zeros as nat);
                    assert(pow10((i + 1) as nat) == 10 * pow10(i as nat));
                    let a = pow10((i + 1) as nat);
                    let b = pow10(zeros as nat);
                    assert(magnitude * a <= magnitude * b) by (nonlinear_arith)
                        requires
                            a <= b,
                            magnitude > 0,
                    ;
                    assert(magnitude * a == value * 10) by (nonlinear_arith)
                        requires
                            value == magnitude * pow10(i as nat),
                            a == 10 * pow10(i as nat),
                    ;
                }
                return None;
            },
        }
        i += 1;
    }
    Some(value)
}

/// Splits unsigned decimal text at its first exponent marker into the
/// mantissa and the exponent value, which saturates at the bounds of `i64`;
/// no marker means a zero exponent.
fn split_exponent(unsigned: &Vec<char>, to: DataType) -> (parts: Result<
    (Vec<char>, i64),
    DataConversionError,
>)
    ensures
        parts is Ok <==> (has_exponent(unsigned@) ==> is_valid_exponent(exponent_text(unsigned@))),
        parts matches Err(error) ==> error == numeric_syntax_error(to),
        parts matches Ok(p) ==> p.0@ == mantissa_text(unsigned@) && p.1 as int == exponent_value(
            unsigned@,
        ),
{
    let position = find_exponent(unsigned);
    let mut exponent: i64 = 0;
    if position < unsigned.len() {
        let exponent_chars = copy_range(unsigned, position + 1, unsigned.len());
        assert(exponent_chars@ =~= exponent_text(unsigned@));
        match parse_exponent(&exponent_chars) {
            Some(x) => {
                exponent = x;
            },
            None => {
                return Err(invalid_numeric_syntax(to));
            },
        }
    }
    assert(exponent as int == exponent_value(unsigned@));
    let mantissa = copy_range(unsigned, 0, position);
    assert(mantissa@ =~= mantissa_text(unsigned@));
    Ok((mantissa, exponent))
}

/// Splits decimal text into its sign, significand digits and effective
/// decimal point position, or reports its syntax error.
fn decompose_decimal(chars: &Vec<char>, to: DataType) -> (parts: Result<
    (bool, Vec<char>, i128),
    DataConversionError,
>)
    ensures
        parts is Ok <==> is_decimal_text(chars@),
        parts matches Err(error) ==> error == numeric_syntax_error(to),
        parts matches Ok(p) ==> {
            &&& p.0 == has_minus_sign(chars@)
            &&& p.1@ == significand(chars@)
            &&& p.2 == point_position(chars@)
            &&& all_digits(p.1@)
        },
{
    let (negative, start) = split_sign(chars);
    if start == chars.len() {
        return Err(invalid_numeric_syntax(to));
    }
    let unsigned = copy_range(chars, start, chars.len());
    assert(unsigned@ == strip_sign(chars@)) by {
        assert(chars@.subrange(start as int, chars@.len() as int) =~= chars@.skip(start as int));
    }
    let (mantissa, exponent) = split_exponent(&unsigned, to)?;
    let (digits, point) = match analyze_mantissa(&mantissa) {
        Some(parts) => parts,
        None => {
            return Err(invalid_numeric_syntax(to));
        },
    };
    proof {
        lemma_dot_position_facts(mantissa@);
        assert forall|j: int| 0 <= j < digits@.len() implies is_ascii_digit(#[trigger] digits@[j]) by {
            let m = mantissa@;
            let d = dot_position(m);
            if d < m.len() {
                if j < d {
                    assert(digits@[j] == m[j]);
                } else {
                    assert(digits@[j] == m[j + 1]);
                    assert(m[d] == '.');
                    assert(j + 1 != d);
                    assert(is_ascii_digit(m[j + 1]) || m[j + 1] == '.');
                }
            } else {
                assert(digits@[j] == m[j]);
            }
        }
    }
    let shift: i128 = point as i128 + exponent as i128;
    Ok((negative, digits, shift))
}

/// Computes the truncated magnitude of a significand whose decimal point sits
/// at `shift`, or `None` when it exceeds `u128::MAX`.
#[verifier::spinoff_prover]
fn truncated_magnitude_of(digits: &Vec<char>, shift: i128) -> (magnitude: Option<u128>)
    requires
        all_digits(digits@),
    ensures
        magnitude is Some <==> truncated_value(digits@, shift as int) <= u128::MAX,
        magnitude matches Some(v) ==> v as int == truncated_value(digits@, shift as int),
{
    let n = digits.len();
    let count: usize = if shift <= 0 {
        0
    } else if shift < n as i128 {
        shift as usize
    } else {
        n
    };
    let ghost zeros_nat = zeros_at(n as int, shift as int);
    let magnitude = match parse_integer_magnitude(digits, count) {
        Some(v) => v,
        None => {
            proof {
                lemma_digits_value_nonneg(digits@.take(count as int));
                lemma_pow10_monotone(0, zeros_nat);
                let a = digits_value(digits@.take(count as int));
                let b = pow10(zeros_nat);
                assert(a * b >= a) by (nonlinear_arith)
                    requires
                        a >= 0,
                        b >= 1,
                ;
            }
            return None;
        },
    };
    if shift > n as i128 && magnitude != 0 {
        let zeros: u128 = (shift - n as i128) as u128;
        append_zeros(magnitude, zeros)
    } else {
        proof {
            if magnitude == 0 {
                assert(0 * pow10(zeros_nat) == 0);
            } else {
                assert(zeros_nat == 0);
                assert(pow10(0) == 1);
            }
        }
        Some(magnitude)
    }
}

/// Parses decimal text into a platform-independent integer intermediate:
/// whether it is negative and its magnitude.
///
/// Exact mode rejects a non-zero fractional part; lossy mode truncates
/// toward zero. Exponents are processed structurally (an exponent outside
/// `i64` saturates toward the matching bound), so extreme values are
/// rejected without allocating an exponent-sized buffer. A zero magnitude is
/// never negative.
pub fn parse_text_integer(value: &str, policy: NumericConversionPolicy, to: DataType) -> (result:
    Result<(bool, u128), DataConversionError>)
    ensures
        result == integer_text_result(value@, policy, to),
{
    let chars = chars_of(value);
    if is_explicit_non_finite(&chars) {
        return Err(DataConversionError::invalid(
            DataType::String,
            to,
            DataConversionErrorKind::NonFinite,
        ));
    }
    let (negative, digits, shift) = match decompose_decimal(&chars, to) {
        Ok(parts) => parts,
        Err(error) => {
            return Err(error);
        },
    };
    let n = digits.len();
    let count: usize = if shift <= 0 {
        0
    } else if shift < n as i128 {
        shift as usize
    } else {
        n
    };
    if policy == NumericConversionPolicy::Exact && fractional_part_is_non_zero(&digits, count) {
        return Err(DataConversionError::invalid(
            DataType::String,
            to,
            DataConversionErrorKind::PrecisionLoss,
        ));
    }
    match truncated_magnitude_of(&digits, shift) {
        Some(magnitude) => Ok((negative && magnitude != 0, magnitude)),
        None => Err(DataConversionError::invalid(
            DataType::String,
            to,
            DataConversionErrorKind::OutOfRange,
        )),
    }
}

/// Parses decimal text into an arbitrary-precision integer.
///
/// Exact mode rejects a non-zero fractional part; lossy mode truncates toward
/// zero. A result longer than [`MAX_BIG_INTEGER_DIGITS`] decimal digits is
/// rejected as out of range before any digit is accumulated, unless it is
/// zero.
pub fn parse_text_bigint(value: &str, policy: NumericConversionPolicy, to: DataType) -> (result:
    Result<BigInteger, DataConversionError>)
    ensures
        match big_integer_text_result(value@, policy, to) {
            Ok(v) => result matches Ok(b) && b@ == v,
            Err(e) => result == Err::<BigInteger, DataConversionError>(e),
        },
{
    let chars = chars_of(value);
    if is_explicit_non_finite(&chars) {
        return Err(DataConversionError::invalid(
            DataType::String,
            to,
            DataConversionErrorKind::NonFinite,
        ));
    }
    let (negative, digits, shift) = match decompose_decimal(&chars, to) {
        Ok(parts) => parts,
        Err(error) => {
            return Err(error);
        },
    };
    let n = digits.len();
    let count: usize = if shift <= 0 {
        0
    } else if shift < n as i128 {
        shift as usize
    } else {
        n
    };
    if policy == NumericConversionPolicy::Exact && fractional_part_is_non_zero(&digits, count) {
        return Err(DataConversionError::invalid(
            DataType::String,
            to,
            DataConversionErrorKind::PrecisionLoss,
        ));
    }
    let zeros: i128 = if shift > n as i128 {
        shift - n as i128
    } else {
        0
    };
    let result_digits: i128 = count as i128 + zeros;
    if has_nonzero_digit_before(&digits, n) && result_digits > MAX_BIG_INTEGER_DIGITS as i128 {
        return Err(DataConversionError::invalid(
            DataType::String,
            to,
            DataConversionErrorKind::OutOfRange,
        ));
    }
    let ghost p = shift as int;
    let ghost tv = truncated_value(digits@, p);
    if !has_nonzero_digit_before(&digits, count) {
        proof {
            lemma_zero_digits_value(digits@.take(count as int));
            let z = pow10(zeros_at(n as int, p));
            assert(0 * z == 0) by (nonlinear_arith);
            assert(tv == 0);
        }
        return Ok(BigInteger::zero());
    }
    proof {
        let j = choose|j: int| 0 <= j < count && #[trigger] digits@[j] != '0';
        assert(0 <= j < digits.len() && digits@[j] != '0');
        assert(zeros <= MAX_BIG_INTEGER_DIGITS);
    }
    let prefix = string_from_chars(&copy_range(&digits, 0, count));
    assert(prefix@ =~= digits@.take(count as int));
    let mut magnitude = magnitude_from_decimal(prefix.as_str());
    let ghost head = limbs_value(magnitude@);
    assert(zeros_at(n as int, p) == zeros);
    assert(count == integer_digits_at(n as int, p));
    assert(head == digits_value(digits@.take(count as int)));
    assert(tv == head * pow10(zeros as nat));
    if zeros > 0 {
        magnitude = magnitude_times_pow10(&magnitude, zeros as u64);
        assert(limbs_value(magnitude@) == head * pow10(zeros as nat));
    } else {
        assert(zeros == 0);
        assert(pow10(0) == 1);
        proof {
            let z = pow10(zeros as nat);
            assert(head * z == head) by (nonlinear_arith)
                requires
                    z == 1,
            ;
        }
    }
    assert(limbs_value(magnitude@) == tv);
    Ok(BigInteger::from_parts(negative, magnitude))
}

} // verus!
