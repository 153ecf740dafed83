//! Arbitrary-precision integers held as a sign and base-2^32 digits, with the
//! arithmetic that `num-bigint` performs on their magnitudes.

use num_bigint::BigUint;
use num_traits::Pow;
use vstd::prelude::*;

use crate::decimal::decimal_digits;
use crate::numeric_text::pow10;
use crate::text::{all_digits, digits_value};

verus! {

/// The radix of a magnitude's digits.
pub open spec fn limb_radix() -> nat {
    4294967296
}

/// The value of base-2^32 digits ordered least significant first.
pub open spec fn limbs_value(limbs: Seq<u32>) -> nat
    decreases limbs.len(),
{
    if limbs.len() == 0 {
        0
    } else {
        limbs[0] as nat + limb_radix() * limbs_value(limbs.drop_first())
    }
}

/// The integer a sign and a magnitude denote; a zero magnitude is zero
/// whatever the sign.
pub open spec fn sign_value(negative: bool, magnitude: nat) -> int {
    if negative {
        -(magnitude as int)
    } else {
        magnitude as int
    }
}

/// The absolute value of an integer.
pub open spec fn abs(v: int) -> nat {
    if v < 0 {
        (-v) as nat
    } else {
        v as nat
    }
}

/// An arbitrary-precision integer: a sign and the base-2^32 digits of its
/// magnitude, least significant first, the representation `num-bigint` uses.
#[derive(Clone, Debug, PartialEq, Eq)]
pub struct BigInteger {
    pub(crate) negative: bool,
    pub(crate) magnitude: Vec<u32>,
}

impl BigInteger {
    /// The integer this value denotes.
    pub closed spec fn value(&self) -> int {
        sign_value(self.negative, limbs_value(self.magnitude@))
    }
}

impl View for BigInteger {
    type V = int;

    open spec fn view(&self) -> int {
        self.value()
    }
}

/// Dropping a most significant zero digit keeps the value.
proof fn lemma_trailing_zero(s: Seq<u32>)
    requires
        s.len() > 0,
        s.last() == 0,
    ensures
        limbs_value(s) == limbs_value(s.drop_last()),
    decreases s.len(),
{
    if s.len() == 1 {
        assert(s[0] == s.last());
        assert(limbs_value(s.drop_first()) == 0);
        assert(s.drop_last().len() == 0);
    } else {
        lemma_trailing_zero(s.drop_first());
        assert(s.drop_first().drop_last() =~= s.drop_last().drop_first());
        assert(s.drop_last()[0] == s[0]);
        assert(limbs_value(s.drop_last()) == s[0] as nat + limb_radix() * limbs_value(
            s.drop_last().drop_first(),
        ));
    }
}

/// A value is at least the value of any suffix of its digits.
proof fn lemma_value_at_least_suffix(s: Seq<u32>, i: int)
    requires
        0 <= i <= s.len(),
    ensures
        limbs_value(s) >= limbs_value(s.skip(i)),
    decreases i,
{
    if i > 0 {
        lemma_value_at_least_suffix(s.drop_first(), i - 1);
        assert(s.drop_first().skip(i - 1) =~= s.skip(i));
    } else {
        assert(s.skip(0) =~= s);
    }
}

/// Base-2^32 digits of a magnitude, least significant first: `num-bigint`'s
/// `BigUint::to_u32_digits` on the value `BigUint::from_str` parses from
/// decimal digits. The contract claims that the digits denote the decimal
/// value.
#[verifier::external_body]
pub(crate) fn magnitude_from_decimal(digits: &str) -> (magnitude: Vec<u32>)
    requires
        digits@.len() > 0,
        all_digits(digits@),
    ensures
        limbs_value(magnitude@) == digits_value(digits@),
{
    match digits.parse::<BigUint>() {
        Ok(value) => value.to_u32_digits(),
        Err(_) => Vec::new(),
    }
}

/// Canonical decimal digits of a magnitude: `num-bigint`'s
/// `BigUint::to_str_radix` with radix 10 on `BigUint::new(magnitude)`. The
/// contract claims the digits without leading zeros, `"0"` for zero.
#[verifier::external_body]
fn magnitude_to_decimal(magnitude: &Vec<u32>) -> (digits: String)
    ensures
        digits@ == decimal_digits(limbs_value(magnitude@)),
{
    BigUint::new(magnitude.clone()).to_str_radix(10)
}

/// A magnitude multiplied by a power of ten: `num-bigint`'s `BigUint`
/// multiplication by `Pow::pow` of ten. The contract claims the product.
#[verifier::external_body]
pub(crate) fn magnitude_times_pow10(magnitude: &Vec<u32>, exponent: u64) -> (product: Vec<u32>)
    ensures
        limbs_value(product@) == limbs_value(magnitude@) * pow10(exponent as nat),
{
    let scaled = BigUint::new(magnitude.clone()) * Pow::pow(BigUint::from(10u8), exponent);
    scaled.to_u32_digits()
}

/// A magnitude divided by a power of ten: `num-bigint`'s `BigUint` `/` and
/// `%` by `Pow::pow` of ten. The contract claims the quotient, rounded down,
/// and the remainder, each as base-2^32 digits.
#[verifier::external_body]
pub(crate) fn magnitude_div_pow10(magnitude: &Vec<u32>, exponent: u64) -> (parts: (Vec<u32>, Vec<u32>))
    ensures
        limbs_value(parts.0@) == limbs_value(magnitude@) / pow10(exponent as nat),
        limbs_value(parts.1@) == limbs_value(magnitude@) % pow10(exponent as nat),
{
    let value = BigUint::new(magnitude.clone());
    let divisor = Pow::pow(BigUint::from(10u8), exponent);
    ((&value / &divisor).to_u32_digits(), (&value % &divisor).to_u32_digits())
}

/// Number of decimal digits of a magnitude ("0" counts one).
pub(crate) fn magnitude_digit_count(magnitude: &Vec<u32>) -> (count: usize)
    ensures
        count == decimal_digits(limbs_value(magnitude@)).len(),
{
    magnitude_to_decimal(magnitude).as_str().unicode_len()
}

impl BigInteger {
    /// Builds a value from its sign and the base-2^32 digits of its
    /// magnitude, least significant first.
    pub fn from_parts(negative: bool, magnitude: Vec<u32>) -> (value: BigInteger)
        ensures
            value@ == sign_value(negative, limbs_value(magnitude@)),
    {
        let mut magnitude = magnitude;
        let ghost initial = magnitude@;
        while magnitude.len() > 0 && magnitude[magnitude.len() - 1] == 0
            invariant
                limbs_value(magnitude@) == limbs_value(initial),
            decreases magnitude.len(),
        {
            proof {
                lemma_trailing_zero(magnitude@);
            }
            magnitude.pop();
        }
        let negative = negative && magnitude.len() > 0;
        proof {
            if magnitude.len() == 0 {
                assert(limbs_value(magnitude@) == 0);
            }
        }
        BigInteger { negative, magnitude }
    }

    /// Zero.
    pub fn zero() -> (value: BigInteger)
        ensures
            value@ == 0,
    {
        BigInteger { negative: false, magnitude: Vec::new() }
    }

    /// The integer with the given sign and magnitude.
    pub fn from_sign_magnitude(negative: bool, magnitude: u128) -> (value: BigInteger)
        ensures
            value@ == sign_value(negative, magnitude as nat),
    {
        let d0 = (magnitude % 4294967296) as u32;
        let r1 = magnitude / 4294967296;
        let d1 = (r1 % 4294967296) as u32;
        let r2 = r1 / 4294967296;
        let d2 = (r2 % 4294967296) as u32;
        let d3 = (r2 / 4294967296) as u32;
        let digits: Vec<u32> = vec![d0, d1, d2, d3];
        proof {
            let s = digits@;
            let s3 = s.drop_first().drop_first().drop_first();
            assert(s3.len() == 1 && s3[0] == d3);
            assert(limbs_value(s3.drop_first()) == 0);
            assert(limbs_value(s3) == d3 as nat);
            assert(limbs_value(s.drop_first().drop_first()) == d2 + limb_radix() * d3);
            assert(limbs_value(s.drop_first()) == d1 + limb_radix() * (d2 + limb_radix() * d3));
            assert(limbs_value(s) == d0 + limb_radix() * (d1 + limb_radix() * (d2 + limb_radix()
                * d3)));
            assert(r2 == d2 + 4294967296 * d3);
            assert(r1 == d1 + 4294967296 * r2);
            assert(magnitude == d0 + 4294967296 * r1);
        }
        BigInteger::from_parts(negative, digits)
    }

    /// The integer an `i128` holds.
    pub fn from_i128(value: i128) -> (result: BigInteger)
        ensures
            result@ == value as int,
    {
        if value < 0 {
            let magnitude: u128 = if value == i128::MIN {
                0x8000_0000_0000_0000_0000_0000_0000_0000
            } else {
                (-value) as u128
            };
            BigInteger::from_sign_magnitude(true, magnitude)
        } else {
            BigInteger::from_sign_magnitude(false, value as u128)
        }
    }

    /// The magnitude when it fits in `u128`.
    pub fn magnitude_u128(&self) -> (magnitude: Option<u128>)
        ensures
            magnitude is Some <==> abs(self@) <= u128::MAX,
            magnitude matches Some(m) ==> m == abs(self@),
    {
        let digits = &self.magnitude;
        let mut acc: u128 = 0;
        let mut i = digits.len();
        while i > 0
            invariant
                i <= digits.len(),
                digits@ == self.magnitude@,
                acc == limbs_value(digits@.skip(i as int)),
            decreases i,
        {
            let ghost before = digits@.skip(i as int);
            i -= 1;
            assert(digits@.skip(i as int).drop_first() =~= before);
            assert(limbs_value(digits@.skip(i as int)) == digits[i as int] as nat + limb_radix()
                * acc);
            let high = match acc.checked_mul(4294967296) {
                Some(h) => h,
                None => {
                    proof {
                        assert(limb_radix() * acc > u128::MAX);
                        assert(limbs_value(digits@.skip(i as int)) > u128::MAX);
                        lemma_value_at_least_suffix(digits@, i as int);
                    }
                    return None;
                },
            };
            match high.checked_add(digits[i] as u128) {
                Some(next) => {
                    assert(limb_radix() * acc == high);
                    acc = next;
                },
                None => {
                    proof {
                        assert(limb_radix() * acc == high);
                        assert(limbs_value(digits@.skip(i as int)) > u128::MAX);
                        lemma_value_at_least_suffix(digits@, i as int);
                    }
                    return None;
                },
            }
        }
        assert(digits@.skip(0) =~= digits@);
        Some(acc)
    }

    /// Whether the value is zero.
    pub fn is_zero(&self) -> (zero: bool)
        ensures
            zero == (self@ == 0),
    {
        match self.magnitude_u128() {
            Some(0) => true,
            _ => false,
        }
    }

    /// Whether the value is below zero.
    pub fn is_negative(&self) -> (negative: bool)
        ensures
            negative == (self@ < 0),
    {
        match self.magnitude_u128() {
            Some(0) => false,
            _ => self.negative,
        }
    }

    /// The sign and the base-2^32 digits of the magnitude, least significant
    /// first.
    pub fn to_parts(&self) -> (parts: (bool, Vec<u32>))
        ensures
            sign_value(parts.0, limbs_value(parts.1@)) == self@,
    {
        let mut digits: Vec<u32> = Vec::new();
        let mut i: usize = 0;
        while i < self.magnitude.len()
            invariant
                i <= self.magnitude.len(),
                digits@ == self.magnitude@.take(i as int),
            decreases self.magnitude.len() - i,
        {
            digits.push(self.magnitude[i]);
            i += 1;
            assert(digits@ =~= self.magnitude@.take(i as int));
        }
        assert(self.magnitude@.take(self.magnitude.len() as int) =~= self.magnitude@);
        (self.negative, digits)
    }

    /// A copy of this value.
    pub fn clone_value(&self) -> (copy: BigInteger)
        ensures
            copy@ == self@,
    {
        let (negative, magnitude) = self.to_parts();
        BigInteger { negative, magnitude }
    }

    /// Formats the value in canonical decimal, with a leading `-` when it is
    /// negative.
    pub fn to_decimal_string(&self) -> (text: String)
        ensures
            text@ == crate::decimal::decimal_text(self@),
    {
        let digits = magnitude_to_decimal(&self.magnitude);
        if self.is_negative() {
            let mut text = String::from_str("-");
            text.append(digits.as_str());
            proof {
                reveal_strlit("-");
            }
            text
        } else {
            digits
        }
    }
}

} // verus!
