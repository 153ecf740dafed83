//! Canonical decimal text of integers.

use vstd::prelude::*;

verus! {

/// The ASCII digit of a value below ten.
pub open spec fn digit_char(d: nat) -> char {
    ((d + '0' as nat) as u32) as char
}

/// The canonical decimal digits of a natural number, most significant first,
/// without leading zeros ("0" for zero).
pub open spec fn decimal_digits(n: nat) -> Seq<char>
    decreases n,
{
    if n < 10 {
        seq![digit_char(n)]
    } else {
        decimal_digits(n / 10).push(digit_char(n % 10))
    }
}

/// The canonical decimal text of an integer, with a leading `-` when negative.
pub open spec fn decimal_text(v: int) -> Seq<char> {
    if v < 0 {
        seq!['-'] + decimal_digits((-v) as nat)
    } else {
        decimal_digits(v as nat)
    }
}

/// Builds a `String` holding exactly the given characters (std's
/// `FromIterator<char> for String`, which collects them in order).
#[verifier::external_body]
pub(crate) fn string_from_chars(chars: &Vec<char>) -> (text: String)
    ensures
        text@ == chars@,
{
    chars.iter().collect()
}

/// The decimal digits of `n`, most significant first.
pub fn decimal_chars(n: u128) -> (chars: Vec<char>)
    ensures
        chars@ == decimal_digits(n as nat),
{
    // Collect the digits least significant first, then reverse them.
    let mut reversed: Vec<char> = Vec::new();
    let mut rest = n;
    loop
        invariant_except_break
            decimal_digits(n as nat) == decimal_digits(rest as nat) + reversed@.reverse(),
        ensures
            decimal_digits(n as nat) == reversed@.reverse(),
        decreases rest,
    {
        let digit = (rest % 10) as u32;
        let c = (digit as u8 + 48u8) as char;
        assert(c == digit_char((rest % 10) as nat));
        if rest < 10 {
            let ghost before = reversed@;
            reversed.push(c);
            assert(reversed@.reverse() =~= seq![c] + before.reverse());
            break;
        }
        let ghost before = reversed@;
        reversed.push(c);
        proof {
            assert(reversed@.reverse() =~= seq![c] + before.reverse());
            assert(decimal_digits(rest as nat) == decimal_digits((rest / 10) as nat).push(c));
            assert(decimal_digits((rest / 10) as nat).push(c) + before.reverse() =~= decimal_digits(
                (rest / 10) as nat,
            ) + (seq![c] + before.reverse()));
        }
        rest = rest / 10;
    }
    let mut chars: Vec<char> = Vec::new();
    let mut i = reversed.len();
    while i > 0
        invariant
            i <= reversed.len(),
            chars@ == reversed@.reverse().take(reversed.len() - i),
        decreases i,
    {
        i -= 1;
        chars.push(reversed[i]);
        assert(chars@ =~= reversed@.reverse().take(reversed.len() - i));
    }
    assert(reversed@.reverse().take(reversed.len() as int) =~= reversed@.reverse());
    chars
}

/// Formats an unsigned integer in canonical decimal.
pub fn u128_to_text(n: u128) -> (text: String)
    ensures
        text@ == decimal_text(n as int),
{
    string_from_chars(&decimal_chars(n))
}

/// Formats a signed integer in canonical decimal.
pub fn i128_to_text(v: i128) -> (text: String)
    ensures
        text@ == decimal_text(v as int),
{
    if v < 0 {
        let magnitude: u128 = if v == i128::MIN {
            0x8000_0000_0000_0000_0000_0000_0000_0000
        } else {
            (-v) as u128
        };
        let mut chars: Vec<char> = vec!['-'];
        let digits = decimal_chars(magnitude);
        let mut i: usize = 0;
        while i < digits.len()
            invariant
                i <= digits.len(),
                chars@ == seq!['-'] + digits@.take(i as int),
            decreases digits.len() - i,
        {
            chars.push(digits[i]);
            i += 1;
            assert(chars@ =~= seq!['-'] + digits@.take(i as int));
        }
        assert(digits@.take(digits.len() as int) =~= digits@);
        string_from_chars(&chars)
    } else {
        string_from_chars(&decimal_chars(v as u128))
    }
}

} // verus!
