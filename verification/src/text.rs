//! Building strings: the decimal form of integers, and joining pieces of text.

use vstd::prelude::*;

verus! {

/// Appends `tail` to `buffer` with `String::push_str` of std, which puts the
/// given slice at the end of the string and leaves what was there in place.
#[verifier::external_body]
pub(crate) fn push_text(buffer: &mut String, tail: &str)
    ensures
        final(buffer)@ == old(buffer)@ + tail@,
{
    buffer.push_str(tail)
}

/// Appends one character to `buffer` with `String::push` of std, which puts
/// the character at the end of the string.
#[verifier::external_body]
pub(crate) fn push_char(buffer: &mut String, c: char)
    ensures
        final(buffer)@ == old(buffer)@.push(c),
{
    buffer.push(c)
}

/// The character that writes the decimal digit `d`.
pub open spec fn digit_char(d: int) -> char {
    if d == 0 {
        '0'
    } else if d == 1 {
        '1'
    } else if d == 2 {
        '2'
    } else if d == 3 {
        '3'
    } else if d == 4 {
        '4'
    } else if d == 5 {
        '5'
    } else if d == 6 {
        '6'
    } else if d == 7 {
        '7'
    } else if d == 8 {
        '8'
    } else {
        '9'
    }
}

/// The decimal digits of a natural number, most significant first, without
/// leading zeros; zero is written `0`.
pub open spec fn nat_text(n: nat) -> Seq<char>
    decreases n,
{
    if n < 10 {
        seq![digit_char(n as int)]
    } else {
        nat_text(n / 10).push(digit_char((n % 10) as int))
    }
}

/// The decimal form of an integer: its digits, with `-` in front of a
/// negative number.
pub open spec fn int_text(i: int) -> Seq<char> {
    if i < 0 {
        seq!['-'] + nat_text((-i) as nat)
    } else {
        nat_text(i as nat)
    }
}

/// The digits that are still to be written in front of those already taken
/// from a number: none once the number has been used up.
spec fn leading_digits(rest: nat) -> Seq<char> {
    if rest == 0 {
        Seq::empty()
    } else {
        nat_text(rest)
    }
}

fn digit_of(d: u64) -> (c: char)
    requires
        d < 10,
    ensures
        c == digit_char(d as int),
{
    if d == 0 {
        '0'
    } else if d == 1 {
        '1'
    } else if d == 2 {
        '2'
    } else if d == 3 {
        '3'
    } else if d == 4 {
        '4'
    } else if d == 5 {
        '5'
    } else if d == 6 {
        '6'
    } else if d == 7 {
        '7'
    } else if d == 8 {
        '8'
    } else {
        '9'
    }
}

/// Appends the decimal digits of `n` to `buffer`.
fn push_nat(buffer: &mut String, n: u64)
    ensures
        final(buffer)@ == old(buffer)@ + nat_text(n as nat),
{
    let mut digits: Vec<char> = Vec::new();
    digits.push(digit_of(n % 10));
    let mut rest: u64 = n / 10;
    while rest > 0
        invariant
            digits@.len() >= 1,
            nat_text(n as nat) == leading_digits(rest as nat) + digits@.reverse(),
        decreases rest,
    {
        let ghost before = digits@;
        digits.push(digit_of(rest % 10));
        proof {
            assert(digits@.reverse() =~= seq![digit_char((rest % 10) as int)] + before.reverse());
            assert(leading_digits(rest as nat) =~= leading_digits((rest / 10) as nat) + seq![
                digit_char((rest % 10) as int),
            ]);
            assert(nat_text(n as nat) =~= leading_digits((rest / 10) as nat) + digits@.reverse());
        }
        rest = rest / 10;
    }
    let mut left: usize = digits.len();
    while left > 0
        invariant
            left <= digits@.len(),
            buffer@ == old(buffer)@ + digits@.reverse().subrange(0, digits@.len() - left),
        decreases left,
    {
        let ghost before = buffer@;
        left = left - 1;
        push_char(buffer, digits[left]);
        proof {
            let written = digits@.len() - left;
            assert(digits@.reverse().subrange(0, written) =~= digits@.reverse().subrange(
                0,
                written - 1,
            ).push(digits@[left as int]));
        }
    }
    proof {
        assert(digits@.reverse().subrange(0, digits@.len() as int) =~= digits@.reverse());
    }
}

/// Appends the decimal form of `i` to `buffer`.
pub fn push_int(buffer: &mut String, i: i64)
    ensures
        final(buffer)@ == old(buffer)@ + int_text(i as int),
{
    if i < 0 {
        let magnitude: u64 = if i == i64::MIN {
            9223372036854775808u64
        } else {
            (-i) as u64
        };
        let ghost before = buffer@;
        push_char(buffer, '-');
        push_nat(buffer, magnitude);
        proof {
            assert(buffer@ =~= before + (seq!['-'] + nat_text(magnitude as nat)));
        }
    } else {
        push_nat(buffer, i as u64);
    }
}

/// The decimal form of `i` as a string of its own.
pub fn int_to_string(i: i64) -> (s: String)
    ensures
        s@ == int_text(i as int),
{
    let mut s = String::new();
    push_int(&mut s, i);
    proof {
        assert(s@ =~= int_text(i as int));
    }
    s
}

} // verus!
