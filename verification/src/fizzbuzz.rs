//! The fizzbuzz rule, together with a verified decimal rendering of
//! numbers for the fall-through branch.

use vstd::prelude::*;
use vstd::string::StringExecFns;

verus! {

/// The character for one decimal digit.
pub open spec fn digit_char(d: int) -> char {
    if d == 0 {
        '0'
    } else if d == 1 {
        '1'
    } else if d == 2 {
        '2'
    } else if d == 3 {
        '3'
    } else if d == 4 {
        '4'
    } else if d == 5 {
        '5'
    } else if d == 6 {
        '6'
    } else if d == 7 {
        '7'
    } else if d == 8 {
        '8'
    } else {
        '9'
    }
}

/// The decimal rendering of a number: its digits, most significant
/// first, with no sign and no leading zero except for zero itself.
pub open spec fn dec_digits(n: nat) -> Seq<char>
    decreases n,
{
    if n < 10 {
        seq![digit_char(n as int)]
    } else {
        dec_digits(n / 10) + seq![digit_char((n % 10) as int)]
    }
}

/// The one-character slice for a digit below ten.
fn digit_str(d: usize) -> (r: &'static str)
    requires
        d < 10,
    ensures
        r@ == seq![digit_char(d as int)],
{
    proof {
        reveal_strlit("0");
        reveal_strlit("1");
        reveal_strlit("2");
        reveal_strlit("3");
        reveal_strlit("4");
        reveal_strlit("5");
        reveal_strlit("6");
        reveal_strlit("7");
        reveal_strlit("8");
        reveal_strlit("9");
    }
    let r: &'static str = if d == 0 {
        "0"
    } else if d == 1 {
        "1"
    } else if d == 2 {
        "2"
    } else if d == 3 {
        "3"
    } else if d == 4 {
        "4"
    } else if d == 5 {
        "5"
    } else if d == 6 {
        "6"
    } else if d == 7 {
        "7"
    } else if d == 8 {
        "8"
    } else {
        "9"
    };
    proof {
        assert(r@ =~= seq![digit_char(d as int)]);
    }
    r
}

/// Appends the decimal rendering of `n` to the string.
pub fn push_decimal(s: &mut String, n: usize)
    ensures
        final(s)@ == old(s)@ + dec_digits(n as nat),
    decreases n,
{
    if n >= 10 {
        push_decimal(s, n / 10);
    }
    s.append(digit_str(n % 10));
    proof {
        assert(s@ =~= old(s)@ + dec_digits(n as nat));
    }
}

/// What fizzbuzz prints for a number: "fizzbuzz" on multiples of both
/// three and five, "fizz" on multiples of three, "buzz" on multiples of
/// five, and the decimal rendering otherwise.
pub open spec fn spec_fizzbuzz(a: nat) -> Seq<char> {
    if a % 3 == 0 && a % 5 == 0 {
        "fizzbuzz"@
    } else if a % 3 == 0 {
        "fizz"@
    } else if a % 5 == 0 {
        "buzz"@
    } else {
        dec_digits(a)
    }
}

/// The fizzbuzz answer for one number.
pub fn fizzbuzz(a: usize) -> (r: String)
    ensures
        r@ == spec_fizzbuzz(a as nat),
{
    if a % 3 == 0 && a % 5 == 0 {
        "fizzbuzz".to_owned()
    } else if a % 3 == 0 {
        "fizz".to_owned()
    } else if a % 5 == 0 {
        "buzz".to_owned()
    } else {
        let mut s = String::new();
        push_decimal(&mut s, a);
        proof {
            assert(s@ =~= dec_digits(a as nat));
        }
        s
    }
}

} // verus!
