//! Decimal rendering of port numbers.

use vstd::prelude::*;
use vstd::string::StringExecFns;

verus! {

/// The ten decimal digit characters.
pub open spec fn dec_digit(n: int) -> char
    recommends
        0 <= n < 10,
{
    seq!['0', '1', '2', '3', '4', '5', '6', '7', '8', '9'][n]
}

/// The decimal digits of a non-negative number, most significant first,
/// with no leading zero except for the number zero itself.
pub open spec fn dec_digits(n: int) -> Seq<char>
    recommends
        0 <= n,
    decreases n,
{
    if n <= 9 {
        seq![dec_digit(n)]
    } else {
        dec_digits(n / 10) + seq![dec_digit(n % 10)]
    }
}

/// One decimal digit as text.
fn digit_str(n: u16) -> (r: &'static str)
    requires
        n <= 9,
    ensures
        r@ == seq![dec_digit(n as int)],
{
    let r = match n {
        0 => "0",
        1 => "1",
        2 => "2",
        3 => "3",
        4 => "4",
        5 => "5",
        6 => "6",
        7 => "7",
        8 => "8",
        _ => "9",
    };
    proof {
        reveal_strlit("0");
        reveal_strlit("1");
        reveal_strlit("2");
        reveal_strlit("3");
        reveal_strlit("4");
        reveal_strlit("5");
        reveal_strlit("6");
        reveal_strlit("7");
        reveal_strlit("8");
        reveal_strlit("9");
        assert(r@ =~= seq![dec_digit(n as int)]);
    }
    r
}

/// Render a number as its decimal digits.
pub fn u16_to_string(n: u16) -> (r: String)
    ensures
        r@ == dec_digits(n as int),
    decreases n,
{
    if n <= 9 {
        String::from_str(digit_str(n))
    } else {
        let prefix = u16_to_string(n / 10);
        prefix.concat(digit_str(n % 10))
    }
}

} // verus!
