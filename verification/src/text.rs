//! Decimal rendering of numbers for human-readable messages.

use vstd::prelude::*;

verus! {

/// The decimal digits of `value`, most significant first.
pub open spec fn decimal_chars(value: nat) -> Seq<char>
    decreases value,
{
    if value < 10 {
        seq![((48 + value) as u8) as char]
    } else {
        decimal_chars(value / 10).push(((48 + value % 10) as u8) as char)
    }
}

/// The one-character string of an ASCII digit.
pub(crate) fn digit_str(digit: u8) -> (r: &'static str)
    requires
        digit <= 9,
    ensures
        r@.len() == 1,
        r@[0] as int == 48 + digit,
{
    proof {
        reveal_strlit("0");
        reveal_strlit("1");
        reveal_strlit("2");
        reveal_strlit("3");
        reveal_strlit("4");
        reveal_strlit("5");
        reveal_strlit("6");
        reveal_strlit("7");
        reveal_strlit("8");
        reveal_strlit("9");
    }
    match digit {
        0 => "0",
        1 => "1",
        2 => "2",
        3 => "3",
        4 => "4",
        5 => "5",
        6 => "6",
        7 => "7",
        8 => "8",
        _ => "9",
    }
}

/// The decimal digits of `value`, most significant first, as a string.
pub(crate) fn decimal_string(value: u64) -> (r: String)
    ensures
        r@ == decimal_chars(value as nat),
    decreases value,
{
    if value < 10 {
        let digit = digit_str(value as u8);
        let text = String::from_str(digit);
        proof {
            assert(text@ =~= seq![((48 + value) as u8) as char]);
        }
        text
    } else {
        let mut text = decimal_string(value / 10);
        let ghost front = text@;
        let digit = digit_str((value % 10) as u8);
        text.append(digit);
        proof {
            assert(text@ =~= front.push(((48 + value % 10) as u8) as char));
        }
        text
    }
}

/// `prefix` followed by the decimal digits of `value`.
pub(crate) fn with_number(prefix: &str, value: u64) -> (r: String)
    ensures
        r@ == prefix@ + decimal_chars(value as nat),
{
    let mut text = String::from_str(prefix);
    let digits = decimal_string(value);
    text.append(digits.as_str());
    text
}

} // verus!
