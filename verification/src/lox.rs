//! Line-addressed diagnostic formatting: turns a line number and a message
//! into the single report line that a driver presents to the user.

use vstd::prelude::*;

verus! {

/// The decimal digit character for a value below ten.
pub open spec fn digit_char(d: int) -> char {
    if d == 0 {
        '0'
    } else if d == 1 {
        '1'
    } else if d == 2 {
        '2'
    } else if d == 3 {
        '3'
    } else if d == 4 {
        '4'
    } else if d == 5 {
        '5'
    } else if d == 6 {
        '6'
    } else if d == 7 {
        '7'
    } else if d == 8 {
        '8'
    } else {
        '9'
    }
}

/// The usual decimal rendering of a non-negative integer: most significant
/// digit first, no leading zeros except for zero itself.
pub open spec fn dec_digits(n: int) -> Seq<char>
    decreases n,
{
    if n < 10 {
        seq![digit_char(n)]
    } else {
        dec_digits(n / 10).push(digit_char(n % 10))
    }
}

fn digit_str(d: usize) -> (r: &'static str)
    requires
        d < 10,
    ensures
        r@ == seq![digit_char(d as int)],
{
    proof {
        reveal_strlit("0");
        reveal_strlit("1");
        reveal_strlit("2");
        reveal_strlit("3");
        reveal_strlit("4");
        reveal_strlit("5");
        reveal_strlit("6");
        reveal_strlit("7");
        reveal_strlit("8");
        reveal_strlit("9");
    }
    let r: &'static str = match d {
        0 => "0",
        1 => "1",
        2 => "2",
        3 => "3",
        4 => "4",
        5 => "5",
        6 => "6",
        7 => "7",
        8 => "8",
        _ => "9",
    };
    proof {
        assert(r@ =~= seq![digit_char(d as int)]);
    }
    r
}

/// Renders a non-negative integer in decimal.
pub fn dec_string(n: usize) -> (r: String)
    ensures
        r@ == dec_digits(n as int),
    decreases n,
{
    if n < 10 {
        String::from_str(digit_str(n))
    } else {
        let mut r = dec_string(n / 10);
        r.append(digit_str(n % 10));
        proof {
            assert(r@ =~= dec_digits(n as int));
        }
        r
    }
}

/// The report line for a lexical diagnostic: the line number in brackets,
/// then the message, exactly as the driver prints it.
pub open spec fn spec_error_line(line: int, message: Seq<char>) -> Seq<char> {
    "[line "@ + dec_digits(line) + "] Error: "@ + message + " "@
}

/// Formats a lexical diagnostic for presentation. The caller decides where
/// the line goes; this function owns only the wording.
pub fn error(line: usize, message: &str) -> (r: String)
    ensures
        r@ == spec_error_line(line as int, message@),
{
    let mut r = String::from_str("[line ");
    let num = dec_string(line);
    r.append(num.as_str());
    r.append("] Error: ");
    r.append(message);
    r.append(" ");
    proof {
        assert(r@ =~= spec_error_line(line as int, message@));
    }
    r
}

} // verus!
