//! Rendering of recorded output values as text.
//!
//! The printing instructions record what they print as `OutEvent` values;
//! the host writes the events' texts to its output in program order, with no
//! delimiter between consecutive prints.  Words printed as signed decimals,
//! booleans and characters are rendered here, against exact specifications.
//! A word printed as a float is rendered by the host, floating point being
//! outside the verified library.

use vstd::prelude::*;
use vstd::string::StringExecFns;

verus! {

/// The character of one decimal digit.
pub open spec fn digit_char(d: int) -> char
    recommends
        0 <= d < 10,
{
    if d == 0 {
        '0'
    } else if d == 1 {
        '1'
    } else if d == 2 {
        '2'
    } else if d == 3 {
        '3'
    } else if d == 4 {
        '4'
    } else if d == 5 {
        '5'
    } else if d == 6 {
        '6'
    } else if d == 7 {
        '7'
    } else if d == 8 {
        '8'
    } else {
        '9'
    }
}

/// The decimal digits of a natural number, most significant first, with no
/// leading zero except for zero itself.
pub open spec fn dec_digits(n: nat) -> Seq<char>
    decreases n,
{
    if n < 10 {
        seq![digit_char(n as int)]
    } else {
        dec_digits(n / 10).push(digit_char((n % 10) as int))
    }
}

/// The text of a word printed as a signed 32-bit decimal: words at
/// 0x8000_0000 and above are the negative values of the two's complement
/// reading.
pub open spec fn int_text(w: u32) -> Seq<char> {
    if w < 0x8000_0000 {
        dec_digits(w as nat)
    } else {
        seq!['-'] + dec_digits((0x1_0000_0000 - w) as nat)
    }
}

/// The text of a word printed as a boolean: `true` for non-zero.
pub open spec fn bool_text(b: bool) -> Seq<char> {
    if b {
        "true"@
    } else {
        "false"@
    }
}

/// The text of a low byte printed as one character.
pub open spec fn char_text(c: u8) -> Seq<char> {
    seq![c as char]
}

/// One decimal digit as text.
fn digit_str(d: u32) -> (s: &'static str)
    requires
        d < 10,
    ensures
        s@ == seq![digit_char(d as int)],
{
    match d {
        0 => {
            proof {
                reveal_strlit("0");
                assert("0"@ =~= seq![digit_char(0)]);
            }
            "0"
        },
        1 => {
            proof {
                reveal_strlit("1");
                assert("1"@ =~= seq![digit_char(1)]);
            }
            "1"
        },
        2 => {
            proof {
                reveal_strlit("2");
                assert("2"@ =~= seq![digit_char(2)]);
            }
            "2"
        },
        3 => {
            proof {
                reveal_strlit("3");
                assert("3"@ =~= seq![digit_char(3)]);
            }
            "3"
        },
        4 => {
            proof {
                reveal_strlit("4");
                assert("4"@ =~= seq![digit_char(4)]);
            }
            "4"
        },
        5 => {
            proof {
                reveal_strlit("5");
                assert("5"@ =~= seq![digit_char(5)]);
            }
            "5"
        },
        6 => {
            proof {
                reveal_strlit("6");
                assert("6"@ =~= seq![digit_char(6)]);
            }
            "6"
        },
        7 => {
            proof {
                reveal_strlit("7");
                assert("7"@ =~= seq![digit_char(7)]);
            }
            "7"
        },
        8 => {
            proof {
                reveal_strlit("8");
                assert("8"@ =~= seq![digit_char(8)]);
            }
            "8"
        },
        _ => {
            proof {
                reveal_strlit("9");
                assert("9"@ =~= seq![digit_char(9)]);
            }
            "9"
        },
    }
}

/// The decimal rendering of an unsigned 32-bit word.
pub fn render_dec(n: u32) -> (s: String)
    ensures
        s@ == dec_digits(n as nat),
    decreases n,
{
    if n < 10 {
        String::from_str(digit_str(n))
    } else {
        let mut s = render_dec(n / 10);
        s.append(digit_str(n % 10));
        proof {
            assert(s@ =~= dec_digits(n as nat));
        }
        s
    }
}

/// The rendering of a word printed as a signed 32-bit decimal.
pub fn render_int(w: u32) -> (s: String)
    ensures
        s@ == int_text(w),
{
    if w < 0x8000_0000 {
        render_dec(w)
    } else {
        let mag = (0x1_0000_0000u64 - w as u64) as u32;
        let mut s = String::from_str("-");
        let digits = render_dec(mag);
        s.append(digits.as_str());
        proof {
            reveal_strlit("-");
            assert(s@ =~= int_text(w));
        }
        s
    }
}

/// The rendering of a word printed as a boolean.
pub fn render_bool(b: bool) -> (s: String)
    ensures
        s@ == bool_text(b),
{
    if b {
        String::from_str("true")
    } else {
        String::from_str("false")
    }
}

/// Relies on `char::to_string`: the one-character string of its argument.
#[verifier::external_body]
fn char_string(c: char) -> (s: String)
    ensures
        s@ == seq![c],
{
    c.to_string()
}

/// The rendering of a low byte printed as one character.
pub fn render_byte_char(c: u8) -> (s: String)
    ensures
        s@ == char_text(c),
{
    char_string(c as char)
}

} // verus!
