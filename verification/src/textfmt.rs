//! The text of a value cell: the rounded whole degrees, left-padded to
//! three columns, followed by a degree mark and the display unit's letter.

use vstd::prelude::*;
use crate::Unit;
use crate::units::{rounded_deg, rounded_deg_spec, DISPLAY_LIMIT};

verus! {

/// The decimal digit character for one digit value.
pub open spec fn digit_char(d: int) -> char {
    if d == 0 {
        '0'
    } else if d == 1 {
        '1'
    } else if d == 2 {
        '2'
    } else if d == 3 {
        '3'
    } else if d == 4 {
        '4'
    } else if d == 5 {
        '5'
    } else if d == 6 {
        '6'
    } else if d == 7 {
        '7'
    } else if d == 8 {
        '8'
    } else {
        '9'
    }
}

/// The decimal digits of a non-negative number, most significant first.
pub open spec fn dec_digits(n: nat) -> Seq<char>
    decreases n,
{
    if n < 10 {
        seq![digit_char(n as int)]
    } else {
        dec_digits(n / 10).push(digit_char((n % 10) as int))
    }
}

/// The decimal text of an integer, with a leading minus when negative.
pub open spec fn int_chars(v: int) -> Seq<char> {
    if v < 0 {
        seq!['-'] + dec_digits((-v) as nat)
    } else {
        dec_digits(v as nat)
    }
}

/// `n` spaces.
pub open spec fn spaces(n: nat) -> Seq<char>
    decreases n,
{
    if n == 0 {
        Seq::empty()
    } else {
        spaces((n - 1) as nat).push(' ')
    }
}

/// Text left-padded with spaces to at least three columns.
pub open spec fn pad3(s: Seq<char>) -> Seq<char> {
    if s.len() >= 3 {
        s
    } else {
        spaces((3 - s.len()) as nat) + s
    }
}

/// The letter that names the display unit.
pub open spec fn unit_letter(unit: Unit) -> char {
    match unit {
        Unit::Celsius => 'C',
        Unit::Fahrenheit => 'F',
    }
}

/// The full text of one value cell for a display value.
pub open spec fn value_text_spec(v: int, unit: Unit) -> Seq<char> {
    pad3(int_chars(rounded_deg_spec(v))) + seq!['\u{00B0}', unit_letter(unit)]
}

/// One decimal digit as a character.
fn digit_char_of(d: u64) -> (c: char)
    requires
        d < 10,
    ensures
        c == digit_char(d as int),
{
    if d == 0 {
        '0'
    } else if d == 1 {
        '1'
    } else if d == 2 {
        '2'
    } else if d == 3 {
        '3'
    } else if d == 4 {
        '4'
    } else if d == 5 {
        '5'
    } else if d == 6 {
        '6'
    } else if d == 7 {
        '7'
    } else if d == 8 {
        '8'
    } else {
        '9'
    }
}

/// Appends the decimal digits of `n`, most significant first.
fn push_digits(n: u64, out: &mut Vec<char>)
    ensures
        final(out)@ == old(out)@ + dec_digits(n as nat),
    decreases n,
{
    if n < 10 {
        out.push(digit_char_of(n));
        proof {
            assert(final(out)@ =~= old(out)@ + dec_digits(n as nat));
        }
    } else {
        let ghost pre = out@;
        push_digits(n / 10, out);
        out.push(digit_char_of(n % 10));
        proof {
            assert(final(out)@ =~= pre + dec_digits(n as nat));
        }
    }
}

/// Renders one display value as its value-cell text.
pub fn format_value(v: i64, unit: Unit) -> (text: Vec<char>)
    requires
        -DISPLAY_LIMIT <= v <= DISPLAY_LIMIT,
    ensures
        text@ == value_text_spec(v as int, unit),
{
    let deg = rounded_deg(v);
    let mut chars: Vec<char> = Vec::new();
    if deg < 0 {
        chars.push('-');
        push_digits((-deg) as u64, &mut chars);
        proof {
            assert(chars@ =~= int_chars(deg as int));
        }
    } else {
        push_digits(deg as u64, &mut chars);
        proof {
            assert(chars@ =~= int_chars(deg as int));
        }
    }
    let ghost digits = int_chars(deg as int);
    proof {
        assert(digits.len() >= 1) by {
            if deg >= 0 {
                lemma_dec_digits_len(deg as nat);
            } else {
                lemma_dec_digits_len((-(deg as int)) as nat);
            }
        }
        assert(spaces(0) =~= Seq::<char>::empty());
        assert(spaces(1) =~= seq![' ']);
        assert(spaces(2) =~= seq![' ', ' ']);
    }
    if chars.len() == 1 {
        chars.insert(0, ' ');
        chars.insert(0, ' ');
        proof {
            assert(chars@ =~= spaces(2) + digits);
        }
    } else if chars.len() == 2 {
        chars.insert(0, ' ');
        proof {
            assert(chars@ =~= spaces(1) + digits);
        }
    }
    proof {
        assert(chars@ =~= pad3(digits));
    }
    chars.push('\u{00B0}');
    match unit {
        Unit::Celsius => chars.push('C'),
        Unit::Fahrenheit => chars.push('F'),
    }
    proof {
        assert(chars@ =~= value_text_spec(v as int, unit));
    }
    chars
}

/// The digit text of a number is never empty.
proof fn lemma_dec_digits_len(n: nat)
    ensures
        dec_digits(n).len() >= 1,
    decreases n,
{
    if n >= 10 {
        lemma_dec_digits_len(n / 10);
    }
}

} // verus!
