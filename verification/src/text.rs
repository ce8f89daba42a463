//! Textual rendering of the library's values, character by character.
//!
//! The driver's types render themselves for logs and error reports: a
//! connection id as two four-digit hex halves joined by a dot, a source as
//! `none` or `port(p)`, an address as a dotted quad (or bracketed hex
//! groups for a v6 address) with its port.  Each rendering is specified
//! exactly, down to the character.

use vstd::prelude::*;

verus! {

/// The decimal digit characters.
pub open spec fn dec_digit_char(d: int) -> char {
    if d == 0 {
        '0'
    } else if d == 1 {
        '1'
    } else if d == 2 {
        '2'
    } else if d == 3 {
        '3'
    } else if d == 4 {
        '4'
    } else if d == 5 {
        '5'
    } else if d == 6 {
        '6'
    } else if d == 7 {
        '7'
    } else if d == 8 {
        '8'
    } else {
        '9'
    }
}

/// The lower-case hexadecimal digit characters.
pub open spec fn hex_digit_char(d: int) -> char {
    if d < 10 {
        dec_digit_char(d)
    } else if d == 10 {
        'a'
    } else if d == 11 {
        'b'
    } else if d == 12 {
        'c'
    } else if d == 13 {
        'd'
    } else if d == 14 {
        'e'
    } else {
        'f'
    }
}

/// A non-negative number in decimal, most significant digit first, with
/// no leading zero except for zero itself.
pub open spec fn spec_dec(n: int) -> Seq<char>
    decreases n,
{
    if n < 10 {
        seq![dec_digit_char(n)]
    } else {
        spec_dec(n / 10).push(dec_digit_char(n % 10))
    }
}

/// A number below 2^16 as exactly four hex digits.
pub open spec fn spec_hex4(n: int) -> Seq<char> {
    seq![
        hex_digit_char(n / 4096 % 16),
        hex_digit_char(n / 256 % 16),
        hex_digit_char(n / 16 % 16),
        hex_digit_char(n % 16),
    ]
}

/// The one-character string for a decimal digit.
fn dec_digit_str(d: u32) -> (r: &'static str)
    requires
        d < 10,
    ensures
        r@ =~= seq![dec_digit_char(d as int)],
{
    proof {
        reveal_strlit("0");
        reveal_strlit("1");
        reveal_strlit("2");
        reveal_strlit("3");
        reveal_strlit("4");
        reveal_strlit("5");
        reveal_strlit("6");
        reveal_strlit("7");
        reveal_strlit("8");
        reveal_strlit("9");
    }
    if d == 0 {
        "0"
    } else if d == 1 {
        "1"
    } else if d == 2 {
        "2"
    } else if d == 3 {
        "3"
    } else if d == 4 {
        "4"
    } else if d == 5 {
        "5"
    } else if d == 6 {
        "6"
    } else if d == 7 {
        "7"
    } else if d == 8 {
        "8"
    } else {
        "9"
    }
}

/// The one-character string for a hex digit.
fn hex_digit_str(d: u32) -> (r: &'static str)
    requires
        d < 16,
    ensures
        r@ =~= seq![hex_digit_char(d as int)],
{
    proof {
        reveal_strlit("a");
        reveal_strlit("b");
        reveal_strlit("c");
        reveal_strlit("d");
        reveal_strlit("e");
        reveal_strlit("f");
    }
    if d < 10 {
        dec_digit_str(d)
    } else if d == 10 {
        "a"
    } else if d == 11 {
        "b"
    } else if d == 12 {
        "c"
    } else if d == 13 {
        "d"
    } else if d == 14 {
        "e"
    } else {
        "f"
    }
}

/// Renders a number in decimal, exactly as [`spec_dec`] spells it.
pub fn dec_u32(n: u32) -> (r: String)
    ensures
        r@ == spec_dec(n as int),
    decreases n,
{
    if n < 10 {
        let r = String::from_str(dec_digit_str(n));
        proof {
            assert(r@ =~= spec_dec(n as int));
        }
        r
    } else {
        let mut r = dec_u32(n / 10);
        r.append(dec_digit_str(n % 10));
        proof {
            assert(r@ =~= spec_dec(n as int / 10).push(dec_digit_char(n as int % 10)));
        }
        r
    }
}

/// Renders a number below 2^16 as exactly four hex digits, as
/// [`spec_hex4`] spells it.
pub fn hex4_u16(n: u16) -> (r: String)
    ensures
        r@ == spec_hex4(n as int),
{
    let w: u32 = n as u32;
    let mut r = String::from_str(hex_digit_str(w / 4096 % 16));
    r.append(hex_digit_str(w / 256 % 16));
    r.append(hex_digit_str(w / 16 % 16));
    r.append(hex_digit_str(w % 16));
    proof {
        assert(r@ =~= spec_hex4(n as int));
    }
    r
}

} // verus!
