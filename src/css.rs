//! CSS text of an 8-bit RGB color, `rgb(r,g,b)` with each channel in
//! decimal.
use vstd::prelude::*;

verus! {

/// The character of a decimal digit.
pub open spec fn digit_char(d: int) -> char {
    if d == 0 {
        '0'
    } else if d == 1 {
        '1'
    } else if d == 2 {
        '2'
    } else if d == 3 {
        '3'
    } else if d == 4 {
        '4'
    } else if d == 5 {
        '5'
    } else if d == 6 {
        '6'
    } else if d == 7 {
        '7'
    } else if d == 8 {
        '8'
    } else {
        '9'
    }
}

/// Decimal text of `n`, without leading zeros.
pub open spec fn decimal(n: nat) -> Seq<char>
    decreases n,
{
    if n < 10 {
        seq![digit_char(n as int)]
    } else {
        decimal(n / 10) + seq![digit_char((n % 10) as int)]
    }
}

/// `rgb(r,g,b)` with the three channels in decimal.
pub open spec fn css_rgb_text(r: u8, g: u8, b: u8) -> Seq<char> {
    seq!['r', 'g', 'b', '('] + decimal(r as nat) + seq![','] + decimal(g as nat) + seq![',']
        + decimal(b as nat) + seq![')']
}

fn digit_text(d: u8) -> (t: &'static str)
    requires
        d < 10,
    ensures
        t@ == seq![digit_char(d as int)],
{
    proof {
        reveal_strlit("0");
        reveal_strlit("1");
        reveal_strlit("2");
        reveal_strlit("3");
        reveal_strlit("4");
        reveal_strlit("5");
        reveal_strlit("6");
        reveal_strlit("7");
        reveal_strlit("8");
        reveal_strlit("9");
    }
    match d {
        0 => "0",
        1 => "1",
        2 => "2",
        3 => "3",
        4 => "4",
        5 => "5",
        6 => "6",
        7 => "7",
        8 => "8",
        _ => "9",
    }
}

fn append_decimal(s: &mut String, n: u8)
    ensures
        final(s)@ == old(s)@ + decimal(n as nat),
{
    if n >= 100 {
        s.append(digit_text(n / 100));
        s.append(digit_text(n / 10 % 10));
        s.append(digit_text(n % 10));
        assert(decimal(n as nat) == decimal((n / 10) as nat) + seq![digit_char((n % 10) as int)]);
        assert(decimal((n / 10) as nat) == decimal((n / 100) as nat) + seq![
            digit_char((n / 10 % 10) as int),
        ]);
    } else if n >= 10 {
        s.append(digit_text(n / 10));
        s.append(digit_text(n % 10));
        assert(decimal(n as nat) == decimal((n / 10) as nat) + seq![digit_char((n % 10) as int)]);
    } else {
        s.append(digit_text(n));
    }
}

/// The CSS text `rgb(r,g,b)` of the channels `rgb = [r, g, b]`.
pub fn css_rgb(rgb: [u8; 3]) -> (s: String)
    ensures
        s@ == css_rgb_text(rgb[0], rgb[1], rgb[2]),
{
    proof {
        reveal_strlit("rgb(");
        reveal_strlit(",");
        reveal_strlit(")");
    }
    let mut s = String::from_str("rgb(");
    append_decimal(&mut s, rgb[0]);
    s.append(",");
    append_decimal(&mut s, rgb[1]);
    s.append(",");
    append_decimal(&mut s, rgb[2]);
    s.append(")");
    s
}

} // verus!
