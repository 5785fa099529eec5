//! Building human-readable text: decimal numbers, thousands separators, hexadecimal bytes.

use vstd::prelude::*;

verus! {

/// The ASCII character of the decimal digit `d`.
pub open spec fn digit_char(d: int) -> char {
    (48 + d) as char
}

/// The decimal representation of `n`, without leading zeros.
pub open spec fn decimal(n: nat) -> Seq<char>
    decreases n,
{
    if n < 10 {
        seq![digit_char(n as int)]
    } else {
        decimal(n / 10).push(digit_char((n % 10) as int))
    }
}

/// The three decimal digits of `r` (below 1000), zero-padded.
pub open spec fn three_digits(r: nat) -> Seq<char> {
    seq![digit_char((r / 100) as int), digit_char((r / 10 % 10) as int), digit_char((r % 10) as int)]
}

/// The decimal representation of `n` with a comma between each group of three digits.
pub open spec fn thousands_separated(n: nat) -> Seq<char>
    decreases n,
{
    if n < 1000 {
        decimal(n)
    } else {
        thousands_separated(n / 1000) + seq![','] + three_digits(n % 1000)
    }
}

/// The lowercase hexadecimal character of the nibble `d`.
pub open spec fn hex_char(d: int) -> char {
    if d < 10 {
        (48 + d) as char
    } else {
        (87 + d) as char
    }
}

/// The two lowercase hexadecimal digits of `b`.
pub open spec fn hex_byte(b: u8) -> Seq<char> {
    seq![hex_char((b / 16) as int), hex_char((b % 16) as int)]
}

/// The one-character string of the decimal digit `d`.
fn digit_str(d: u8) -> (s: &'static str)
    requires
        d < 10,
    ensures
        s@ == seq![digit_char(d as int)],
{
    proof {
        reveal_strlit("0");
        reveal_strlit("1");
        reveal_strlit("2");
        reveal_strlit("3");
        reveal_strlit("4");
        reveal_strlit("5");
        reveal_strlit("6");
        reveal_strlit("7");
        reveal_strlit("8");
        reveal_strlit("9");
    }
    let s = match d {
        0 => "0",
        1 => "1",
        2 => "2",
        3 => "3",
        4 => "4",
        5 => "5",
        6 => "6",
        7 => "7",
        8 => "8",
        _ => "9",
    };
    assert(s@ =~= seq![digit_char(d as int)]);
    s
}

/// The one-character string of the hexadecimal digit `d`.
fn hex_str(d: u8) -> (s: &'static str)
    requires
        d < 16,
    ensures
        s@ == seq![hex_char(d as int)],
{
    if d < 10 {
        digit_str(d)
    } else {
        proof {
            reveal_strlit("a");
            reveal_strlit("b");
            reveal_strlit("c");
            reveal_strlit("d");
            reveal_strlit("e");
            reveal_strlit("f");
        }
        let s = match d {
            10 => "a",
            11 => "b",
            12 => "c",
            13 => "d",
            14 => "e",
            _ => "f",
        };
        assert(s@ =~= seq![hex_char(d as int)]);
        s
    }
}

/// Appends the decimal representation of `n` to `s`.
pub fn push_decimal(s: &mut String, n: u64)
    ensures
        final(s)@ == old(s)@ + decimal(n as nat),
    decreases n,
{
    if n >= 10 {
        push_decimal(s, n / 10);
    }
    s.append(digit_str((n % 10) as u8));
    assert(final(s)@ =~= old(s)@ + decimal(n as nat)) by {
        if n >= 10 {
            assert(old(s)@ + decimal(n as nat) =~= old(s)@ + decimal((n / 10) as nat) + seq![
                digit_char((n % 10) as int),
            ]);
        }
    }
}

/// Appends the three zero-padded decimal digits of `r` to `s`.
fn push_three_digits(s: &mut String, r: u64)
    requires
        r < 1000,
    ensures
        final(s)@ == old(s)@ + three_digits(r as nat),
{
    s.append(digit_str((r / 100) as u8));
    s.append(digit_str((r / 10 % 10) as u8));
    s.append(digit_str((r % 10) as u8));
    assert(final(s)@ =~= old(s)@ + three_digits(r as nat));
}

/// Appends the decimal representation of `n` with thousands separators to `s`.
pub fn push_thousands_separated(s: &mut String, n: u64)
    ensures
        final(s)@ == old(s)@ + thousands_separated(n as nat),
    decreases n,
{
    if n < 1000 {
        push_decimal(s, n);
    } else {
        push_thousands_separated(s, n / 1000);
        proof {
            reveal_strlit(",");
        }
        s.append(",");
        push_three_digits(s, n % 1000);
        assert(final(s)@ =~= old(s)@ + thousands_separated(n as nat));
    }
}

/// Appends the two lowercase hexadecimal digits of `b` to `s`.
pub fn push_hex_byte(s: &mut String, b: u8)
    ensures
        final(s)@ == old(s)@ + hex_byte(b),
{
    s.append(hex_str(b / 16));
    s.append(hex_str(b % 16));
    assert(final(s)@ =~= old(s)@ + hex_byte(b));
}

/// Appends the string literal `lit` to `s`.
pub fn push_str(s: &mut String, lit: &str)
    ensures
        final(s)@ == old(s)@ + lit@,
{
    s.append(lit);
}

/// The decimal representation of `n`.
pub fn decimal_string(n: u64) -> (s: String)
    ensures
        s@ == decimal(n as nat),
{
    let mut s = String::new();
    push_decimal(&mut s, n);
    assert(s@ =~= decimal(n as nat));
    s
}

/// The decimal representation of `n` with a comma between each group of three digits.
pub fn with_thousands_separators(n: u64) -> (s: String)
    ensures
        s@ == thousands_separated(n as nat),
{
    let mut s = String::new();
    push_thousands_separated(&mut s, n);
    assert(s@ =~= thousands_separated(n as nat));
    s
}

} // verus!
