//! The version of the bytecode format that this runtime reads and writes.

use vstd::prelude::*;
use vstd::string::StringExecFns;

verus! {

/// The first number of the version.
pub const VERSION_MAJOR: u8 = 0;

/// The second number of the version.
pub const VERSION_MINOR: u8 = 1;

/// The third number of the version.
pub const VERSION_PATCH: u8 = 0;

/// The character of a decimal digit.
pub open spec fn digit_char(d: int) -> char {
    if d == 0 {
        '0'
    } else if d == 1 {
        '1'
    } else if d == 2 {
        '2'
    } else if d == 3 {
        '3'
    } else if d == 4 {
        '4'
    } else if d == 5 {
        '5'
    } else if d == 6 {
        '6'
    } else if d == 7 {
        '7'
    } else if d == 8 {
        '8'
    } else {
        '9'
    }
}

/// A number in decimal, without leading zeros.
pub open spec fn decimal(n: nat) -> Seq<char>
    decreases n,
{
    if n < 10 {
        seq![digit_char(n as int)]
    } else {
        decimal(n / 10).push(digit_char((n % 10) as int))
    }
}

/// A version triple as text: the three numbers in decimal with dots between
/// them.
pub open spec fn version_text(major: u8, minor: u8, patch: u8) -> Seq<char> {
    decimal(major as nat) + seq!['.'] + decimal(minor as nat) + seq!['.'] + decimal(patch as nat)
}

/// A decimal digit as text.
fn digit(d: u8) -> (r: &'static str)
    requires
        d < 10,
    ensures
        r@ == seq![digit_char(d as int)],
{
    proof {
        reveal_strlit("0");
        reveal_strlit("1");
        reveal_strlit("2");
        reveal_strlit("3");
        reveal_strlit("4");
        reveal_strlit("5");
        reveal_strlit("6");
        reveal_strlit("7");
        reveal_strlit("8");
        reveal_strlit("9");
    }
    let r = if d == 0 {
        "0"
    } else if d == 1 {
        "1"
    } else if d == 2 {
        "2"
    } else if d == 3 {
        "3"
    } else if d == 4 {
        "4"
    } else if d == 5 {
        "5"
    } else if d == 6 {
        "6"
    } else if d == 7 {
        "7"
    } else if d == 8 {
        "8"
    } else {
        "9"
    };
    assert(r@ =~= seq![digit_char(d as int)]);
    r
}

/// Puts `n` in decimal behind `text`.
fn append_decimal(text: &mut String, n: u8)
    ensures
        final(text)@ == old(text)@ + decimal(n as nat),
{
    reveal_with_fuel(decimal, 3);
    if n >= 100 {
        text.append(digit(n / 100));
    }
    if n >= 10 {
        text.append(digit((n / 10) % 10));
    }
    text.append(digit(n % 10));
    assert(text@ =~= old(text)@ + decimal(n as nat));
}

/// The version of this runtime as text.
pub fn version() -> (r: String)
    ensures
        r@ == version_text(VERSION_MAJOR, VERSION_MINOR, VERSION_PATCH),
{
    proof {
        reveal_strlit(".");
    }
    let mut text = String::new();
    append_decimal(&mut text, VERSION_MAJOR);
    text.append(".");
    append_decimal(&mut text, VERSION_MINOR);
    text.append(".");
    append_decimal(&mut text, VERSION_PATCH);
    assert(text@ =~= version_text(VERSION_MAJOR, VERSION_MINOR, VERSION_PATCH));
    text
}

} // verus!
