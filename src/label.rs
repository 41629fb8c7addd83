//! Text of the legend labels: decimal numbers, times and frequencies.
use vstd::prelude::*;

verus! {

/// Relies on `String::push`: appends one character to the string.
#[verifier::external_body]
pub(crate) fn push_char(s: &mut String, c: char)
    ensures
        final(s)@ == old(s)@.push(c),
{
    s.push(c)
}

/// Relies on `String::push_str`: appends the characters of `t` to the string.
#[verifier::external_body]
pub(crate) fn push_text(s: &mut String, t: &str)
    ensures
        final(s)@ == old(s)@ + t@,
{
    s.push_str(t)
}

/// The character of decimal digit `d`.
pub open spec fn digit(d: int) -> char {
    if d == 0 {
        '0'
    } else if d == 1 {
        '1'
    } else if d == 2 {
        '2'
    } else if d == 3 {
        '3'
    } else if d == 4 {
        '4'
    } else if d == 5 {
        '5'
    } else if d == 6 {
        '6'
    } else if d == 7 {
        '7'
    } else if d == 8 {
        '8'
    } else {
        '9'
    }
}

/// Decimal notation of `n`, without leading zeros.
pub open spec fn decimal(n: nat) -> Seq<char>
    decreases n,
{
    if n < 10 {
        seq![digit(n as int)]
    } else {
        decimal(n / 10).push(digit((n % 10) as int))
    }
}

/// Decimal notation of a signed integer, with a leading `-` when negative.
pub open spec fn signed_decimal(n: int) -> Seq<char> {
    if n < 0 {
        seq!['-'] + decimal((-n) as nat)
    } else {
        decimal(n as nat)
    }
}

/// `m:ss` for a count of whole seconds; minutes are not capped.
pub open spec fn time_text(total_seconds: nat) -> Seq<char> {
    decimal(total_seconds / 60) + seq![':', digit(((total_seconds % 60) / 10) as int), digit(
        (total_seconds % 10) as int,
    )]
}

/// Frequency `num / den` Hz in kHz: whole when it is an exact multiple of
/// 1000 Hz, else with one decimal, rounded half up.
pub open spec fn freq_text(num: nat, den: nat) -> Seq<char> {
    if num % (1000 * den) == 0 {
        decimal(num / (1000 * den)) + " kHz"@
    } else {
        let tenths = (num + 50 * den) / (100 * den);
        decimal(tenths / 10) + seq!['.', digit((tenths % 10) as int)] + " kHz"@
    }
}

pub(crate) fn digit_char(d: u128) -> (c: char)
    requires
        d < 10,
    ensures
        c == digit(d as int),
{
    if d == 0 {
        '0'
    } else if d == 1 {
        '1'
    } else if d == 2 {
        '2'
    } else if d == 3 {
        '3'
    } else if d == 4 {
        '4'
    } else if d == 5 {
        '5'
    } else if d == 6 {
        '6'
    } else if d == 7 {
        '7'
    } else if d == 8 {
        '8'
    } else {
        '9'
    }
}

/// Appends the decimal notation of `n`.
pub fn push_decimal(s: &mut String, n: u128)
    ensures
        final(s)@ == old(s)@ + decimal(n as nat),
    decreases n,
{
    if n >= 10 {
        push_decimal(s, n / 10);
        push_char(s, digit_char(n % 10));
        assert(decimal(n as nat) == decimal((n / 10) as nat).push(digit((n % 10) as int)));
    } else {
        push_char(s, digit_char(n));
    }
    assert(s@ =~= old(s)@ + decimal(n as nat));
}

/// Appends a signed decimal.
pub fn push_signed_decimal(s: &mut String, n: i128)
    ensures
        final(s)@ == old(s)@ + signed_decimal(n as int),
{
    if n < 0 {
        push_char(s, '-');
        let magnitude: u128 = if n == i128::MIN {
            0x8000_0000_0000_0000_0000_0000_0000_0000
        } else {
            (-n) as u128
        };
        push_decimal(s, magnitude);
        assert(s@ =~= old(s)@ + signed_decimal(n as int));
    } else {
        push_decimal(s, n as u128);
    }
}

/// The kHz label of frequency `num / den` Hz.
pub fn freq_label(num: u128, den: u128) -> (r: String)
    requires
        0 < den < 0x1_0000_0000_0000_0000_0000,
        num < 0x1_0000_0000_0000_0000_0000_0000,
    ensures
        r@ == freq_text(num as nat, den as nat),
{
    let mut s = String::new();
    if num % (1000 * den) == 0 {
        push_decimal(&mut s, num / (1000 * den));
        push_text(&mut s, " kHz");
    } else {
        let tenths = (num + 50 * den) / (100 * den);
        push_decimal(&mut s, tenths / 10);
        push_char(&mut s, '.');
        push_char(&mut s, digit_char(tenths % 10));
        push_text(&mut s, " kHz");
    }
    assert(s@ =~= freq_text(num as nat, den as nat));
    s
}

/// `m:ss` for a count of whole seconds.
pub fn time_label(total_seconds: u128) -> (r: String)
    ensures
        r@ == time_text(total_seconds as nat),
{
    let mut s = String::new();
    let n = total_seconds as u128;
    push_decimal(&mut s, n / 60);
    push_char(&mut s, ':');
    push_char(&mut s, digit_char((n % 60) / 10));
    push_char(&mut s, digit_char(n % 10));
    proof {
        assert((total_seconds % 60) / 10 < 10);
    }
    assert(s@ =~= time_text(total_seconds as nat));
    s
}

} // verus!
