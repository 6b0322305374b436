//! Plain-text building blocks: labels, decimal numbers and right padding.
use vstd::prelude::*;
use crate::pin::{PinMode, PinValue};

verus! {

/// Text shown for a mode; both labels have the same width.
pub open spec fn mode_text(mode: PinMode) -> Seq<char> {
    match mode {
        PinMode::Input => "Input "@,
        PinMode::Output => "Output"@,
    }
}

/// Text shown for a level.
pub open spec fn value_text(value: PinValue) -> Seq<char> {
    match value {
        PinValue::Low => "Low"@,
        PinValue::High => "High"@,
    }
}

/// Text of a single decimal digit.
pub open spec fn digit_text(d: nat) -> Seq<char> {
    if d == 0 { "0"@ }
    else if d == 1 { "1"@ }
    else if d == 2 { "2"@ }
    else if d == 3 { "3"@ }
    else if d == 4 { "4"@ }
    else if d == 5 { "5"@ }
    else if d == 6 { "6"@ }
    else if d == 7 { "7"@ }
    else if d == 8 { "8"@ }
    else { "9"@ }
}

/// Decimal notation of a natural number, without leading zeros.
pub open spec fn decimal_text(n: nat) -> Seq<char>
    decreases n,
{
    if n < 10 {
        digit_text(n)
    } else {
        decimal_text(n / 10) + digit_text(n % 10)
    }
}

/// `s` followed by enough copies of `fill` to reach `width` characters;
/// `s` itself when it is already that wide or wider.
pub open spec fn padded(s: Seq<char>, width: int, fill: char) -> Seq<char> {
    if s.len() < width {
        s + Seq::new((width - s.len()) as nat, |_i: int| fill)
    } else {
        s
    }
}

/// Label of a mode.
pub fn mode_label(mode: PinMode) -> (r: &'static str)
    ensures
        r@ == mode_text(mode),
{
    match mode {
        PinMode::Input => "Input ",
        PinMode::Output => "Output",
    }
}

/// Label of a level.
pub fn value_label(value: PinValue) -> (r: &'static str)
    ensures
        r@ == value_text(value),
{
    match value {
        PinValue::Low => "Low",
        PinValue::High => "High",
    }
}

fn digit_label(d: usize) -> (r: &'static str)
    requires
        d < 10,
    ensures
        r@ == digit_text(d as nat),
{
    if d == 0 { "0" }
    else if d == 1 { "1" }
    else if d == 2 { "2" }
    else if d == 3 { "3" }
    else if d == 4 { "4" }
    else if d == 5 { "5" }
    else if d == 6 { "6" }
    else if d == 7 { "7" }
    else if d == 8 { "8" }
    else { "9" }
}

/// Decimal notation of `n`.
pub fn decimal(n: usize) -> (r: String)
    ensures
        r@ == decimal_text(n as nat),
    decreases n,
{
    if n < 10 {
        String::from_str(digit_label(n))
    } else {
        let mut r = decimal(n / 10);
        r.append(digit_label(n % 10));
        r
    }
}

/// Relies on String::push: the character is appended at the end.
#[verifier::external_body]
fn push_char(s: &mut String, c: char)
    ensures
        final(s)@ == old(s)@.push(c),
{
    s.push(c);
}

/// Pads `string` on the right with `seperator` up to `length` characters.
/// A string that is already `length` characters or longer is returned as it
/// is, never cut; a negative `length` asks for no padding.
pub fn right_padd(string: String, length: i64, seperator: char) -> (r: String)
    ensures
        r@ == padded(string@, length as int, seperator),
{
    let ghost s0 = string@;
    let n: usize = string.as_str().unicode_len();
    let mut r = string;
    if (n as i128) < (length as i128) {
        let missing: u64 = (length as i128 - n as i128) as u64;
        let mut k: u64 = 0;
        while k < missing
            invariant
                k <= missing,
                missing == length - s0.len(),
                r@ == s0 + Seq::new(k as nat, |_i: int| seperator),
            decreases missing - k,
        {
            push_char(&mut r, seperator);
            k = k + 1;
            assert(r@ =~= s0 + Seq::new(k as nat, |_i: int| seperator));
        }
    }
    r
}

} // verus!
