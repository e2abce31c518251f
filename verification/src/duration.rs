//! Durations as text: `HHh:MMm:SSs`.
//!
//! Each field has two digits, padded with a zero. The form holds durations
//! up to 99 hours, 59 minutes and 59 seconds. Beyond that the hours take as
//! many digits as they need, and the text no longer parses: a text that is
//! not of the form stands for zero seconds.

use crate::text::to_chars;
use vstd::prelude::*;
use vstd::string::*;

verus! {

/// The longest duration that the form holds: 99 hours, 59 minutes and 59
/// seconds.
pub const MAX_FORMATTED_SECS: u64 = 359_999;

/// The digit that stands for `d`, a number below ten.
pub open spec fn digit(d: nat) -> char {
    (('0' as u8) + d) as u8 as char
}

/// Whether `c` is a decimal digit.
pub open spec fn is_digit(c: char) -> bool {
    '0' <= c <= '9'
}

/// The number that the digit `c` stands for.
pub open spec fn digit_value(c: char) -> nat {
    (c as u8 - '0' as u8) as nat
}

/// `n`, a number below one hundred, in two digits.
pub open spec fn two_digits(n: nat) -> Seq<char> {
    seq![digit(n / 10), digit(n % 10)]
}

/// `n` in decimal digits, without leading zeros.
pub open spec fn decimal(n: nat) -> Seq<char>
    decreases n,
{
    if n < 10 {
        seq![digit(n)]
    } else {
        decimal(n / 10).push(digit(n % 10))
    }
}

/// The hours field: two digits, or more where the hours need them.
pub open spec fn hours_field(hours: nat) -> Seq<char> {
    if hours < 100 {
        two_digits(hours)
    } else {
        decimal(hours)
    }
}

/// `secs` seconds as text.
pub open spec fn formatted(secs: nat) -> Seq<char> {
    hours_field(secs / 3600) + seq!['h', ':'] + two_digits(secs % 3600 / 60) + seq!['m', ':']
        + two_digits(secs % 60) + seq!['s']
}

/// Whether `text` has the form `HHh:MMm:SSs`.
pub open spec fn well_formed(text: Seq<char>) -> bool {
    &&& text.len() == 11
    &&& is_digit(text[0])
    &&& is_digit(text[1])
    &&& text[2] == 'h'
    &&& text[3] == ':'
    &&& is_digit(text[4])
    &&& is_digit(text[5])
    &&& text[6] == 'm'
    &&& text[7] == ':'
    &&& is_digit(text[8])
    &&& is_digit(text[9])
    &&& text[10] == 's'
}

/// The number that the two digits of `text` at index `at` stand for.
pub open spec fn field_value(text: Seq<char>, at: int) -> nat {
    digit_value(text[at]) * 10 + digit_value(text[at + 1])
}

/// The seconds that `text` stands for: zero where it is not of the form.
pub open spec fn parsed(text: Seq<char>) -> nat {
    if well_formed(text) {
        field_value(text, 0) * 3600 + field_value(text, 4) * 60 + field_value(text, 8)
    } else {
        0
    }
}

/// The digit that stands for `d`, as a text of its own.
fn digit_text(d: u64) -> (text: &'static str)
    requires
        d < 10,
    ensures
        text@ == seq![digit(d as nat)],
{
    proof {
        reveal_strlit("0");
        reveal_strlit("1");
        reveal_strlit("2");
        reveal_strlit("3");
        reveal_strlit("4");
        reveal_strlit("5");
        reveal_strlit("6");
        reveal_strlit("7");
        reveal_strlit("8");
        reveal_strlit("9");
    }
    let text = if d == 0 {
        "0"
    } else if d == 1 {
        "1"
    } else if d == 2 {
        "2"
    } else if d == 3 {
        "3"
    } else if d == 4 {
        "4"
    } else if d == 5 {
        "5"
    } else if d == 6 {
        "6"
    } else if d == 7 {
        "7"
    } else if d == 8 {
        "8"
    } else {
        "9"
    };
    assert(text@ =~= seq![digit(d as nat)]);
    text
}

/// Appends `n` in decimal digits.
pub fn append_decimal(out: &mut String, n: u64)
    ensures
        final(out)@ == old(out)@ + decimal(n as nat),
    decreases n,
{
    if n >= 10 {
        append_decimal(out, n / 10);
    }
    out.append(digit_text(n % 10));
    assert(final(out)@ =~= old(out)@ + decimal(n as nat));
}

/// Appends `n`, a number below one hundred, in two digits.
fn append_two_digits(out: &mut String, n: u64)
    requires
        n < 100,
    ensures
        final(out)@ == old(out)@ + two_digits(n as nat),
{
    out.append(digit_text(n / 10));
    out.append(digit_text(n % 10));
    assert(final(out)@ =~= old(out)@ + two_digits(n as nat));
}

/// Writes `secs` seconds as `HHh:MMm:SSs`.
pub fn format_duration(secs: u64) -> (text: String)
    ensures
        text@ == formatted(secs as nat),
{
    proof {
        reveal_strlit("h:");
        reveal_strlit("m:");
        reveal_strlit("s");
    }
    let hours: u64 = secs / 3600;
    let mut text = String::new();
    if hours < 100 {
        append_two_digits(&mut text, hours);
    } else {
        append_decimal(&mut text, hours);
    }
    assert(text@ =~= hours_field(hours as nat));
    text.append("h:");
    append_two_digits(&mut text, secs % 3600 / 60);
    text.append("m:");
    append_two_digits(&mut text, secs % 60);
    text.append("s");
    assert(text@ =~= formatted(secs as nat));
    text
}

/// The number that the two digits of `chars` at index `at` stand for, if
/// both are digits.
fn parse_field(chars: &Vec<char>, at: usize) -> (value: Option<u64>)
    requires
        at + 1 < chars.len(),
    ensures
        value is Some <==> is_digit(chars@[at as int]) && is_digit(chars@[at + 1]),
        value matches Some(n) ==> n == field_value(chars@, at as int) && n < 100,
{
    let high = chars[at];
    let low = chars[at + 1];
    if '0' <= high && high <= '9' && '0' <= low && low <= '9' {
        Some(((high as u8 - '0' as u8) as u64) * 10 + ((low as u8 - '0' as u8) as u64))
    } else {
        None
    }
}

/// Reads a duration written as `HHh:MMm:SSs`. Any other text reads as zero
/// seconds.
pub fn parse_duration(text: &str) -> (secs: u64)
    ensures
        secs == parsed(text@),
{
    let chars = to_chars(text);
    if chars.len() != 11 {
        return 0;
    }
    if chars[2] != 'h' || chars[3] != ':' || chars[6] != 'm' || chars[7] != ':' || chars[10]
        != 's' {
        return 0;
    }
    match (parse_field(&chars, 0), parse_field(&chars, 4), parse_field(&chars, 8)) {
        (Some(hours), Some(minutes), Some(seconds)) => hours * 3600 + minutes * 60 + seconds,
        _ => 0,
    }
}

/// Reading what was written gives the duration back, for every duration up
/// to 99 hours, 59 minutes and 59 seconds.
pub proof fn lemma_round_trip(secs: nat)
    requires
        secs <= MAX_FORMATTED_SECS,
    ensures
        well_formed(formatted(secs)),
        parsed(formatted(secs)) == secs,
{
    let text = formatted(secs);
    let hours = secs / 3600;
    let minutes = secs % 3600 / 60;
    let seconds = secs % 60;
    assert(text =~= seq![
        digit(hours / 10),
        digit(hours % 10),
        'h',
        ':',
        digit(minutes / 10),
        digit(minutes % 10),
        'm',
        ':',
        digit(seconds / 10),
        digit(seconds % 10),
        's',
    ]);
    assert(field_value(text, 0) == hours);
    assert(field_value(text, 4) == minutes);
    assert(field_value(text, 8) == seconds);
}

/// Every number has at least one decimal digit, and a number from one
/// hundred on has at least three.
proof fn lemma_decimal_len(n: nat)
    ensures
        decimal(n).len() >= 1,
        n >= 10 ==> decimal(n).len() >= 2,
        n >= 100 ==> decimal(n).len() >= 3,
    decreases n,
{
    if n >= 10 {
        lemma_decimal_len(n / 10);
    }
}

/// Beyond 99 hours, 59 minutes and 59 seconds the written text is too long
/// for the form, and reads as zero.
pub proof fn lemma_beyond_the_form(secs: nat)
    requires
        secs > MAX_FORMATTED_SECS,
    ensures
        !well_formed(formatted(secs)),
        parsed(formatted(secs)) == 0,
{
    lemma_decimal_len(secs / 3600);
}

} // verus!
