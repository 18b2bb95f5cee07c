//! Dates and times as text: `YYYY-MM-DD`, `HH:MM:SS`, and the two joined as
//! `YYYY-MM-DDTHH:MM:SSZ`. Numbers are written in base ten and padded with
//! zeros on the left, the year to four characters and the others to two.
//! The month and the day are written counted from one.

use super::date::{Date, RawDate};
use super::datetime::{DateTime, RawDateTime};
use super::time::{RawTime, Time};
use vstd::prelude::*;

verus! {

/// The character of the digit `digit`.
pub open spec fn digit_char(digit: nat) -> char {
    seq!['0', '1', '2', '3', '4', '5', '6', '7', '8', '9'][digit as int]
}

/// The number `n` written in base ten, without leading zeros.
pub open spec fn decimal(n: nat) -> Seq<char>
    decreases n,
{
    if n < 10 {
        seq![digit_char(n)]
    } else {
        decimal(n / 10).push(digit_char(n % 10))
    }
}

/// The number `n` written in base ten, with a `-` in front where it is
/// negative.
pub open spec fn signed_decimal(n: int) -> Seq<char> {
    if n < 0 {
        seq!['-'] + decimal((-n) as nat)
    } else {
        decimal(n as nat)
    }
}

/// `text` with as many zeros in front as it takes to make it `width`
/// characters long. A longer text is left as it is. The zeros stand before
/// a sign, too.
pub open spec fn zero_padded(text: Seq<char>, width: nat) -> Seq<char> {
    if text.len() >= width {
        text
    } else {
        Seq::new((width - text.len()) as nat, |i: int| '0') + text
    }
}

/// A date as text.
pub open spec fn date_text(date: RawDate) -> Seq<char> {
    zero_padded(signed_decimal(date.year as int), 4) + seq!['-'] + zero_padded(
        decimal((date.month + 1) as nat),
        2,
    ) + seq!['-'] + zero_padded(decimal((date.day + 1) as nat), 2)
}

/// A time as text.
pub open spec fn time_text(time: RawTime) -> Seq<char> {
    zero_padded(decimal(time.hour as nat), 2) + seq![':'] + zero_padded(
        decimal(time.minute as nat),
        2,
    ) + seq![':'] + zero_padded(decimal(time.second as nat), 2)
}

/// A date and a time as text.
pub open spec fn datetime_text(moment: RawDateTime) -> Seq<char> {
    date_text(moment.date) + seq!['T'] + time_text(moment.time) + seq!['Z']
}

/// The text of one digit.
fn digit_text(digit: u64) -> (r: &'static str)
    requires
        digit < 10,
    ensures
        r@ == seq![digit_char(digit as nat)],
{
    proof {
        reveal_strlit("0");
        reveal_strlit("1");
        reveal_strlit("2");
        reveal_strlit("3");
        reveal_strlit("4");
        reveal_strlit("5");
        reveal_strlit("6");
        reveal_strlit("7");
        reveal_strlit("8");
        reveal_strlit("9");
    }
    let text = if digit == 0 {
        "0"
    } else if digit == 1 {
        "1"
    } else if digit == 2 {
        "2"
    } else if digit == 3 {
        "3"
    } else if digit == 4 {
        "4"
    } else if digit == 5 {
        "5"
    } else if digit == 6 {
        "6"
    } else if digit == 7 {
        "7"
    } else if digit == 8 {
        "8"
    } else {
        "9"
    };
    assert(text@ =~= seq![digit_char(digit as nat)]);
    text
}

/// Writes a number in base ten.
pub fn write_decimal(n: u64) -> (r: String)
    ensures
        r@ == decimal(n as nat),
    decreases n,
{
    if n < 10 {
        String::from_str(digit_text(n))
    } else {
        let mut text = write_decimal(n / 10);
        text.append(digit_text(n % 10));
        assert(text@ =~= decimal((n / 10) as nat).push(digit_char((n % 10) as nat)));
        text
    }
}

/// Writes a number in base ten, with its sign where it is negative.
pub fn write_signed_decimal(n: i64) -> (r: String)
    ensures
        r@ == signed_decimal(n as int),
{
    if n < 0 {
        proof {
            reveal_strlit("-");
        }
        let size: u64 = (-(n as i128)) as u64;
        let text = String::from_str("-").concat(write_decimal(size).as_str());
        assert(text@ =~= seq!['-'] + decimal((-n) as nat));
        text
    } else {
        write_decimal(n as u64)
    }
}

/// Puts zeros in front of a text until it is `width` characters long.
pub fn pad_with_zeros(text: String, width: usize) -> (r: String)
    ensures
        r@ == zero_padded(text@, width as nat),
{
    let length: usize = text.as_str().unicode_len();
    if length >= width {
        return text;
    }
    proof {
        reveal_strlit("0");
    }
    let mut zeros = String::new();
    let mut i: usize = 0;
    while i < width - length
        invariant
            length < width,
            0 <= i <= width - length,
            zeros@ == Seq::new(i as nat, |j: int| '0'),
            "0"@ == seq!['0'],
        decreases width - length - i,
    {
        zeros.append("0");
        i = i + 1;
        assert(zeros@ =~= Seq::new(i as nat, |j: int| '0'));
    }
    zeros.concat(text.as_str())
}

impl RawDate {
    /// Writes the date as `YYYY-MM-DD`, the month and the day counted from
    /// one.
    pub fn to_string(&self) -> (r: String)
        ensures
            r@ == date_text(*self),
    {
        proof {
            reveal_strlit("-");
        }
        let mut text = pad_with_zeros(write_signed_decimal(self.year), 4);
        text.append("-");
        text.append(pad_with_zeros(write_decimal(self.month as u64 + 1), 2).as_str());
        text.append("-");
        text.append(pad_with_zeros(write_decimal(self.day as u64 + 1), 2).as_str());
        assert("-"@ =~= seq!['-']);
        text
    }
}

impl RawTime {
    /// Writes the time as `HH:MM:SS`.
    pub fn to_string(&self) -> (r: String)
        ensures
            r@ == time_text(*self),
    {
        proof {
            reveal_strlit(":");
        }
        let mut text = pad_with_zeros(write_decimal(self.hour as u64), 2);
        text.append(":");
        text.append(pad_with_zeros(write_decimal(self.minute as u64), 2).as_str());
        text.append(":");
        text.append(pad_with_zeros(write_decimal(self.second as u64), 2).as_str());
        assert(":"@ =~= seq![':']);
        text
    }
}

impl RawDateTime {
    /// Writes the date and the time as `YYYY-MM-DDTHH:MM:SSZ`.
    pub fn to_string(&self) -> (r: String)
        ensures
            r@ == datetime_text(*self),
    {
        proof {
            reveal_strlit("T");
            reveal_strlit("Z");
        }
        let mut text = self.date.to_string();
        text.append("T");
        text.append(self.time.to_string().as_str());
        text.append("Z");
        assert("T"@ =~= seq!['T']);
        assert("Z"@ =~= seq!['Z']);
        text
    }
}

impl<'a> Date<'a> {
    /// Writes the date as `YYYY-MM-DD`, the month and the day counted from
    /// one.
    pub fn to_string(&self) -> (r: String)
        ensures
            r@ == date_text(self.date),
    {
        self.date.to_string()
    }
}

impl<'a> Time<'a> {
    /// Writes the time as `HH:MM:SS`.
    pub fn to_string(&self) -> (r: String)
        ensures
            r@ == time_text(self.time),
    {
        self.time.to_string()
    }
}

impl<'a> DateTime<'a> {
    /// Writes the date and the time as `YYYY-MM-DDTHH:MM:SSZ`.
    pub fn to_string(&self) -> (r: String)
        ensures
            r@ == datetime_text(self.raw()),
    {
        self.to_raw().to_string()
    }
}

} // verus!
