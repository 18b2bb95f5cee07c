//! The language of time expressions.
//!
//! A text is read as one of four phrases, tried in this order:
//!
//! 1. an absolute date, `year-month-day`, each part a decimal number;
//! 2. one of the keywords `long rest`, `short rest`, `midday`, `midnight`;
//! 3. a relative duration: one or more steps, each a decimal number and one
//!    of the units `y`, `mo`, `w`, `d`, `h`, `m`, `s`;
//! 4. a clock time: a decimal number and `am` or `pm`.
//!
//! The whole text must be the phrase. A number may have any count of
//! digits: whether it is one that a calendar can take is not a matter of the
//! language, and what a phrase means is not decided here.

use crate::datetime::TimeFormat;
use vstd::prelude::*;

verus! {

/// A unit of time that an amount can be given in.
#[derive(Clone, Copy, Debug, Eq, PartialEq, Structural)]
pub enum Unit {
    /// Years, written `y`.
    Year,
    /// Months, written `mo`.
    Month,
    /// Weeks, written `w`.
    Week,
    /// Days, written `d`.
    Day,
    /// Hours, written `h`.
    Hour,
    /// Minutes, written `m`.
    Minute,
    /// Seconds, written `s`.
    Second,
}

/// A fixed phrase.
#[derive(Clone, Copy, Debug, Eq, PartialEq, Structural)]
pub enum Keyword {
    /// `long rest`: eight hours.
    LongRest,
    /// `short rest`: four hours.
    ShortRest,
    /// `midday`: until the next midday.
    Midday,
    /// `midnight`: until the next midnight.
    Midnight,
}

/// One step of a relative duration: an amount of a unit.
///
/// A number of an expression is held in 64 bits. Where more is written than
/// 64 bits hold, the largest number of 64 bits stands for it.
#[derive(Clone, Copy, Debug, Eq, PartialEq, Structural)]
pub struct Step {
    /// How many.
    pub amount: u64,
    /// Of what.
    pub unit: Unit,
}

/// One step of a relative duration, with its amount as a number of any
/// size.
pub struct StepView {
    /// How many.
    pub amount: nat,
    /// Of what.
    pub unit: Unit,
}

impl View for Step {
    type V = StepView;

    open spec fn view(&self) -> StepView {
        StepView { amount: self.amount as nat, unit: self.unit }
    }
}

/// A time expression that has been read but not yet evaluated.
#[derive(Clone, Debug, Eq, PartialEq)]
pub enum Expression {
    /// A year, and a month and a day that count from one.
    AbsoluteDate { year: u64, month: u64, day: u64 },
    /// A fixed phrase.
    Keyword(Keyword),
    /// Steps to take one after the other.
    Relative(Vec<Step>),
    /// An hour of the first or the second half of the day.
    ClockTime { hour: u64, format: TimeFormat },
}

/// A phrase of the language, with its numbers as they are written: of any
/// size.
pub enum Phrase {
    /// A year, and a month and a day that count from one.
    AbsoluteDate { year: nat, month: nat, day: nat },
    /// A fixed phrase.
    Keyword(Keyword),
    /// Steps to take one after the other.
    Relative(Seq<StepView>),
    /// An hour of the first or the second half of the day.
    ClockTime { hour: nat, format: TimeFormat },
}

/// The steps of a list, each with its amount as a number.
pub open spec fn steps_view(steps: Seq<Step>) -> Seq<StepView> {
    Seq::new(steps.len(), |i: int| steps[i]@)
}

impl View for Expression {
    type V = Phrase;

    open spec fn view(&self) -> Phrase {
        match *self {
            Expression::AbsoluteDate { year, month, day } => Phrase::AbsoluteDate {
                year: year as nat,
                month: month as nat,
                day: day as nat,
            },
            Expression::Keyword(keyword) => Phrase::Keyword(keyword),
            Expression::Relative(steps) => Phrase::Relative(steps_view(steps@)),
            Expression::ClockTime { hour, format } => Phrase::ClockTime {
                hour: hour as nat,
                format,
            },
        }
    }
}

/// The number `n` as 64 bits hold it: itself, or the largest number of 64
/// bits where it is larger.
pub open spec fn cut(n: nat) -> nat {
    if n > u64::MAX {
        u64::MAX as nat
    } else {
        n
    }
}

/// The steps of a list, each with its amount as 64 bits hold it.
pub open spec fn cut_steps(steps: Seq<StepView>) -> Seq<StepView> {
    Seq::new(steps.len(), |i: int| StepView { amount: cut(steps[i].amount), unit: steps[i].unit })
}

/// A phrase with each of its numbers as 64 bits hold it.
pub open spec fn cut_phrase(phrase: Phrase) -> Phrase {
    match phrase {
        Phrase::AbsoluteDate { year, month, day } => Phrase::AbsoluteDate {
            year: cut(year),
            month: cut(month),
            day: cut(day),
        },
        Phrase::Keyword(keyword) => Phrase::Keyword(keyword),
        Phrase::Relative(steps) => Phrase::Relative(cut_steps(steps)),
        Phrase::ClockTime { hour, format } => Phrase::ClockTime { hour: cut(hour), format },
    }
}

/// `c` is one of the ten decimal digits.
pub open spec fn is_digit(c: char) -> bool {
    '0' <= c && c <= '9'
}

/// The value of the decimal digit `c`.
pub open spec fn digit_value(c: char) -> nat {
    (c as u32 - '0' as u32) as nat
}

/// The end of the longest run of digits of `text` that starts at `from`.
pub open spec fn digits_end(text: Seq<char>, from: int) -> int
    decreases text.len() - from,
{
    if 0 <= from < text.len() && is_digit(text[from]) {
        digits_end(text, from + 1)
    } else {
        from
    }
}

/// The number that the digits of `text` from `from` up to `to` write in
/// base ten.
pub open spec fn number(text: Seq<char>, from: int, to: int) -> nat
    decreases to - from,
{
    if to <= from {
        0
    } else {
        number(text, from, to - 1) * 10 + digit_value(text[to - 1])
    }
}

/// The unit written at place `at` of `text`, and the length of its name.
/// `mo` is looked for before `m`.
pub open spec fn unit_at(text: Seq<char>, at: int) -> Option<(Unit, int)> {
    if at < 0 || at >= text.len() {
        None
    } else if text[at] == 'm' && at + 1 < text.len() && text[at + 1] == 'o' {
        Some((Unit::Month, 2))
    } else if text[at] == 'y' {
        Some((Unit::Year, 1))
    } else if text[at] == 'w' {
        Some((Unit::Week, 1))
    } else if text[at] == 'd' {
        Some((Unit::Day, 1))
    } else if text[at] == 'h' {
        Some((Unit::Hour, 1))
    } else if text[at] == 'm' {
        Some((Unit::Minute, 1))
    } else if text[at] == 's' {
        Some((Unit::Second, 1))
    } else {
        None
    }
}

/// The absolute date that `text` is: three runs of digits with a `-` after
/// the first and after the second, and nothing else.
pub open spec fn date_phrase(text: Seq<char>) -> Option<Phrase> {
    let a = digits_end(text, 0);
    let b = digits_end(text, a + 1);
    let c = digits_end(text, b + 1);
    if 0 < a && a < text.len() && text[a] == '-' && a + 1 < b && b < text.len() && text[b] == '-'
        && b + 1 < c && c == text.len() {
        Some(
            Phrase::AbsoluteDate {
                year: number(text, 0, a),
                month: number(text, a + 1, b),
                day: number(text, b + 1, c),
            },
        )
    } else {
        None
    }
}

/// The keyword that `text` is.
pub open spec fn keyword_phrase(text: Seq<char>) -> Option<Phrase> {
    if text == "long rest"@ {
        Some(Phrase::Keyword(Keyword::LongRest))
    } else if text == "short rest"@ {
        Some(Phrase::Keyword(Keyword::ShortRest))
    } else if text == "midday"@ {
        Some(Phrase::Keyword(Keyword::Midday))
    } else if text == "midnight"@ {
        Some(Phrase::Keyword(Keyword::Midnight))
    } else {
        None
    }
}

/// The steps that `text` holds from place `from` to its end: none at the
/// end, else a run of digits, a unit, and the steps after it.
pub open spec fn steps_from(text: Seq<char>, from: int) -> Option<Seq<StepView>>
    decreases text.len() - from,
{
    if from < 0 || from >= text.len() {
        Some(Seq::empty())
    } else {
        let end = digits_end(text, from);
        if from < end {
            match unit_at(text, end) {
                Some((unit, length)) => match steps_from(text, end + length) {
                    Some(rest) => Some(
                        seq![StepView { amount: number(text, from, end), unit }] + rest,
                    ),
                    None => None,
                },
                None => None,
            }
        } else {
            None
        }
    }
}

/// The relative duration that `text` is: one or more steps and nothing else.
pub open spec fn relative_phrase(text: Seq<char>) -> Option<Phrase> {
    if text.len() == 0 {
        None
    } else {
        match steps_from(text, 0) {
            Some(steps) => Some(Phrase::Relative(steps)),
            None => None,
        }
    }
}

/// The clock time that `text` is: a run of digits and `am` or `pm`.
pub open spec fn clock_phrase(text: Seq<char>) -> Option<Phrase> {
    let end = digits_end(text, 0);
    if 0 < end && end + 2 == text.len() && text[end + 1] == 'm' && (text[end] == 'a' || text[end]
        == 'p') {
        Some(
            Phrase::ClockTime {
                hour: number(text, 0, end),
                format: if text[end] == 'a' {
                    TimeFormat::AM
                } else {
                    TimeFormat::PM
                },
            },
        )
    } else {
        None
    }
}

/// The phrase that `text` is: the first of absolute date, keyword, relative
/// duration and clock time that it can be read as, or `None` where it can be
/// read as none of them.
pub open spec fn phrase_of(text: Seq<char>) -> Option<Phrase> {
    if date_phrase(text) is Some {
        date_phrase(text)
    } else if keyword_phrase(text) is Some {
        keyword_phrase(text)
    } else if relative_phrase(text) is Some {
        relative_phrase(text)
    } else {
        clock_phrase(text)
    }
}

/// A run of digits ends inside the text, at a place that holds no digit,
/// and holds digits only.
pub proof fn lemma_digits_end(text: Seq<char>, from: int)
    requires
        0 <= from <= text.len(),
    ensures
        from <= digits_end(text, from) <= text.len(),
        forall|i: int| from <= i < digits_end(text, from) ==> is_digit(#[trigger] text[i]),
        digits_end(text, from) < text.len() ==> !is_digit(text[digits_end(text, from)]),
    decreases text.len() - from,
{
    if from < text.len() && is_digit(text[from]) {
        lemma_digits_end(text, from + 1);
    }
}

/// More digits never write a smaller number.
pub proof fn lemma_number_grows(text: Seq<char>, from: int, middle: int, to: int)
    requires
        from <= middle <= to,
    ensures
        number(text, from, middle) <= number(text, from, to),
    decreases to - middle,
{
    if middle < to {
        lemma_number_grows(text, from, middle, to - 1);
    }
}

/// Copies the characters of a text into a vector.
pub fn chars_of(text: &str) -> (r: Vec<char>)
    ensures
        r@ == text@,
{
    let mut out: Vec<char> = Vec::new();
    for c in it: text.chars()
        invariant
            out@ == it.seq().take(it.index()),
            it.seq() == text@,
    {
        out.push(c);
    }
    out
}

/// Tells whether two texts are the same.
fn same_text(a: &Vec<char>, b: &Vec<char>) -> (r: bool)
    ensures
        r == (a@ == b@),
{
    if a.len() != b.len() {
        return false;
    }
    let mut i: usize = 0;
    while i < a.len()
        invariant
            0 <= i <= a.len(),
            a.len() == b.len(),
            forall|j: int| 0 <= j < i ==> a@[j] == b@[j],
        decreases a.len() - i,
    {
        if a[i] != b[i] {
            return false;
        }
        i = i + 1;
    }
    assert(a@ =~= b@);
    true
}

/// Finds the end of the run of digits that starts at `from`.
fn scan_digits(text: &Vec<char>, from: usize) -> (end: usize)
    requires
        from <= text.len(),
    ensures
        end == digits_end(text@, from as int),
        from <= end <= text.len(),
{
    let mut end: usize = from;
    while end < text.len() && text[end] >= '0' && text[end] <= '9'
        invariant
            from <= end <= text.len(),
            digits_end(text@, from as int) == digits_end(text@, end as int),
        decreases text.len() - end,
    {
        end = end + 1;
    }
    end
}

/// Reads the number written by the digits from `from` up to `to`, as 64
/// bits hold it.
fn read_number(text: &Vec<char>, from: usize, to: usize) -> (r: u64)
    requires
        from <= to <= text.len(),
        forall|i: int| from <= i < to ==> is_digit(#[trigger] text@[i]),
    ensures
        r == cut(number(text@, from as int, to as int)),
{
    let mut value: u64 = 0;
    let mut i: usize = from;
    while i < to
        invariant
            from <= i <= to <= text.len(),
            forall|j: int| from <= j < to ==> is_digit(#[trigger] text@[j]),
            value == number(text@, from as int, i as int),
        decreases to - i,
    {
        let digit: u64 = (text[i] as u32 - '0' as u32) as u64;
        assert(is_digit(text@[i as int]));
        assert(digit == digit_value(text@[i as int]));
        assert(digit <= 9);
        if value > (u64::MAX - digit) / 10 {
            proof {
                lemma_number_grows(text@, from as int, i + 1, to as int);
            }
            return u64::MAX;
        }
        value = value * 10 + digit;
        i = i + 1;
    }
    value
}

/// Reads `text` as an absolute date.
fn read_date(text: &Vec<char>) -> (r: Option<Expression>)
    ensures
        match r {
            Some(expression) => date_phrase(text@) is Some && expression@ == cut_phrase(
                date_phrase(text@).unwrap(),
            ),
            None => date_phrase(text@) is None,
        },
{
    let a: usize = scan_digits(text, 0);
    if a == 0 || a >= text.len() || text[a] != '-' {
        return None;
    }
    let b: usize = scan_digits(text, a + 1);
    if b == a + 1 || b >= text.len() || text[b] != '-' {
        return None;
    }
    let c: usize = scan_digits(text, b + 1);
    if c == b + 1 || c != text.len() {
        return None;
    }
    proof {
        lemma_digits_end(text@, 0);
        lemma_digits_end(text@, a + 1);
        lemma_digits_end(text@, b + 1);
    }
    let year = read_number(text, 0, a);
    let month = read_number(text, a + 1, b);
    let day = read_number(text, b + 1, c);
    Some(Expression::AbsoluteDate { year, month, day })
}

/// Reads `text` as a keyword.
fn read_keyword(text: &Vec<char>) -> (r: Option<Expression>)
    ensures
        match r {
            Some(expression) => keyword_phrase(text@) is Some && expression@ == cut_phrase(
                keyword_phrase(text@).unwrap(),
            ),
            None => keyword_phrase(text@) is None,
        },
{
    if same_text(text, &chars_of("long rest")) {
        Some(Expression::Keyword(Keyword::LongRest))
    } else if same_text(text, &chars_of("short rest")) {
        Some(Expression::Keyword(Keyword::ShortRest))
    } else if same_text(text, &chars_of("midday")) {
        Some(Expression::Keyword(Keyword::Midday))
    } else if same_text(text, &chars_of("midnight")) {
        Some(Expression::Keyword(Keyword::Midnight))
    } else {
        None
    }
}

/// Reads the unit written at place `at`.
fn read_unit(text: &Vec<char>, at: usize) -> (r: Option<(Unit, usize)>)
    requires
        at <= text.len(),
    ensures
        match r {
            Some((unit, length)) => unit_at(text@, at as int) == Some((unit, length as int))
                && at + length <= text.len() && length > 0,
            None => unit_at(text@, at as int) is None,
        },
{
    if at >= text.len() {
        return None;
    }
    let c: char = text[at];
    if c == 'm' && at + 1 < text.len() && text[at + 1] == 'o' {
        Some((Unit::Month, 2))
    } else if c == 'y' {
        Some((Unit::Year, 1))
    } else if c == 'w' {
        Some((Unit::Week, 1))
    } else if c == 'd' {
        Some((Unit::Day, 1))
    } else if c == 'h' {
        Some((Unit::Hour, 1))
    } else if c == 'm' {
        Some((Unit::Minute, 1))
    } else if c == 's' {
        Some((Unit::Second, 1))
    } else {
        None
    }
}

/// The steps found so far, followed by those still to come.
spec fn steps_then(found: Seq<StepView>, coming: Option<Seq<StepView>>) -> Option<Seq<StepView>> {
    match coming {
        Some(rest) => Some(found + rest),
        None => None,
    }
}

/// Reads `text` as a relative duration.
fn read_relative(text: &Vec<char>) -> (r: Option<Expression>)
    ensures
        match r {
            Some(expression) => relative_phrase(text@) is Some && expression@ == cut_phrase(
                relative_phrase(text@).unwrap(),
            ),
            None => relative_phrase(text@) is None,
        },
{
    if text.len() == 0 {
        return None;
    }
    let mut steps: Vec<Step> = Vec::new();
    let ghost mut written: Seq<StepView> = Seq::empty();
    let mut at: usize = 0;
    proof {
        if let Some(all) = steps_from(text@, 0) {
            assert(written + all =~= all);
        }
        assert(steps_view(steps@) =~= cut_steps(written));
    }
    while at < text.len()
        invariant
            0 <= at <= text.len(),
            steps_from(text@, 0) == steps_then(written, steps_from(text@, at as int)),
            steps@.len() == written.len(),
            steps_view(steps@) == cut_steps(written),
        decreases text.len() - at,
    {
        let end: usize = scan_digits(text, at);
        if end == at {
            return None;
        }
        proof {
            lemma_digits_end(text@, at as int);
        }
        let amount = read_number(text, at, end);
        let (unit, length) = match read_unit(text, end) {
            Some(found) => found,
            None => {
                return None;
            },
        };
        let step = Step { amount, unit };
        let ghost exact = StepView { amount: number(text@, at as int, end as int), unit };
        proof {
            let coming = steps_from(text@, end + length);
            if coming is Some {
                assert(written.push(exact) + coming.unwrap() =~= written + (seq![exact]
                    + coming.unwrap()));
            }
            assert(steps_view(steps@.push(step)) =~= cut_steps(written.push(exact))) by {
                assert forall|i: int| 0 <= i < steps@.len() implies steps_view(
                    steps@.push(step),
                )[i] == cut_steps(written.push(exact))[i] by {
                    assert(steps_view(steps@)[i] == cut_steps(written)[i]);
                    assert(steps@.push(step)[i] == steps@[i]);
                    assert(written.push(exact)[i] == written[i]);
                }
                assert(steps@.push(step)[steps@.len() as int] == step);
                assert(written.push(exact)[written.len() as int] == exact);
            }
            written = written.push(exact);
        }
        steps.push(step);
        at = end + length;
    }
    proof {
        assert(written + Seq::<StepView>::empty() =~= written);
    }
    Some(Expression::Relative(steps))
}

/// Reads `text` as a clock time.
fn read_clock(text: &Vec<char>) -> (r: Option<Expression>)
    ensures
        match r {
            Some(expression) => clock_phrase(text@) is Some && expression@ == cut_phrase(
                clock_phrase(text@).unwrap(),
            ),
            None => clock_phrase(text@) is None,
        },
{
    let end: usize = scan_digits(text, 0);
    if end == 0 || text.len() - end != 2 || text[end + 1] != 'm' {
        return None;
    }
    let format = if text[end] == 'a' {
        TimeFormat::AM
    } else if text[end] == 'p' {
        TimeFormat::PM
    } else {
        return None;
    };
    proof {
        lemma_digits_end(text@, 0);
    }
    let hour = read_number(text, 0, end);
    Some(Expression::ClockTime { hour, format })
}

impl Expression {
    /// Reads a text as a time expression: the phrase that the text is, with
    /// each number as 64 bits hold it. The answer is `None` where the text
    /// is no phrase of the language.
    pub fn parse(text: &str) -> (r: Option<Expression>)
        ensures
            match r {
                Some(expression) => phrase_of(text@) is Some && expression@ == cut_phrase(
                    phrase_of(text@).unwrap(),
                ),
                None => phrase_of(text@) is None,
            },
    {
        let chars = chars_of(text);
        if let Some(expression) = read_date(&chars) {
            return Some(expression);
        }
        if let Some(expression) = read_keyword(&chars) {
            return Some(expression);
        }
        if let Some(expression) = read_relative(&chars) {
            return Some(expression);
        }
        read_clock(&chars)
    }
}

/// `digits` is a numeral: one or more decimal digits.
pub open spec fn is_numeral(digits: Seq<char>) -> bool {
    digits.len() > 0 && forall|i: int| 0 <= i < digits.len() ==> is_digit(#[trigger] digits[i])
}

/// The number that a numeral writes.
pub open spec fn value_of(digits: Seq<char>) -> nat {
    number(digits, 0, digits.len() as int)
}

/// The name of a unit.
pub open spec fn unit_name(unit: Unit) -> Seq<char> {
    match unit {
        Unit::Year => seq!['y'],
        Unit::Month => seq!['m', 'o'],
        Unit::Week => seq!['w'],
        Unit::Day => seq!['d'],
        Unit::Hour => seq!['h'],
        Unit::Minute => seq!['m'],
        Unit::Second => seq!['s'],
    }
}

/// The text of a list of steps, each written as a numeral and a unit: the
/// numeral and the name of the unit of the first, and the text of the rest.
pub open spec fn steps_text(steps: Seq<(Seq<char>, Unit)>) -> Seq<char>
    decreases steps.len(),
{
    if steps.len() == 0 {
        Seq::empty()
    } else {
        steps[0].0 + unit_name(steps[0].1) + steps_text(steps.drop_first())
    }
}

/// The steps that a list of written steps stands for.
pub open spec fn steps_values(steps: Seq<(Seq<char>, Unit)>) -> Seq<StepView> {
    Seq::new(steps.len(), |i: int| StepView { amount: value_of(steps[i].0), unit: steps[i].1 })
}

/// Every amount of a list of written steps is a numeral.
pub open spec fn steps_are_written(steps: Seq<(Seq<char>, Unit)>) -> bool {
    forall|i: int| 0 <= i < steps.len() ==> is_numeral((#[trigger] steps[i]).0)
}

/// A run of digits that stands in a text, with no digit after it, is found
/// whole.
pub proof fn lemma_digits_end_of_numeral(
    before: Seq<char>,
    digits: Seq<char>,
    after: Seq<char>,
    from: int,
)
    requires
        forall|i: int| 0 <= i < digits.len() ==> is_digit(#[trigger] digits[i]),
        after.len() > 0 ==> !is_digit(after[0]),
        before.len() <= from <= before.len() + digits.len(),
    ensures
        digits_end(before + digits + after, from) == before.len() + digits.len(),
    decreases before.len() + digits.len() - from,
{
    let text = before + digits + after;
    if from < before.len() + digits.len() {
        assert(text[from] == digits[from - before.len()]);
        lemma_digits_end_of_numeral(before, digits, after, from + 1);
    } else if after.len() > 0 {
        assert(text[from] == after[0]);
    }
}

/// The number that a run of digits writes does not depend on what stands
/// around it.
pub proof fn lemma_number_of_numeral(
    before: Seq<char>,
    digits: Seq<char>,
    after: Seq<char>,
    to: int,
)
    requires
        0 <= to <= digits.len(),
    ensures
        number(before + digits + after, before.len() as int, before.len() + to) == number(
            digits,
            0,
            to,
        ),
    decreases to,
{
    if to > 0 {
        lemma_number_of_numeral(before, digits, after, to - 1);
        assert((before + digits + after)[before.len() + to - 1] == digits[to - 1]);
    }
}

/// The absolute dates are the texts `year-month-day`: three numerals with a
/// `-` between them read as the absolute date of their numbers, however
/// large these are.
pub proof fn law_absolute_dates(year: Seq<char>, month: Seq<char>, day: Seq<char>)
    requires
        is_numeral(year),
        is_numeral(month),
        is_numeral(day),
    ensures
        phrase_of(year + seq!['-'] + month + seq!['-'] + day) == Some(
            Phrase::AbsoluteDate {
                year: value_of(year),
                month: value_of(month),
                day: value_of(day),
            },
        ),
{
    let dash = seq!['-'];
    let text = year + dash + month + dash + day;
    let none = Seq::<char>::empty();
    assert(text =~= none + year + (dash + month + dash + day));
    assert(text =~= (year + dash) + month + (dash + day));
    assert(text =~= (year + dash + month + dash) + day + none);
    lemma_digits_end_of_numeral(none, year, dash + month + dash + day, 0);
    lemma_digits_end_of_numeral(year + dash, month, dash + day, (year.len() + 1) as int);
    lemma_digits_end_of_numeral(
        year + dash + month + dash,
        day,
        none,
        (year.len() + month.len() + 2) as int,
    );
    lemma_number_of_numeral(none, year, dash + month + dash + day, year.len() as int);
    lemma_number_of_numeral(year + dash, month, dash + day, month.len() as int);
    lemma_number_of_numeral(year + dash + month + dash, day, none, day.len() as int);
    assert(text[year.len() as int] == '-');
    assert(text[(year.len() + 1 + month.len()) as int] == '-');
}

/// What reads as an absolute date is a text `year-month-day`: three
/// numerals with a `-` between them.
pub proof fn law_absolute_dates_only(text: Seq<char>)
    requires
        date_phrase(text) is Some,
    ensures
        ({
            let a = digits_end(text, 0);
            let b = digits_end(text, a + 1);
            &&& is_numeral(text.subrange(0, a))
            &&& is_numeral(text.subrange(a + 1, b))
            &&& is_numeral(text.subrange(b + 1, text.len() as int))
            &&& text == text.subrange(0, a) + seq!['-'] + text.subrange(a + 1, b) + seq!['-']
                + text.subrange(b + 1, text.len() as int)
        }),
{
    let a = digits_end(text, 0);
    let b = digits_end(text, a + 1);
    lemma_digits_end(text, 0);
    lemma_digits_end(text, a + 1);
    lemma_digits_end(text, b + 1);
    assert(text =~= text.subrange(0, a) + seq!['-'] + text.subrange(a + 1, b) + seq!['-']
        + text.subrange(b + 1, text.len() as int));
}

/// The clock times are the texts of a numeral and `am` or `pm`, however
/// large the number is.
pub proof fn law_clock_times(hour: Seq<char>, afternoon: bool)
    requires
        is_numeral(hour),
    ensures
        phrase_of(
            hour + if afternoon {
                seq!['p', 'm']
            } else {
                seq!['a', 'm']
            },
        ) == Some(
            Phrase::ClockTime {
                hour: value_of(hour),
                format: if afternoon {
                    TimeFormat::PM
                } else {
                    TimeFormat::AM
                },
            },
        ),
{
    let half = if afternoon {
        seq!['p', 'm']
    } else {
        seq!['a', 'm']
    };
    let text = hour + half;
    let none = Seq::<char>::empty();
    assert(text =~= none + hour + half);
    lemma_digits_end_of_numeral(none, hour, half, 0);
    lemma_number_of_numeral(none, hour, half, hour.len() as int);
    let end = hour.len() as int;
    assert(text[end] == half[0]);
    assert(text[end + 1] == half[1]);
    assert(date_phrase(text) is None);
    assert(keyword_phrase(text) is None) by {
        reveal_strlit("long rest");
        reveal_strlit("short rest");
        reveal_strlit("midday");
        reveal_strlit("midnight");
        assert(is_digit(text[0]));
    }
    assert(unit_at(text, end) is None);
    assert(steps_from(text, 0) is None);
}

/// The relative durations are the texts of one or more written steps: the
/// steps written one after the other, each as a numeral and the name of
/// its unit, read as these steps, from any place in a text that ends with
/// them.
pub proof fn lemma_steps_from(before: Seq<char>, steps: Seq<(Seq<char>, Unit)>)
    requires
        steps_are_written(steps),
    ensures
        steps_from(before + steps_text(steps), before.len() as int) == Some(steps_values(steps)),
    decreases steps.len(),
{
    let text = before + steps_text(steps);
    let from = before.len() as int;
    if steps.len() == 0 {
        assert(text =~= before);
        assert(steps_values(steps) =~= Seq::<StepView>::empty());
    } else {
        let digits = steps[0].0;
        let unit = steps[0].1;
        let rest = steps.drop_first();
        let name = unit_name(unit);
        let after = name + steps_text(rest);
        assert(text =~= before + digits + after);
        assert(after[0] == name[0]);
        lemma_digits_end_of_numeral(before, digits, after, from);
        lemma_number_of_numeral(before, digits, after, digits.len() as int);
        let end = from + digits.len();
        assert(text[end] == name[0]);
        if rest.len() > 0 {
            assert(is_numeral(rest[0].0));
            assert(steps_text(rest)[0] == rest[0].0[0]);
            assert(is_digit(rest[0].0[0]));
        }
        if name.len() == 2 {
            assert(text[end + 1] == name[1]);
        } else if end + 1 < text.len() {
            assert(text[end + 1] == steps_text(rest)[0]);
        }
        assert(unit_at(text, end) == Some((unit, name.len() as int)));
        assert(steps_are_written(rest)) by {
            assert forall|i: int| 0 <= i < rest.len() implies is_numeral(
                (#[trigger] rest[i]).0,
            ) by {
                assert(rest[i] == steps[i + 1]);
            }
        }
        assert(text =~= (before + digits + name) + steps_text(rest));
        lemma_steps_from(before + digits + name, rest);
        assert(steps_values(steps) =~= seq![StepView { amount: value_of(digits), unit }]
            + steps_values(rest));
    }
}

/// The relative durations are the texts of one or more written steps,
/// however large their amounts are.
pub proof fn law_relative_durations(steps: Seq<(Seq<char>, Unit)>)
    requires
        steps.len() > 0,
        steps_are_written(steps),
    ensures
        phrase_of(steps_text(steps)) == Some(Phrase::Relative(steps_values(steps))),
{
    let text = steps_text(steps);
    let none = Seq::<char>::empty();
    assert(none + text =~= text);
    lemma_steps_from(none, steps);
    let digits = steps[0].0;
    let name = unit_name(steps[0].1);
    let after = name + steps_text(steps.drop_first());
    assert(text =~= none + digits + after);
    lemma_digits_end_of_numeral(none, digits, after, 0);
    assert(text[digits.len() as int] == name[0]);
    assert(date_phrase(text) is None);
    assert(keyword_phrase(text) is None) by {
        reveal_strlit("long rest");
        reveal_strlit("short rest");
        reveal_strlit("midday");
        reveal_strlit("midnight");
        assert(text[0] == digits[0]);
        assert(is_digit(text[0]));
    }
}

/// The keywords read as themselves: no keyword is an absolute date.
pub proof fn law_keywords()
    ensures
        phrase_of("long rest"@) == Some(Phrase::Keyword(Keyword::LongRest)),
        phrase_of("short rest"@) == Some(Phrase::Keyword(Keyword::ShortRest)),
        phrase_of("midday"@) == Some(Phrase::Keyword(Keyword::Midday)),
        phrase_of("midnight"@) == Some(Phrase::Keyword(Keyword::Midnight)),
{
    reveal_strlit("long rest");
    reveal_strlit("short rest");
    reveal_strlit("midday");
    reveal_strlit("midnight");
    assert(!is_digit("long rest"@[0]));
    assert(!is_digit("short rest"@[0]));
    assert(!is_digit("midday"@[0]));
    assert(!is_digit("midnight"@[0]));
    assert("long rest"@.len() != "short rest"@.len());
    assert("long rest"@.len() != "midday"@.len());
    assert("long rest"@.len() != "midnight"@.len());
    assert("short rest"@.len() != "midday"@.len());
    assert("short rest"@.len() != "midnight"@.len());
    assert("midday"@.len() != "midnight"@.len());
}

} // verus!
