//! The time.

use vstd::prelude::*;

use crate::decimal::{padded_digits, padded_digits_are_digits};
use crate::text::{all_digits, counts_are_digits, digits, is_digit};

verus! {

/// Whether `ms` can be a time that the clock shows, in milliseconds since the start of 1970.
pub open spec fn clock_shows(ms: int) -> bool {
    0 <= ms < 10_000_000_000_000_000
}

/// Whether `text` can stand for a time in a table of comma-separated values: it is not empty, and
/// holds no comma and no line break.
pub open spec fn clock_text(text: Seq<char>) -> bool {
    &&& text.len() > 0
    &&& forall|i: int|
        0 <= i < text.len() ==> #[trigger] text[i] != ',' && text[i] != '\n' && text[i] != '\r'
}

/// A second, as a calendar and a clock show it.
pub struct Moment {
    pub year: nat,
    pub month: nat,
    pub day: nat,
    pub hour: nat,
    pub minute: nat,
    pub second: nat,
}

/// How many days a month has.
pub open spec fn days_in(year: nat, month: nat) -> nat {
    if month == 2 {
        if year % 4 == 0 && (year % 100 != 0 || year % 400 == 0) {
            29
        } else {
            28
        }
    } else if month == 4 || month == 6 || month == 9 || month == 11 {
        30
    } else {
        31
    }
}

impl Moment {
    /// Whether there is such a second since the start of 1970.
    pub open spec fn valid(self) -> bool {
        &&& 1970 <= self.year
        &&& 1 <= self.month <= 12
        &&& 1 <= self.day <= days_in(self.year, self.month)
        &&& self.hour < 24
        &&& self.minute < 60
        &&& self.second < 60
    }

    /// The year. One of more than four digits has a sign.
    pub open spec fn year_text(self) -> Seq<char> {
        if self.year <= 9999 {
            padded_digits(self.year, 4)
        } else {
            seq!['+'] + digits(self.year)
        }
    }

    /// The date.
    pub open spec fn date_text(self) -> Seq<char> {
        self.year_text() + seq!['-'] + padded_digits(self.month, 2) + seq!['-'] + padded_digits(
            self.day,
            2,
        )
    }

    /// The time of the day.
    pub open spec fn time_text(self) -> Seq<char> {
        padded_digits(self.hour, 2) + seq![':'] + padded_digits(self.minute, 2) + seq![':']
            + padded_digits(self.second, 2)
    }
}

/// Whether `text` is a part of a second: nothing, or a point and three, six or nine digits.
pub open spec fn is_fraction(text: Seq<char>) -> bool {
    text.len() == 0 || {
        &&& text.len() == 4 || text.len() == 7 || text.len() == 10
        &&& text[0] == '.'
        &&& all_digits(text.skip(1))
    }
}

/// A time in the form of RFC 3339.
pub open spec fn rfc3339_text(t: Moment, fraction: Seq<char>) -> Seq<char> {
    t.date_text() + seq!['T'] + t.time_text() + fraction + seq!['+', '0', '0', ':', '0', '0']
}

/// Whether `text` is a time in the form of RFC 3339.
pub open spec fn is_rfc3339(text: Seq<char>) -> bool {
    exists|t: Moment, fraction: Seq<char>|
        t.valid() && is_fraction(fraction) && text == #[trigger] rfc3339_text(t, fraction)
}

/// A time as it is shown.
pub open spec fn shown_time(t: Moment) -> Seq<char> {
    t.date_text() + seq![' '] + t.time_text() + seq![' ', 'U', 'T', 'C']
}

/// Whether `text` is a time as it is shown.
pub open spec fn is_shown_time(text: Seq<char>) -> bool {
    exists|t: Moment| t.valid() && text == #[trigger] shown_time(t)
}

/// Whether `text` holds no character that a table of comma-separated values sets apart.
spec fn in_one_cell(text: Seq<char>) -> bool {
    forall|i: int|
        0 <= i < text.len() ==> #[trigger] text[i] != ',' && text[i] != '\n' && text[i] != '\r'
}

proof fn lemma_padded_in_one_cell(n: nat, width: nat)
    ensures
        in_one_cell(padded_digits(n, width)),
{
    padded_digits_are_digits(n, width);
    assert forall|i: int| 0 <= i < padded_digits(n, width).len() implies #[trigger] padded_digits(
        n,
        width,
    )[i] != ',' && padded_digits(n, width)[i] != '\n' && padded_digits(n, width)[i] != '\r' by {
        assert(is_digit(padded_digits(n, width)[i]));
    }
}

proof fn lemma_moment_in_one_cell(t: Moment)
    ensures
        in_one_cell(t.date_text()),
        in_one_cell(t.time_text()),
{
    lemma_padded_in_one_cell(t.year, 4);
    lemma_padded_in_one_cell(t.month, 2);
    lemma_padded_in_one_cell(t.day, 2);
    lemma_padded_in_one_cell(t.hour, 2);
    lemma_padded_in_one_cell(t.minute, 2);
    lemma_padded_in_one_cell(t.second, 2);
    counts_are_digits(t.year);
    assert forall|i: int| 0 <= i < digits(t.year).len() implies #[trigger] digits(t.year)[i] != ','
        && digits(t.year)[i] != '\n' && digits(t.year)[i] != '\r' by {
        assert(is_digit(digits(t.year)[i]));
    }
    assert(in_one_cell(t.year_text()));
}

/// A time in the form of RFC 3339 can stand in a table of comma-separated values.
pub proof fn times_stand_in_tables(text: Seq<char>)
    requires
        is_rfc3339(text),
    ensures
        clock_text(text),
{
    let (t, fraction) = choose|t: Moment, fraction: Seq<char>|
        t.valid() && is_fraction(fraction) && text == #[trigger] rfc3339_text(t, fraction);
    lemma_moment_in_one_cell(t);
    assert forall|i: int| 0 <= i < fraction.len() implies #[trigger] fraction[i] != ','
        && fraction[i] != '\n' && fraction[i] != '\r' by {
        if i > 0 {
            assert(is_digit(fraction.skip(1)[i - 1]));
        }
    }
    assert(in_one_cell(fraction));
}

/// `chrono::Utc::now().timestamp_millis()`: the time now. It lies neither before 1970 nor behind
/// the last year that `chrono` knows, which is 262142.
#[verifier::external_body]
pub(crate) fn now_ms() -> (ms: i64)
    ensures
        clock_shows(ms as int),
{
    chrono::Utc::now().timestamp_millis()
}

/// `chrono::Utc::now().to_rfc3339()`: the time now in the form of RFC 3339. Which time that is rests
/// on the clock.
#[verifier::external_body]
pub(crate) fn rfc3339_now() -> (text: String)
    ensures
        is_rfc3339(text@),
{
    chrono::Utc::now().to_rfc3339()
}

/// `chrono::Utc::now().format(..)`: the time now as the date, the time of day and `UTC`. Which time
/// that is rests on the clock.
#[verifier::external_body]
pub(crate) fn utc_now() -> (text: String)
    ensures
        is_shown_time(text@),
{
    chrono::Utc::now().format("%Y-%m-%d %H:%M:%S UTC").to_string()
}

} // verus!
