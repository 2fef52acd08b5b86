//! The time of day and fresh identifiers.

use vstd::prelude::*;

verus! {

/// Whether a character is a decimal digit.
pub open spec fn is_digit(c: char) -> bool {
    '0' <= c <= '9'
}

/// Whether a character is a sign.
pub open spec fn is_sign(c: char) -> bool {
    c == '+' || c == '-'
}

/// Whether two digits stand at an index of a text.
pub open spec fn two_digits(text: Seq<char>, at: int) -> bool {
    is_digit(text[at]) && is_digit(text[at + 1])
}

/// Whether a text is a date: a year of at least four digits, with or without a sign, and a
/// month and a day of two digits each.
pub open spec fn is_date(t: Seq<char>) -> bool {
    let year = t.len() - 6;
    let start = if t.len() > 0 && is_sign(t[0]) {
        1int
    } else {
        0int
    };
    &&& year - start >= 4
    &&& forall|i: int| start <= i < year ==> is_digit(#[trigger] t[i])
    &&& t[year] == '-' && two_digits(t, year + 1)
    &&& t[year + 3] == '-' && two_digits(t, year + 4)
}

/// Whether hours, minutes and seconds stand at an index of a text.
pub open spec fn time_at(t: Seq<char>, at: int) -> bool {
    &&& two_digits(t, at)
    &&& t[at + 2] == ':' && two_digits(t, at + 3)
    &&& t[at + 5] == ':' && two_digits(t, at + 6)
}

/// Whether a text is a time of day to the millisecond.
pub open spec fn is_time_of_day(t: Seq<char>) -> bool {
    &&& t.len() == 12
    &&& time_at(t, 0)
    &&& t[8] == '.' && is_digit(t[9]) && two_digits(t, 10)
}

/// Whether a text is a timestamp whose date ends before index `at`: then come `T`, the time,
/// a fraction of three, six or nine digits or none, and the distance from UTC.
pub open spec fn timestamp_at(t: Seq<char>, at: int) -> bool {
    let offset = t.len() - 6;
    &&& is_date(t.take(at))
    &&& t[at] == 'T' && time_at(t, at + 1)
    &&& {
        ||| offset == at + 9
        ||| {
            &&& t[at + 9] == '.'
            &&& offset == at + 13 || offset == at + 16 || offset == at + 19
            &&& forall|i: int| at + 10 <= i < offset ==> is_digit(#[trigger] t[i])
        }
    }
    &&& is_sign(t[offset]) && two_digits(t, offset + 1)
    &&& t[offset + 3] == ':' && two_digits(t, offset + 4)
}

/// Whether a text is a timestamp of RFC 3339.
pub open spec fn is_timestamp(t: Seq<char>) -> bool {
    exists|at: int| 10 <= at <= t.len() - 15 && #[trigger] timestamp_at(t, at)
}

/// `chrono::Local::now`, formatted as a date by `%Y-%m-%d`. Which day it is follows the
/// machine's clock and time zone: of the result only its form is said.
#[verifier::external_body]
pub(crate) fn local_date() -> (date: String)
    ensures
        is_date(date@),
{
    chrono::Local::now().format("%Y-%m-%d").to_string()
}

/// `chrono::Local::now`, formatted as a time of day by `%H:%M:%S%.3f`. What time it is
/// follows the machine's clock and time zone: of the result only its form is said.
#[verifier::external_body]
pub(crate) fn local_time_of_day() -> (time: String)
    ensures
        is_time_of_day(time@),
{
    chrono::Local::now().format("%H:%M:%S%.3f").to_string()
}

/// `chrono::Local::now` as an RFC 3339 timestamp. What time it is follows the machine's
/// clock and time zone: of the result only its form is said.
#[verifier::external_body]
pub(crate) fn local_timestamp() -> (time: String)
    ensures
        is_timestamp(time@),
{
    chrono::Local::now().to_rfc3339()
}

/// `chrono::Utc::now` in milliseconds since the epoch. The result follows the machine's
/// clock: nothing is said of it.
#[verifier::external_body]
pub(crate) fn utc_millis() -> (time: i64) {
    chrono::Utc::now().timestamp_millis()
}

/// Whether a text has the hyphenated form of a UUID: 32 hexadecimal digits in groups of
/// 8, 4, 4, 4 and 12.
pub open spec fn is_hyphenated(text: Seq<char>) -> bool {
    &&& text.len() == 36
    &&& forall|i: int|
        0 <= i < 36 ==> if i == 8 || i == 13 || i == 18 || i == 23 {
            #[trigger] text[i] == '-'
        } else {
            '0' <= text[i] <= '9' || 'a' <= text[i] <= 'f'
        }
}

/// `uuid::Uuid::new_v4` in its hyphenated form. The digits are random: nothing more is
/// said of the result.
#[verifier::external_body]
pub(crate) fn fresh_id() -> (id: String)
    ensures
        is_hyphenated(id@),
{
    uuid::Uuid::new_v4().to_string()
}

} // verus!
