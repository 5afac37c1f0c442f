//! The `Date` scalar: a calendar date written `YYYY-MM-DD`.
use vstd::prelude::*;

use crate::gql_types::{ConstValue, ValueView};
use crate::json::{JsonValue, JsonView};
use crate::util::owned;

use chrono::Datelike;

verus! {

/// The format the `Date` scalar accepts, in `chrono`'s strftime syntax.
pub const DATE_FORMAT: &'static str = "%Y-%m-%d";

/// A calendar date: year, month (1 to 12) and day of the month.
#[derive(Debug, Clone, Copy, PartialEq, Eq, Structural)]
pub struct Date {
    pub year: i32,
    pub month: u32,
    pub day: u32,
}

/// What `<chrono::NaiveDate as FromStr>::from_str` gives for a string: the
/// date as (year, month, day), or the text of the parse error.
pub uninterp spec fn chrono_date_from_str(s: Seq<char>) -> Result<(i32, u32, u32), Seq<char>>;

/// What `chrono::NaiveDate::parse_from_str` gives for a string and a
/// format: the date as (year, month, day), or the text of the parse error.
pub uninterp spec fn chrono_date_parse_from_str(s: Seq<char>, fmt: Seq<char>) -> Result<(i32, u32, u32), Seq<char>>;

pub open spec fn date_result_view(r: Result<(i32, u32, u32), String>) -> Result<(i32, u32, u32), Seq<char>> {
    match r {
        Ok(d) => Ok(d),
        Err(e) => Err(e@),
    }
}

/// Calls `<chrono::NaiveDate as FromStr>::from_str`; the result is the
/// date's year, month and day, or the error's text. Nothing more is claimed
/// than that the result is a function of the string (named
/// `chrono_date_from_str`).
#[verifier::external_body]
fn naive_date_from_str(s: &str) -> (r: Result<(i32, u32, u32), String>)
    ensures
        date_result_view(r) == chrono_date_from_str(s@),
{
    match <chrono::NaiveDate as std::str::FromStr>::from_str(s) {
        Ok(d) => Ok((d.year(), d.month(), d.day())),
        Err(e) => Err(e.to_string()),
    }
}

/// Calls `chrono::NaiveDate::parse_from_str`; the result is the date's
/// year, month and day, or the error's text. Nothing more is claimed than
/// that the result is a function of the string and the format (named
/// `chrono_date_parse_from_str`).
#[verifier::external_body]
fn naive_date_parse_from_str(s: &str, fmt: &str) -> (r: Result<(i32, u32, u32), String>)
    ensures
        date_result_view(r) == chrono_date_parse_from_str(s@, fmt@),
{
    match chrono::NaiveDate::parse_from_str(s, fmt) {
        Ok(d) => Ok((d.year(), d.month(), d.day())),
        Err(e) => Err(e.to_string()),
    }
}

/// An error while resolving a value, with its message.
#[derive(Debug)]
pub struct Error {
    pub message: String,
}

/// An input value that does not fit its type, with its message.
#[derive(Debug)]
pub struct InputValueError {
    pub message: String,
}

/// `Failed to parse "<ty>": <msg>`.
pub open spec fn ty_custom_message(ty: Seq<char>, msg: Seq<char>) -> Seq<char> {
    "Failed to parse \""@ + ty + "\": "@ + msg
}

impl InputValueError {
    /// The error for a value of type `ty` that cannot be read, with the reason.
    pub fn ty_custom(ty: &str, msg: &str) -> (r: InputValueError)
        ensures
            r.message@ == ty_custom_message(ty@, msg@),
    {
        let mut m = owned("Failed to parse \"");
        m.append(ty);
        m.append("\": ");
        m.append(msg);
        InputValueError { message: m }
    }
}

/// Digits, at least one.
pub open spec fn all_digits(s: Seq<char>) -> bool {
    s.len() > 0 && forall|i: int| 0 <= i < s.len() ==> '0' <= #[trigger] s[i] <= '9'
}

/// The text of a JSON number is that of an integer: digits, after an
/// optional minus sign (as `serde_json` writes its integers; it writes
/// other numbers with a decimal point or an exponent).
pub open spec fn is_integer_text(t: Seq<char>) -> bool {
    if t.len() > 0 && t[0] == '-' {
        all_digits(t.drop_first())
    } else {
        all_digits(t)
    }
}

fn integer_text(t: &str) -> (r: bool)
    ensures
        r == is_integer_text(t@),
{
    let n = t.unicode_len();
    let start: usize = if n > 0 && t.get_char(0) == '-' {
        1
    } else {
        0
    };
    let ghost digits = if start == 1 {
        t@.drop_first()
    } else {
        t@
    };
    assert(is_integer_text(t@) == all_digits(digits));
    assert(digits.len() == n - start);
    if start >= n {
        return false;
    }
    let mut i = start;
    while i < n
        invariant
            n == t@.len(),
            start <= i <= n,
            digits.len() == n - start,
            is_integer_text(t@) == all_digits(digits),
            forall|j: int| 0 <= j < digits.len() ==> digits[j] == t@[j + start],
            forall|j: int| 0 <= j < i - start ==> '0' <= #[trigger] digits[j] <= '9',
        decreases n - i,
    {
        let c = t.get_char(i);
        if !('0' <= c && c <= '9') {
            assert(digits[i - start] == c);
            assert(!all_digits(digits));
            return false;
        }
        assert(digits[i - start] == c);
        i += 1;
    }
    true
}

/// How a JSON value that is not a string is described when a string was
/// expected (as `serde_json` describes it).
pub open spec fn unexpected_json(v: JsonView) -> Seq<char> {
    match v {
        JsonView::Null => "null"@,
        JsonView::Bool(b) => if b {
            "boolean `true`"@
        } else {
            "boolean `false`"@
        },
        JsonView::Number(n) => if is_integer_text(n) {
            "integer `"@ + n + "`"@
        } else {
            "floating point `"@ + n + "`"@
        },
        JsonView::String(s) => "string \""@ + s + "\""@,
        JsonView::Array(_) => "sequence"@,
        JsonView::Object(_) => "map"@,
    }
}

/// `invalid type: <what it is>, expected a string`.
pub open spec fn expected_string_message(v: JsonView) -> Seq<char> {
    "invalid type: "@ + unexpected_json(v) + ", expected a string"@
}

fn describe_json(v: &JsonValue) -> (r: String)
    ensures
        r@ == unexpected_json(v@),
{
    match v {
        JsonValue::Null => owned("null"),
        JsonValue::Bool(b) => if *b {
            owned("boolean `true`")
        } else {
            owned("boolean `false`")
        },
        JsonValue::Number(n) => {
            let mut m = if integer_text(n.as_str()) {
                owned("integer `")
            } else {
                owned("floating point `")
            };
            m.append(n.as_str());
            m.append("`");
            m
        },
        JsonValue::String(s) => {
            let mut m = owned("string \"");
            m.append(s.as_str());
            m.append("\"");
            m
        },
        JsonValue::Array(_) => owned("sequence"),
        JsonValue::Object(_) => owned("map"),
    }
}

/// The message of a `Date` coercion that failed.
pub open spec fn date_violation_message() -> Seq<char> {
    "Data violation: Cannot coerce the initial value to a Date"@
}

/// An ASCII digit.
pub open spec fn is_digit(c: char) -> bool {
    '0' <= c <= '9'
}

/// The shape of an RFC 3339 full-date: four digits, `-`, two digits, `-`,
/// two digits (`2007-12-03`).
pub open spec fn full_date_shape(s: Seq<char>) -> bool {
    &&& s.len() == 10
    &&& is_digit(s[0]) && is_digit(s[1]) && is_digit(s[2]) && is_digit(s[3])
    &&& s[4] == '-'
    &&& is_digit(s[5]) && is_digit(s[6])
    &&& s[7] == '-'
    &&& is_digit(s[8]) && is_digit(s[9])
}

/// A string is a date: it has the shape of a full-date and `%Y-%m-%d`
/// reads it as a calendar date.
pub open spec fn is_full_date(s: Seq<char>) -> bool {
    full_date_shape(s) && chrono_date_parse_from_str(s, DATE_FORMAT@) is Ok
}

/// Every ten-character string of the RFC 3339 full-date form (ASCII
/// digits, a dash after the fourth and the seventh) that `%Y-%m-%d` reads
/// as a calendar date is a date: the shape asks for nothing more than the
/// digits and the two dashes.
pub proof fn lemma_full_dates_accepted(s: Seq<char>)
    requires
        s.len() == 10,
        forall|i: int| 0 <= i < 10 && i != 4 && i != 7 ==> '0' <= #[trigger] s[i] <= '9',
        s[4] == '-',
        s[7] == '-',
        chrono_date_parse_from_str(s, DATE_FORMAT@) is Ok,
    ensures
        is_full_date(s),
{
    assert('0' <= s[0] <= '9' && '0' <= s[1] <= '9' && '0' <= s[2] <= '9' && '0' <= s[3] <= '9');
    assert('0' <= s[5] <= '9' && '0' <= s[6] <= '9' && '0' <= s[8] <= '9' && '0' <= s[9] <= '9');
}

/// Only ten-character strings of that form are dates.
pub proof fn lemma_dates_have_full_date_form(s: Seq<char>)
    requires
        is_full_date(s),
    ensures
        s.len() == 10,
        forall|i: int| 0 <= i < 10 && i != 4 && i != 7 ==> '0' <= #[trigger] s[i] <= '9',
        s[4] == '-',
        s[7] == '-',
        chrono_date_parse_from_str(s, DATE_FORMAT@) is Ok,
{
    assert forall|i: int| 0 <= i < 10 && i != 4 && i != 7 implies '0' <= #[trigger] s[i] <= '9' by {
        if i == 0 {} else if i == 1 {} else if i == 2 {} else if i == 3 {} else if i == 5 {} else if i == 6 {} else if i == 8 {} else {}
    }
}

fn digit_at(s: &str, i: usize) -> (r: bool)
    requires
        i < s@.len(),
    ensures
        r == is_digit(s@[i as int]),
{
    let c = s.get_char(i);
    '0' <= c && c <= '9'
}

fn has_full_date_shape(s: &str) -> (r: bool)
    ensures
        r == full_date_shape(s@),
{
    if s.unicode_len() != 10 {
        return false;
    }
    digit_at(s, 0) && digit_at(s, 1) && digit_at(s, 2) && digit_at(s, 3) && s.get_char(4) == '-' && digit_at(s, 5)
        && digit_at(s, 6) && s.get_char(7) == '-' && digit_at(s, 8) && digit_at(s, 9)
}

/// Whether a string is a date (RFC 3339 full-date).
fn is_date_string(s: &str) -> (r: bool)
    ensures
        r == is_full_date(s@),
{
    has_full_date_shape(s) && naive_date_parse_from_str(s, DATE_FORMAT).is_ok()
}

/// The `Date` scalar.
pub struct DateScalar;

impl DateScalar {
    /// Read a date from a JSON value: it must be a string in the
    /// `YYYY-MM-DD` form that `NaiveDate`'s `FromStr` accepts.
    pub fn parse_value(value: JsonValue) -> (r: Result<Date, Error>)
        ensures
            match value@ {
                JsonView::String(s) => match chrono_date_from_str(s) {
                    Ok((y, m, d)) => r == Ok::<Date, Error>(Date { year: y, month: m, day: d }),
                    Err(e) => r matches Err(err) && err.message@ == e,
                },
                other => r matches Err(err) && err.message@ == expected_string_message(other),
            },
    {
        match value {
            JsonValue::String(s) => match naive_date_from_str(s.as_str()) {
                Ok((year, month, day)) => Ok(Date { year, month, day }),
                Err(e) => Err(Error { message: e }),
            },
            other => {
                let mut m = owned("invalid type: ");
                let d = describe_json(&other);
                m.append(d.as_str());
                m.append(", expected a string");
                Err(Error { message: m })
            },
        }
    }

    /// The scalar's name.
    pub fn name() -> (r: Option<&'static str>)
        ensures
            r matches Some(s) && s@ == "Date"@,
    {
        Some("Date")
    }

    /// Where the scalar's format is specified.
    pub fn specified_by() -> (r: Option<&'static str>)
        ensures
            r matches Some(s) && s@ == "https://datatracker.ietf.org/doc/html/rfc3339#appendix-A"@,
    {
        Some("https://datatracker.ietf.org/doc/html/rfc3339#appendix-A")
    }

    /// The scalar's description.
    pub fn description() -> (r: Option<&'static str>)
        ensures
            r matches Some(s) && s@ == "
A date string, such as 2007-12-03, is compliant with the full-date format outlined in section 5.6 of the RFC 3339 profile of the ISO 8601 standard for the representation of dates and times using the Gregorian calendar.

This scalar is a description of the date, as used for birthdays for example. It cannot represent an instant on the timeline."@,
    {
        Some(
            "
A date string, such as 2007-12-03, is compliant with the full-date format outlined in section 5.6 of the RFC 3339 profile of the ISO 8601 standard for the representation of dates and times using the Gregorian calendar.

This scalar is a description of the date, as used for birthdays for example. It cannot represent an instant on the timeline.",
        )
    }

    /// A value is a valid date when it is a string in the RFC 3339
    /// full-date form (`YYYY-MM-DD`) that `%Y-%m-%d` reads as a calendar
    /// date.
    pub fn is_valid(value: &ConstValue) -> (r: bool)
        ensures
            r == (match value@ {
                ValueView::String(s) => is_full_date(s),
                _ => false,
            }),
    {
        match value {
            ConstValue::String(val) => is_date_string(val.as_str()),
            _ => false,
        }
    }

    /// Coerce a JSON value into a `Date` value: a full-date string is kept
    /// as it is, anything else is refused.
    pub fn to_value(value: JsonValue) -> (r: Result<ConstValue, Error>)
        ensures
            match value@ {
                JsonView::String(s) => if is_full_date(s) {
                    r matches Ok(c) && c@ == ValueView::String(s)
                } else {
                    r matches Err(e) && e.message@ == date_violation_message()
                },
                _ => r matches Err(e) && e.message@ == date_violation_message(),
            },
    {
        match value {
            JsonValue::String(v) => {
                if is_date_string(v.as_str()) {
                    Ok(ConstValue::String(v))
                } else {
                    Err(Error { message: owned("Data violation: Cannot coerce the initial value to a Date") })
                }
            },
            _ => Err(Error { message: owned("Data violation: Cannot coerce the initial value to a Date") }),
        }
    }

    /// Parse an input value of type `Date` into JSON: a full-date string is
    /// kept as it is, anything else is refused.
    pub fn parse(value: ConstValue) -> (r: Result<JsonValue, InputValueError>)
        ensures
            match value@ {
                ValueView::String(s) => if is_full_date(s) {
                    r matches Ok(j) && j@ == JsonView::String(s)
                } else {
                    r matches Err(e) && e.message@ == ty_custom_message("Date"@, "Cannot parse into a Date"@)
                },
                _ => r matches Err(e) && e.message@ == ty_custom_message("Date"@, "Cannot parse into a Date"@),
            },
    {
        match value {
            ConstValue::String(val) => {
                if is_date_string(val.as_str()) {
                    Ok(JsonValue::String(val))
                } else {
                    Err(InputValueError::ty_custom("Date", "Cannot parse into a Date"))
                }
            },
            _ => Err(InputValueError::ty_custom("Date", "Cannot parse into a Date")),
        }
    }
}

} // verus!
