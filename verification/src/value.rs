//! The values that a cell can hold, and the texts that stand for them.

use crate::text::{decimal, push_decimal};
use crate::xmltree::XmlTag;
use vstd::prelude::*;

verus! {

/// A point in time without a time zone, as the seconds since 1970-01-01 00:00:00
/// and the nanoseconds into that second.
#[derive(Clone, Copy, Debug, PartialEq, Eq, Structural)]
pub struct Timestamp {
    pub secs: i64,
    pub nanos: u32,
}

/// The content of a cell. Numbers are held as their decimal text.
#[derive(Debug, PartialEq, Eq)]
pub enum Value {
    /// No content.
    Empty,
    /// A truth value.
    Boolean(bool),
    /// A number.
    Number(String),
    /// A number that is shown as a percentage.
    Percentage(String),
    /// An amount of money: the number and the code of the currency.
    Currency(String, String),
    /// Plain text; each line break starts a new paragraph.
    Text(String),
    /// Text that is already marked up, one tag for each paragraph.
    TextXml(Vec<XmlTag>),
    /// A date with a time of day.
    DateTime(Timestamp),
    /// A length of time, in milliseconds.
    TimeDuration(i64),
}

/// The kind of a value.
#[derive(Clone, Copy, Debug, PartialEq, Eq, Structural)]
pub enum ValueType {
    Empty,
    Boolean,
    Number,
    Percentage,
    Currency,
    Text,
    TextXml,
    DateTime,
    TimeDuration,
}

impl Value {
    /// The kind of this value.
    pub open spec fn spec_value_type(&self) -> ValueType {
        match self {
            Value::Empty => ValueType::Empty,
            Value::Boolean(_) => ValueType::Boolean,
            Value::Number(_) => ValueType::Number,
            Value::Percentage(_) => ValueType::Percentage,
            Value::Currency(_, _) => ValueType::Currency,
            Value::Text(_) => ValueType::Text,
            Value::TextXml(_) => ValueType::TextXml,
            Value::DateTime(_) => ValueType::DateTime,
            Value::TimeDuration(_) => ValueType::TimeDuration,
        }
    }

    /// The kind of this value.
    #[verifier::when_used_as_spec(spec_value_type)]
    pub fn value_type(&self) -> (t: ValueType)
        ensures
            t == self.spec_value_type(),
    {
        match self {
            Value::Empty => ValueType::Empty,
            Value::Boolean(_) => ValueType::Boolean,
            Value::Number(_) => ValueType::Number,
            Value::Percentage(_) => ValueType::Percentage,
            Value::Currency(_, _) => ValueType::Currency,
            Value::Text(_) => ValueType::Text,
            Value::TextXml(_) => ValueType::TextXml,
            Value::DateTime(_) => ValueType::DateTime,
            Value::TimeDuration(_) => ValueType::TimeDuration,
        }
    }
}

/// The text of a point in time in the form `%Y-%m-%dT%H:%M:%S%.f`, as chrono
/// formats it; `None` where chrono has no date for the seconds or refuses the
/// nanoseconds.
pub uninterp spec fn datetime_text(secs: i64, nanos: u32) -> Option<Seq<char>>;

/// Calls `chrono::DateTime::from_timestamp` and formats the result, taken as
/// a date and time without zone, with `%Y-%m-%dT%H:%M:%S%.f`. Nothing is
/// claimed of the text but that it depends on the two numbers alone.
#[verifier::external_body]
pub(crate) fn format_datetime(secs: i64, nanos: u32) -> (r: Option<String>)
    ensures
        match r {
            Some(s) => datetime_text(secs, nanos) == Some(s@),
            None => datetime_text(secs, nanos) is None,
        },
{
    let dt = chrono::DateTime::from_timestamp(secs, nanos)?;
    let mut text = String::new();
    match dt.naive_utc().format("%Y-%m-%dT%H:%M:%S%.f").write_to(&mut text) {
        Ok(()) => Some(text),
        Err(_) => None,
    }
}

/// A number in at least two digits.
pub open spec fn pad2(n: nat) -> Seq<char> {
    if n < 10 {
        seq!['0'] + decimal(n)
    } else {
        decimal(n)
    }
}

/// A number in at least three digits.
pub open spec fn pad3(n: nat) -> Seq<char> {
    if n < 10 {
        seq!['0', '0'] + decimal(n)
    } else if n < 100 {
        seq!['0'] + decimal(n)
    } else {
        decimal(n)
    }
}

/// The text of a length of time of `ms` milliseconds, `ms` not negative:
/// hours, minutes and seconds with the milliseconds as their fraction.
pub open spec fn duration_magnitude_text(ms: nat) -> Seq<char> {
    seq!['P', 'T'] + pad2(ms / 3_600_000) + seq!['H'] + pad2((ms / 60_000) % 60) + seq!['M']
        + pad2((ms / 1000) % 60) + seq!['.'] + pad3(ms % 1000) + seq!['S']
}

/// The text of a length of time of `ms` milliseconds. A negative length has
/// a minus sign in front.
pub open spec fn duration_text(ms: int) -> Seq<char> {
    if ms < 0 {
        seq!['-'] + duration_magnitude_text((-ms) as nat)
    } else {
        duration_magnitude_text(ms as nat)
    }
}

fn push_pad2(out: &mut String, n: u64)
    ensures
        final(out)@ == old(out)@ + pad2(n as nat),
{
    if n < 10 {
        out.push('0');
    }
    push_decimal(out, n);
}

fn push_pad3(out: &mut String, n: u64)
    ensures
        final(out)@ == old(out)@ + pad3(n as nat),
{
    if n < 10 {
        out.push('0');
        out.push('0');
    } else if n < 100 {
        out.push('0');
    }
    push_decimal(out, n);
}

/// Formats a length of time given in milliseconds.
pub fn format_duration2(ms: i64) -> (s: String)
    ensures
        s@ == duration_text(ms as int),
{
    let mut out = String::new();
    let magnitude: u64 = if ms < 0 {
        out.push('-');
        ((-(ms + 1)) as u64) + 1
    } else {
        ms as u64
    };
    out.push('P');
    out.push('T');
    push_pad2(&mut out, magnitude / 3_600_000);
    out.push('H');
    push_pad2(&mut out, (magnitude / 60_000) % 60);
    out.push('M');
    push_pad2(&mut out, (magnitude / 1000) % 60);
    out.push('.');
    push_pad3(&mut out, magnitude % 1000);
    out.push('S');
    out
}

} // verus!
