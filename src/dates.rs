//! Publication dates as the catalog sends them, read into calendar dates.
use vstd::prelude::*;
use vstd::utf8::encode_utf8;
use chrono::Datelike;
use crate::decimal::{decimal_i32, parse_i32};
use crate::models::Date;

verus! {

#[verifier::external_type_specification]
#[verifier::external_body]
pub struct ExParseError(chrono::ParseError);

/// The year, month and day that chrono reads from `s` with the format
/// `%Y-%m-%d`, or `None` where it reads no date.
pub uninterp spec fn ymd_of(s: Seq<char>) -> Option<(i32, u32, u32)>;

/// Relies on chrono::NaiveDate::parse_from_str with the format `%Y-%m-%d`;
/// a `NaiveDate` always holds a real calendar day.
#[verifier::external_body]
fn parse_ymd(s: &str) -> (r: Result<Date, chrono::ParseError>)
    ensures
        match r {
            Ok(d) => ymd_of(s@) == Some((d.year, d.month, d.day)) && d.wf(),
            Err(_) => ymd_of(s@).is_none(),
        },
{
    match chrono::NaiveDate::parse_from_str(s, "%Y-%m-%d") {
        Ok(d) => Ok(Date { year: d.year(), month: d.month(), day: d.day() }),
        Err(e) => Err(e),
    }
}

/// Why a publication date was not read.
#[derive(Clone, Copy, Debug, PartialEq, Eq, Structural)]
pub enum DateError {
    /// Four bytes that are no year.
    Year,
    /// Ten bytes that are no `YYYY-MM-DD` date.
    Format,
}

/// How the publication date `chars` is read: four bytes of UTF-8 are a year,
/// ten a full date, any other length the sentinel day.
pub open spec fn normalized(chars: Seq<char>) -> Result<Date, DateError> {
    let bytes = encode_utf8(chars);
    if bytes.len() == 4 {
        match decimal_i32(bytes) {
            Some(y) => Ok(Date { year: y, month: 1, day: 1 }),
            None => Err(DateError::Year),
        }
    } else if bytes.len() == 10 {
        match ymd_of(chars) {
            Some(t) => Ok(Date { year: t.0, month: t.1, day: t.2 }),
            None => Err(DateError::Format),
        }
    } else {
        Ok(Date { year: 0, month: 1, day: 1 })
    }
}

/// Reads a publication date of the catalog.
pub fn normalize_date(s: &str) -> (r: Result<Date, DateError>)
    ensures
        r == normalized(s@),
        r matches Ok(d) ==> d.wf(),
{
    let n = s.as_bytes().len();
    if n == 4 {
        match parse_i32(s) {
            Some(y) => Ok(Date::year_start(y)),
            None => Err(DateError::Year),
        }
    } else if n == 10 {
        match parse_ymd(s) {
            Ok(d) => Ok(d),
            Err(_) => Err(DateError::Format),
        }
    } else {
        Ok(Date::sentinel())
    }
}

} // verus!
