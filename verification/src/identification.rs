//! The header line that every file of the feed starts with.

use crate::calendar::{date_at, parse_date, Date};
use crate::text::{
    at_char, field_at, has_char, rest_from, scan_field, string_of, to_chars, CharClass,
    ParseError, Terminator,
};
use vstd::prelude::*;

verus! {

/// What a file of the feed holds: its header and its records.
#[derive(Debug, PartialEq)]
pub struct DeliveryIdentified<T> {
    pub identification: Identification,
    pub data: T,
}

/// The header of a file: who delivered it, and the days it is valid for.
#[derive(Debug, PartialEq)]
pub struct Identification {
    pub company_number: String,
    pub first_valid: Date,
    pub last_valid: Date,
    pub version_number: String,
    pub description: String,
}

/// An [`Identification`] as plain values.
pub struct IdentificationView {
    pub company_number: Seq<char>,
    pub first_valid: Date,
    pub last_valid: Date,
    pub version_number: Seq<char>,
    pub description: Seq<char>,
}

impl IdentificationView {
    /// The first valid day is not after the last, and both are days that
    /// `chrono` can hold.
    pub open spec fn wf(&self) -> bool {
        &&& self.first_valid.wf()
        &&& self.last_valid.wf()
        &&& self.first_valid.days <= self.last_valid.days
    }

    /// The number of days from the first valid day to the last, both
    /// counted.
    pub open spec fn days_valid(&self) -> int {
        self.last_valid.days - self.first_valid.days + 1
    }
}

impl View for Identification {
    type V = IdentificationView;

    open spec fn view(&self) -> IdentificationView {
        IdentificationView {
            company_number: self.company_number@,
            first_valid: self.first_valid,
            last_valid: self.last_valid,
            version_number: self.version_number@,
            description: self.description@,
        }
    }
}

impl Clone for Identification {
    fn clone(&self) -> (r: Self)
        ensures
            r@ == self@,
    {
        Identification {
            company_number: self.company_number.clone(),
            first_valid: self.first_valid,
            last_valid: self.last_valid,
            version_number: self.version_number.clone(),
            description: self.description.clone(),
        }
    }
}

impl Identification {
    /// The first valid day is not after the last, and both are days that
    /// `chrono` can hold.
    pub open spec fn wf(&self) -> bool {
        self@.wf()
    }

    /// Whether the first valid day is not after the last, and both are days
    /// that `chrono` can hold.
    pub fn is_valid(&self) -> (r: bool)
        ensures
            r == self.wf(),
    {
        self.first_valid.is_valid() && self.last_valid.is_valid() && !self.last_valid.is_before(
            &self.first_valid,
        )
    }

    /// The number of days that the file is valid for: from the first valid
    /// day to the last, both counted.
    pub fn days_valid(&self) -> (r: u64)
        requires
            self.wf(),
        ensures
            r == self@.days_valid(),
            r == (self.last_valid.days - self.first_valid.days) + 1,
            r >= 1,
    {
        (self.last_valid.days_since(&self.first_valid) + 1) as u64
    }
}

/// The header line at position `i` and the position after it: `@`, the
/// company number, the first and the last valid day, the version number,
/// each closed by a comma, and the description up to the end of the line.
/// There is none where the last valid day comes before the first.
pub open spec fn identification_at(s: Seq<char>, i: int) -> Option<(IdentificationView, int)> {
    let company = field_at(s, i + 1, CharClass::Digit, Terminator::Comma);
    let first = date_at(s, company.unwrap().1);
    let last = date_at(s, first.unwrap().1 + 1);
    let version = field_at(s, last.unwrap().1 + 1, CharClass::Digit, Terminator::Comma);
    let description = field_at(s, version.unwrap().1, CharClass::NotEol, Terminator::LineEnd);
    if has_char(s, i, '@') && company.is_some() && first.is_some() && has_char(
        s,
        first.unwrap().1,
        ',',
    ) && last.is_some() && has_char(s, last.unwrap().1, ',') && version.is_some()
        && description.is_some() && first.unwrap().0.days <= last.unwrap().0.days {
        Some(
            (
                IdentificationView {
                    company_number: s.subrange(i + 1, company.unwrap().0),
                    first_valid: first.unwrap().0,
                    last_valid: last.unwrap().0,
                    version_number: s.subrange(last.unwrap().1 + 1, version.unwrap().0),
                    description: s.subrange(version.unwrap().1, description.unwrap().0),
                },
                description.unwrap().1,
            ),
        )
    } else {
        None
    }
}

/// Reads the header line at position `i`.
pub fn parse_identification(s: &Vec<char>, i: usize) -> (r: Option<(Identification, usize)>)
    requires
        i <= s.len(),
    ensures
        match identification_at(s@, i as int) {
            Some((v, n)) => r matches Some((id, m)) && id@ == v && m == n && i < n <= s.len()
                && id.wf(),
            None => r.is_none(),
        },
{
    if !at_char(s, i, '@') {
        return None;
    }
    let (e1, n1) = match scan_field(s, i + 1, CharClass::Digit, Terminator::Comma) {
        Some(f) => f,
        None => {
            return None;
        },
    };
    let (first, n2) = match parse_date(s, n1) {
        Some(f) => f,
        None => {
            return None;
        },
    };
    if !at_char(s, n2, ',') {
        return None;
    }
    let (last, n3) = match parse_date(s, n2 + 1) {
        Some(f) => f,
        None => {
            return None;
        },
    };
    if !at_char(s, n3, ',') {
        return None;
    }
    let (e4, n4) = match scan_field(s, n3 + 1, CharClass::Digit, Terminator::Comma) {
        Some(f) => f,
        None => {
            return None;
        },
    };
    let (e5, n5) = match scan_field(s, n4, CharClass::NotEol, Terminator::LineEnd) {
        Some(f) => f,
        None => {
            return None;
        },
    };
    if last.is_before(&first) {
        return None;
    }
    Some(
        (
            Identification {
                company_number: string_of(s, i + 1, e1),
                first_valid: first,
                last_valid: last,
                version_number: string_of(s, n3 + 1, e4),
                description: string_of(s, n4, e5),
            },
            n5,
        ),
    )
}

/// Reads the header line from the start of `input` and returns it with the
/// rest of the input.
pub fn identification<'a>(input: &'a str) -> (r: Result<(&'a str, Identification), ParseError>)
    ensures
        match identification_at(input@, 0) {
            Some((v, n)) => r matches Ok((rest, id)) && id@ == v && id.wf() && 0 < n <= input@.len()
                && rest@ == input@.subrange(n, input@.len() as int),
            None => r.is_err(),
        },
{
    let chars = to_chars(input);
    match parse_identification(&chars, 0) {
        Some((id, n)) => Ok((rest_from(input, n, chars.len()), id)),
        None => Err(ParseError),
    }
}

} // verus!
