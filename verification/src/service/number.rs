//! The service number line: under which number, and between which stops, a
//! train runs.

use crate::text::{
    at_char, has_char, number_field_at, optional_field_at, rest_from, scan_number_field,
    scan_optional_field, to_chars, CharClass, ParseError, Terminator,
};
use vstd::prelude::*;

verus! {

/// The number of a train between two stops. A `service_number` of 0 says
/// that the train goes by its `variant` instead. The stops are counted from
/// 1, over the stops that are no passages.
#[derive(Debug, PartialEq)]
pub struct ServiceNumber {
    pub company_number: u32,
    pub service_number: u32,
    pub variant: Option<String>,
    pub first_stop: u32,
    pub last_stop: u32,
    pub name: Option<String>,
}

/// A [`ServiceNumber`] as plain values.
pub struct ServiceNumberView {
    pub company_number: u32,
    pub service_number: u32,
    pub variant: Option<Seq<char>>,
    pub first_stop: u32,
    pub last_stop: u32,
    pub name: Option<Seq<char>>,
}

/// The text that an optional string holds.
pub open spec fn optional_view(s: Option<String>) -> Option<Seq<char>> {
    match s {
        Some(t) => Some(t@),
        None => None,
    }
}

/// A copy of an optional string.
pub fn clone_optional(s: &Option<String>) -> (r: Option<String>)
    ensures
        optional_view(r) == optional_view(*s),
{
    match s {
        Some(t) => Some(t.clone()),
        None => None,
    }
}

impl View for ServiceNumber {
    type V = ServiceNumberView;

    open spec fn view(&self) -> ServiceNumberView {
        ServiceNumberView {
            company_number: self.company_number,
            service_number: self.service_number,
            variant: optional_view(self.variant),
            first_stop: self.first_stop,
            last_stop: self.last_stop,
            name: optional_view(self.name),
        }
    }
}

impl Clone for ServiceNumber {
    fn clone(&self) -> (r: Self)
        ensures
            r@ == self@,
    {
        ServiceNumber {
            company_number: self.company_number,
            service_number: self.service_number,
            variant: clone_optional(&self.variant),
            first_stop: self.first_stop,
            last_stop: self.last_stop,
            name: clone_optional(&self.name),
        }
    }
}

/// The service number line at position `i` and the position after it: `%`,
/// the company, the number, the variant, the first and the last stop, each
/// closed by a comma, and the name up to the end of the line. Variant and
/// name are trimmed, and absent where that leaves nothing.
pub open spec fn service_number_at(s: Seq<char>, i: int) -> Option<(ServiceNumberView, int)> {
    let company = number_field_at(s, i + 1, CharClass::Digit, Terminator::Comma);
    let number = number_field_at(s, company.unwrap().1, CharClass::Digit, Terminator::Comma);
    let variant = optional_field_at(
        s,
        number.unwrap().1,
        CharClass::AsciiNotComma,
        Terminator::Comma,
    );
    let first = number_field_at(s, variant.unwrap().1, CharClass::Digit, Terminator::Comma);
    let last = number_field_at(s, first.unwrap().1, CharClass::Digit, Terminator::Comma);
    let name = optional_field_at(s, last.unwrap().1, CharClass::NotEol, Terminator::LineEnd);
    if has_char(s, i, '%') && company.is_some() && number.is_some() && variant.is_some()
        && first.is_some() && last.is_some() && name.is_some() {
        Some(
            (
                ServiceNumberView {
                    company_number: company.unwrap().0,
                    service_number: number.unwrap().0,
                    variant: variant.unwrap().0,
                    first_stop: first.unwrap().0,
                    last_stop: last.unwrap().0,
                    name: name.unwrap().0,
                },
                name.unwrap().1,
            ),
        )
    } else {
        None
    }
}

/// Reads the service number line at position `i`.
pub fn parse_service_number(s: &Vec<char>, i: usize) -> (r: Option<(ServiceNumber, usize)>)
    requires
        i <= s.len(),
    ensures
        match service_number_at(s@, i as int) {
            Some((v, n)) => r matches Some((x, m)) && x@ == v && m == n && i < n <= s.len(),
            None => r.is_none(),
        },
{
    if !at_char(s, i, '%') {
        return None;
    }
    let (company_number, n1) = match scan_number_field(
        s,
        i + 1,
        CharClass::Digit,
        Terminator::Comma,
    ) {
        Some(f) => f,
        None => {
            return None;
        },
    };
    let (service_number, n2) = match scan_number_field(
        s,
        n1,
        CharClass::Digit,
        Terminator::Comma,
    ) {
        Some(f) => f,
        None => {
            return None;
        },
    };
    let (variant, n3) = match scan_optional_field(
        s,
        n2,
        CharClass::AsciiNotComma,
        Terminator::Comma,
    ) {
        Some(f) => f,
        None => {
            return None;
        },
    };
    let (first_stop, n4) = match scan_number_field(s, n3, CharClass::Digit, Terminator::Comma) {
        Some(f) => f,
        None => {
            return None;
        },
    };
    let (last_stop, n5) = match scan_number_field(s, n4, CharClass::Digit, Terminator::Comma) {
        Some(f) => f,
        None => {
            return None;
        },
    };
    let (name, n6) = match scan_optional_field(s, n5, CharClass::NotEol, Terminator::LineEnd) {
        Some(f) => f,
        None => {
            return None;
        },
    };
    Some(
        (
            ServiceNumber { company_number, service_number, variant, first_stop, last_stop, name },
            n6,
        ),
    )
}

/// Reads a service number line from the start of `input` and returns it
/// with the rest of the input.
pub fn service_number<'a>(input: &'a str) -> (r: Result<(&'a str, ServiceNumber), ParseError>)
    ensures
        match service_number_at(input@, 0) {
            Some((v, n)) => r matches Ok((rest, x)) && x@ == v && 0 < n <= input@.len()
                && rest@ == input@.subrange(n, input@.len() as int),
            None => r.is_err(),
        },
{
    let chars = to_chars(input);
    match parse_service_number(&chars, 0) {
        Some((v, n)) => Ok((rest_from(input, n, chars.len()), v)),
        None => Err(ParseError),
    }
}

} // verus!
