//! The line that opens a service and numbers it within the file.

use crate::text::{
    at_char, has_char, number_field_at, rest_from, scan_number_field, to_chars, CharClass,
    ParseError, Terminator,
};
use vstd::prelude::*;

verus! {

/// The number of a service within its file.
#[derive(Debug, PartialEq, Eq, Clone, Copy, Structural)]
pub struct ServiceIdentification(pub u32);

/// The service identification line at position `i` and the position after
/// it: `#` and a number up to the end of the line.
pub open spec fn service_identification_at(s: Seq<char>, i: int) -> Option<
    (ServiceIdentification, int),
> {
    let id = number_field_at(s, i + 1, CharClass::NotEol, Terminator::LineEnd);
    if has_char(s, i, '#') && id.is_some() {
        Some((ServiceIdentification(id.unwrap().0), id.unwrap().1))
    } else {
        None
    }
}

/// Reads the service identification line at position `i`.
pub fn parse_service_identification(s: &Vec<char>, i: usize) -> (r: Option<
    (ServiceIdentification, usize),
>)
    requires
        i <= s.len(),
    ensures
        match service_identification_at(s@, i as int) {
            Some((v, n)) => r == Some((v, n as usize)) && i < n <= s.len(),
            None => r.is_none(),
        },
{
    if !at_char(s, i, '#') {
        return None;
    }
    match scan_number_field(s, i + 1, CharClass::NotEol, Terminator::LineEnd) {
        Some((id, n)) => Some((ServiceIdentification(id), n)),
        None => None,
    }
}

/// Reads a service identification line from the start of `input` and
/// returns it with the rest of the input.
pub fn service_identification<'a>(input: &'a str) -> (r: Result<
    (&'a str, ServiceIdentification),
    ParseError,
>)
    ensures
        match service_identification_at(input@, 0) {
            Some((v, n)) => r matches Ok((rest, x)) && x == v && 0 < n <= input@.len()
                && rest@ == input@.subrange(n, input@.len() as int),
            None => r.is_err(),
        },
{
    let chars = to_chars(input);
    match parse_service_identification(&chars, 0) {
        Some((v, n)) => Ok((rest_from(input, n, chars.len()), v)),
        None => Err(ParseError),
    }
}

} // verus!
