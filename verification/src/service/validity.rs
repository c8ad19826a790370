//! The validity line of a service: the footnote that says on which days it
//! runs.

use crate::text::{
    at_char, has_char, number_field_at, rest_from, scan_number_field, to_chars, CharClass,
    ParseError, Terminator,
};
use vstd::prelude::*;

verus! {

/// The footnote of a service (0: it runs every day) and the stops it is
/// stated for.
#[derive(Debug, PartialEq, Eq, Clone, Copy, Structural)]
pub struct Validity {
    pub footnote: u32,
    pub first_stop: u32,
    pub last_stop: u32,
}

/// The validity line at position `i` and the position after it: `-`, the
/// footnote, the first and the last stop.
pub open spec fn validity_at(s: Seq<char>, i: int) -> Option<(Validity, int)> {
    let footnote = number_field_at(s, i + 1, CharClass::Digit, Terminator::Comma);
    let first = number_field_at(s, footnote.unwrap().1, CharClass::Digit, Terminator::Comma);
    let last = number_field_at(s, first.unwrap().1, CharClass::Digit, Terminator::LineEnd);
    if has_char(s, i, '-') && footnote.is_some() && first.is_some() && last.is_some() {
        Some(
            (
                Validity {
                    footnote: footnote.unwrap().0,
                    first_stop: first.unwrap().0,
                    last_stop: last.unwrap().0,
                },
                last.unwrap().1,
            ),
        )
    } else {
        None
    }
}

/// Reads the validity line at position `i`.
pub fn parse_validity(s: &Vec<char>, i: usize) -> (r: Option<(Validity, usize)>)
    requires
        i <= s.len(),
    ensures
        match validity_at(s@, i as int) {
            Some((v, n)) => r == Some((v, n as usize)) && i < n <= s.len(),
            None => r.is_none(),
        },
{
    if !at_char(s, i, '-') {
        return None;
    }
    let (footnote, n1) = match scan_number_field(s, i + 1, CharClass::Digit, Terminator::Comma) {
        Some(f) => f,
        None => {
            return None;
        },
    };
    let (first_stop, n2) = match scan_number_field(s, n1, CharClass::Digit, Terminator::Comma) {
        Some(f) => f,
        None => {
            return None;
        },
    };
    let (last_stop, n3) = match scan_number_field(s, n2, CharClass::Digit, Terminator::LineEnd) {
        Some(f) => f,
        None => {
            return None;
        },
    };
    Some((Validity { footnote, first_stop, last_stop }, n3))
}

/// Reads a validity line from the start of `input` and returns it with the
/// rest of the input.
pub fn validity<'a>(input: &'a str) -> (r: Result<(&'a str, Validity), ParseError>)
    ensures
        match validity_at(input@, 0) {
            Some((v, n)) => r matches Ok((rest, x)) && x == v && 0 < n <= input@.len()
                && rest@ == input@.subrange(n, input@.len() as int),
            None => r.is_err(),
        },
{
    let chars = to_chars(input);
    match parse_validity(&chars, 0) {
        Some((v, n)) => Ok((rest_from(input, n, chars.len()), v)),
        None => Err(ParseError),
    }
}

} // verus!
