//! The platform line that may follow a station event.

use crate::text::{
    at_char, has_char, number_field_at, rest_from, scan_number_field, scan_text_field,
    text_field_at, to_chars, CharClass, ParseError, Terminator,
};
use vstd::prelude::*;

verus! {

/// The platforms at which a train arrives and leaves, and the footnote of
/// that statement.
#[derive(Debug, PartialEq)]
pub struct PlatformInfo {
    pub arrival_platform: String,
    pub departure_platform: String,
    pub footnote: u32,
}

/// A [`PlatformInfo`] as plain values.
pub struct PlatformInfoView {
    pub arrival_platform: Seq<char>,
    pub departure_platform: Seq<char>,
    pub footnote: u32,
}

impl View for PlatformInfo {
    type V = PlatformInfoView;

    open spec fn view(&self) -> PlatformInfoView {
        PlatformInfoView {
            arrival_platform: self.arrival_platform@,
            departure_platform: self.departure_platform@,
            footnote: self.footnote,
        }
    }
}

impl Clone for PlatformInfo {
    fn clone(&self) -> (r: Self)
        ensures
            r@ == self@,
    {
        PlatformInfo {
            arrival_platform: self.arrival_platform.clone(),
            departure_platform: self.departure_platform.clone(),
            footnote: self.footnote,
        }
    }
}

/// The platform line at position `i` and the position after it: `?`, the
/// platform of arrival and that of departure, both trimmed, and the
/// footnote up to the end of the line.
pub open spec fn platform_info_at(s: Seq<char>, i: int) -> Option<(PlatformInfoView, int)> {
    let arrival = text_field_at(s, i + 1, CharClass::NotComma, Terminator::Comma);
    let departure = text_field_at(s, arrival.unwrap().1, CharClass::NotComma, Terminator::Comma);
    let footnote = number_field_at(
        s,
        departure.unwrap().1,
        CharClass::NotEol,
        Terminator::LineEnd,
    );
    if has_char(s, i, '?') && arrival.is_some() && departure.is_some() && footnote.is_some() {
        Some(
            (
                PlatformInfoView {
                    arrival_platform: arrival.unwrap().0,
                    departure_platform: departure.unwrap().0,
                    footnote: footnote.unwrap().0,
                },
                footnote.unwrap().1,
            ),
        )
    } else {
        None
    }
}

/// Reads the platform line at position `i`.
pub fn parse_platform_info(s: &Vec<char>, i: usize) -> (r: Option<(PlatformInfo, usize)>)
    requires
        i <= s.len(),
    ensures
        match platform_info_at(s@, i as int) {
            Some((v, n)) => r matches Some((x, m)) && x@ == v && m == n && i < n <= s.len(),
            None => r.is_none(),
        },
{
    if !at_char(s, i, '?') {
        return None;
    }
    let (arrival_platform, n1) = match scan_text_field(
        s,
        i + 1,
        CharClass::NotComma,
        Terminator::Comma,
    ) {
        Some(f) => f,
        None => {
            return None;
        },
    };
    let (departure_platform, n2) = match scan_text_field(
        s,
        n1,
        CharClass::NotComma,
        Terminator::Comma,
    ) {
        Some(f) => f,
        None => {
            return None;
        },
    };
    let (footnote, n3) = match scan_number_field(s, n2, CharClass::NotEol, Terminator::LineEnd) {
        Some(f) => f,
        None => {
            return None;
        },
    };
    Some((PlatformInfo { arrival_platform, departure_platform, footnote }, n3))
}

/// Reads a platform line from the start of `input` and returns it with the
/// rest of the input.
pub fn platform_info<'a>(input: &'a str) -> (r: Result<(&'a str, PlatformInfo), ParseError>)
    ensures
        match platform_info_at(input@, 0) {
            Some((v, n)) => r matches Ok((rest, x)) && x@ == v && 0 < n <= input@.len()
                && rest@ == input@.subrange(n, input@.len() as int),
            None => r.is_err(),
        },
{
    let chars = to_chars(input);
    match parse_platform_info(&chars, 0) {
        Some((v, n)) => Ok((rest_from(input, n, chars.len()), v)),
        None => Err(ParseError),
    }
}

} // verus!
