//! The transport mode line: what kind of train a service is.

use crate::text::{
    at_char, has_char, number_field_at, rest_from, scan_number_field, scan_text_field,
    text_field_at, to_chars, CharClass, ParseError, Terminator,
};
use vstd::prelude::*;

verus! {

/// The kind of train, by its short code, and the stops between which it is
/// of that kind.
#[derive(Debug, PartialEq)]
pub struct TransportMode {
    pub code: String,
    pub first_stop: u32,
    pub last_stop: u32,
}

/// A [`TransportMode`] as plain values.
pub struct TransportModeView {
    pub code: Seq<char>,
    pub first_stop: u32,
    pub last_stop: u32,
}

impl View for TransportMode {
    type V = TransportModeView;

    open spec fn view(&self) -> TransportModeView {
        TransportModeView {
            code: self.code@,
            first_stop: self.first_stop,
            last_stop: self.last_stop,
        }
    }
}

impl Clone for TransportMode {
    fn clone(&self) -> (r: Self)
        ensures
            r@ == self@,
    {
        TransportMode {
            code: self.code.clone(),
            first_stop: self.first_stop,
            last_stop: self.last_stop,
        }
    }
}

/// The transport mode line at position `i` and the position after it: `&`,
/// the code, trimmed, the first and the last stop.
pub open spec fn transport_mode_at(s: Seq<char>, i: int) -> Option<(TransportModeView, int)> {
    let code = text_field_at(s, i + 1, CharClass::AsciiNotComma, Terminator::Comma);
    let first = number_field_at(s, code.unwrap().1, CharClass::Digit, Terminator::Comma);
    let last = number_field_at(s, first.unwrap().1, CharClass::Digit, Terminator::LineEnd);
    if has_char(s, i, '&') && code.is_some() && first.is_some() && last.is_some() {
        Some(
            (
                TransportModeView {
                    code: code.unwrap().0,
                    first_stop: first.unwrap().0,
                    last_stop: last.unwrap().0,
                },
                last.unwrap().1,
            ),
        )
    } else {
        None
    }
}

/// Reads the transport mode line at position `i`.
pub fn parse_transport_mode(s: &Vec<char>, i: usize) -> (r: Option<(TransportMode, usize)>)
    requires
        i <= s.len(),
    ensures
        match transport_mode_at(s@, i as int) {
            Some((v, n)) => r matches Some((x, m)) && x@ == v && m == n && i < n <= s.len(),
            None => r.is_none(),
        },
{
    if !at_char(s, i, '&') {
        return None;
    }
    let (code, n1) = match scan_text_field(
        s,
        i + 1,
        CharClass::AsciiNotComma,
        Terminator::Comma,
    ) {
        Some(f) => f,
        None => {
            return None;
        },
    };
    let (first_stop, n2) = match scan_number_field(s, n1, CharClass::Digit, Terminator::Comma) {
        Some(f) => f,
        None => {
            return None;
        },
    };
    let (last_stop, n3) = match scan_number_field(s, n2, CharClass::Digit, Terminator::LineEnd) {
        Some(f) => f,
        None => {
            return None;
        },
    };
    Some((TransportMode { code, first_stop, last_stop }, n3))
}

/// Reads a transport mode line from the start of `input` and returns it
/// with the rest of the input.
pub fn transport_mode<'a>(input: &'a str) -> (r: Result<(&'a str, TransportMode), ParseError>)
    ensures
        match transport_mode_at(input@, 0) {
            Some((v, n)) => r matches Ok((rest, x)) && x@ == v && 0 < n <= input@.len()
                && rest@ == input@.subrange(n, input@.len() as int),
            None => r.is_err(),
        },
{
    let chars = to_chars(input);
    match parse_transport_mode(&chars, 0) {
        Some((v, n)) => Ok((rest_from(input, n, chars.len()), v)),
        None => Err(ParseError),
    }
}

} // verus!
