//! The stations of the feed: the station file and its records.

use crate::identification::{
    identification_at, parse_identification, DeliveryIdentified, IdentificationView,
};
use crate::text::{
    field_at, number_field_at, rest_from, scan_field, scan_number_field, scan_text_field,
    text_field_at, to_chars, CharClass, ParseError, Terminator,
};
use crate::views::{lemma_seq_view_empty, lemma_seq_view_push, seq_view};
use vstd::prelude::*;

verus! {

/// A station: its code, its name, its country, whether trains connect
/// there, and how many minutes a connection takes at least.
#[derive(Debug, PartialEq)]
pub struct Station {
    pub code: String,
    pub name: String,
    pub country: String,
    pub is_interchange: bool,
    pub layover_minimum_minutes: u8,
}

/// A [`Station`] as plain values.
pub struct StationView {
    pub code: Seq<char>,
    pub name: Seq<char>,
    pub country: Seq<char>,
    pub is_interchange: bool,
    pub layover_minimum_minutes: u8,
}

impl View for Station {
    type V = StationView;

    open spec fn view(&self) -> StationView {
        StationView {
            code: self.code@,
            name: self.name@,
            country: self.country@,
            is_interchange: self.is_interchange,
            layover_minimum_minutes: self.layover_minimum_minutes,
        }
    }
}

/// The station file: its header and its stations.
pub type Stations = DeliveryIdentified<Vec<Station>>;

/// The position after the `n` fields from `i` on that a comma closes.
pub open spec fn skip_fields(s: Seq<char>, i: int, n: int) -> Option<int>
    decreases n,
{
    if n <= 0 {
        Some(i)
    } else {
        match field_at(s, i, CharClass::NotComma, Terminator::Comma) {
            Some((_, next)) => skip_fields(s, next, n - 1),
            None => None,
        }
    }
}

/// The station line at position `i` and the position after it: one or more
/// binary digits, of which a single `1` says that trains connect; the code;
/// the minutes of a connection, 255 at most; one field that is passed over;
/// the country; four fields that are passed over, each of these closed by a
/// comma; and the name up to the end of the line. Code, country and name
/// are trimmed.
pub open spec fn station_at(s: Seq<char>, i: int) -> Option<(StationView, int)> {
    let flag = field_at(s, i, CharClass::BinDigit, Terminator::Comma);
    let code = text_field_at(s, flag.unwrap().1, CharClass::NotComma, Terminator::Comma);
    let layover = number_field_at(s, code.unwrap().1, CharClass::NotComma, Terminator::Comma);
    let passed = skip_fields(s, layover.unwrap().1, 1);
    let country = text_field_at(s, passed.unwrap(), CharClass::NotComma, Terminator::Comma);
    let more = skip_fields(s, country.unwrap().1, 4);
    let name = text_field_at(s, more.unwrap(), CharClass::NotEol, Terminator::LineEnd);
    if flag.is_some() && flag.unwrap().0 > i && code.is_some() && layover.is_some()
        && layover.unwrap().0 <= u8::MAX && passed.is_some() && country.is_some()
        && more.is_some() && name.is_some() {
        Some(
            (
                StationView {
                    code: code.unwrap().0,
                    name: name.unwrap().0,
                    country: country.unwrap().0,
                    is_interchange: flag.unwrap().0 == i + 1 && s[i] == '1',
                    layover_minimum_minutes: layover.unwrap().0 as u8,
                },
                name.unwrap().1,
            ),
        )
    } else {
        None
    }
}

/// The station lines from position `i` on, as many as follow one another,
/// and the position after the last of them.
pub open spec fn stations_at(s: Seq<char>, i: int) -> (Seq<StationView>, int)
    decreases s.len() - i,
{
    match station_at(s, i) {
        Some((station, n)) => if i < n <= s.len() {
            (seq![station] + stations_at(s, n).0, stations_at(s, n).1)
        } else {
            (Seq::empty(), i)
        },
        None => (Seq::empty(), i),
    }
}

/// The station file at the start of `s`: the header line, then station
/// lines, and the position after the last of them.
pub open spec fn station_file_at(s: Seq<char>) -> Option<
    (IdentificationView, Seq<StationView>, int),
> {
    match identification_at(s, 0) {
        Some((id, n)) => Some((id, stations_at(s, n).0, stations_at(s, n).1)),
        None => None,
    }
}

/// Passes over `n` fields from `i` on that a comma closes.
pub fn scan_skip_fields(s: &Vec<char>, i: usize, n: usize) -> (r: Option<usize>)
    requires
        i <= s.len(),
    ensures
        match skip_fields(s@, i as int, n as int) {
            Some(next) => r == Some(next as usize) && i <= next <= s.len(),
            None => r.is_none(),
        },
{
    let mut pos: usize = i;
    let mut left: usize = n;
    while left > 0
        invariant
            i <= pos <= s.len(),
            skip_fields(s@, i as int, n as int) == skip_fields(s@, pos as int, left as int),
        decreases left,
    {
        match scan_field(s, pos, CharClass::NotComma, Terminator::Comma) {
            Some((_, next)) => {
                pos = next;
            },
            None => {
                return None;
            },
        }
        left -= 1;
    }
    Some(pos)
}

/// Reads the station line at position `i`.
pub fn parse_station(s: &Vec<char>, i: usize) -> (r: Option<(Station, usize)>)
    requires
        i <= s.len(),
    ensures
        match station_at(s@, i as int) {
            Some((v, n)) => r matches Some((x, m)) && x@ == v && m == n && i < n <= s.len(),
            None => r.is_none(),
        },
{
    let (e1, n1) = match scan_field(s, i, CharClass::BinDigit, Terminator::Comma) {
        Some(f) => f,
        None => {
            return None;
        },
    };
    if e1 == i {
        return None;
    }
    let is_interchange = e1 == i + 1 && s[i] == '1';
    let (code, n2) = match scan_text_field(s, n1, CharClass::NotComma, Terminator::Comma) {
        Some(f) => f,
        None => {
            return None;
        },
    };
    let (layover, n3) = match scan_number_field(s, n2, CharClass::NotComma, Terminator::Comma) {
        Some(f) => f,
        None => {
            return None;
        },
    };
    if layover > 255 {
        return None;
    }
    let n4 = match scan_skip_fields(s, n3, 1) {
        Some(n) => n,
        None => {
            return None;
        },
    };
    let (country, n5) = match scan_text_field(s, n4, CharClass::NotComma, Terminator::Comma) {
        Some(f) => f,
        None => {
            return None;
        },
    };
    let n6 = match scan_skip_fields(s, n5, 4) {
        Some(n) => n,
        None => {
            return None;
        },
    };
    let (name, n7) = match scan_text_field(s, n6, CharClass::NotEol, Terminator::LineEnd) {
        Some(f) => f,
        None => {
            return None;
        },
    };
    Some(
        (
            Station {
                code,
                name,
                country,
                is_interchange,
                layover_minimum_minutes: layover as u8,
            },
            n7,
        ),
    )
}

/// Reads station lines from position `i` on, until one does not parse.
pub fn parse_stations(s: &Vec<char>, i: usize) -> (r: (Vec<Station>, usize))
    requires
        i <= s.len(),
    ensures
        seq_view(r.0@) == stations_at(s@, i as int).0,
        r.1 == stations_at(s@, i as int).1,
        i <= r.1 <= s.len(),
{
    let mut out: Vec<Station> = Vec::new();
    let mut pos: usize = i;
    proof {
        lemma_seq_view_empty::<Station>();
        assert(Seq::<StationView>::empty() + stations_at(s@, i as int).0 =~= stations_at(
            s@,
            i as int,
        ).0);
    }
    loop
        invariant
            i <= pos <= s.len(),
            stations_at(s@, i as int).0 == seq_view(out@) + stations_at(s@, pos as int).0,
            stations_at(s@, i as int).1 == stations_at(s@, pos as int).1,
        decreases s.len() - pos,
    {
        match parse_station(s, pos) {
            Some((station, n)) => {
                proof {
                    lemma_seq_view_push(out@, station);
                    assert(seq_view(out@).push(station@) + stations_at(s@, n as int).0
                        =~= seq_view(out@) + (seq![station@] + stations_at(s@, n as int).0));
                }
                out.push(station);
                pos = n;
            },
            None => {
                proof {
                    assert(seq_view(out@) + Seq::<StationView>::empty() =~= seq_view(out@));
                }
                return (out, pos);
            },
        }
    }
}

/// Reads a station line from the start of `input` and returns it with the
/// rest of the input.
pub fn station<'a>(input: &'a str) -> (r: Result<(&'a str, Station), ParseError>)
    ensures
        match station_at(input@, 0) {
            Some((v, n)) => r matches Ok((rest, x)) && x@ == v && 0 < n <= input@.len()
                && rest@ == input@.subrange(n, input@.len() as int),
            None => r.is_err(),
        },
{
    let chars = to_chars(input);
    match parse_station(&chars, 0) {
        Some((v, n)) => Ok((rest_from(input, n, chars.len()), v)),
        None => Err(ParseError),
    }
}

/// Reads a station file: the header line, then station lines as long as
/// they parse. Returns what was read with the rest of the input. Fails
/// where the header line does not parse.
pub fn station_file<'a>(input: &'a str) -> (r: Result<(&'a str, Stations), ParseError>)
    ensures
        match station_file_at(input@) {
            Some((id, data, n)) => r matches Ok((rest, file)) && 0 <= n <= input@.len()
                && file.identification@ == id && file.identification.wf() && seq_view(file.data@)
                == data && rest@ == input@.subrange(n, input@.len() as int),
            None => r.is_err(),
        },
{
    let chars = to_chars(input);
    match parse_identification(&chars, 0) {
        Some((identification, n)) => {
            let (data, end) = parse_stations(&chars, n);
            Ok((rest_from(input, end, chars.len()), DeliveryIdentified { identification, data }))
        },
        None => Err(ParseError),
    }
}

} // verus!
