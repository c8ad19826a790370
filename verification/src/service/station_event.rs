//! The station event lines: where a train leaves, stops, passes and
//! arrives, and when.

use crate::calendar::{parse_time, time_at, Time};
use crate::text::{
    after_terminator, at_char, has_char, rest_from, scan_terminator, scan_text_field,
    text_field_at, to_chars, CharClass, ParseError, Terminator,
};
use vstd::prelude::*;
use vstd::string::StringExecFns;

verus! {

/// What a train does at a station.
#[derive(Debug, PartialEq, Eq, Clone, Copy, Structural)]
pub enum StationEventType {
    Departure,
    ShortStop,
    LongerStop,
    Passage,
    Arrival,
}

/// The kind of station event that a sigil opens, if it opens one.
pub open spec fn sigil_type(c: char) -> Option<StationEventType> {
    if c == '>' {
        Some(StationEventType::Departure)
    } else if c == '.' {
        Some(StationEventType::ShortStop)
    } else if c == ';' {
        Some(StationEventType::Passage)
    } else if c == '+' {
        Some(StationEventType::LongerStop)
    } else if c == '<' {
        Some(StationEventType::Arrival)
    } else {
        None
    }
}

impl StationEventType {
    /// The kind of station event that the sigil `value` opens. Asks for one
    /// of the five sigils.
    pub fn from(value: char) -> (r: Self)
        requires
            sigil_type(value).is_some(),
        ensures
            Some(r) == sigil_type(value),
    {
        if value == '>' {
            StationEventType::Departure
        } else if value == '.' {
            StationEventType::ShortStop
        } else if value == ';' {
            StationEventType::Passage
        } else if value == '+' {
            StationEventType::LongerStop
        } else {
            StationEventType::Arrival
        }
    }

    /// The kind of station event that the sigil `value` opens, if it opens
    /// one.
    pub fn from_sigil(value: char) -> (r: Option<Self>)
        ensures
            r == sigil_type(value),
    {
        if value == '>' || value == '.' || value == ';' || value == '+' || value == '<' {
            Some(StationEventType::from(value))
        } else {
            None
        }
    }

    /// The name under which the kind is stored.
    pub open spec fn name(self) -> Seq<char> {
        match self {
            StationEventType::Departure => "DEPARTURE"@,
            StationEventType::ShortStop => "SHORT_STOP"@,
            StationEventType::LongerStop => "LONGER_STOP"@,
            StationEventType::Passage => "PASSAGE"@,
            StationEventType::Arrival => "ARRIVAL"@,
        }
    }

    /// The name under which the kind is stored.
    pub fn to_string(&self) -> (r: String)
        ensures
            r@ == self.name(),
    {
        match self {
            StationEventType::Departure => String::from_str("DEPARTURE"),
            StationEventType::ShortStop => String::from_str("SHORT_STOP"),
            StationEventType::LongerStop => String::from_str("LONGER_STOP"),
            StationEventType::Passage => String::from_str("PASSAGE"),
            StationEventType::Arrival => String::from_str("ARRIVAL"),
        }
    }
}

/// One station on the way of a train: what it does there, and when it
/// arrives and leaves.
#[derive(Debug, PartialEq)]
pub struct StationEvent {
    pub stop_type: StationEventType,
    pub station: String,
    pub arrival_time: Option<Time>,
    pub departure_time: Option<Time>,
}

/// A [`StationEvent`] as plain values.
pub struct StationEventView {
    pub stop_type: StationEventType,
    pub station: Seq<char>,
    pub arrival_time: Option<Time>,
    pub departure_time: Option<Time>,
}

impl StationEventView {
    /// The end of a leg at this station: an arrival at the time of arrival,
    /// with no departure.
    pub open spec fn as_arrival(self) -> StationEventView {
        StationEventView {
            stop_type: StationEventType::Arrival,
            station: self.station,
            arrival_time: self.arrival_time,
            departure_time: None,
        }
    }

    /// The start of a leg at this station: a departure at the time of
    /// departure, with no arrival.
    pub open spec fn as_departure(self) -> StationEventView {
        StationEventView {
            stop_type: StationEventType::Departure,
            station: self.station,
            arrival_time: None,
            departure_time: self.departure_time,
        }
    }
}

impl View for StationEvent {
    type V = StationEventView;

    open spec fn view(&self) -> StationEventView {
        StationEventView {
            stop_type: self.stop_type,
            station: self.station@,
            arrival_time: self.arrival_time,
            departure_time: self.departure_time,
        }
    }
}

impl Clone for StationEvent {
    fn clone(&self) -> (r: Self)
        ensures
            r@ == self@,
    {
        StationEvent {
            stop_type: self.stop_type,
            station: self.station.clone(),
            arrival_time: self.arrival_time,
            departure_time: self.departure_time,
        }
    }
}

/// A station event has no time of arrival, or none of departure, where a
/// leg is to end or to start at it.
#[derive(Debug, PartialEq, Eq, Clone, Copy, Structural)]
pub enum StubError {
    MissingArrival,
    MissingDeparture,
}

impl StationEvent {
    /// Whether the two events say the same.
    pub fn same_as(&self, other: &StationEvent) -> (r: bool)
        ensures
            r == (self@ == other@),
    {
        let same = self.stop_type == other.stop_type && self.station == other.station
            && self.arrival_time == other.arrival_time && self.departure_time
            == other.departure_time;
        proof {
            if same {
                assert(self@.station == other@.station);
            }
        }
        same
    }

    /// The end of a leg at this station: an arrival at the event's time of
    /// arrival, with no departure. Fails where the event has no time of
    /// arrival.
    pub fn into_arrival(self) -> (r: Result<StationEvent, StubError>)
        ensures
            match self.arrival_time {
                Some(_) => r matches Ok(e) && e@ == self@.as_arrival(),
                None => r == Err::<StationEvent, StubError>(StubError::MissingArrival),
            },
    {
        match self.arrival_time {
            Some(_) => Ok(
                StationEvent {
                    stop_type: StationEventType::Arrival,
                    station: self.station,
                    arrival_time: self.arrival_time,
                    departure_time: None,
                },
            ),
            None => Err(StubError::MissingArrival),
        }
    }

    /// The start of a leg at this station: a departure at the event's time
    /// of departure, with no arrival. Fails where the event has no time of
    /// departure.
    pub fn into_departure(self) -> (r: Result<StationEvent, StubError>)
        ensures
            match self.departure_time {
                Some(_) => r matches Ok(e) && e@ == self@.as_departure(),
                None => r == Err::<StationEvent, StubError>(StubError::MissingDeparture),
            },
    {
        match self.departure_time {
            Some(_) => Ok(
                StationEvent {
                    stop_type: StationEventType::Departure,
                    station: self.station,
                    arrival_time: None,
                    departure_time: self.departure_time,
                },
            ),
            None => Err(StubError::MissingDeparture),
        }
    }
}

/// The time at `i` with the end of the line after it, and the position
/// after that.
pub open spec fn last_time_at(s: Seq<char>, i: int) -> Option<(Time, int)> {
    match time_at(s, i) {
        Some((t, n)) => match after_terminator(s, n, Terminator::LineEnd) {
            Some(m) => Some((t, m)),
            None => None,
        },
        None => None,
    }
}

/// The station event line at position `i` and the position after it.
///
/// - `>`, the station, a comma, the time of departure;
/// - `.`, the station, a comma, the one time of arrival and departure;
/// - `+`, the station, a comma, the time of arrival, a comma, the time of
///   departure;
/// - `<`, the station, a comma, the time of arrival;
/// - `;` and the station up to the end of the line, with no time.
///
/// The station is trimmed.
pub open spec fn station_event_at(s: Seq<char>, i: int) -> Option<(StationEventView, int)> {
    if !(0 <= i < s.len()) {
        None
    } else {
        match sigil_type(s[i]) {
            None => None,
            Some(StationEventType::Passage) => {
                let station = text_field_at(s, i + 1, CharClass::NotEol, Terminator::LineEnd);
                if station.is_some() {
                    Some(
                        (
                            StationEventView {
                                stop_type: StationEventType::Passage,
                                station: station.unwrap().0,
                                arrival_time: None,
                                departure_time: None,
                            },
                            station.unwrap().1,
                        ),
                    )
                } else {
                    None
                }
            },
            Some(StationEventType::LongerStop) => {
                let station = text_field_at(s, i + 1, CharClass::NotComma, Terminator::Comma);
                let arrival = time_at(s, station.unwrap().1);
                let departure = last_time_at(s, arrival.unwrap().1 + 1);
                if station.is_some() && arrival.is_some() && has_char(s, arrival.unwrap().1, ',')
                    && departure.is_some() {
                    Some(
                        (
                            StationEventView {
                                stop_type: StationEventType::LongerStop,
                                station: station.unwrap().0,
                                arrival_time: Some(arrival.unwrap().0),
                                departure_time: Some(departure.unwrap().0),
                            },
                            departure.unwrap().1,
                        ),
                    )
                } else {
                    None
                }
            },
            Some(kind) => {
                let station = text_field_at(s, i + 1, CharClass::NotComma, Terminator::Comma);
                let time = last_time_at(s, station.unwrap().1);
                if station.is_some() && time.is_some() {
                    Some(
                        (
                            StationEventView {
                                stop_type: kind,
                                station: station.unwrap().0,
                                arrival_time: if kind == StationEventType::Departure {
                                    None
                                } else {
                                    Some(time.unwrap().0)
                                },
                                departure_time: if kind == StationEventType::Arrival {
                                    None
                                } else {
                                    Some(time.unwrap().0)
                                },
                            },
                            time.unwrap().1,
                        ),
                    )
                } else {
                    None
                }
            },
        }
    }
}

/// Reads the time at `i` and the end of the line after it.
pub fn parse_last_time(s: &Vec<char>, i: usize) -> (r: Option<(Time, usize)>)
    requires
        i <= s.len(),
    ensures
        match last_time_at(s@, i as int) {
            Some((t, n)) => r == Some((t, n as usize)) && i < n <= s.len() && t.wf(),
            None => r.is_none(),
        },
{
    match parse_time(s, i) {
        Some((t, n)) => match scan_terminator(s, n, Terminator::LineEnd) {
            Some(m) => Some((t, m)),
            None => None,
        },
        None => None,
    }
}

/// Reads the station event line at position `i`.
pub fn parse_station_event(s: &Vec<char>, i: usize) -> (r: Option<(StationEvent, usize)>)
    requires
        i <= s.len(),
    ensures
        match station_event_at(s@, i as int) {
            Some((v, n)) => r matches Some((x, m)) && x@ == v && m == n && i < n <= s.len(),
            None => r.is_none(),
        },
{
    if i >= s.len() {
        return None;
    }
    let stop_type = match StationEventType::from_sigil(s[i]) {
        Some(t) => t,
        None => {
            return None;
        },
    };
    match stop_type {
        StationEventType::Passage => {
            match scan_text_field(s, i + 1, CharClass::NotEol, Terminator::LineEnd) {
                Some((station, n)) => Some(
                    (
                        StationEvent {
                            stop_type,
                            station,
                            arrival_time: None,
                            departure_time: None,
                        },
                        n,
                    ),
                ),
                None => None,
            }
        },
        StationEventType::LongerStop => {
            let (station, n1) = match scan_text_field(
                s,
                i + 1,
                CharClass::NotComma,
                Terminator::Comma,
            ) {
                Some(f) => f,
                None => {
                    return None;
                },
            };
            let (arrival, n2) = match parse_time(s, n1) {
                Some(f) => f,
                None => {
                    return None;
                },
            };
            if !at_char(s, n2, ',') {
                return None;
            }
            let (departure, n3) = match parse_last_time(s, n2 + 1) {
                Some(f) => f,
                None => {
                    return None;
                },
            };
            Some(
                (
                    StationEvent {
                        stop_type,
                        station,
                        arrival_time: Some(arrival),
                        departure_time: Some(departure),
                    },
                    n3,
                ),
            )
        },
        _ => {
            let (station, n1) = match scan_text_field(
                s,
                i + 1,
                CharClass::NotComma,
                Terminator::Comma,
            ) {
                Some(f) => f,
                None => {
                    return None;
                },
            };
            let (time, n2) = match parse_last_time(s, n1) {
                Some(f) => f,
                None => {
                    return None;
                },
            };
            let arrival_time = if stop_type == StationEventType::Departure {
                None
            } else {
                Some(time)
            };
            let departure_time = if stop_type == StationEventType::Arrival {
                None
            } else {
                Some(time)
            };
            Some((StationEvent { stop_type, station, arrival_time, departure_time }, n2))
        },
    }
}

/// Reads a station event line from the start of `input` and returns it
/// with the rest of the input.
pub fn station_event<'a>(input: &'a str) -> (r: Result<(&'a str, StationEvent), ParseError>)
    ensures
        match station_event_at(input@, 0) {
            Some((v, n)) => r matches Ok((rest, x)) && x@ == v && 0 < n <= input@.len()
                && rest@ == input@.subrange(n, input@.len() as int),
            None => r.is_err(),
        },
{
    let chars = to_chars(input);
    match parse_station_event(&chars, 0) {
        Some((v, n)) => Ok((rest_from(input, n, chars.len()), v)),
        None => Err(ParseError),
    }
}

} // verus!
