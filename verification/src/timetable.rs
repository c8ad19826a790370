//! The timetable file: the header line and the services.
//!
//! A service is a service identification line, one or two service number
//! lines, a validity line, a transport mode line, attribute lines if any,
//! and one or more station event lines, each of which a platform line may
//! follow.

use crate::identification::{
    identification_at, parse_identification, DeliveryIdentified, IdentificationView,
};
use crate::service::attribute::{attributes_at, parse_attributes};
use crate::service::identification::{parse_service_identification, service_identification_at};
use crate::service::number::{
    parse_service_number, service_number_at, ServiceNumber, ServiceNumberView,
};
use crate::service::platform_info::{parse_platform_info, platform_info_at};
use crate::service::station_event::{parse_station_event, station_event_at};
use crate::service::transport_mode::{parse_transport_mode, transport_mode_at};
use crate::service::validity::{parse_validity, validity_at};
use crate::service::{stop_view, stops_view, Service, ServiceView, Stop, StopView};
use crate::text::{rest_from, to_chars, ParseError};
use crate::views::{lemma_seq_view_empty, lemma_seq_view_push, seq_view};
use vstd::prelude::*;

verus! {

/// The timetable file: its header and its services.
pub type Timetable = DeliveryIdentified<Vec<Service>>;

/// The station event line at position `i` with the platform line after it,
/// if one follows, and the position after them.
pub open spec fn stop_at_position(s: Seq<char>, i: int) -> Option<(StopView, int)> {
    match station_event_at(s, i) {
        Some((event, n)) => match platform_info_at(s, n) {
            Some((platform, m)) => Some(((event, Some(platform)), m)),
            None => Some(((event, None), n)),
        },
        None => None,
    }
}

/// The station events from position `i` on, as many as follow one another,
/// and the position after the last of them.
pub open spec fn stops_at(s: Seq<char>, i: int) -> (Seq<StopView>, int)
    decreases s.len() - i,
{
    match stop_at_position(s, i) {
        Some((stop, n)) => if i < n <= s.len() {
            (seq![stop] + stops_at(s, n).0, stops_at(s, n).1)
        } else {
            (Seq::empty(), i)
        },
        None => (Seq::empty(), i),
    }
}

/// The one or two service number lines at position `i` and the position
/// after them.
pub open spec fn service_numbers_at(s: Seq<char>, i: int) -> Option<(Seq<ServiceNumberView>, int)> {
    match service_number_at(s, i) {
        Some((first, n)) => match service_number_at(s, n) {
            Some((second, m)) => Some((seq![first, second], m)),
            None => Some((seq![first], n)),
        },
        None => None,
    }
}

/// The service at position `i` and the position after it.
pub open spec fn service_at(s: Seq<char>, i: int) -> Option<(ServiceView, int)> {
    let id = service_identification_at(s, i);
    let numbers = service_numbers_at(s, id.unwrap().1);
    let validity = validity_at(s, numbers.unwrap().1);
    let mode = transport_mode_at(s, validity.unwrap().1);
    let attributes = attributes_at(s, mode.unwrap().1);
    let stops = stops_at(s, attributes.1);
    if id.is_some() && numbers.is_some() && validity.is_some() && mode.is_some() && stops.0.len()
        >= 1 {
        Some(
            (
                ServiceView {
                    identification: id.unwrap().0,
                    service_number: numbers.unwrap().0,
                    validity: validity.unwrap().0,
                    transport_mode: mode.unwrap().0,
                    attributes: attributes.0,
                    station_events: stops.0,
                },
                stops.1,
            ),
        )
    } else {
        None
    }
}

/// The services from position `i` on, as many as follow one another, and
/// the position after the last of them.
pub open spec fn services_at(s: Seq<char>, i: int) -> (Seq<ServiceView>, int)
    decreases s.len() - i,
{
    match service_at(s, i) {
        Some((service, n)) => if i < n <= s.len() {
            (seq![service] + services_at(s, n).0, services_at(s, n).1)
        } else {
            (Seq::empty(), i)
        },
        None => (Seq::empty(), i),
    }
}

/// The timetable file at the start of `s`: the header line, then services,
/// and the position after the last of them.
pub open spec fn timetable_file_at(s: Seq<char>) -> Option<
    (IdentificationView, Seq<ServiceView>, int),
> {
    match identification_at(s, 0) {
        Some((id, n)) => Some((id, services_at(s, n).0, services_at(s, n).1)),
        None => None,
    }
}

/// Reads the station event at position `i` and the platform line after
/// it, if one follows.
pub fn parse_stop(s: &Vec<char>, i: usize) -> (r: Option<(Stop, usize)>)
    requires
        i <= s.len(),
    ensures
        match stop_at_position(s@, i as int) {
            Some((v, n)) => r matches Some((x, m)) && stop_view(x) == v && m == n && i < n
                <= s.len(),
            None => r.is_none(),
        },
{
    match parse_station_event(s, i) {
        Some((event, n)) => match parse_platform_info(s, n) {
            Some((platform, m)) => Some(((event, Some(platform)), m)),
            None => Some(((event, None), n)),
        },
        None => None,
    }
}

/// Reads station events from position `i` on, until one does not parse.
pub fn parse_stops(s: &Vec<char>, i: usize) -> (r: (Vec<Stop>, usize))
    requires
        i <= s.len(),
    ensures
        stops_view(r.0@) == stops_at(s@, i as int).0,
        r.1 == stops_at(s@, i as int).1,
        i <= r.1 <= s.len(),
{
    let mut out: Vec<Stop> = Vec::new();
    let mut pos: usize = i;
    proof {
        assert(stops_view(out@) + stops_at(s@, i as int).0 =~= stops_at(s@, i as int).0);
    }
    loop
        invariant
            i <= pos <= s.len(),
            stops_at(s@, i as int).0 == stops_view(out@) + stops_at(s@, pos as int).0,
            stops_at(s@, i as int).1 == stops_at(s@, pos as int).1,
        decreases s.len() - pos,
    {
        match parse_stop(s, pos) {
            Some((stop, n)) => {
                proof {
                    assert(stops_view(out@.push(stop)) =~= stops_view(out@).push(stop_view(stop)));
                    assert(stops_view(out@).push(stop_view(stop)) + stops_at(s@, n as int).0
                        =~= stops_view(out@) + (seq![stop_view(stop)] + stops_at(
                        s@,
                        n as int,
                    ).0));
                }
                out.push(stop);
                pos = n;
            },
            None => {
                proof {
                    assert(stops_view(out@) + Seq::<StopView>::empty() =~= stops_view(out@));
                }
                return (out, pos);
            },
        }
    }
}

/// Reads the one or two service number lines at position `i`.
pub fn parse_service_numbers(s: &Vec<char>, i: usize) -> (r: Option<(Vec<ServiceNumber>, usize)>)
    requires
        i <= s.len(),
    ensures
        match service_numbers_at(s@, i as int) {
            Some((v, n)) => r matches Some((x, m)) && seq_view(x@) == v && m == n && i < n
                <= s.len(),
            None => r.is_none(),
        },
{
    let (first, n) = match parse_service_number(s, i) {
        Some(f) => f,
        None => {
            return None;
        },
    };
    let mut out: Vec<ServiceNumber> = Vec::new();
    out.push(first);
    match parse_service_number(s, n) {
        Some((second, m)) => {
            out.push(second);
            assert(seq_view(out@) =~= seq![first@, second@]);
            Some((out, m))
        },
        None => {
            assert(seq_view(out@) =~= seq![first@]);
            Some((out, n))
        },
    }
}

/// Reads the service at position `i`.
pub fn parse_service(s: &Vec<char>, i: usize) -> (r: Option<(Service, usize)>)
    requires
        i <= s.len(),
    ensures
        match service_at(s@, i as int) {
            Some((v, n)) => r matches Some((x, m)) && x@ == v && m == n && i < n <= s.len(),
            None => r.is_none(),
        },
{
    let (identification, n1) = match parse_service_identification(s, i) {
        Some(f) => f,
        None => {
            return None;
        },
    };
    let (service_number, n2) = match parse_service_numbers(s, n1) {
        Some(f) => f,
        None => {
            return None;
        },
    };
    let (validity, n3) = match parse_validity(s, n2) {
        Some(f) => f,
        None => {
            return None;
        },
    };
    let (transport_mode, n4) = match parse_transport_mode(s, n3) {
        Some(f) => f,
        None => {
            return None;
        },
    };
    let (attributes, n5) = parse_attributes(s, n4);
    let (station_events, n6) = parse_stops(s, n5);
    if station_events.len() < 1 {
        assert(stops_view(station_events@).len() == station_events@.len());
        return None;
    }
    assert(stops_view(station_events@).len() == station_events@.len());
    Some(
        (
            Service {
                identification,
                service_number,
                validity,
                transport_mode,
                attributes,
                station_events,
            },
            n6,
        ),
    )
}

/// Reads services from position `i` on, until one does not parse.
pub fn parse_services(s: &Vec<char>, i: usize) -> (r: (Vec<Service>, usize))
    requires
        i <= s.len(),
    ensures
        seq_view(r.0@) == services_at(s@, i as int).0,
        r.1 == services_at(s@, i as int).1,
        i <= r.1 <= s.len(),
{
    let mut out: Vec<Service> = Vec::new();
    let mut pos: usize = i;
    proof {
        lemma_seq_view_empty::<Service>();
        assert(Seq::<ServiceView>::empty() + services_at(s@, i as int).0 =~= services_at(
            s@,
            i as int,
        ).0);
    }
    loop
        invariant
            i <= pos <= s.len(),
            services_at(s@, i as int).0 == seq_view(out@) + services_at(s@, pos as int).0,
            services_at(s@, i as int).1 == services_at(s@, pos as int).1,
        decreases s.len() - pos,
    {
        match parse_service(s, pos) {
            Some((service, n)) => {
                proof {
                    lemma_seq_view_push(out@, service);
                    assert(seq_view(out@).push(service@) + services_at(s@, n as int).0
                        =~= seq_view(out@) + (seq![service@] + services_at(s@, n as int).0));
                }
                out.push(service);
                pos = n;
            },
            None => {
                proof {
                    assert(seq_view(out@) + Seq::<ServiceView>::empty() =~= seq_view(out@));
                }
                return (out, pos);
            },
        }
    }
}

/// Reads a timetable file: the header line, then services as long as they
/// parse. Returns what was read with the rest of the input. Fails where the
/// header line does not parse.
pub fn timetable_file<'a>(input: &'a str) -> (r: Result<(&'a str, Timetable), ParseError>)
    ensures
        match timetable_file_at(input@) {
            Some((id, data, n)) => r matches Ok((rest, file)) && 0 <= n <= input@.len()
                && file.identification@ == id
                && file.identification.wf() && seq_view(file.data@) == data && rest@
                == input@.subrange(n, input@.len() as int),
            None => r.is_err(),
        },
{
    let chars = to_chars(input);
    match parse_identification(&chars, 0) {
        Some((identification, n)) => {
            let (data, end) = parse_services(&chars, n);
            Ok((rest_from(input, end, chars.len()), DeliveryIdentified { identification, data }))
        },
        None => Err(ParseError),
    }
}

} // verus!
