use data_importer::calendar::Time;
use data_importer::service::attribute::Attribute;
use data_importer::service::identification::ServiceIdentification;
use data_importer::service::number::ServiceNumber;
use data_importer::service::platform_info::PlatformInfo;
use data_importer::service::station_event::{StationEvent, StationEventType, StubError};
use data_importer::service::transport_mode::TransportMode;
use data_importer::service::validity::Validity;
use data_importer::service::{Service, ServiceLeg, SplitError};

fn time(hour: u32, minute: u32) -> Time {
    Time::from_hms_opt(hour, minute, 0).unwrap()
}

fn event(
    stop_type: StationEventType,
    station: &str,
    arrival: Option<Time>,
    departure: Option<Time>,
) -> StationEvent {
    StationEvent {
        stop_type,
        station: station.to_string(),
        arrival_time: arrival,
        departure_time: departure,
    }
}

fn platform(name: &str) -> Option<PlatformInfo> {
    Some(PlatformInfo {
        arrival_platform: name.to_string(),
        departure_platform: name.to_string(),
        footnote: 1,
    })
}

fn number(service_number: u32, first_stop: u32, last_stop: u32) -> ServiceNumber {
    ServiceNumber {
        company_number: 100,
        service_number,
        variant: None,
        first_stop,
        last_stop,
        name: None,
    }
}

fn way() -> Vec<(StationEvent, Option<PlatformInfo>)> {
    vec![
        (event(StationEventType::Departure, "rtd", None, Some(time(10, 0))), platform("1")),
        (event(StationEventType::Passage, "rtn", None, None), None),
        (event(StationEventType::ShortStop, "gd", Some(time(10, 20)), Some(time(10, 20))), None),
        (
            event(StationEventType::LongerStop, "ut", Some(time(10, 40)), Some(time(10, 45))),
            platform("5"),
        ),
        (event(StationEventType::Passage, "dvd", None, None), None),
        (event(StationEventType::Arrival, "asd", Some(time(11, 10)), None), platform("7b")),
    ]
}

fn service(numbers: Vec<ServiceNumber>) -> Service {
    Service {
        identification: ServiceIdentification(7),
        service_number: numbers,
        validity: Validity { footnote: 3, first_stop: 0, last_stop: 999 },
        transport_mode: TransportMode { code: "IC".to_string(), first_stop: 1, last_stop: 4 },
        attributes: vec![Attribute {
            code: "FIET".to_string(),
            first_stop: 1,
            last_stop: 4,
            footnote: 0,
        }],
        station_events: way(),
    }
}

#[test]
fn one_number_gives_one_leg_with_the_fields_of_the_service() {
    let service = service(vec![number(4084, 1, 4)]);
    let legs = service.split_legs().unwrap();

    assert_eq!(legs.len(), 1);
    assert_eq!(legs[0].service_number, service.service_number[0]);
    assert_eq!(legs[0].validity, service.validity);
    assert_eq!(legs[0].transport_mode, service.transport_mode);
    assert_eq!(legs[0].attributes, service.attributes);
    assert_eq!(legs[0].station_events, service.station_events);
}

#[test]
fn two_numbers_split_at_the_last_stop_of_the_first() {
    let service = service(vec![number(4084, 1, 3), number(5084, 3, 4)]);
    let legs = service.split_legs().unwrap();

    assert_eq!(legs.len(), 2);
    assert_eq!(legs[0].service_number, service.service_number[0]);
    assert_eq!(legs[1].service_number, service.service_number[1]);

    let all = way();
    let mut first = all[0..3].to_vec_of_clones();
    first.push((
        event(StationEventType::Arrival, "ut", Some(time(10, 40)), None),
        platform("5"),
    ));
    assert_eq!(legs[0].station_events, first);

    let mut second = vec![(
        event(StationEventType::Departure, "ut", None, Some(time(10, 45))),
        platform("5"),
    )];
    second.extend(all[4..].to_vec_of_clones());
    assert_eq!(legs[1].station_events, second);
}

trait Clones {
    fn to_vec_of_clones(&self) -> Vec<(StationEvent, Option<PlatformInfo>)>;
}

impl Clones for [(StationEvent, Option<PlatformInfo>)] {
    fn to_vec_of_clones(&self) -> Vec<(StationEvent, Option<PlatformInfo>)> {
        self.iter().map(|(e, p)| (e.clone(), p.clone())).collect()
    }
}

#[test]
fn the_legs_without_the_boundary_are_the_service_without_it() {
    let service = service(vec![number(4084, 1, 2), number(5084, 2, 4)]);
    let legs = service.split_legs().unwrap();
    let all = way();

    let mut joined = legs[0].station_events[..legs[0].station_events.len() - 1].to_vec_of_clones();
    joined.push((all[2].0.clone(), all[2].1.clone()));
    joined.extend(legs[1].station_events[1..].to_vec_of_clones());
    assert_eq!(joined, all);

    let arrival = &legs[0].station_events.last().unwrap().0;
    let departure = &legs[1].station_events.first().unwrap().0;
    assert_eq!(arrival.stop_type, StationEventType::Arrival);
    assert_eq!(departure.stop_type, StationEventType::Departure);
    assert_eq!(arrival.station, "gd");
    assert_eq!(departure.station, "gd");
    assert_eq!(arrival.arrival_time, Some(time(10, 20)));
    assert_eq!(departure.departure_time, Some(time(10, 20)));
    assert_eq!(arrival.departure_time, None);
    assert_eq!(departure.arrival_time, None);
}

#[test]
fn a_station_that_occurs_before_does_not_move_the_boundary() {
    let mut service = service(vec![number(4084, 1, 3), number(5084, 3, 4)]);
    service.station_events[1].0.station = "ut".to_string();
    let legs = service.split_legs().unwrap();
    assert_eq!(legs.len(), 2);
    assert_eq!(legs[0].station_events.len(), 4);
    assert_eq!(legs[1].station_events.len(), 3);
    assert_eq!(legs[0].station_events[..3], service.station_events[..3]);
    assert_eq!(legs[1].station_events[1..], service.station_events[4..]);
    assert_eq!(
        legs[0].station_events[3].0,
        event(StationEventType::Arrival, "ut", Some(time(10, 40)), None)
    );
    assert_eq!(
        legs[1].station_events[0].0,
        event(StationEventType::Departure, "ut", None, Some(time(10, 45)))
    );

    service.station_events[0].0.station = "gd".to_string();
    service.service_number[0].last_stop = 2;
    let legs = service.split_legs().unwrap();
    assert_eq!(legs[0].station_events.len(), 3);
    assert_eq!(legs[0].station_events[0], service.station_events[0]);
}

#[test]
fn the_named_stop_must_have_both_times_whatever_stands_before() {
    let mut service = service(vec![number(4084, 1, 3), number(5084, 3, 4)]);
    service.station_events = vec![
        (
            event(StationEventType::LongerStop, "x", Some(time(9, 0)), Some(time(9, 5))),
            platform("1"),
        ),
        (event(StationEventType::Arrival, "x", Some(time(9, 30)), None), None),
        (event(StationEventType::Arrival, "y", Some(time(9, 50)), None), None),
    ];
    service.service_number[0].last_stop = 2;
    assert_eq!(service.split_legs(), Err(SplitError::MissingDeparture));
    service.station_events[1].0.arrival_time = None;
    service.station_events[1].0.departure_time = Some(time(9, 30));
    assert_eq!(service.split_legs(), Err(SplitError::MissingArrival));
    service.service_number[0].last_stop = 1;
    assert_eq!(service.split_legs().unwrap().len(), 2);
}

#[test]
fn no_number_and_three_numbers_are_refused() {
    assert_eq!(service(vec![]).split_legs(), Err(SplitError::UnsupportedServiceNumbers));
    assert_eq!(
        service(vec![number(1, 1, 2), number(2, 2, 3), number(3, 3, 4)]).split_legs(),
        Err(SplitError::UnsupportedServiceNumbers)
    );
}

#[test]
fn a_boundary_that_is_no_stop_is_refused() {
    assert_eq!(
        service(vec![number(1, 1, 5), number(2, 5, 6)]).split_legs(),
        Err(SplitError::BoundaryNotFound)
    );
    assert_eq!(
        service(vec![number(1, 1, 0), number(2, 1, 4)]).split_legs(),
        Err(SplitError::BoundaryNotFound)
    );
}

#[test]
fn a_boundary_without_departure_is_refused() {
    assert_eq!(
        service(vec![number(1, 1, 4), number(2, 4, 4)]).split_legs(),
        Err(SplitError::MissingDeparture)
    );
    assert_eq!(
        service(vec![number(1, 1, 1), number(2, 1, 4)]).split_legs(),
        Err(SplitError::MissingArrival)
    );
}

#[test]
fn stubs_take_the_time_of_their_side() {
    let stop = event(StationEventType::LongerStop, "ut", Some(time(10, 40)), Some(time(10, 45)));
    assert_eq!(
        stop.clone().into_arrival(),
        Ok(event(StationEventType::Arrival, "ut", Some(time(10, 40)), None))
    );
    assert_eq!(
        stop.into_departure(),
        Ok(event(StationEventType::Departure, "ut", None, Some(time(10, 45))))
    );
    let passage = event(StationEventType::Passage, "dvd", None, None);
    assert_eq!(passage.clone().into_arrival(), Err(StubError::MissingArrival));
    assert_eq!(passage.into_departure(), Err(StubError::MissingDeparture));
}

fn leg() -> ServiceLeg {
    service(vec![number(4084, 1, 4)]).split_legs().unwrap().remove(0)
}

#[test]
fn stops_are_the_events_that_are_no_passages() {
    let leg = leg();
    let stops = leg.stops();
    let stations: Vec<&str> = stops.iter().map(|s| s.0.station.as_str()).collect();
    assert_eq!(stations, vec!["rtd", "gd", "ut", "asd"]);
    assert_eq!(leg.num_stops(), 4);
}

#[test]
fn stop_numbers_count_from_zero_without_passages() {
    let leg = leg();
    let all = way();
    assert_eq!(leg.stop_number(&all[0].0), Some(0));
    assert_eq!(leg.stop_number(&all[1].0), None);
    assert_eq!(leg.stop_number(&all[2].0), Some(1));
    assert_eq!(leg.stop_number(&all[3].0), Some(2));
    assert_eq!(leg.stop_number(&all[4].0), None);
    assert_eq!(leg.stop_number(&all[5].0), Some(3));
    let stranger = event(StationEventType::ShortStop, "zl", Some(time(9, 0)), Some(time(9, 0)));
    assert_eq!(leg.stop_number(&stranger), None);
}

#[test]
fn stop_at_counts_from_one_and_wants_platforms() {
    let service = service(vec![number(4084, 1, 4)]);
    let all = way();
    assert_eq!(
        service.stop_at(1),
        Some((all[0].0.clone(), all[0].1.clone().unwrap()))
    );
    assert_eq!(service.stop_at(2), None);
    assert_eq!(
        service.stop_at(3),
        Some((all[3].0.clone(), all[3].1.clone().unwrap()))
    );
    assert_eq!(
        service.stop_at(4),
        Some((all[5].0.clone(), all[5].1.clone().unwrap()))
    );
    assert_eq!(service.stop_at(5), None);
}

#[test]
fn sigils_name_the_kinds_of_station_events() {
    assert_eq!(StationEventType::from('>'), StationEventType::Departure);
    assert_eq!(StationEventType::from('.'), StationEventType::ShortStop);
    assert_eq!(StationEventType::from(';'), StationEventType::Passage);
    assert_eq!(StationEventType::from('+'), StationEventType::LongerStop);
    assert_eq!(StationEventType::from('<'), StationEventType::Arrival);
    assert_eq!(StationEventType::from_sigil('?'), None);
    assert_eq!(StationEventType::Departure.to_string(), "DEPARTURE");
    assert_eq!(StationEventType::ShortStop.to_string(), "SHORT_STOP");
    assert_eq!(StationEventType::LongerStop.to_string(), "LONGER_STOP");
    assert_eq!(StationEventType::Passage.to_string(), "PASSAGE");
    assert_eq!(StationEventType::Arrival.to_string(), "ARRIVAL");
}

#[test]
fn copies_say_the_same() {
    let service = service(vec![number(4084, 1, 3), number(5084, 3, 4)]);
    assert_eq!(service.clone(), service);
    let legs = service.split_legs().unwrap();
    assert_eq!(legs[1].clone(), legs[1]);
    assert!(legs[0].station_events[0].0.same_as(&service.station_events[0].0));
    assert!(!legs[0].station_events[0].0.same_as(&service.station_events[1].0));
}
