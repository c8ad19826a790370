use data_importer::calendar::{Date, Time};
use data_importer::company::{company, Company};
use data_importer::footnote::{footnote, Footnote};
use data_importer::identification::{identification, Identification};
use data_importer::service::attribute::{attribute, Attribute};
use data_importer::service::identification::{service_identification, ServiceIdentification};
use data_importer::service::number::{service_number, ServiceNumber};
use data_importer::service::platform_info::{platform_info, PlatformInfo};
use data_importer::service::station_event::{station_event, StationEvent, StationEventType};
use data_importer::service::transport_mode::{transport_mode, TransportMode};
use data_importer::service::validity::{validity, Validity};

#[test]
fn it_parses_company() {
    const INPUT: &str = "970,CFL       ,Chemins de Fer Luxembourg     ,0000\r\n";
    let (rest_input, company) = company(INPUT).expect("failed to parse");

    assert!(rest_input.is_empty());
    assert_eq!(
        company,
        Company {
            id: 970,
            code: "CFL".into(),
            name: "Chemins de Fer Luxembourg".into(),
        }
    )
}

#[test]
fn it_parses_footnote() {
    const INPUT: &str = "#00000
11111111111111111111111111111111111111111111111111111111111111111111111111111111111111111111111111111111111111111111111111111111111111111111111111111111111111111111111111111111111111111111111111111111111111111111111111111111111111111111111111111111111\r\n";

    let (rest_input, footnote) = footnote(INPUT).expect("failed to parse");

    assert_eq!(rest_input, "");
    assert_eq!(footnote.id, 0);
    assert_eq!(footnote.vector.len(), 251);
}

#[test]
fn it_iterates_over_valid_dates() {
    let footnote = Footnote {
        id: 1,
        vector: vec![true, true, false, false, false],
    };

    let delivery = Identification {
        company_number: "100".into(),
        first_valid: Date::from_ymd_opt(2025, 1, 1).unwrap(),
        last_valid: Date::from_ymd_opt(2025, 1, 5).unwrap(),
        version_number: "1".into(),
        description: "".into(),
    };

    let iter_result = footnote.iterate_valid_dates(&delivery).collect();
    assert_eq!(
        iter_result,
        vec![
            Some(Date::from_ymd_opt(2025, 1, 1).unwrap()),
            Some(Date::from_ymd_opt(2025, 1, 2).unwrap()),
            None,
            None,
            None,
        ]
    );
}

#[test]
fn it_parses_identification() {
    const INPUT: &str = "@100,07042025,13122025,0070,IFF Standaard uit RIF\r\n";
    let result = identification(INPUT).expect("Failed to parse");

    assert_eq!(
        result,
        (
            "",
            Identification {
                company_number: "100".to_string(),
                first_valid: Date::from_ymd_opt(2025, 4, 7).unwrap(),
                last_valid: Date::from_ymd_opt(2025, 12, 13).unwrap(),
                version_number: "0070".to_string(),
                description: "IFF Standaard uit RIF".to_string(),
            }
        )
    )
}

#[test]
fn it_parses_attribute() {
    const INPUT: &str = "*ROL ,001,007,00000\r\n";
    let result = attribute(INPUT).expect("failed to parse");

    assert_eq!(
        result,
        (
            "",
            Attribute {
                code: "ROL".to_string(),
                first_stop: 1,
                last_stop: 7,
                footnote: 0,
            }
        )
    )
}

#[test]
fn it_parses_service_identification() {
    const INPUT: &str = "#00000001\r\n";
    let result = service_identification(INPUT).expect("Failed to parse");

    assert_eq!(result, ("", ServiceIdentification(1)))
}

#[test]
fn it_parses_service_number() {
    const INPUT: &str = "%100,04084,      ,001,016,                              \r\n";
    let result = service_number(INPUT).expect("Failed to parse");

    assert_eq!(
        result,
        (
            "",
            ServiceNumber {
                company_number: 100,
                service_number: 4084,
                variant: None,
                first_stop: 1,
                last_stop: 16,
                name: None
            }
        )
    )
}

#[test]
fn it_parses_platform_info() {
    const INPUT: &str = "?1a   ,1a   ,00082\r\n";
    let result = platform_info(INPUT).expect("failed to parse");

    assert_eq!(
        result,
        (
            "",
            PlatformInfo {
                arrival_platform: "1a".to_string(),
                departure_platform: "1a".to_string(),
                footnote: 82,
            }
        )
    )
}

#[test]
fn it_parses_station_event_departure() {
    const INPUT: &str = ">alm    ,1931\r\n";
    let result = station_event(INPUT).expect("failed to parse");

    assert_eq!(
        result,
        (
            "",
            StationEvent {
                stop_type: StationEventType::Departure,
                station: "alm".to_string(),
                arrival_time: None,
                departure_time: Some(Time::from_hms_opt(19, 31, 0).unwrap()),
            }
        )
    )
}

#[test]
fn it_parses_station_event_passage() {
    const INPUT: &str = ";almm\r\n";
    let result = station_event(INPUT).expect("failed to parse");

    assert_eq!(
        result,
        (
            "",
            StationEvent {
                stop_type: StationEventType::Passage,
                station: "almm".to_string(),
                arrival_time: None,
                departure_time: None,
            }
        )
    )
}

#[test]
fn it_parses_station_event_short_stop() {
    const INPUT: &str = ".ass    ,1959\r\n";
    let result = station_event(INPUT).expect("failed to parse");

    assert_eq!(
        result,
        (
            "",
            StationEvent {
                stop_type: StationEventType::ShortStop,
                station: "ass".to_string(),
                arrival_time: Some(Time::from_hms_opt(19, 59, 0).unwrap()),
                departure_time: Some(Time::from_hms_opt(19, 59, 0).unwrap()),
            }
        )
    )
}

#[test]
fn it_parses_station_event_longer_stop() {
    const INPUT: &str = "+asd    ,1951,1953\r\n";
    let result = station_event(INPUT).expect("failed to parse");

    assert_eq!(
        result,
        (
            "",
            StationEvent {
                stop_type: StationEventType::LongerStop,
                station: "asd".to_string(),
                arrival_time: Some(Time::from_hms_opt(19, 51, 0).unwrap()),
                departure_time: Some(Time::from_hms_opt(19, 53, 0).unwrap()),
            }
        )
    )
}

#[test]
fn it_parses_station_event_arrival() {
    const INPUT: &str = "<ekz    ,2053\r\n";
    let result = station_event(INPUT).expect("failed to parse");

    assert_eq!(
        result,
        (
            "",
            StationEvent {
                stop_type: StationEventType::Arrival,
                station: "ekz".to_string(),
                arrival_time: Some(Time::from_hms_opt(20, 53, 0).unwrap()),
                departure_time: None,
            }
        )
    )
}

#[test]
fn it_parses_transport_mode() {
    const INPUT: &str = "&SPR ,001,005\r\n";
    let result = transport_mode(INPUT).expect("failed to parse");

    assert_eq!(
        result,
        (
            "",
            TransportMode {
                code: "SPR".to_string(),
                first_stop: 1,
                last_stop: 5
            }
        )
    )
}

#[test]
fn it_parses_validity_record() {
    const INPUT: &str = "-00001,000,999\r\n";
    let result = validity(INPUT).expect("failed to parse");

    assert_eq!(
        result,
        (
            "",
            Validity {
                footnote: 1,
                first_stop: 0,
                last_stop: 999,
            }
        )
    )
}
