use data_importer::calendar::{Date, Time};
use data_importer::company::{Companies, Company};
use data_importer::footnote::{Footnote, Footnotes};
use data_importer::identification::{DeliveryIdentified, Identification};
use data_importer::journey::{
    get_service_number, plan_leg, select_codes, AttributeRule, EventPlan, LegError, LegPlan,
};
use data_importer::materializer::{Action, Materializer, Reply};
use data_importer::service::attribute::Attribute;
use data_importer::service::identification::ServiceIdentification;
use data_importer::service::number::ServiceNumber;
use data_importer::service::platform_info::PlatformInfo;
use data_importer::service::station_event::{StationEvent, StationEventType};
use data_importer::service::transport_mode::TransportMode;
use data_importer::service::validity::Validity;
use data_importer::service::ServiceLeg;
use sea_query::PostgresQueryBuilder;

fn day(year: i32, month: u32, day: u32) -> Date {
    Date::from_ymd_opt(year, month, day).unwrap()
}

fn time(hour: u32, minute: u32) -> Time {
    Time::from_hms_opt(hour, minute, 0).unwrap()
}

fn delivery() -> Identification {
    Identification {
        company_number: "100".into(),
        first_valid: day(2025, 1, 1),
        last_valid: day(2025, 1, 5),
        version_number: "1".into(),
        description: "".into(),
    }
}

fn footnotes() -> Footnotes {
    DeliveryIdentified {
        identification: delivery(),
        data: vec![
            Footnote { id: 1, vector: vec![true, false, false, true, false] },
            Footnote { id: 2, vector: vec![false, false, false, false, false] },
        ],
    }
}

fn companies() -> Companies {
    DeliveryIdentified {
        identification: delivery(),
        data: vec![
            Company { id: 100, code: "NS".into(), name: "Nederlandse Spoorwegen".into() },
            Company { id: 970, code: "CFL".into(), name: "Chemins de Fer Luxembourg".into() },
        ],
    }
}

fn attribute(code: &str, first_stop: u32, last_stop: u32) -> Attribute {
    Attribute { code: code.to_string(), first_stop, last_stop, footnote: 0 }
}

fn leg(footnote: u32) -> ServiceLeg {
    ServiceLeg {
        service_number: ServiceNumber {
            company_number: 100,
            service_number: 4084,
            variant: None,
            first_stop: 1,
            last_stop: 3,
            name: None,
        },
        validity: Validity { footnote, first_stop: 0, last_stop: 999 },
        transport_mode: TransportMode { code: "SPR".into(), first_stop: 1, last_stop: 3 },
        attributes: vec![
            attribute("FIET", 1, 3),
            attribute("STIL", 1, 2),
            attribute("ROL", 0, 0),
            attribute("NIIN", 2, 3),
        ],
        station_events: vec![
            (
                StationEvent {
                    stop_type: StationEventType::Departure,
                    station: "rtd".into(),
                    arrival_time: None,
                    departure_time: Some(time(23, 24)),
                },
                Some(PlatformInfo {
                    arrival_platform: "16".into(),
                    departure_platform: "16a".into(),
                    footnote: 1,
                }),
            ),
            (
                StationEvent {
                    stop_type: StationEventType::Passage,
                    station: "rtn".into(),
                    arrival_time: None,
                    departure_time: None,
                },
                None,
            ),
            (
                StationEvent {
                    stop_type: StationEventType::LongerStop,
                    station: "gd".into(),
                    arrival_time: Some(time(23, 48)),
                    departure_time: Some(time(23, 49)),
                },
                None,
            ),
            (
                StationEvent {
                    stop_type: StationEventType::Arrival,
                    station: "asd".into(),
                    arrival_time: Some(time(0, 42)),
                    departure_time: None,
                },
                Some(PlatformInfo {
                    arrival_platform: "7b".into(),
                    departure_platform: "7b".into(),
                    footnote: 1,
                }),
            ),
        ],
    }
}

fn plan(footnote: u32) -> LegPlan {
    plan_leg(ServiceIdentification(12), &leg(footnote), &delivery(), &footnotes(), &companies())
        .unwrap()
        .unwrap()
}

#[test]
fn the_train_number_is_the_service_number_or_the_variant() {
    let mut number = leg(1).service_number;
    assert_eq!(get_service_number(&number), Some("4084".to_string()));
    number.service_number = 0;
    assert_eq!(get_service_number(&number), None);
    number.variant = Some("A12".to_string());
    assert_eq!(get_service_number(&number), Some("A12".to_string()));
    number.service_number = 7;
    assert_eq!(get_service_number(&number), Some("7".to_string()));
    number.service_number = 4294967295;
    assert_eq!(get_service_number(&number), Some("4294967295".to_string()));
}

#[test]
fn a_plan_holds_the_days_and_the_station_events_of_a_leg() {
    let plan = plan(1);
    assert_eq!(plan.service_identification, 12);
    assert_eq!(plan.train_number, "4084");
    assert_eq!(plan.mode, "SPR");
    assert_eq!(plan.provider, "NS");
    assert_eq!(plan.dates, vec![day(2025, 1, 1), day(2025, 1, 4)]);
    assert_eq!(plan.journey_attributes, Some(vec!["FIET".to_string()]));
    assert_eq!(
        plan.events,
        vec![
            EventPlan {
                station: "rtd".into(),
                event_type: StationEventType::Departure,
                arrival_time: None,
                arrival_platform: Some("16".into()),
                departure_time: Some(time(23, 24)),
                departure_platform: Some("16a".into()),
                attributes: Some(vec!["ROL".to_string()]),
            },
            EventPlan {
                station: "rtn".into(),
                event_type: StationEventType::Passage,
                arrival_time: None,
                arrival_platform: None,
                departure_time: None,
                departure_platform: None,
                attributes: None,
            },
            EventPlan {
                station: "gd".into(),
                event_type: StationEventType::LongerStop,
                arrival_time: Some(time(23, 48)),
                arrival_platform: None,
                departure_time: Some(time(23, 49)),
                departure_platform: None,
                attributes: Some(vec!["STIL".to_string()]),
            },
            EventPlan {
                station: "asd".into(),
                event_type: StationEventType::Arrival,
                arrival_time: Some(time(0, 42)),
                arrival_platform: Some("7b".into()),
                departure_time: None,
                departure_platform: Some("7b".into()),
                attributes: Some(vec!["STIL".to_string(), "NIIN".to_string()]),
            },
        ]
    );
}

#[test]
fn an_attribute_of_the_whole_journey_is_of_no_stop() {
    let attributes = leg(1).attributes;
    assert_eq!(
        select_codes(&attributes, AttributeRule::JourneyLevel { stops: 3 }),
        Some(vec!["FIET".to_string()])
    );
    for number in 0..5 {
        let codes = select_codes(&attributes, AttributeRule::AtStop { stops: 3, number });
        assert!(!codes.unwrap_or_default().contains(&"FIET".to_string()));
    }
    assert_eq!(select_codes(&attributes, AttributeRule::AtStop { stops: 3, number: 4 }), None);
    assert_eq!(select_codes(&attributes, AttributeRule::JourneyLevel { stops: 9 }), None);
}

#[test]
fn footnote_zero_runs_every_day_whatever_the_file_holds() {
    let plan = plan(0);
    assert_eq!(
        plan.dates,
        vec![day(2025, 1, 1), day(2025, 1, 2), day(2025, 1, 3), day(2025, 1, 4), day(2025, 1, 5)]
    );
    let mut with_zero = footnotes();
    with_zero.data.push(Footnote { id: 0, vector: vec![false; 5] });
    let plan = plan_leg(ServiceIdentification(12), &leg(0), &delivery(), &with_zero, &companies())
        .unwrap()
        .unwrap();
    assert_eq!(plan.dates.len(), 5);
}

#[test]
fn a_leg_without_train_number_is_skipped() {
    let mut leg = leg(1);
    leg.service_number.service_number = 0;
    assert_eq!(
        plan_leg(ServiceIdentification(12), &leg, &delivery(), &footnotes(), &companies()),
        Ok(None)
    );
}

#[test]
fn lookups_that_fail_are_errors() {
    assert_eq!(
        plan_leg(ServiceIdentification(12), &leg(3), &delivery(), &footnotes(), &companies()),
        Err(LegError::FootnoteNotFound)
    );
    let mut stranger = leg(1);
    stranger.service_number.company_number = 5;
    assert_eq!(
        plan_leg(ServiceIdentification(12), &stranger, &delivery(), &footnotes(), &companies()),
        Err(LegError::CompanyNotFound)
    );
    let mut skipped = leg(3);
    skipped.service_number.service_number = 0;
    assert_eq!(
        plan_leg(ServiceIdentification(12), &skipped, &delivery(), &footnotes(), &companies()),
        Err(LegError::FootnoteNotFound)
    );
    let mut late = leg(1);
    late.station_events[2].0.arrival_time = Some(Time { hour: 24, minute: 0, second: 0 });
    assert_eq!(
        plan_leg(ServiceIdentification(12), &late, &delivery(), &footnotes(), &companies()),
        Err(LegError::InvalidTime)
    );
    let mut far = delivery();
    far.first_valid = day(262142, 12, 30);
    far.last_valid = day(262142, 12, 31);
    assert_eq!(
        plan_leg(ServiceIdentification(12), &leg(1), &far, &footnotes(), &companies()),
        Err(LegError::FootnoteOutOfRange)
    );
}

#[test]
fn a_leg_without_train_number_is_skipped_before_its_days_are_looked_at() {
    let mut far = delivery();
    far.first_valid = day(262142, 12, 30);
    far.last_valid = day(262142, 12, 31);
    let mut nameless = leg(1);
    nameless.service_number.service_number = 0;
    nameless.station_events[0].0.departure_time = Some(Time { hour: 30, minute: 0, second: 0 });
    assert_eq!(
        plan_leg(ServiceIdentification(12), &nameless, &far, &footnotes(), &companies()),
        Ok(None)
    );
    let mut stranger = leg(1);
    stranger.service_number.company_number = 5;
    assert_eq!(
        plan_leg(ServiceIdentification(12), &stranger, &far, &footnotes(), &companies()),
        Err(LegError::CompanyNotFound)
    );
    let mut late = leg(1);
    late.station_events[0].0.departure_time = Some(Time { hour: 30, minute: 0, second: 0 });
    assert_eq!(
        plan_leg(ServiceIdentification(12), &late, &far, &footnotes(), &companies()),
        Err(LegError::FootnoteOutOfRange)
    );
}

#[test]
fn the_service_statement_upserts_the_train_number() {
    assert_eq!(
        plan(1).service_statement().to_string(PostgresQueryBuilder),
        "INSERT INTO \"service\" (\"train_number\", \"type\", \"provider\") VALUES ('4084', 'SPR', 'NS') ON CONFLICT (\"train_number\", \"timetable_year\") DO UPDATE SET \"train_number\" = \"excluded\".\"train_number\" RETURNING \"id\""
    );
}

#[test]
fn the_journey_statement_merges_the_source_ids() {
    assert_eq!(
        plan(1).journey_statement(1, day(2025, 1, 4)).to_string(PostgresQueryBuilder),
        "INSERT INTO \"journey\" (\"service_id\", \"running_on\", \"attributes\", \"source_ids\") VALUES ('00000000-0000-0000-0000-000000000001', '2025-01-04', ARRAY ['FIET'], ARRAY ['12']) ON CONFLICT (\"service_id\", \"running_on\") DO UPDATE SET \"attributes\" = \"excluded\".\"attributes\", \"source_ids\" = ARRAY(SELECT DISTINCT unnest(array_cat(\"journey\".\"source_ids\", \"excluded\".\"source_ids\"))) RETURNING \"id\""
    );
}

#[test]
fn the_events_statement_holds_each_event_of_each_journey() {
    let sql = plan(1).events_statement(&vec![10, 11]).to_string(PostgresQueryBuilder);
    let rows = |id: &str| {
        format!(
            "('{id}', 'rtd', 'DEPARTURE', 0, NULL, '16', '23:24:00.000000', '16a', ARRAY ['ROL']), \
             ('{id}', 'rtn', 'PASSAGE', 1, NULL, NULL, NULL, NULL, NULL), \
             ('{id}', 'gd', 'LONGER_STOP', 2, '23:48:00.000000', NULL, '23:49:00.000000', NULL, ARRAY ['STIL']), \
             ('{id}', 'asd', 'ARRIVAL', 3, '00:42:00.000000', '7b', NULL, '7b', ARRAY ['STIL','NIIN'])"
        )
    };
    let expected = format!(
        "INSERT INTO \"journey_event\" (\"journey_id\", \"station\", \"event_type_planned\", \
         \"stop_order\", \"arrival_time_planned\", \"arrival_platform_planned\", \
         \"departure_time_planned\", \"departure_platform_planned\", \"attributes\") VALUES {}, {} \
         ON CONFLICT (\"journey_id\", \"stop_order\") DO UPDATE SET \
         \"station\" = \"excluded\".\"station\", \
         \"event_type_planned\" = \"excluded\".\"event_type_planned\", \
         \"arrival_time_planned\" = \"excluded\".\"arrival_time_planned\", \
         \"arrival_platform_planned\" = \"excluded\".\"arrival_platform_planned\", \
         \"departure_time_planned\" = \"excluded\".\"departure_time_planned\", \
         \"departure_platform_planned\" = \"excluded\".\"departure_platform_planned\", \
         \"attributes\" = \"excluded\".\"attributes\"",
        rows("00000000-0000-0000-0000-00000000000a"),
        rows("00000000-0000-0000-0000-00000000000b"),
    );
    assert_eq!(sql, expected);
}

#[test]
fn a_journey_without_attributes_stores_none() {
    let mut leg = leg(1);
    leg.attributes.clear();
    let plan = plan_leg(ServiceIdentification(4), &leg, &delivery(), &footnotes(), &companies())
        .unwrap()
        .unwrap();
    assert_eq!(plan.journey_attributes, None);
    let sql = plan.journey_statement(2, day(2025, 1, 1)).to_string(PostgresQueryBuilder);
    assert!(sql.contains(
        "VALUES ('00000000-0000-0000-0000-000000000002', '2025-01-01', NULL, ARRAY ['4'])"
    ));
}

#[test]
fn a_leg_is_stored_service_first_and_committed_last() {
    let mut m = Materializer::new(plan(1));
    let mut log: Vec<String> = Vec::new();
    let mut next_id = 100u128;
    loop {
        match m.next_action() {
            Action::Query(statement) => {
                log.push(format!("query {}", table_of(&statement.to_string(PostgresQueryBuilder))));
                assert!(!m.advance(Reply::Done));
                assert!(m.advance(Reply::RowId(next_id)));
                next_id += 1;
            }
            Action::Execute(statement) => {
                log.push(format!(
                    "execute {}",
                    table_of(&statement.to_string(PostgresQueryBuilder))
                ));
                assert!(!m.advance(Reply::RowId(1)));
                assert!(m.advance(Reply::Done));
            }
            Action::Commit => {
                log.push("commit".to_string());
                assert!(!m.is_done());
                assert!(m.advance(Reply::Done));
            }
            Action::Done => break,
        }
    }
    assert_eq!(
        log,
        vec!["query service", "query journey", "query journey", "execute journey_event", "commit"]
    );
    assert!(m.is_done());
    assert_eq!(m.service_id, Some(100));
    assert_eq!(m.journey_ids, vec![101, 102]);
    assert!(!m.advance(Reply::Done));
    assert!(!m.advance(Reply::RowId(5)));
}

fn table_of(sql: &str) -> String {
    sql.split('"').nth(1).unwrap().to_string()
}

#[test]
fn a_leg_that_runs_on_no_day_stores_its_service_only() {
    let mut m = Materializer::new(plan(2));
    assert!(matches!(m.next_action(), Action::Query(_)));
    assert!(m.advance(Reply::RowId(1)));
    assert!(matches!(m.next_action(), Action::Commit));
    assert!(m.advance(Reply::Done));
    assert!(matches!(m.next_action(), Action::Done));
}

#[test]
fn storing_a_leg_twice_builds_the_same_statements() {
    let first = plan(1);
    let second = plan(1);
    assert_eq!(first, second);
    assert_eq!(
        first.service_statement().to_string(PostgresQueryBuilder),
        second.service_statement().to_string(PostgresQueryBuilder)
    );
    for date in &first.dates {
        let sql = first.journey_statement(3, *date).to_string(PostgresQueryBuilder);
        assert_eq!(sql, second.journey_statement(3, *date).to_string(PostgresQueryBuilder));
        assert!(sql.contains("ON CONFLICT (\"service_id\", \"running_on\") DO UPDATE SET"));
        assert!(sql.contains(
            "\"source_ids\" = ARRAY(SELECT DISTINCT unnest(array_cat(\"journey\".\"source_ids\", \"excluded\".\"source_ids\")))"
        ));
    }
    assert_eq!(
        first.events_statement(&vec![8, 9]).to_string(PostgresQueryBuilder),
        second.events_statement(&vec![8, 9]).to_string(PostgresQueryBuilder)
    );
    assert!(first.is_valid());
}

#[test]
fn no_journeys_give_no_rows_of_station_events() {
    let sql = plan(1).events_statement(&vec![]).to_string(PostgresQueryBuilder);
    assert!(!sql.contains("VALUES"));
}
