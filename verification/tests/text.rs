use chrono::{Datelike, NaiveDate};
use data_importer::calendar::{date_string, time_string, Date, Time, FIRST_DAY, LAST_DAY};
use data_importer::company::{company, company_file, Company};
use data_importer::db;
use data_importer::identification::identification;
use data_importer::service::number::service_number;
use data_importer::service::platform_info::platform_info;
use data_importer::service::station_event::station_event;
use data_importer::service::validity::validity;
use data_importer::station::{station, station_file, Station};
use data_importer::text::{
    char_is_space, decimal_string, is_eol, parse_number, to_chars, trimmed_string, CharClass,
    Optional, ParseError,
};

#[test]
fn it_parses_station() {
    const INPUT: &str = "1,ac     ,02,02,NL  ,0000,  ,012701,047683,Abcoude\r\n";
    let (rest_input, station) = station(INPUT).expect("failed to parse");

    assert!(rest_input.is_empty());
    assert_eq!(
        station,
        Station {
            code: "ac".to_string(),
            name: "Abcoude".to_string(),
            country: "NL".to_string(),
            is_interchange: true,
            layover_minimum_minutes: 2,
        }
    )
}

#[test]
fn a_station_file_holds_its_stations() {
    let input = "@100,01012025,05012025,0001,Stations\r\n1,ac     ,02,02,NL  ,0000,  ,012701,047683,Abcoude\r\n0,asd    ,05,05,NL  ,0000,  ,012189,048788,Amsterdam Centraal\r\n00,x,256,0,NL,0,0,0,0,X\r\n";
    let (rest, stations) = station_file(input).unwrap();
    assert_eq!(stations.data.len(), 2);
    assert!(!stations.data[1].is_interchange);
    assert_eq!(stations.data[1].layover_minimum_minutes, 5);
    assert_eq!(stations.data[1].name, "Amsterdam Centraal");
    assert_eq!(rest, "00,x,256,0,NL,0,0,0,0,X\r\n");
    let (_, several) = station("11,x,255,0,NL,0,0,0,0,X\n").unwrap();
    assert!(!several.is_interchange);
    assert_eq!(several.layover_minimum_minutes, 255);
    assert!(station(",x,1,0,NL,0,0,0,0,X\n").is_err());
}

#[test]
fn ends_of_lines_and_white_space_are_told_apart() {
    assert!(is_eol('\n'));
    assert!(is_eol('\r'));
    assert!(!is_eol(' '));
    assert!(!is_eol(','));
    for c in ['\t', '\n', '\u{b}', '\u{c}', '\r', ' ', '\u{85}', '\u{a0}', '\u{1680}', '\u{2000}',
        '\u{200a}', '\u{2028}', '\u{2029}', '\u{202f}', '\u{205f}', '\u{3000}']
    {
        assert!(char_is_space(c));
        assert!(c.is_whitespace());
    }
    for c in ['a', '0', ',', '\u{8}', '\u{e}', '\u{200b}', '\u{feff}', '\u{1f}'] {
        assert!(!char_is_space(c));
        assert!(!c.is_whitespace());
    }
    for n in 0..0x3100u32 {
        if let Some(c) = char::from_u32(n) {
            assert_eq!(char_is_space(c), c.is_whitespace());
        }
    }
}

#[test]
fn classes_of_characters() {
    assert!(CharClass::Digit.test('0') && CharClass::Digit.test('9'));
    assert!(!CharClass::Digit.test('a') && !CharClass::Digit.test('٣'));
    assert!(CharClass::BinDigit.test('0') && CharClass::BinDigit.test('1'));
    assert!(!CharClass::BinDigit.test('2'));
    assert!(CharClass::NotEol.test(',') && !CharClass::NotEol.test('\r'));
    assert!(CharClass::NotComma.test('\n') && !CharClass::NotComma.test(','));
    assert!(CharClass::AsciiNotComma.test('~') && !CharClass::AsciiNotComma.test('é'));
    assert!(!CharClass::AsciiNotComma.test(','));
}

#[test]
fn numbers_are_read_as_the_standard_library_reads_them() {
    for text in ["0", "7", "007", "+12", "4294967295", "4294967296", "", "+", "-1", "1 ", " 1",
        "12a", "00000000000000000001", "99999999999", "++1", "1+"]
    {
        let chars = to_chars(text);
        assert_eq!(parse_number(&chars, 0, chars.len()), text.parse::<u32>().ok(), "{text:?}");
    }
    let chars = to_chars("ab123cd");
    assert_eq!(parse_number(&chars, 2, 5), Some(123));
    assert_eq!(parse_number(&chars, 2, 6), None);
    assert_eq!(parse_number(&chars, 3, 3), None);
}

#[test]
fn numbers_are_written_without_leading_zeros() {
    for n in [0u32, 1, 9, 10, 99, 100, 4084, 1000000, 4294967295] {
        assert_eq!(decimal_string(n), n.to_string());
    }
}

#[test]
fn trimming_takes_the_white_space_at_both_ends() {
    for text in ["", " ", "   ", "a", " a", "a ", "  a b  ", "\t x\u{a0}", "\r\n"] {
        let chars = to_chars(text);
        assert_eq!(trimmed_string(&chars, 0, chars.len()), text.trim(), "{text:?}");
    }
    let chars = to_chars("ab  cd  ef");
    assert_eq!(trimmed_string(&chars, 2, 8), "cd");
    assert_eq!(trimmed_string(&chars, 2, 4), "");
}

#[test]
fn an_empty_field_is_absent() {
    assert_eq!("".to_string().as_option(), None);
    assert_eq!("   ".to_string().as_option(), None);
    assert_eq!("\t".to_string().as_option(), None);
    assert_eq!("a".to_string().as_option(), Some("a".to_string()));
    assert_eq!(" a ".to_string().as_option(), Some(" a ".to_string()));
    let (_, number) = service_number("%100,00000,A 12  ,001,016,Thalys                        \r\n")
        .unwrap();
    assert_eq!(number.service_number, 0);
    assert_eq!(number.variant, Some("A 12".to_string()));
    assert_eq!(number.name, Some("Thalys".to_string()));
}

#[test]
fn dates_are_days_of_the_calendar() {
    assert_eq!(date_string("07042025,"), Ok((",", Date::from_ymd_opt(2025, 4, 7).unwrap())));
    assert_eq!(date_string("29022024"), Ok(("", Date::from_ymd_opt(2024, 2, 29).unwrap())));
    assert_eq!(date_string("29022025"), Err(ParseError));
    assert_eq!(date_string("31042025"), Err(ParseError));
    assert_eq!(date_string("00012025"), Err(ParseError));
    assert_eq!(date_string("01132025"), Err(ParseError));
    assert_eq!(date_string("0101202"), Err(ParseError));
    assert_eq!(date_string("01-12025"), Err(ParseError));
    assert_eq!(date_string("29021900"), Err(ParseError));
    assert_eq!(date_string("29022000").unwrap().1.days, 730179);
    assert_eq!(date_string("01010000").unwrap().1.days, -365);
}

#[test]
fn day_numbers_are_those_of_chrono() {
    assert_eq!(Date::from_ymd_opt(1, 1, 1).unwrap().days, 1);
    assert_eq!(Date::from_ymd_opt(1970, 1, 1).unwrap().days, 719163);
    assert_eq!(Date::from_ymd_opt(-262143, 1, 1).unwrap().days, FIRST_DAY);
    assert_eq!(Date::from_ymd_opt(262142, 12, 31).unwrap().days, LAST_DAY);
    assert_eq!(NaiveDate::MIN.num_days_from_ce(), FIRST_DAY);
    assert_eq!(NaiveDate::MAX.num_days_from_ce(), LAST_DAY);
    assert_eq!(Date::from_ymd_opt(-262144, 12, 31), None);
    assert_eq!(Date::from_ymd_opt(262143, 1, 1), None);
    assert_eq!(Date::from_ymd_opt(2025, 2, 29), None);
    assert_eq!(Date::from_ymd_opt(2025, 0, 1), None);
    assert_eq!(Date::from_ymd_opt(2025, 13, 1), None);
    assert_eq!(Date::from_ymd_opt(2025, 1, 0), None);
    assert_eq!(Date::from_ymd_opt(2025, 1, 32), None);
    assert_eq!(Date::from_ymd_opt(-4, 2, 29).map(|d| d.days), Some(-1767));
    for (y, m, d) in [(2025, 4, 7), (1999, 9, 3), (0, 12, 31), (2024, 2, 29), (-400, 3, 1)] {
        assert_eq!(
            Date::from_ymd_opt(y, m, d).unwrap().days,
            NaiveDate::from_ymd_opt(y, m, d).unwrap().num_days_from_ce()
        );
    }
    let last = Date::from_ymd_opt(262142, 12, 30).unwrap();
    assert_eq!(last.checked_add_days(1).map(|d| d.days), Some(LAST_DAY));
    assert_eq!(last.checked_add_days(2), None);
    assert_eq!(last.checked_add_days(u64::MAX), None);
    let day = Date::from_ymd_opt(2025, 2, 27).unwrap();
    assert_eq!(day.checked_add_days(2), Date::from_ymd_opt(2025, 3, 1));
    assert_eq!(Date::from_ymd_opt(2025, 3, 1).unwrap().days_since(&day), 2);
    assert_eq!(day.days_since(&Date::from_ymd_opt(2025, 3, 1).unwrap()), -2);
    assert!(day.is_before(&Date::from_ymd_opt(2025, 2, 28).unwrap()));
    assert!(!day.is_before(&day));
    assert_eq!(day.num_days_from_ce(), day.days);
}

#[test]
fn hours_wrap_at_twenty_four_and_the_day_stays() {
    assert_eq!(time_string("2442\r\n"), Ok(("\r\n", Time::from_hms_opt(0, 42, 0).unwrap())));
    assert_eq!(time_string("2359"), Ok(("", Time::from_hms_opt(23, 59, 0).unwrap())));
    assert_eq!(time_string("4805"), Ok(("", Time::from_hms_opt(0, 5, 0).unwrap())));
    assert_eq!(time_string("9959"), Ok(("", Time::from_hms_opt(3, 59, 0).unwrap())));
    assert_eq!(time_string("1260"), Err(ParseError));
    assert_eq!(time_string("123"), Err(ParseError));
    assert_eq!(time_string("12:3"), Err(ParseError));
    assert_eq!(Time::from_hms_opt(24, 0, 0), None);
    assert_eq!(Time::from_hms_opt(23, 60, 0), None);
    assert_eq!(Time::from_hms_opt(23, 59, 60), None);
    assert!(Time::from_hms_opt(23, 59, 59).unwrap().is_valid());
    assert!(!Time { hour: 24, minute: 0, second: 0 }.is_valid());
    let (_, late) = station_event("<asd    ,2442\r\n").unwrap();
    assert_eq!(late.arrival_time, Time::from_hms_opt(0, 42, 0));
}

#[test]
fn a_record_that_fails_takes_nothing() {
    assert_eq!(validity("-00001,000,999"), Err(ParseError));
    assert_eq!(validity("-00001,000\r\n"), Err(ParseError));
    assert_eq!(validity("-,000,999\r\n"), Err(ParseError));
    assert_eq!(validity("00001,000,999\r\n"), Err(ParseError));
    assert_eq!(validity("-00001,000,999\r"), Err(ParseError));
    assert_eq!(validity("-00001,000,4294967296\r\n"), Err(ParseError));
    assert_eq!(validity("-00001,000,999\nrest").unwrap().0, "rest");
    assert!(platform_info("?1a   ,1a   ,x\r\n").is_err());
    assert!(platform_info("?1a   ,1a   ,+82\r\n").is_ok());
    assert!(station_event("=asd    ,2442\r\n").is_err());
    assert!(station_event("+asd    ,2442\r\n").is_err());
    assert!(station_event("").is_err());
    assert!(identification("@100,07042025,13122025,0070\r\n").is_err());
    assert!(identification("@100,07042025,06042025,0070,x\r\n").is_err());
    assert!(identification("@,07042025,07042025,,\n").is_ok());
    assert!(company("970,CFL,Chemins de Fer Luxembourg\r\n").is_err());
}

#[test]
fn a_company_line_written_from_its_fields_reads_the_same() {
    let (_, first) =
        company("970,CFL       ,Chemins de Fer Luxembourg     ,0000\r\n").expect("failed to parse");
    let line = format!("{},{},{},0000\r\n", first.id, first.code, first.name);
    let (rest, second) = company(&line).expect("failed to parse");
    assert_eq!(rest, "");
    assert_eq!(second, first);
    assert_eq!(
        second,
        Company { id: 970, code: "CFL".into(), name: "Chemins de Fer Luxembourg".into() }
    );
}

#[test]
fn a_company_file_holds_its_companies() {
    let input = "@100,07042025,13122025,0070,Companies\r\n100,NS        ,Nederlandse Spoorwegen        ,0000\r\n+970, CFL ,Chemins de Fer\rLuxembourg,0000\n";
    let (rest, companies) = company_file(input).unwrap();
    assert_eq!(rest, "");
    assert_eq!(companies.data.len(), 2);
    assert_eq!(companies.data[1].id, 970);
    assert_eq!(companies.data[1].name, "Chemins de Fer\rLuxembourg");
    assert_eq!(companies.identification.days_valid(), 251);
}

#[test]
fn tables_and_columns_have_their_names() {
    assert_eq!(db::Service::Table.to_string(), "service");
    assert_eq!(db::Service::TimetableYear.to_string(), "timetable_year");
    assert_eq!(db::Journey::Table.to_string(), "journey");
    assert_eq!(db::Journey::SourceIds.to_string(), "source_ids");
    assert_eq!(db::JourneyEvent::Table.to_string(), "journey_event");
    assert_eq!(db::JourneyEvent::DeparturePlatformPlanned.to_string(), "departure_platform_planned");
    assert_eq!(db::Station::Table.to_string(), "station");
    assert_eq!(db::Station::UicCdCode.to_string(), "uic_cd_code");
    assert_eq!(
        db::Station::AreTracksIndependentlyAccessible.to_string(),
        "are_tracks_independently_accessible"
    );
    assert_eq!(db::StationGeometry::Table.to_string(), "station_geometry");
    assert_eq!(db::StationGeometry::LineString.to_string(), "line_string");
}

fn counted(year: i64, month: i64, day: i64) -> i64 {
    let leap = year.rem_euclid(4) == 0 && (year.rem_euclid(100) != 0 || year.rem_euclid(400) == 0);
    let before = [0, 31, 59, 90, 120, 151, 181, 212, 243, 273, 304, 334][(month - 1) as usize];
    let leap_day = if leap && month > 2 { 1 } else { 0 };
    let y = year - 1;
    365 * y + y.div_euclid(4) - y.div_euclid(100) + y.div_euclid(400) + before + leap_day + day
}

#[test]
fn day_numbers_count_the_days_of_the_calendar_through() {
    let years = (-402..=402).chain(1580..=1605).chain(1895..=2105).chain(9990..=9999);
    let mut checked = 0u32;
    for year in years.chain([-262143, -262142, -100000, 100000, 262141, 262142]) {
        for month in 1..=12u32 {
            for day in 1..=31u32 {
                let date = Date::from_ymd_opt(year, month, day);
                assert_eq!(date.is_some(), NaiveDate::from_ymd_opt(year, month, day).is_some());
                if let Some(date) = date {
                    assert_eq!(date.days as i64, counted(year as i64, month as i64, day as i64));
                    checked += 1;
                }
            }
        }
    }
    assert!(checked > 300000);
    assert!(Date::from_ymd_opt(2025, 4, 7).unwrap().is_before(&Date::from_ymd_opt(2025, 12, 13).unwrap()));
    let eve = Date::from_ymd_opt(2024, 12, 31).unwrap();
    assert_eq!(eve.checked_add_days(1), Date::from_ymd_opt(2025, 1, 1));
    let leap = Date::from_ymd_opt(2024, 2, 28).unwrap();
    assert_eq!(leap.checked_add_days(1), Date::from_ymd_opt(2024, 2, 29));
    assert_eq!(leap.checked_add_days(2), Date::from_ymd_opt(2024, 3, 1));
}
