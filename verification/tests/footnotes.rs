use data_importer::calendar::Date;
use data_importer::footnote::{footnote_file, Footnote, Footnotes};
use data_importer::identification::{DeliveryIdentified, Identification};

fn day(year: i32, month: u32, day: u32) -> Date {
    Date::from_ymd_opt(year, month, day).unwrap()
}

fn delivery(first: Date, last: Date) -> Identification {
    Identification {
        company_number: "100".into(),
        first_valid: first,
        last_valid: last,
        version_number: "1".into(),
        description: "".into(),
    }
}

#[test]
fn days_valid_counts_both_ends() {
    assert_eq!(delivery(day(2025, 4, 7), day(2025, 12, 13)).days_valid(), 251);
    assert_eq!(delivery(day(2025, 1, 1), day(2025, 1, 1)).days_valid(), 1);
    assert_eq!(delivery(day(2024, 2, 28), day(2024, 3, 1)).days_valid(), 3);
    assert_eq!(delivery(day(2025, 2, 28), day(2025, 3, 1)).days_valid(), 2);
}

#[test]
fn validity_on_a_date_follows_the_flags() {
    let delivery = delivery(day(2025, 1, 1), day(2025, 1, 5));
    let footnote = Footnote { id: 1, vector: vec![true, true, false, false, true] };

    assert!(footnote.is_valid_on_date(&day(2025, 1, 1), &delivery));
    assert!(footnote.is_valid_on_date(&day(2025, 1, 2), &delivery));
    assert!(!footnote.is_valid_on_date(&day(2025, 1, 3), &delivery));
    assert!(!footnote.is_valid_on_date(&day(2025, 1, 4), &delivery));
    assert!(footnote.is_valid_on_date(&day(2025, 1, 5), &delivery));
    assert!(!footnote.is_valid_on_date(&day(2024, 12, 31), &delivery));
    assert!(!footnote.is_valid_on_date(&day(2025, 1, 6), &delivery));
}

#[test]
fn a_day_without_a_flag_is_no_day_of_the_service() {
    let delivery = delivery(day(2025, 1, 1), day(2025, 1, 5));
    let footnote = Footnote { id: 1, vector: vec![true, true] };
    assert!(footnote.is_valid_on_date(&day(2025, 1, 2), &delivery));
    assert!(!footnote.is_valid_on_date(&day(2025, 1, 3), &delivery));
}

#[test]
fn validity_on_a_date_agrees_with_the_walk() {
    let delivery = delivery(day(2025, 2, 26), day(2025, 3, 3));
    let footnote = Footnote { id: 9, vector: vec![false, true, true, false, true, true] };
    let walk = footnote.iterate_valid_dates(&delivery).collect();
    assert_eq!(walk.len(), footnote.vector.len());
    for offset in 0..6u64 {
        let date = delivery.first_valid.checked_add_days(offset).unwrap();
        assert_eq!(
            footnote.is_valid_on_date(&date, &delivery),
            walk[offset as usize] == Some(date)
        );
    }
    assert_eq!(walk[1], Some(day(2025, 2, 27)));
    assert_eq!(walk[2], Some(day(2025, 2, 28)));
    assert_eq!(walk[4], Some(day(2025, 3, 2)));
    assert_eq!(walk[5], Some(day(2025, 3, 3)));
}

#[test]
fn the_walk_steps_by_one_and_can_be_started_again() {
    let delivery = delivery(day(2025, 1, 1), day(2025, 1, 3));
    let footnote = Footnote { id: 2, vector: vec![true, false, true] };
    let mut walk = footnote.iterate_valid_dates(&delivery);
    assert_eq!(walk.next(), Some(Some(day(2025, 1, 1))));
    assert_eq!(walk.next(), Some(None));
    assert_eq!(walk.next(), Some(Some(day(2025, 1, 3))));
    assert_eq!(walk.next(), None);
    assert_eq!(walk.next(), None);
    let again = footnote.iterate_valid_dates(&delivery).collect();
    assert_eq!(again, vec![Some(day(2025, 1, 1)), None, Some(day(2025, 1, 3))]);
}

#[test]
fn footnote_zero_is_every_day_of_the_validity() {
    let delivery = delivery(day(2025, 4, 7), day(2025, 12, 13));
    let always = Footnote::always_valid(&delivery);
    assert_eq!(always.id, 0);
    assert_eq!(always.vector.len() as u64, delivery.days_valid());
    let walk = always.iterate_valid_dates(&delivery).collect();
    assert_eq!(walk.len(), 251);
    assert!(walk.iter().all(|d| d.is_some()));
    assert_eq!(walk[0], Some(day(2025, 4, 7)));
    assert_eq!(walk[250], Some(day(2025, 12, 13)));
    assert!(always.is_valid_on_date(&day(2025, 8, 1), &delivery));
}

#[test]
fn a_footnote_file_holds_footnotes_of_the_length_of_its_validity() {
    let input = "@100,01012025,05012025,0001,Footnotes\r\n#00001\r\n11000\r\n#00002\r\n00111\r\n";
    let (rest, footnotes) = footnote_file(input).unwrap();
    assert_eq!(rest, "");
    assert_eq!(footnotes.data.len(), 2);
    for f in &footnotes.data {
        assert_eq!(f.vector.len() as u64, footnotes.identification.days_valid());
    }
    assert_eq!(footnotes.data[1].vector, vec![false, false, true, true, true]);
    assert_eq!(footnotes.get_by_id(2), Some(&footnotes.data[1]));
    assert_eq!(footnotes.get_by_id(3), None);
}

#[test]
fn a_footnote_of_another_length_ends_the_file() {
    let input = "@100,01012025,05012025,0001,Footnotes\r\n#00001\r\n11000\r\n#00002\r\n001\r\n";
    let (rest, footnotes) = footnote_file(input).unwrap();
    assert_eq!(rest, "#00002\r\n001\r\n");
    assert_eq!(footnotes.data.len(), 1);
}

#[test]
fn the_first_footnote_of_a_number_is_found() {
    let footnotes: Footnotes = DeliveryIdentified {
        identification: delivery(day(2025, 1, 1), day(2025, 1, 2)),
        data: vec![
            Footnote { id: 4, vector: vec![true, false] },
            Footnote { id: 5, vector: vec![false, false] },
            Footnote { id: 4, vector: vec![false, true] },
        ],
    };
    assert_eq!(footnotes.get_by_id(4).unwrap().vector, vec![true, false]);
    assert_eq!(footnotes.get_by_id(5).unwrap().vector, vec![false, false]);
    assert!(footnotes.get_by_id(0).is_none());
}
