use refraction::date::{Date, FeedTime};
use refraction::query::{email_query, email_query_unquoted, email_since_query, sequence_set, FETCH_ITEMS};
use refraction::text::decimal_string;

#[test]
fn decimal_renders_without_leading_zeros() {
    assert_eq!(decimal_string(0), "0");
    assert_eq!(decimal_string(7), "7");
    assert_eq!(decimal_string(42), "42");
    assert_eq!(decimal_string(1000), "1000");
    assert_eq!(decimal_string(u64::MAX), "18446744073709551615");
}

#[test]
fn dates_exist_as_chrono_decides() {
    assert!(Date::new(2023, 3, 7).is_some());
    assert!(Date::new(2024, 2, 29).is_some());
    assert!(Date::new(2023, 2, 29).is_none());
    assert!(Date::new(1900, 2, 29).is_none());
    assert!(Date::new(2000, 2, 29).is_some());
    assert!(Date::new(-4, 2, 29).is_some());
    assert!(Date::new(2023, 4, 31).is_none());
    assert!(Date::new(2023, 0, 1).is_none());
    assert!(Date::new(2023, 13, 1).is_none());
    assert!(Date::new(2023, 1, 0).is_none());
    assert!(Date::new(262142, 12, 31).is_some());
    assert!(Date::new(262143, 1, 1).is_none());
    assert!(Date::new(-262143, 1, 1).is_some());
    assert!(Date::new(-262144, 12, 31).is_none());
}

#[test]
fn date_accessors_give_back_the_fields() {
    let d = Date::new(2023, 3, 7).unwrap();
    assert_eq!((d.year(), d.month(), d.day()), (2023, 3, 7));
}

#[test]
fn imap_dates_are_day_month_year() {
    assert_eq!(Date::new(2023, 3, 7).unwrap().imap_text(), "07-Mar-2023");
    assert_eq!(Date::new(1999, 12, 31).unwrap().imap_text(), "31-Dec-1999");
    assert_eq!(Date::new(5, 1, 1).unwrap().imap_text(), "01-Jan-0005");
    assert_eq!(Date::new(12345, 6, 15).unwrap().imap_text(), "15-Jun-+12345");
    assert_eq!(Date::new(-1, 9, 2).unwrap().imap_text(), "02-Sep--0001");
}

#[test]
fn iso_dates_are_year_month_day() {
    assert_eq!(Date::new(2023, 3, 7).unwrap().iso_text(), "2023-03-07");
    assert_eq!(Date::new(2024, 11, 30).unwrap().iso_text(), "2024-11-30");
    assert_eq!(Date::new(999, 10, 5).unwrap().iso_text(), "0999-10-05");
}

#[test]
fn every_month_has_its_abbreviation() {
    let names = ["Jan", "Feb", "Mar", "Apr", "May", "Jun", "Jul", "Aug", "Sep", "Oct", "Nov", "Dec"];
    for (i, name) in names.iter().enumerate() {
        let d = Date::new(2020, (i + 1) as u32, 1).unwrap();
        assert_eq!(d.imap_text(), format!("01-{}-2020", name));
    }
}

#[test]
fn instants_are_ordered_by_the_moment() {
    let day = Date::new(2023, 3, 7).unwrap();
    let a = FeedTime { timestamp: 100, nanos: 5, offset_seconds: 3600, local_date: day };
    let b = FeedTime { timestamp: 100, nanos: 6, offset_seconds: -7200, local_date: day };
    let c = FeedTime { timestamp: 99, nanos: 999, offset_seconds: 0, local_date: day };
    assert!(a.is_earlier_than(&b));
    assert!(!b.is_earlier_than(&a));
    assert!(c.is_earlier_than(&a));
    assert!(!a.is_earlier_than(&a));
}

#[test]
fn epoch_is_1970() {
    let t = FeedTime::epoch();
    assert_eq!((t.timestamp, t.nanos, t.offset_seconds), (0, 0, 0));
    assert_eq!(t.local_date.iso_text(), "1970-01-01");
}

#[test]
fn email_query_quotes_the_address() {
    let q = email_query("pragmaticengineer@substack.com");
    assert_eq!(q.to_imap_query(), "FROM \"pragmaticengineer@substack.com\"");
    assert_eq!(email_query("").to_imap_query(), "FROM \"\"");
}

#[test]
fn email_query_unquoted_leaves_the_address_bare() {
    assert_eq!(email_query_unquoted("a@b.org").to_imap_query(), "FROM a@b.org");
}

#[test]
fn email_since_query_adds_the_day() {
    let d = Date::new(2023, 3, 7).unwrap();
    let q = email_since_query("news@example.com", &d);
    assert_eq!(q.to_imap_query(), "FROM \"news@example.com\" SINCE 07-Mar-2023");
    assert!(q.to_imap_query().starts_with(&email_query("news@example.com").to_imap_query()));
}

#[test]
fn sequence_sets_join_numbers_with_commas() {
    assert_eq!(sequence_set(&vec![]), "");
    assert_eq!(sequence_set(&vec![7]), "7");
    assert_eq!(sequence_set(&vec![3, 17, 42]), "3,17,42");
    assert_eq!(sequence_set(&vec![0, u32::MAX]), "0,4294967295");
}

#[test]
fn fetch_items_name_the_envelope_and_text() {
    assert_eq!(FETCH_ITEMS, "(FLAGS INTERNALDATE RFC822.SIZE ENVELOPE BODYSTRUCTURE BODY.PEEK[TEXT])");
}
