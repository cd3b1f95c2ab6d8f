use refraction::atom::{feed_document, feed_times_valid, stored_feed_query};
use refraction::date::{date_exists, Date, FeedTime};
use refraction::entry::{Content, Entry};

fn time(timestamp: i64, offset_seconds: i32, y: i32, m: u32, d: u32) -> FeedTime {
    FeedTime { timestamp, nanos: 0, offset_seconds, local_date: Date::new(y, m, d).unwrap() }
}

fn entries() -> Vec<Entry> {
    vec![
        Entry {
            id: "tag:a,2023-03-07:01".to_string(),
            title: "Caf\u{e9} & <news>".to_string(),
            updated: time(1678190400, 3600, 2023, 3, 7),
            content: Some(Content {
                value: Some("<p>Hello</p>".to_string()),
                content_type: Some("text/html".to_string()),
            }),
            source: None,
        },
        Entry {
            id: "tag:a,2023-03-08:02".to_string(),
            title: "Second".to_string(),
            updated: time(1678276800, 0, 2023, 3, 8),
            content: None,
            source: None,
        },
    ]
}

#[test]
fn dates_exist_in_the_calendar_only() {
    assert!(date_exists(2024, 2, 29));
    assert!(!date_exists(2100, 2, 29));
    assert!(date_exists(-400, 2, 29));
    assert!(!date_exists(-100, 2, 29));
    assert!(!date_exists(262143, 1, 1));
    assert!(!date_exists(2023, 9, 31));
}

#[test]
fn instants_are_valid_when_their_day_matches() {
    // 2023-03-07T12:00:00Z
    assert!(time(1678190400, 0, 2023, 3, 7).is_valid());
    // 23:30 UTC on the 7th is already the 8th at +01:00.
    assert!(time(1678231800, 3600, 2023, 3, 8).is_valid());
    assert!(!time(1678231800, 3600, 2023, 3, 7).is_valid());
    // 00:30 UTC on the 7th is still the 6th at -01:00.
    assert!(time(1678149000, -3600, 2023, 3, 6).is_valid());
    assert!(time(-1, 0, 1969, 12, 31).is_valid());
    assert!(!time(0, 86400, 1970, 1, 2).is_valid());
    assert!(!time(i64::MAX, 0, 1970, 1, 1).is_valid());
    assert!(FeedTime::epoch().is_valid());
    let mut leap = time(1678190459, 0, 2023, 3, 7);
    leap.nanos = 1_500_000_000;
    assert!(leap.is_valid());
    leap.timestamp = 1678190458;
    assert!(!leap.is_valid());
}

#[test]
fn feed_times_are_checked_entry_by_entry() {
    assert!(feed_times_valid(&entries(), &FeedTime::epoch()));
    let mut es = entries();
    es[1].updated.offset_seconds = 90000;
    assert!(!feed_times_valid(&es, &FeedTime::epoch()));
}

#[test]
fn feed_documents_hold_title_entries_and_update() {
    let doc = feed_document("Weekly", &entries(), &time(1678276800, 0, 2023, 3, 8));
    assert!(doc.starts_with("<?xml"));
    assert!(doc.contains("<title>Weekly</title>"));
    assert!(doc.contains("<id>tag:a,2023-03-07:01</id>"));
    assert!(doc.contains("Caf\u{e9} &amp; &lt;news&gt;"));
    assert!(doc.contains("2023-03-07T13:00:00+01:00"));
    assert!(doc.contains("2023-03-08T12:00:00+00:00"));
}

#[test]
fn an_empty_feed_is_a_document_too() {
    let doc = feed_document("Feed for 'a@b.c'", &vec![], &FeedTime::epoch());
    assert!(doc.contains("<title>Feed for &apos;a@b.c&apos;</title>") || doc.contains("<title>Feed for 'a@b.c'</title>"));
    assert!(doc.contains("1970-01-01T00:00:00+00:00"));
    assert!(!doc.contains("<entry>"));
}

#[test]
fn nothing_stored_means_all_mail_and_no_entries() {
    let (es, q) = stored_feed_query("news@example.com", None).unwrap();
    assert!(es.is_empty());
    assert_eq!(q.to_imap_query(), "FROM \"news@example.com\"");
}

#[test]
fn a_stored_feed_gives_its_entries_and_the_mail_since_its_update() {
    let doc = feed_document("Weekly", &entries(), &time(1678231800, 3600, 2023, 3, 8));
    let (es, q) = stored_feed_query("news@example.com", Some(doc.as_bytes())).unwrap();
    assert_eq!(q.to_imap_query(), "FROM \"news@example.com\" SINCE 08-Mar-2023");
    let original = entries();
    assert_eq!(es.len(), 2);
    for (read, written) in es.iter().zip(original.iter()) {
        assert_eq!(read.id, written.id);
        assert_eq!(read.title, written.title);
        assert_eq!(read.updated, written.updated);
    }
    let c = es[0].content.as_ref().unwrap();
    assert_eq!(c.value.as_deref(), Some("<p>Hello</p>"));
    assert_eq!(c.content_type.as_deref(), Some("text/html"));
    assert!(es[1].content.is_none());
    assert!(es.iter().all(|e| e.updated.is_valid()));
}

#[test]
fn bytes_that_hold_no_feed_are_refused() {
    assert!(stored_feed_query("a", Some(b"not xml at all")).is_none());
    assert!(stored_feed_query("a", Some(b"<rss></rss>")).is_none());
}

#[test]
fn stored_entries_keep_what_the_library_does_not_model() {
    let stored = r#"<?xml version="1.0"?>
<feed xmlns="http://www.w3.org/2005/Atom">
  <title>Weekly</title>
  <id></id>
  <updated>2023-03-08T12:00:00+00:00</updated>
  <entry>
    <title type="html">Old &amp;amp; kept</title>
    <id>tag:a,2023-03-07:01</id>
    <updated>2023-03-07T13:00:00+01:00</updated>
    <author><name>Someone</name></author>
    <link href="https://example.com/letter"/>
    <summary>A summary</summary>
    <content type="text/html" xml:lang="en">&lt;p&gt;Hi&lt;/p&gt;</content>
  </entry>
</feed>"#;
    let (es, _) = stored_feed_query("a@b.c", Some(stored.as_bytes())).unwrap();
    assert_eq!(es.len(), 1);
    assert_eq!(es[0].id, "tag:a,2023-03-07:01");
    assert_eq!(es[0].title, "Old &amp; kept");
    assert_eq!(es[0].content.as_ref().unwrap().value.as_deref(), Some("<p>Hi</p>"));
    assert!(es[0].source.is_some());
    let doc = feed_document("Weekly", &es, &time(1678276800, 0, 2023, 3, 8));
    assert!(doc.contains("Someone"));
    assert!(doc.contains("https://example.com/letter"));
    assert!(doc.contains("A summary"));
    assert!(doc.contains("type=\"html\""));
    assert!(doc.contains("xml:lang=\"en\""));
    let (again, _) = stored_feed_query("a@b.c", Some(doc.as_bytes())).unwrap();
    assert_eq!(again[0].source, es[0].source);
}

#[test]
fn a_fetched_entry_renders_with_defaults_only() {
    let doc = feed_document("W", &entries(), &FeedTime::epoch());
    assert!(!doc.contains("<summary"));
    assert!(!doc.contains("<author"));
}
