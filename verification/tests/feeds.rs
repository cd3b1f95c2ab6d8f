use refraction::date::{Date, FeedTime};
use refraction::entry::{readable_version, Content, Entry};
use refraction::feed::{dedupe_entries_by_id, latest_updated, plan_feed_update, FeedUpdate};

fn at(timestamp: i64, nanos: u32) -> FeedTime {
    FeedTime { timestamp, nanos, offset_seconds: 0, local_date: Date::new(2023, 3, 7).unwrap() }
}

fn entry(id: &str, title: &str, timestamp: i64) -> Entry {
    Entry { id: id.to_string(), title: title.to_string(), updated: at(timestamp, 0), content: None, source: None }
}

fn ids(entries: &[Entry]) -> Vec<String> {
    entries.iter().map(|e| e.id.clone()).collect()
}

fn titles(entries: &[Entry]) -> Vec<String> {
    entries.iter().map(|e| e.title.clone()).collect()
}

#[test]
fn dedupe_keeps_the_first_entry_of_each_id() {
    let entries = vec![
        entry("a", "first a", 1),
        entry("b", "first b", 2),
        entry("a", "second a", 3),
        entry("c", "only c", 4),
        entry("b", "second b", 5),
    ];
    let deduped = dedupe_entries_by_id(&entries);
    assert_eq!(ids(&deduped), vec!["a", "b", "c"]);
    assert_eq!(titles(&deduped), vec!["first a", "first b", "only c"]);
}

#[test]
fn dedupe_of_nothing_is_nothing() {
    assert!(dedupe_entries_by_id(&vec![]).is_empty());
}

#[test]
fn dedupe_twice_is_dedupe_once() {
    let entries = vec![entry("x", "1", 1), entry("y", "2", 2), entry("x", "3", 3)];
    let once = dedupe_entries_by_id(&entries);
    let twice = dedupe_entries_by_id(&once);
    assert_eq!(ids(&once), ids(&twice));
    assert_eq!(titles(&once), titles(&twice));
}

#[test]
fn dedupe_leaves_distinct_ids_alone() {
    let entries = vec![entry("x", "1", 1), entry("y", "2", 2), entry("z", "3", 3)];
    assert_eq!(titles(&dedupe_entries_by_id(&entries)), vec!["1", "2", "3"]);
}

#[test]
fn latest_update_is_the_last_of_the_latest() {
    assert!(latest_updated(&vec![]).is_none());
    let mut entries = vec![entry("a", "", 5), entry("b", "", 9), entry("c", "", 9), entry("d", "", 2)];
    entries[1].updated.offset_seconds = 3600;
    entries[2].updated.offset_seconds = -3600;
    let latest = latest_updated(&entries).unwrap();
    assert_eq!(latest.timestamp, 9);
    assert_eq!(latest.offset_seconds, -3600);
}

#[test]
fn latest_update_compares_nanoseconds() {
    let mut entries = vec![entry("a", "", 5), entry("b", "", 5)];
    entries[0].updated = at(5, 10);
    entries[1].updated = at(5, 3);
    assert_eq!(latest_updated(&entries).unwrap().nanos, 10);
}

#[test]
fn new_entries_are_appended_after_the_stored_ones() {
    let existing = vec![entry("a", "stored a", 1), entry("b", "stored b", 2)];
    let fetched = vec![entry("b", "fetched b", 8), entry("c", "fetched c", 7), entry("c", "again c", 9)];
    match plan_feed_update(&existing, &fetched) {
        FeedUpdate::Changed { entries, updated, changed_count } => {
            assert_eq!(ids(&entries), vec!["a", "b", "c"]);
            assert_eq!(titles(&entries), vec!["stored a", "stored b", "fetched c"]);
            assert_eq!(changed_count, 1);
            assert_eq!(updated.timestamp, 7);
        }
        FeedUpdate::Unchanged => panic!("a new entry was fetched"),
    }
}

#[test]
fn refetched_entries_change_nothing() {
    let existing = vec![entry("a", "stored a", 1), entry("b", "stored b", 2)];
    let fetched = vec![entry("b", "fetched b", 8), entry("a", "fetched a", 9)];
    assert!(matches!(plan_feed_update(&existing, &fetched), FeedUpdate::Unchanged));
    assert!(matches!(plan_feed_update(&existing, &vec![]), FeedUpdate::Unchanged));
}

#[test]
fn merging_the_same_fetch_twice_changes_nothing_the_second_time() {
    let existing = vec![entry("a", "stored a", 1)];
    let fetched = vec![entry("b", "b", 3), entry("c", "c", 2)];
    let merged = match plan_feed_update(&existing, &fetched) {
        FeedUpdate::Changed { entries, changed_count, .. } => {
            assert_eq!(changed_count, 2);
            entries
        }
        FeedUpdate::Unchanged => panic!("two entries are new"),
    };
    assert!(matches!(plan_feed_update(&merged, &fetched), FeedUpdate::Unchanged));
}

#[test]
fn an_empty_feed_takes_every_fetched_id_once() {
    let fetched = vec![entry("x", "1", 4), entry("x", "2", 6)];
    match plan_feed_update(&vec![], &fetched) {
        FeedUpdate::Changed { entries, updated, changed_count } => {
            assert_eq!(titles(&entries), vec!["1"]);
            assert_eq!(changed_count, 1);
            assert_eq!(updated.timestamp, 4);
        }
        FeedUpdate::Unchanged => panic!("the feed was empty"),
    }
}

#[test]
fn readable_version_marks_id_and_title_and_extracts_the_text() {
    let html = "<html><head><title>T</title></head><body><div><p>Hello readers, this is the main text of the letter, long enough to count as content for the extraction.</p></div></body></html>";
    let mut e = entry("tag:me,2023-03-07:00", "Weekly", 3);
    e.content = Some(Content { value: Some(html.to_string()), content_type: Some("text/html".to_string()) });
    let r = readable_version(&e);
    assert_eq!(r.id, "tag:me,2023-03-07:00-readable");
    assert_eq!(r.title, "Weekly [Readable]");
    assert_eq!(r.updated, e.updated);
    let c = r.content.unwrap();
    assert_eq!(c.content_type.as_deref(), Some("text/html"));
    let v = c.value.unwrap();
    assert!(v.contains("Hello readers"));
    assert_ne!(v, html);
}
