//! Atom feed documents: rendering a feed of entries, and reading back the
//! update time and entries of a stored feed.
use vstd::prelude::*;
use atom_syndication::{Content as AtomContent, Feed, FixedDateTime};
use chrono::{Datelike, FixedOffset, TimeZone};
use crate::date::{feed_time_valid, Date, FeedTime};
use crate::entry::{views, Content, Entry, EntryView};
use crate::query::{email_query, email_since_query, from_criterion, from_since_criterion, Query};

verus! {

/// Every entry was updated at an instant that chrono can hold.
pub open spec fn entry_times_valid(entries: Seq<EntryView>) -> bool {
    forall|i: int| 0 <= i < entries.len() ==> feed_time_valid(#[trigger] entries[i].updated)
}

/// The Atom document that atom_syndication writes for a feed with the given
/// title, entries and update time.
pub uninterp spec fn atom_document(title: Seq<char>, entries: Seq<EntryView>, updated: FeedTime) -> Seq<char>;

/// Builds an `atom_syndication::Feed` with the title, the entries (id,
/// title, update time and content) and the update time, every other field
/// left at its default, and writes it with `Feed::to_string`. The document
/// is named `atom_document(..)`: writing is a deterministic function of the
/// feed. The instants convert to chrono's `DateTime<FixedOffset>` because
/// they are valid.
#[verifier::external_body]
fn render_atom(title: &str, entries: &Vec<Entry>, updated: &FeedTime) -> (s: String)
    requires
        feed_time_valid(*updated),
        entry_times_valid(views(entries@)),
    ensures
        s@ == atom_document(title@, views(entries@), *updated),
{
    let at = |t: &FeedTime| FixedOffset::east_opt(t.offset_seconds).unwrap().timestamp_opt(t.timestamp, t.nanos).unwrap();
    Feed { title: title.into(), entries: entries.iter().map(|e| { let mut a = e.source.clone().unwrap_or_default(); a.id = e.id.clone(); a.title.value = e.title.clone(); a.updated = at(&e.updated); a.content = e.content.as_ref().map(|c| AtomContent { value: c.value.clone(), content_type: c.content_type.clone(), ..a.content.clone().unwrap_or_default() }); a }).collect(), updated: at(updated), ..Default::default() }.to_string()
}

/// The Atom document of a feed with the given title, entries and update
/// time.
pub fn feed_document(title: &str, entries: &Vec<Entry>, updated: &FeedTime) -> (s: String)
    requires
        feed_time_valid(*updated),
        entry_times_valid(views(entries@)),
    ensures
        s@ == atom_document(title@, views(entries@), *updated),
{
    render_atom(title, entries, updated)
}

/// Whether every entry's update time and the feed's update time are valid.
pub fn feed_times_valid(entries: &Vec<Entry>, updated: &FeedTime) -> (b: bool)
    ensures
        b == (feed_time_valid(*updated) && entry_times_valid(views(entries@))),
{
    if !updated.is_valid() {
        return false;
    }
    let mut i: usize = 0;
    while i < entries.len()
        invariant
            0 <= i <= entries@.len(),
            forall|k: int| 0 <= k < i ==> feed_time_valid(#[trigger] entries@[k].updated),
        decreases entries@.len() - i,
    {
        if !entries[i].updated.is_valid() {
            assert(views(entries@)[i as int].updated == entries@[i as int].updated);
            return false;
        }
        i = i + 1;
    }
    assert forall|k: int| 0 <= k < views(entries@).len() implies feed_time_valid(
        #[trigger] views(entries@)[k].updated,
    ) by {
        assert(views(entries@)[k].updated == entries@[k].updated);
    }
    true
}

/// The update time and the entries (id, title text, update time and
/// content) of the Atom feed in `xml`, `None` where atom_syndication cannot
/// read a feed from it.
pub uninterp spec fn atom_stored_feed(xml: Seq<u8>) -> Option<(FeedTime, Seq<EntryView>)>;

/// Reads a feed with `atom_syndication::Feed::read_from` and takes its
/// update time and, of each entry, the id, the title's text, the update time
/// and the content's text and type. The result is named
/// `atom_stored_feed(xml)`. The instants come from chrono's
/// `DateTime<FixedOffset>` values with their `date_naive` day, so they are
/// valid.
#[verifier::external_body]
fn read_atom(xml: &[u8]) -> (r: Option<(FeedTime, Vec<Entry>)>)
    ensures
        r is None <==> atom_stored_feed(xml@) is None,
        r matches Some((t, es)) ==> atom_stored_feed(xml@) == Some((t, views(es@))),
        r matches Some((t, es)) ==> feed_time_valid(t) && entry_times_valid(views(es@)),
{
    let feed = Feed::read_from(xml).ok()?;
    let at = |t: &FixedDateTime| FeedTime { timestamp: t.timestamp(), nanos: t.timestamp_subsec_nanos(), offset_seconds: t.offset().local_minus_utc(), local_date: Date { year: t.year(), month: t.month(), day: t.day() } };
    Some((at(&feed.updated), feed.entries.iter().map(|e| Entry { id: e.id.clone(), title: e.title.value.clone(), updated: at(&e.updated), content: e.content.clone().map(|c| Content { value: c.value, content_type: c.content_type }), source: Some(e.clone()) }).collect()))
}

/// The stored entries of a feed and the SEARCH query for its newer mail
/// from `email`: with nothing stored, no entries and all mail from `email`;
/// with a stored feed, its entries and the mail from `email` since the day
/// it was last updated (at its own offset); `None` where the stored bytes
/// hold no feed that atom_syndication reads.
pub fn stored_feed_query(email: &str, stored: Option<&[u8]>) -> (r: Option<(Vec<Entry>, Query)>)
    ensures
        stored is None ==> (r matches Some((es, q)) && es@.len() == 0 && q@ == from_criterion(
            email@,
        )),
        stored matches Some(xml) ==> (r is Some <==> atom_stored_feed(xml@) is Some),
        stored matches Some(xml) ==> (r matches Some((es, q)) ==> (atom_stored_feed(
            xml@,
        ) matches Some((t, vs)) && views(es@) == vs && q@ == from_since_criterion(
            email@,
            t.local_date,
        ))),
        r matches Some((es, q)) ==> entry_times_valid(views(es@)),
{
    match stored {
        None => {
            let es: Vec<Entry> = Vec::new();
            assert(views(es@) =~= Seq::<EntryView>::empty());
            Some((es, email_query(email)))
        },
        Some(xml) => match read_atom(xml) {
            Some((updated, entries)) => {
                let q = email_since_query(email, &updated.local_date);
                Some((entries, q))
            },
            None => None,
        },
    }
}

} // verus!
