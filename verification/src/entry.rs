//! Feed entries: their readable variant, de-duplication by id, and the
//! update of a stored feed with newly fetched entries.
use vstd::prelude::*;
use crate::date::FeedTime;
use atom_syndication::Entry as AtomEntry;

verus! {

/// The content of an entry: its text and its media type.
#[derive(Debug)]
pub struct Content {
    pub value: Option<String>,
    pub content_type: Option<String>,
}

/// What a `Content` holds.
pub struct ContentView {
    pub value: Option<Seq<char>>,
    pub content_type: Option<Seq<char>>,
}

impl View for Content {
    type V = ContentView;

    open spec fn view(&self) -> ContentView {
        ContentView { value: self.value.deep_view(), content_type: self.content_type.deep_view() }
    }
}

#[verifier::external_type_specification]
#[verifier::external_body]
pub struct ExAtomEntry(AtomEntry);

/// `Clone::clone` of an atom_syndication entry. The crate derives `Clone`
/// for it, which copies every field, so the copy is the same value.
#[verifier::external_body]
fn clone_atom_entry(e: &AtomEntry) -> (r: AtomEntry)
    ensures
        r == *e,
{
    e.clone()
}

/// A feed entry: its id, title, time of last update and content, and, for
/// an entry read from a stored feed, that feed's entry as it was read, whose
/// other parts (authors, links, summary, the title's and content's other
/// attributes...) are written back with it.
#[derive(Debug)]
pub struct Entry {
    pub id: String,
    pub title: String,
    pub updated: FeedTime,
    pub content: Option<Content>,
    pub source: Option<AtomEntry>,
}

/// What an `Entry` holds.
pub struct EntryView {
    pub id: Seq<char>,
    pub title: Seq<char>,
    pub updated: FeedTime,
    pub content: Option<ContentView>,
    pub source: Option<AtomEntry>,
}

impl View for Entry {
    type V = EntryView;

    open spec fn view(&self) -> EntryView {
        EntryView {
            id: self.id@,
            title: self.title@,
            updated: self.updated,
            content: match self.content {
                Some(c) => Some(c@),
                None => None,
            },
            source: self.source,
        }
    }
}

fn copy_text(t: &Option<String>) -> (r: Option<String>)
    ensures
        r.deep_view() == t.deep_view(),
{
    match t {
        Some(s) => Some(s.clone()),
        None => None,
    }
}

impl Clone for Content {
    fn clone(&self) -> (r: Self)
        ensures
            r@ == self@,
    {
        Content { value: copy_text(&self.value), content_type: copy_text(&self.content_type) }
    }
}

impl Clone for Entry {
    fn clone(&self) -> (r: Self)
        ensures
            r@ == self@,
    {
        let content = match &self.content {
            Some(c) => Some(c.clone()),
            None => None,
        };
        let source = match &self.source {
            Some(a) => Some(clone_atom_entry(a)),
            None => None,
        };
        Entry { id: self.id.clone(), title: self.title.clone(), updated: self.updated, content, source }
    }
}

/// The views of a sequence of entries.
pub open spec fn views(entries: Seq<Entry>) -> Seq<EntryView> {
    entries.map_values(|e: Entry| e@)
}

/// Copies every entry, in order.
pub fn clone_entries(entries: &Vec<Entry>) -> (r: Vec<Entry>)
    ensures
        views(r@) == views(entries@),
{
    let mut r: Vec<Entry> = Vec::new();
    let mut i: usize = 0;
    while i < entries.len()
        invariant
            0 <= i <= entries@.len(),
            views(r@) == views(entries@.take(i as int)),
        decreases entries@.len() - i,
    {
        let ghost before = r@;
        let e = entries[i].clone();
        r.push(e);
        assert(views(r@) =~= views(before).push(entries@[i as int]@));
        assert(views(entries@.take(i + 1)) =~= views(entries@.take(i as int)).push(
            entries@[i as int]@,
        ));
        i = i + 1;
    }
    assert(entries@.take(entries@.len() as int) == entries@);
    r
}

// ---------------------------------------------------------------------------
// The readable variant of an entry

/// The HTML that `readable-readability` extracts from `html` (the main
/// content, serialized again).
pub uninterp spec fn readable_html(html: Seq<char>) -> Seq<char>;

/// Runs `readable_readability::Readability::parse` on `html` and serializes
/// the tree it returns (`NodeRef::serialize`). The result is named
/// `readable_html(html)`: the extraction is a deterministic function of the
/// HTML text. The serializer writes UTF-8 into a `Vec`, which cannot fail.
#[verifier::external_body]
fn readability_extract(html: &str) -> (r: String)
    ensures
        r@ == readable_html(html@),
{
    let (root, _) = readable_readability::Readability::new().parse(html);
    let mut bytes: Vec<u8> = Vec::new();
    match root.serialize(&mut bytes) {
        Ok(()) => String::from_utf8_lossy(&bytes).into_owned(),
        Err(_) => String::new(),
    }
}

/// An entry whose content holds a text.
pub open spec fn has_content_value(e: EntryView) -> bool {
    e.content matches Some(c) && c.value is Some
}

/// `-readable`
pub open spec fn readable_id_suffix() -> Seq<char> {
    seq!['-', 'r', 'e', 'a', 'd', 'a', 'b', 'l', 'e']
}

/// ` [Readable]`
pub open spec fn readable_title_suffix() -> Seq<char> {
    seq![' ', '[', 'R', 'e', 'a', 'd', 'a', 'b', 'l', 'e', ']']
}

/// The readable variant of an entry: its id and title marked, its content's
/// text replaced by what readability extracts from it.
pub open spec fn readable_entry(e: EntryView) -> EntryView
    recommends
        has_content_value(e),
{
    let c = e.content->Some_0;
    EntryView {
        id: e.id + readable_id_suffix(),
        title: e.title + readable_title_suffix(),
        updated: e.updated,
        content: Some(
            ContentView {
                value: Some(readable_html(c.value->Some_0)),
                content_type: c.content_type,
            },
        ),
        source: e.source,
    }
}

/// The readable variant of an entry whose content holds a text.
pub fn readable_version(entry: &Entry) -> (r: Entry)
    requires
        has_content_value(entry@),
    ensures
        r@ == readable_entry(entry@),
{
    let mut id = entry.id.clone();
    id.append("-readable");
    let mut title = entry.title.clone();
    title.append(" [Readable]");
    proof {
        reveal_strlit("-readable");
        reveal_strlit(" [Readable]");
        assert(id@ =~= entry.id@ + readable_id_suffix());
        assert(title@ =~= entry.title@ + readable_title_suffix());
    }
    let content = match &entry.content {
        Some(c) => c,
        None => {
            proof {
                assert(false);
            }
            return entry.clone();
        },
    };
    let html = match &content.value {
        Some(v) => v,
        None => {
            proof {
                assert(false);
            }
            return entry.clone();
        },
    };
    let readable = readability_extract(html.as_str());
    let readable_content = Content { value: Some(readable), content_type: copy_text(&content.content_type) };
    let source = match &entry.source {
        Some(a) => Some(clone_atom_entry(a)),
        None => None,
    };
    Entry { id, title, updated: entry.updated, content: Some(readable_content), source }
}

} // verus!
