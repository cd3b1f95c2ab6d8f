//! Fetched mail turned into feed entries: the entry's id, title, update time
//! and HTML content, and its readable variant.
use vstd::prelude::*;
use vstd::utf8::{decode_utf8, valid_utf8};
use vstd::string::StrSliceExecFns;
use crate::date::{iso_date, unix_epoch, FeedTime};
use crate::feed::distinct_ids;
use crate::entry::{readable_entry, readable_version, views, Content, ContentView, Entry, EntryView};
use crate::text::{lower_hex, push_char, push_lower_hex, utf8_text};

verus! {

broadcast use vstd::seq_lib::group_seq_properties;

/// The body of a fetched message as far as entries are concerned: a single
/// text part with the text that was fetched, if any, or any other structure.
#[derive(Debug)]
pub enum MessageBody {
    Text(Option<Vec<u8>>),
    Other,
}

/// A message as fetched: when it arrived, its envelope's Message-ID and
/// Subject, and its body.
#[derive(Debug)]
pub struct FetchedMessage {
    pub internal_date: FeedTime,
    pub message_id: Vec<u8>,
    pub subject: Vec<u8>,
    pub body: MessageBody,
}

// ---------------------------------------------------------------------------
// Decoders of outside crates

/// What `quoted_printable::decode` returns in robust mode.
pub uninterp spec fn quoted_printable_robust(input: Seq<u8>) -> Seq<u8>;

/// `quoted_printable::decode(input, ParseMode::Robust)`. In robust mode the
/// crate's source returns `Ok` on every input; the decoded bytes are named
/// `quoted_printable_robust(input)`.
#[verifier::external_body]
fn decode_quoted_printable(input: &[u8]) -> (r: Vec<u8>)
    ensures
        r@ == quoted_printable_robust(input@),
{
    match quoted_printable::decode(input, quoted_printable::ParseMode::Robust) {
        Ok(bytes) => bytes,
        Err(_) => Vec::new(),
    }
}

/// The MD5 digest of some bytes.
pub uninterp spec fn md5_digest(data: Seq<u8>) -> Seq<u8>;

/// `md5::compute(data)`: the digest is named `md5_digest(data)`; it is
/// sixteen bytes long (`md5::Digest` wraps a `[u8; 16]`).
#[verifier::external_body]
fn md5_compute(data: &[u8]) -> (r: Vec<u8>)
    ensures
        r@ == md5_digest(data@),
        r@.len() == 16,
{
    md5::compute(data).0.to_vec()
}

/// What mail-parser's `MessageStream::decode_rfc2047` gives for an encoded
/// word whose leading `=` was taken off.
pub uninterp spec fn rfc2047_word(data: Seq<u8>) -> Option<Seq<char>>;

/// `mail_parser::parsers::MessageStream::new(data).decode_rfc2047()`: the
/// result, a function of `data`, is named `rfc2047_word(data)`.
#[verifier::external_body]
fn decode_rfc2047(data: &[u8]) -> (r: Option<String>)
    ensures
        r.deep_view() == rfc2047_word(data@),
{
    mail_parser::parsers::MessageStream::new(data).decode_rfc2047()
}

// ---------------------------------------------------------------------------
// Content

/// `text/html`
pub open spec fn text_html() -> Seq<char> {
    seq!['t', 'e', 'x', 't', '/', 'h', 't', 'm', 'l']
}

/// A fetched body text decodes when, once quoted-printable is undone, it is
/// valid UTF-8.
pub open spec fn text_decodable(text: Seq<u8>) -> bool {
    valid_utf8(quoted_printable_robust(text))
}

/// The HTML that a fetched body text carries.
pub open spec fn body_html(text: Seq<u8>) -> Seq<char> {
    decode_utf8(quoted_printable_robust(text))
}

/// The body decodes (only a fetched text part is decoded).
pub open spec fn body_decodable(body: MessageBody) -> bool {
    body matches MessageBody::Text(Some(text)) ==> text_decodable(text@)
}

/// The content of an entry for a message body: the HTML of a text part with
/// text, nothing otherwise.
pub open spec fn body_content(body: MessageBody) -> Option<ContentView> {
    match body {
        MessageBody::Text(Some(text)) => Some(
            ContentView { value: Some(body_html(text@)), content_type: Some(text_html()) },
        ),
        _ => None,
    }
}

/// The views of an optional content.
pub open spec fn content_view(c: Option<Content>) -> Option<ContentView> {
    match c {
        Some(c) => Some(c@),
        None => None,
    }
}

/// Undoes quoted-printable, then decodes UTF-8: `None` exactly when the
/// result is not valid UTF-8.
pub fn decode_body_text(text: &[u8]) -> (r: Option<String>)
    ensures
        r is Some <==> text_decodable(text@),
        r matches Some(s) ==> s@ == body_html(text@),
{
    let bytes = decode_quoted_printable(text);
    utf8_text(bytes.as_slice())
}

/// The HTML of a message body: that of a text part with text, `None` for a
/// text part without text or any other body.
pub open spec fn body_html_of(body: MessageBody) -> Option<Seq<char>> {
    match body {
        MessageBody::Text(Some(text)) => Some(body_html(text@)),
        _ => None,
    }
}

/// The HTML of a message body: that of a text part with text, `None` for a
/// text part without text or any other body.
pub fn message_html(body: &MessageBody) -> (r: Option<String>)
    requires
        body_decodable(*body),
    ensures
        r.deep_view() == body_html_of(*body),
{
    match body {
        MessageBody::Text(Some(text)) => decode_body_text(text.as_slice()),
        _ => None,
    }
}

/// A `text/html` content holding `html`.
pub fn html_content(html: String) -> (c: Content)
    ensures
        c@ == (ContentView { value: Some(html@), content_type: Some(text_html()) }),
{
    let mut content_type = String::new();
    content_type.append("text/html");
    proof {
        reveal_strlit("text/html");
        assert(content_type@ =~= text_html());
    }
    Content { value: Some(html), content_type: Some(content_type) }
}

/// The content of an entry for a message body: the HTML of a text part
/// with text, typed `text/html`; `None` for a text part without text or
/// any other body.
pub fn message_content(body: &MessageBody) -> (r: Option<Content>)
    requires
        body_decodable(*body),
    ensures
        content_view(r) == body_content(*body),
{
    match message_html(body) {
        Some(html) => Some(html_content(html)),
        None => None,
    }
}

/// Decodes bytes that are UTF-8.
pub fn decode_utf8_text(bytes: &[u8]) -> (r: String)
    requires
        valid_utf8(bytes@),
    ensures
        r@ == decode_utf8(bytes@),
{
    match utf8_text(bytes) {
        Some(t) => t,
        None => {
            proof {
                assert(false);
            }
            String::new()
        },
    }
}

// ---------------------------------------------------------------------------
// Id and title

/// The title that a Subject gives: the Subject itself, or, where it begins
/// with `=`, the encoded word that follows the `=`, decoded.
pub open spec fn subject_title(subject: Seq<u8>) -> Seq<char> {
    let text = decode_utf8(subject);
    if text.len() > 0 && text[0] == '=' {
        rfc2047_word(subject.skip(1))->Some_0
    } else {
        text
    }
}

/// A Subject gives a title: it is UTF-8 and, where it begins with `=`, the
/// rest decodes as an encoded word.
pub open spec fn subject_decodable(subject: Seq<u8>) -> bool {
    let text = decode_utf8(subject);
    &&& valid_utf8(subject)
    &&& (text.len() > 0 && text[0] == '=') ==> rfc2047_word(subject.skip(1)) is Some
}

/// The entry's id: `tag:<author>,<YYYY-MM-DD>:<md5 of Message-ID, hex>`,
/// with the day the message arrived on.
pub open spec fn entry_tag(author: Seq<char>, message: FetchedMessage) -> Seq<char> {
    seq!['t', 'a', 'g', ':'] + author + seq![','] + iso_date(message.internal_date.local_date)
        + seq![':'] + lower_hex(md5_digest(message.message_id@))
}

/// The metadata of a message decodes: its Message-ID is UTF-8 and its
/// Subject gives a title.
pub open spec fn metadata_decodable(message: FetchedMessage) -> bool {
    valid_utf8(message.message_id@) && subject_decodable(message.subject@)
}

/// The entry that a message's metadata gives, before any content.
pub open spec fn metadata_entry(author: Seq<char>, message: FetchedMessage) -> EntryView {
    EntryView {
        id: entry_tag(author, message),
        title: subject_title(message.subject@),
        updated: message.internal_date,
        content: None,
        source: None,
    }
}

/// The title for a Subject.
pub fn message_title(subject: &[u8]) -> (r: String)
    requires
        subject_decodable(subject@),
    ensures
        r@ == subject_title(subject@),
{
    let text = match utf8_text(subject) {
        Some(t) => t,
        None => {
            proof {
                assert(false);
            }
            return String::new();
        },
    };
    if text.as_str().unicode_len() > 0 && text.as_str().get_char(0) == '=' {
        let rest = vstd::slice::slice_subrange(subject, 1, subject.len());
        assert(rest@ =~= subject@.skip(1));
        match decode_rfc2047(rest) {
            Some(decoded) => decoded,
            None => {
                proof {
                    assert(false);
                }
                String::new()
            },
        }
    } else {
        text
    }
}

/// Whether the Subject gives a title.
pub fn subject_is_decodable(subject: &[u8]) -> (b: bool)
    ensures
        b == subject_decodable(subject@),
{
    match utf8_text(subject) {
        Some(text) => {
            if text.as_str().unicode_len() > 0 && text.as_str().get_char(0) == '=' {
                let rest = vstd::slice::slice_subrange(subject, 1, subject.len());
                assert(rest@ =~= subject@.skip(1));
                match decode_rfc2047(rest) {
                    Some(_) => true,
                    None => false,
                }
            } else {
                true
            }
        },
        None => false,
    }
}

/// The entry for a message's arrival time, Message-ID, author and Subject,
/// without content.
pub fn message_metadata(author: &str, message: &FetchedMessage) -> (r: Entry)
    requires
        metadata_decodable(*message),
    ensures
        r@ == metadata_entry(author@, *message),
        md5_digest(message.message_id@).len() == 16,
{
    let mut id = String::new();
    push_char(&mut id, 't');
    push_char(&mut id, 'a');
    push_char(&mut id, 'g');
    push_char(&mut id, ':');
    id.append(author);
    push_char(&mut id, ',');
    let day = message.internal_date.local_date.iso_text();
    id.append(day.as_str());
    push_char(&mut id, ':');
    let digest = md5_compute(message.message_id.as_slice());
    push_lower_hex(&mut id, digest.as_slice());
    let title = message_title(message.subject.as_slice());
    let r = Entry { id, title, updated: message.internal_date, content: None, source: None };
    assert(r@.id =~= entry_tag(author@, *message));
    r
}

// ---------------------------------------------------------------------------
// Entries of messages

/// The message decodes: its metadata does, and so does its body.
pub open spec fn message_decodable(message: FetchedMessage) -> bool {
    metadata_decodable(message) && body_decodable(message.body)
}

/// Which messages convert: exactly those whose Message-ID is UTF-8, whose
/// Subject is UTF-8 and, where it begins with `=`, whose rest decodes as an
/// encoded word, and whose body, where it is a text part with text, is
/// UTF-8 once quoted-printable is undone. An encoded-word Subject that
/// decodes is no obstacle.
pub proof fn lemma_decodable_messages(m: FetchedMessage)
    ensures
        message_decodable(m) <==> {
            &&& valid_utf8(m.message_id@)
            &&& valid_utf8(m.subject@)
            &&& (decode_utf8(m.subject@).len() > 0 && decode_utf8(m.subject@)[0] == '=')
                ==> rfc2047_word(m.subject@.skip(1)) is Some
            &&& m.body matches MessageBody::Text(Some(t)) ==> valid_utf8(
                quoted_printable_robust(t@),
            )
        },
{
}

/// The entries for one message: none when it has no HTML content,
/// otherwise the entry with its content followed by its readable variant.
pub open spec fn message_entries_view(author: Seq<char>, message: FetchedMessage) -> Seq<
    EntryView,
> {
    match body_content(message.body) {
        Some(c) => {
            let m = metadata_entry(author, message);
            let e = EntryView { content: Some(c), ..m };
            seq![e, readable_entry(e)]
        },
        None => seq![],
    }
}

/// The two entries that a message with content gives have different ids, so
/// that de-duplication keeps both.
pub proof fn lemma_message_entries_distinct(author: Seq<char>, message: FetchedMessage)
    ensures
        distinct_ids(message_entries_view(author, message)),
{
    let s = message_entries_view(author, message);
    if s.len() == 2 {
        assert(s[1].id.len() == s[0].id.len() + 9);
    }
}

/// The entries for a sequence of messages, message by message.
pub open spec fn messages_entries_view(author: Seq<char>, messages: Seq<FetchedMessage>) -> Seq<
    EntryView,
>
    decreases messages.len(),
{
    if messages.len() == 0 {
        seq![]
    } else {
        messages_entries_view(author, messages.drop_last()) + message_entries_view(
            author,
            messages.last(),
        )
    }
}

/// Converting two batches of messages one after the other gives the entries
/// that converting them as one batch gives.
pub proof fn lemma_entries_of_batches(
    author: Seq<char>,
    first: Seq<FetchedMessage>,
    second: Seq<FetchedMessage>,
)
    ensures
        messages_entries_view(author, first + second) == messages_entries_view(author, first)
            + messages_entries_view(author, second),
    decreases second.len(),
{
    if second.len() == 0 {
        assert(first + second =~= first);
        assert(messages_entries_view(author, first) + messages_entries_view(author, second)
            =~= messages_entries_view(author, first));
    } else {
        lemma_entries_of_batches(author, first, second.drop_last());
        assert((first + second).drop_last() =~= first + second.drop_last());
        assert((first + second).last() == second.last());
        assert(messages_entries_view(author, first) + messages_entries_view(author, second)
            =~= messages_entries_view(author, first) + messages_entries_view(
            author,
            second.drop_last(),
        ) + message_entries_view(author, second.last()));
    }
}

/// The entries for one message: the entry with the message's HTML content
/// and its readable variant, or none when the message has no HTML content.
pub fn message_entries(author: &str, message: &FetchedMessage) -> (r: Vec<Entry>)
    requires
        message_decodable(*message),
    ensures
        views(r@) == message_entries_view(author@, *message),
{
    let mut entry = message_metadata(author, message);
    let mut r: Vec<Entry> = Vec::new();
    match message_content(&message.body) {
        Some(content) => {
            entry.content = Some(content);
            let readable = readable_version(&entry);
            r.push(entry);
            r.push(readable);
            assert(views(r@) =~= message_entries_view(author@, *message));
        },
        None => {
            assert(views(r@) =~= message_entries_view(author@, *message));
        },
    }
    r
}

/// Whether the message decodes.
pub fn message_is_decodable(message: &FetchedMessage) -> (b: bool)
    ensures
        b == message_decodable(*message),
{
    let id_ok = match utf8_text(message.message_id.as_slice()) {
        Some(_) => true,
        None => false,
    };
    if !id_ok || !subject_is_decodable(message.subject.as_slice()) {
        return false;
    }
    match &message.body {
        MessageBody::Text(Some(text)) => match decode_body_text(text.as_slice()) {
            Some(_) => true,
            None => false,
        },
        _ => true,
    }
}

/// The entries for the fetched messages, in order: for each message with
/// HTML content, its entry and the entry's readable variant. `None` when
/// some message does not decode (a Message-ID or Subject that is not UTF-8,
/// an encoded-word Subject that does not decode, a body text that is not
/// UTF-8 once quoted-printable is undone): those are the messages on which
/// conversion stops with a panic, which a caller that meets `None` does
/// too.
pub fn entries_from_messages(author: &str, messages: &Vec<FetchedMessage>) -> (r: Option<
    Vec<Entry>,
>)
    ensures
        r is Some <==> forall|i: int|
            0 <= i < messages@.len() ==> message_decodable(#[trigger] messages@[i]),
        r matches Some(entries) ==> views(entries@) == messages_entries_view(author@, messages@),
{
    let mut entries: Vec<Entry> = Vec::new();
    let mut i: usize = 0;
    while i < messages.len()
        invariant
            0 <= i <= messages@.len(),
            forall|k: int| 0 <= k < i ==> message_decodable(#[trigger] messages@[k]),
            views(entries@) == messages_entries_view(author@, messages@.take(i as int)),
        decreases messages@.len() - i,
    {
        if !message_is_decodable(&messages[i]) {
            return None;
        }
        let mut more = message_entries(author, &messages[i]);
        let ghost before = entries@;
        let ghost added = more@;
        entries.append(&mut more);
        assert(messages@.take(i + 1).drop_last() =~= messages@.take(i as int));
        assert(views(entries@) =~= views(before) + views(added));
        i = i + 1;
    }
    assert(messages@.take(messages@.len() as int) == messages@);
    Some(entries)
}

// ---------------------------------------------------------------------------
// Entries titled by the bare Subject

/// A message that gives an entry titled by its bare Subject: the Subject is
/// UTF-8 and the body is a text part whose text decodes.
pub open spec fn subject_entry_decodable(message: FetchedMessage) -> bool {
    &&& valid_utf8(message.subject@)
    &&& message.body matches MessageBody::Text(Some(text))
    &&& text_decodable(text@)
}

/// The entry titled by the bare Subject, with the body's HTML as content and
/// the empty id and the Unix epoch as update time of a default entry.
pub open spec fn subject_entry_view(message: FetchedMessage) -> EntryView {
    EntryView {
        id: seq![],
        title: decode_utf8(message.subject@),
        updated: unix_epoch(),
        content: body_content(message.body),
        source: None,
    }
}

/// The entry for a message titled by its bare Subject, with the body's HTML
/// as content.
pub fn subject_entry(message: &FetchedMessage) -> (r: Entry)
    requires
        subject_entry_decodable(*message),
    ensures
        r@ == subject_entry_view(*message),
{
    let title = decode_utf8_text(message.subject.as_slice());
    let content = message_content(&message.body);
    Entry { id: String::new(), title, updated: FeedTime::epoch(), content, source: None }
}

/// The entries titled by the bare Subject, one per message, in order;
/// `None` when some message does not give one (a Subject that is not UTF-8,
/// a body that is not a text part with text, a text that is not UTF-8 once
/// quoted-printable is undone): those are the messages on which this
/// conversion stops with a panic, which a caller that meets `None` does
/// too.
pub fn subject_entries_from_messages(messages: &Vec<FetchedMessage>) -> (r: Option<Vec<Entry>>)
    ensures
        r is Some <==> forall|i: int|
            0 <= i < messages@.len() ==> subject_entry_decodable(#[trigger] messages@[i]),
        r matches Some(entries) ==> views(entries@) == messages@.map_values(
            |m: FetchedMessage| subject_entry_view(m),
        ),
{
    let mut entries: Vec<Entry> = Vec::new();
    let mut i: usize = 0;
    while i < messages.len()
        invariant
            0 <= i <= messages@.len(),
            forall|k: int| 0 <= k < i ==> subject_entry_decodable(#[trigger] messages@[k]),
            views(entries@) == messages@.take(i as int).map_values(
                |m: FetchedMessage| subject_entry_view(m),
            ),
        decreases messages@.len() - i,
    {
        let m = &messages[i];
        let subject_ok = match utf8_text(m.subject.as_slice()) {
            Some(_) => true,
            None => false,
        };
        let body_ok = match &m.body {
            MessageBody::Text(Some(text)) => match decode_body_text(text.as_slice()) {
                Some(_) => true,
                None => false,
            },
            _ => false,
        };
        if !subject_ok || !body_ok {
            return None;
        }
        let e = subject_entry(m);
        let ghost before = entries@;
        entries.push(e);
        assert(views(entries@) =~= views(before).push(subject_entry_view(messages@[i as int])));
        assert(messages@.take(i + 1).map_values(|m: FetchedMessage| subject_entry_view(m))
            =~= messages@.take(i as int).map_values(|m: FetchedMessage| subject_entry_view(m)).push(
            subject_entry_view(messages@[i as int]),
        ));
        i = i + 1;
    }
    assert(messages@.take(messages@.len() as int) == messages@);
    Some(entries)
}

} // verus!
