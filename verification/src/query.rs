//! IMAP SEARCH queries and the FETCH request that gathers the matching mail.
use vstd::prelude::*;
use crate::date::{imap_date, Date};
use crate::text::{decimal, digit_char, push_char, push_decimal};

verus! {

/// An IMAP SEARCH criterion.
#[derive(Debug)]
pub struct Query(String);

impl View for Query {
    type V = Seq<char>;

    closed spec fn view(&self) -> Seq<char> {
        self.0@
    }
}

impl Query {
    /// The criterion as the text handed to IMAP's SEARCH.
    pub fn to_imap_query(&self) -> (s: String)
        ensures
            s@ == self@,
    {
        self.0.clone()
    }
}

/// `FROM "<email>"`.
pub open spec fn from_criterion(email: Seq<char>) -> Seq<char> {
    seq!['F', 'R', 'O', 'M', ' ', '"'] + email + seq!['"']
}

/// `FROM "<email>" SINCE <DD-Mon-YYYY>`.
pub open spec fn from_since_criterion(email: Seq<char>, date: Date) -> Seq<char> {
    from_criterion(email) + seq![' ', 'S', 'I', 'N', 'C', 'E', ' '] + imap_date(date)
}

/// Mail sent from `email`.
pub fn email_query(email: &str) -> (q: Query)
    ensures
        q@ == from_criterion(email@),
{
    let mut s = String::new();
    push_char(&mut s, 'F');
    push_char(&mut s, 'R');
    push_char(&mut s, 'O');
    push_char(&mut s, 'M');
    push_char(&mut s, ' ');
    push_char(&mut s, '"');
    s.append(email);
    push_char(&mut s, '"');
    Query(s)
}

/// `FROM <email>`, the address left unquoted.
pub open spec fn unquoted_from_criterion(email: Seq<char>) -> Seq<char> {
    seq!['F', 'R', 'O', 'M', ' '] + email
}

/// Mail sent from `email`, the address written without quotes.
pub fn email_query_unquoted(email: &str) -> (q: Query)
    ensures
        q@ == unquoted_from_criterion(email@),
{
    let mut s = String::new();
    push_char(&mut s, 'F');
    push_char(&mut s, 'R');
    push_char(&mut s, 'O');
    push_char(&mut s, 'M');
    push_char(&mut s, ' ');
    s.append(email);
    Query(s)
}

/// Mail sent from `email` on or after `date` (IMAP's SINCE ignores the time
/// of day).
pub fn email_since_query(email: &str, date: &Date) -> (q: Query)
    ensures
        q@ == from_since_criterion(email@, *date),
{
    let Query(mut s) = email_query(email);
    push_char(&mut s, ' ');
    push_char(&mut s, 'S');
    push_char(&mut s, 'I');
    push_char(&mut s, 'N');
    push_char(&mut s, 'C');
    push_char(&mut s, 'E');
    push_char(&mut s, ' ');
    let day = date.imap_text();
    s.append(day.as_str());
    Query(s)
}

/// The message sequence numbers joined by commas, as an IMAP sequence set.
pub open spec fn sequence_set_text(ids: Seq<u32>) -> Seq<char>
    decreases ids.len(),
{
    if ids.len() == 0 {
        seq![]
    } else if ids.len() == 1 {
        decimal(ids[0] as nat)
    } else {
        sequence_set_text(ids.drop_last()) + seq![','] + decimal(ids.last() as nat)
    }
}

/// The fields of a text separated by `,`, in order (one field for a text
/// without a comma, the empty text giving one empty field).
pub open spec fn comma_fields(s: Seq<char>) -> Seq<Seq<char>>
    decreases s.len(),
{
    if s.len() == 0 {
        seq![seq![]]
    } else {
        let f = comma_fields(s.drop_last());
        if s.last() == ',' {
            f.push(seq![])
        } else {
            f.update(f.len() - 1, f.last().push(s.last()))
        }
    }
}

/// A text has at least one field.
proof fn lemma_fields_nonempty(s: Seq<char>)
    ensures
        comma_fields(s).len() >= 1,
    decreases s.len(),
{
    if s.len() > 0 {
        lemma_fields_nonempty(s.drop_last());
    }
}

/// A decimal rendering holds digits only, so no comma.
proof fn lemma_decimal_digits(n: nat)
    ensures
        forall|i: int| 0 <= i < decimal(n).len() ==> '0' <= #[trigger] decimal(n)[i] <= '9',
    decreases n,
{
    let d = n % 10;
    assert(d < 10);
    assert('0' <= digit_char(d) <= '9');
    if n >= 10 {
        lemma_decimal_digits(n / 10);
        let p = decimal(n / 10);
        assert forall|i: int| 0 <= i < decimal(n).len() implies '0' <= #[trigger] decimal(n)[i]
            <= '9' by {
            if i < p.len() {
                assert(decimal(n)[i] == p[i]);
            }
        }
    }
}

/// Appending a comma and a comma-free text adds that text as one more
/// field.
proof fn lemma_fields_append(a: Seq<char>, b: Seq<char>)
    requires
        forall|i: int| 0 <= i < b.len() ==> b[i] != ',',
    ensures
        comma_fields(a + seq![','] + b) == comma_fields(a).push(b),
    decreases b.len(),
{
    if b.len() == 0 {
        assert(a + seq![','] + b =~= a + seq![',']);
        assert((a + seq![',']).drop_last() =~= a);
        assert((a + seq![',']).last() == ',');
        assert(b =~= Seq::<char>::empty());
    } else {
        let bp = b.drop_last();
        assert forall|i: int| 0 <= i < bp.len() implies bp[i] != ',' by {
            assert(bp[i] == b[i]);
        }
        assert(b.last() == b[b.len() - 1]);
        lemma_fields_append(a, bp);
        lemma_fields_nonempty(a + seq![','] + bp);
        assert((a + seq![','] + b).drop_last() =~= a + seq![','] + bp);
        assert((a + seq![','] + b).last() == b.last());
        assert(bp.push(b.last()) =~= b);
        assert(comma_fields(a).push(bp).update(comma_fields(a).len() as int, b) =~= comma_fields(
            a,
        ).push(b));
    }
}

/// A comma-free text is a single field.
proof fn lemma_fields_single(b: Seq<char>)
    requires
        forall|i: int| 0 <= i < b.len() ==> b[i] != ',',
    ensures
        comma_fields(b) == seq![b],
    decreases b.len(),
{
    if b.len() > 0 {
        let bp = b.drop_last();
        assert forall|i: int| 0 <= i < bp.len() implies bp[i] != ',' by {
            assert(bp[i] == b[i]);
        }
        assert(b.last() == b[b.len() - 1]);
        lemma_fields_single(bp);
        assert(bp.push(b.last()) =~= b);
        assert(seq![bp].len() == 1 && seq![bp].last() == bp);
        assert(seq![bp].update(0, b) =~= seq![b]);
    } else {
        assert(b =~= Seq::<char>::empty());
    }
}

/// The sequence set names every id, in order: split at its commas, it gives
/// the decimal rendering of each id, one field per id.
pub proof fn lemma_sequence_set_fields(ids: Seq<u32>)
    requires
        ids.len() > 0,
    ensures
        comma_fields(sequence_set_text(ids)) == ids.map_values(|n: u32| decimal(n as nat)),
    decreases ids.len(),
{
    let last = decimal(ids.last() as nat);
    lemma_decimal_digits(ids.last() as nat);
    assert forall|i: int| 0 <= i < last.len() implies last[i] != ',' by {
        assert('0' <= last[i] <= '9');
    }
    if ids.len() == 1 {
        lemma_fields_single(last);
        assert(ids.map_values(|n: u32| decimal(n as nat)) =~= seq![last]);
    } else {
        lemma_sequence_set_fields(ids.drop_last());
        lemma_fields_append(sequence_set_text(ids.drop_last()), last);
        assert(ids.map_values(|n: u32| decimal(n as nat)) =~= ids.drop_last().map_values(
            |n: u32| decimal(n as nat),
        ).push(last));
    }
}

/// The number of commas in a text.
pub open spec fn comma_count(s: Seq<char>) -> nat
    decreases s.len(),
{
    if s.len() == 0 {
        0
    } else {
        comma_count(s.drop_last()) + if s.last() == ',' { 1nat } else { 0nat }
    }
}

/// A text has one field more than it has commas.
proof fn lemma_fields_commas(s: Seq<char>)
    ensures
        comma_fields(s).len() == comma_count(s) + 1,
    decreases s.len(),
{
    if s.len() > 0 {
        lemma_fields_commas(s.drop_last());
        lemma_fields_nonempty(s.drop_last());
    }
}

/// A non-empty sequence set holds one comma fewer than it has ids.
pub proof fn lemma_sequence_set_commas(ids: Seq<u32>)
    requires
        ids.len() > 0,
    ensures
        comma_count(sequence_set_text(ids)) + 1 == ids.len(),
{
    lemma_sequence_set_fields(ids);
    lemma_fields_commas(sequence_set_text(ids));
}

/// The set of two batches of ids is the set of the first, a comma, and the
/// set of the second.
pub proof fn lemma_sequence_set_concat(a: Seq<u32>, b: Seq<u32>)
    requires
        a.len() > 0,
        b.len() > 0,
    ensures
        sequence_set_text(a + b) == sequence_set_text(a) + seq![','] + sequence_set_text(b),
    decreases b.len(),
{
    if b.len() == 1 {
        assert((a + b).drop_last() =~= a);
        assert((a + b).last() == b[0]);
    } else {
        lemma_sequence_set_concat(a, b.drop_last());
        assert((a + b).drop_last() =~= a + b.drop_last());
        assert((a + b).last() == b.last());
        assert(sequence_set_text(a) + seq![','] + sequence_set_text(b.drop_last()) + seq![',']
            + decimal(b.last() as nat) =~= sequence_set_text(a) + seq![','] + (sequence_set_text(
            b.drop_last(),
        ) + seq![','] + decimal(b.last() as nat)));
    }
}

/// Joins the sequence numbers that a SEARCH returned into the set that FETCH
/// takes, for example `3,17,42`.
pub fn sequence_set(ids: &Vec<u32>) -> (s: String)
    ensures
        s@ == sequence_set_text(ids@),
{
    let mut s = String::new();
    let mut i: usize = 0;
    while i < ids.len()
        invariant
            0 <= i <= ids@.len(),
            s@ == sequence_set_text(ids@.take(i as int)),
        decreases ids@.len() - i,
    {
        if i > 0 {
            push_char(&mut s, ',');
        }
        push_decimal(&mut s, ids[i] as u64);
        assert(ids@.take(i + 1).drop_last() == ids@.take(i as int));
        i = i + 1;
    }
    assert(ids@.take(ids@.len() as int) == ids@);
    s
}

/// The data items fetched for each message: flags, arrival time, size,
/// envelope, body structure and the body text, without marking it read.
pub const FETCH_ITEMS: &'static str = "(FLAGS INTERNALDATE RFC822.SIZE ENVELOPE BODYSTRUCTURE BODY.PEEK[TEXT])";

} // verus!
