//! De-duplication of entries by id, the latest update of a list of entries,
//! and what a stored feed becomes once newly fetched entries are merged in.
use vstd::prelude::*;
use crate::date::{earlier, FeedTime};
use crate::entry::{clone_entries, views, Entry, EntryView};

verus! {

broadcast use vstd::seq_lib::group_seq_properties;

/// The ids of a sequence of entries, in order.
pub open spec fn entry_ids(s: Seq<EntryView>) -> Seq<Seq<char>> {
    s.map_values(|e: EntryView| e.id)
}

/// The entries of `s` whose id did not occur before them, in order: the
/// first entry of each id.
pub open spec fn dedupe_by_id(s: Seq<EntryView>) -> Seq<EntryView>
    decreases s.len(),
{
    if s.len() == 0 {
        seq![]
    } else {
        let kept = dedupe_by_id(s.drop_last());
        if entry_ids(s.drop_last()).contains(s.last().id) {
            kept
        } else {
            kept.push(s.last())
        }
    }
}

/// No two entries share an id.
pub open spec fn distinct_ids(s: Seq<EntryView>) -> bool {
    forall|i: int, j: int| 0 <= i < j < s.len() ==> s[i].id != s[j].id
}

/// Whether some entry of `entries` has the id `id`.
fn has_id(entries: &Vec<Entry>, id: &String) -> (b: bool)
    ensures
        b == entry_ids(views(entries@)).contains(id@),
{
    let mut i: usize = 0;
    while i < entries.len()
        invariant
            0 <= i <= entries@.len(),
            forall|k: int| 0 <= k < i ==> entries@[k].id@ != id@,
        decreases entries@.len() - i,
    {
        if entries[i].id == *id {
            assert(entry_ids(views(entries@))[i as int] == id@);
            return true;
        }
        i = i + 1;
    }
    proof {
        if entry_ids(views(entries@)).contains(id@) {
            let k = choose|k: int|
                0 <= k < entry_ids(views(entries@)).len() && entry_ids(views(entries@))[k]
                    == id@;
            assert(entries@[k].id@ == id@);
        }
    }
    false
}

/// An id occurs among the kept entries exactly when it occurs in `s`.
pub proof fn lemma_dedupe_same_ids(s: Seq<EntryView>, id: Seq<char>)
    ensures
        entry_ids(dedupe_by_id(s)).contains(id) <==> entry_ids(s).contains(id),
    decreases s.len(),
{
    if s.len() > 0 {
        let p = s.drop_last();
        lemma_dedupe_same_ids(p, id);
        assert(entry_ids(s) =~= entry_ids(p).push(s.last().id));
        let kept = dedupe_by_id(p);
        assert(entry_ids(kept.push(s.last())) =~= entry_ids(kept).push(s.last().id));
    }
}

/// Keeps the first entry of each id and drops the later ones, in order.
/// The ids seen so far are looked up among the entries kept, which hold
/// exactly those ids (`lemma_dedupe_same_ids`); vstd's `HashSet`
/// specification gives no usable contract for `String` keys.
pub fn dedupe_entries_by_id(entries: &Vec<Entry>) -> (r: Vec<Entry>)
    ensures
        views(r@) == dedupe_by_id(views(entries@)),
{
    let mut deduped: Vec<Entry> = Vec::new();
    let mut i: usize = 0;
    while i < entries.len()
        invariant
            0 <= i <= entries@.len(),
            views(deduped@) == dedupe_by_id(views(entries@.take(i as int))),
        decreases entries@.len() - i,
    {
        let ghost prefix = views(entries@.take(i as int));
        let ghost next = views(entries@.take(i + 1));
        assert(next.drop_last() =~= prefix);
        assert(next.last() == entries@[i as int]@);
        proof {
            lemma_dedupe_same_ids(prefix, entries@[i as int].id@);
        }
        if !has_id(&deduped, &entries[i].id) {
            let ghost before = deduped@;
            let e = entries[i].clone();
            deduped.push(e);
            assert(views(deduped@) =~= views(before).push(entries@[i as int]@));
        }
        i = i + 1;
    }
    assert(entries@.take(entries@.len() as int) == entries@);
    deduped
}

/// The entries of `s` whose id is not among `known`, in order.
pub open spec fn unseen(s: Seq<EntryView>, known: Seq<Seq<char>>) -> Seq<EntryView>
    decreases s.len(),
{
    if s.len() == 0 {
        seq![]
    } else if known.contains(s.last().id) {
        unseen(s.drop_last(), known)
    } else {
        unseen(s.drop_last(), known).push(s.last())
    }
}

/// After de-duplication no two entries share an id.
pub proof fn lemma_dedupe_distinct(s: Seq<EntryView>)
    ensures
        distinct_ids(dedupe_by_id(s)),
    decreases s.len(),
{
    if s.len() > 0 {
        let p = s.drop_last();
        lemma_dedupe_distinct(p);
        lemma_dedupe_same_ids(p, s.last().id);
        let kept = dedupe_by_id(p);
        if !entry_ids(p).contains(s.last().id) {
            assert forall|i: int| 0 <= i < kept.len() implies kept[i].id != s.last().id by {
                assert(entry_ids(kept)[i] == kept[i].id);
            }
        }
    }
}

/// Every kept entry is an entry of `s` at a place where its id occurs for
/// the first time.
pub proof fn lemma_dedupe_first_occurrences(s: Seq<EntryView>)
    ensures
        forall|k: int|
            0 <= k < dedupe_by_id(s).len() ==> exists|i: int|
                0 <= i < s.len() && s[i] == #[trigger] dedupe_by_id(s)[k] && !entry_ids(
                    s.take(i),
                ).contains(s[i].id),
    decreases s.len(),
{
    if s.len() > 0 {
        let p = s.drop_last();
        lemma_dedupe_first_occurrences(p);
        let d = dedupe_by_id(s);
        let kept = dedupe_by_id(p);
        assert forall|k: int| 0 <= k < d.len() implies exists|i: int|
            0 <= i < s.len() && s[i] == #[trigger] d[k] && !entry_ids(s.take(i)).contains(
                s[i].id,
            ) by {
            if k < kept.len() {
                let i = choose|i: int|
                    0 <= i < p.len() && p[i] == kept[k] && !entry_ids(p.take(i)).contains(
                        p[i].id,
                    );
                assert(s.take(i) =~= p.take(i));
                assert(s[i] == d[k]);
            } else {
                let i = s.len() - 1;
                assert(s.take(i) =~= p);
                assert(s[i] == d[k]);
            }
        }
    }
}

/// De-duplication leaves entries with distinct ids as they are.
pub proof fn lemma_dedupe_of_distinct(s: Seq<EntryView>)
    requires
        distinct_ids(s),
    ensures
        dedupe_by_id(s) == s,
    decreases s.len(),
{
    if s.len() > 0 {
        let p = s.drop_last();
        assert(distinct_ids(p));
        lemma_dedupe_of_distinct(p);
        if entry_ids(p).contains(s.last().id) {
            let k = choose|k: int| 0 <= k < entry_ids(p).len() && entry_ids(p)[k] == s.last().id;
            assert(s[k].id == s[s.len() - 1].id);
        }
        assert(p.push(s.last()) =~= s);
    }
}

/// De-duplicating twice gives what de-duplicating once gives.
pub proof fn lemma_dedupe_idempotent(s: Seq<EntryView>)
    ensures
        dedupe_by_id(dedupe_by_id(s)) == dedupe_by_id(s),
{
    lemma_dedupe_distinct(s);
    lemma_dedupe_of_distinct(dedupe_by_id(s));
}

/// De-duplicating `s` followed by `t` keeps what de-duplicating `s` keeps,
/// then the first entry of each id of `t` that `s` does not hold.
pub proof fn lemma_dedupe_append(s: Seq<EntryView>, t: Seq<EntryView>)
    ensures
        dedupe_by_id(s + t) == dedupe_by_id(s) + unseen(dedupe_by_id(t), entry_ids(s)),
    decreases t.len(),
{
    if t.len() == 0 {
        assert(s + t =~= s);
        assert(dedupe_by_id(s) + unseen(dedupe_by_id(t), entry_ids(s)) =~= dedupe_by_id(s));
    } else {
        let tp = t.drop_last();
        let x = t.last();
        lemma_dedupe_append(s, tp);
        assert((s + t).drop_last() =~= s + tp);
        assert((s + t).last() == x);
        assert(entry_ids(s + tp) =~= entry_ids(s) + entry_ids(tp));
        let dt = dedupe_by_id(tp);
        if !entry_ids(tp).contains(x.id) && !entry_ids(s).contains(x.id) {
            assert(dedupe_by_id(t) == dt.push(x));
            assert(dt.push(x).drop_last() =~= dt);
            assert(unseen(dedupe_by_id(t), entry_ids(s)) == unseen(dt, entry_ids(s)).push(x));
            assert(dedupe_by_id(s) + unseen(dt, entry_ids(s)).push(x) =~= (dedupe_by_id(s)
                + unseen(dt, entry_ids(s))).push(x));
        } else if !entry_ids(tp).contains(x.id) {
            assert(dedupe_by_id(t) == dt.push(x));
            assert(dt.push(x).drop_last() =~= dt);
        }
    }
}

/// A stored feed whose ids are distinct keeps all its entries, in front,
/// when newly fetched entries are merged in; what is appended are the first
/// entries of each fetched id that the feed did not hold.
pub proof fn lemma_merge_keeps_existing(existing: Seq<EntryView>, fetched: Seq<EntryView>)
    requires
        distinct_ids(existing),
    ensures
        dedupe_by_id(existing + fetched) == existing + unseen(
            dedupe_by_id(fetched),
            entry_ids(existing),
        ),
        dedupe_by_id(existing + fetched).len() >= existing.len(),
{
    lemma_dedupe_append(existing, fetched);
    lemma_dedupe_of_distinct(existing);
}

/// The latest update among `s`: the last entry whose update no other entry
/// follows (as `Iterator::max` picks among equal maxima), `None` for no entry.
pub open spec fn latest_update(s: Seq<EntryView>) -> Option<FeedTime>
    decreases s.len(),
{
    if s.len() == 0 {
        None
    } else {
        match latest_update(s.drop_last()) {
            None => Some(s.last().updated),
            Some(t) => if earlier(s.last().updated, t) {
                Some(t)
            } else {
                Some(s.last().updated)
            },
        }
    }
}

/// The latest update is one of the entries' updates, and no entry was
/// updated after it.
pub proof fn lemma_latest_update(s: Seq<EntryView>)
    ensures
        latest_update(s) is Some <==> s.len() > 0,
        latest_update(s) matches Some(t) ==> (exists|i: int|
            0 <= i < s.len() && s[i].updated == t) && (forall|i: int|
            0 <= i < s.len() ==> !earlier(t, #[trigger] s[i].updated)),
    decreases s.len(),
{
    if s.len() > 0 {
        let p = s.drop_last();
        lemma_latest_update(p);
        let t = latest_update(s)->Some_0;
        assert forall|i: int| 0 <= i < s.len() implies !earlier(t, #[trigger] s[i].updated) by {
            if i < p.len() {
                assert(p[i] == s[i]);
            }
        }
        if latest_update(p) is Some && earlier(s.last().updated, latest_update(p)->Some_0) {
            let i = choose|i: int| 0 <= i < p.len() && p[i].updated == latest_update(p)->Some_0;
            assert(s[i] == p[i]);
        } else {
            assert(s[s.len() - 1].updated == t);
        }
    }
}

/// The latest update among the entries (`None` for no entry).
pub fn latest_updated(entries: &Vec<Entry>) -> (r: Option<FeedTime>)
    ensures
        r == latest_update(views(entries@)),
{
    let mut latest: Option<FeedTime> = None;
    let mut i: usize = 0;
    while i < entries.len()
        invariant
            0 <= i <= entries@.len(),
            latest == latest_update(views(entries@.take(i as int))),
        decreases entries@.len() - i,
    {
        let ghost next = views(entries@.take(i + 1));
        assert(next.drop_last() =~= views(entries@.take(i as int)));
        assert(next.last() == entries@[i as int]@);
        let u = entries[i].updated;
        latest = match latest {
            None => Some(u),
            Some(t) => if u.is_earlier_than(&t) {
                Some(t)
            } else {
                Some(u)
            },
        };
        i = i + 1;
    }
    assert(entries@.take(entries@.len() as int) == entries@);
    latest
}

/// What merging fetched entries into a stored feed leads to.
pub enum FeedUpdate {
    /// No fetched entry was new: the stored feed stays as it is.
    Unchanged,
    /// The feed to store: its entries, its update time (the latest of its
    /// entries') and how many entries are new.
    Changed { entries: Vec<Entry>, updated: FeedTime, changed_count: usize },
}

/// The stored entries followed by the fetched ones, de-duplicated by id.
pub open spec fn merged_entries(existing: Seq<EntryView>, fetched: Seq<EntryView>) -> Seq<
    EntryView,
> {
    dedupe_by_id(existing + fetched)
}

/// Merges `fetched` into the `existing` entries of a stored feed: the
/// entries de-duplicated by id, the number of new entries, and the latest
/// update among them; `Unchanged` when nothing is new. De-duplication must
/// keep at least as many entries as were stored, which holds whenever the
/// stored ids are distinct (see `lemma_merge_keeps_existing`).
pub fn plan_feed_update(existing: &Vec<Entry>, fetched: &Vec<Entry>) -> (u: FeedUpdate)
    requires
        merged_entries(views(existing@), views(fetched@)).len() >= existing@.len(),
    ensures
        ({
            let merged = merged_entries(views(existing@), views(fetched@));
            &&& merged.len() == existing@.len() ==> u is Unchanged
            &&& merged.len() > existing@.len() ==> (u matches FeedUpdate::Changed {
                entries,
                updated,
                changed_count,
            } && views(entries@) == merged && changed_count == merged.len() - existing@.len()
                && latest_update(merged) == Some(updated))
        }),
{
    let mut all = clone_entries(existing);
    let mut more = clone_entries(fetched);
    let ghost first = all@;
    let ghost second = more@;
    all.append(&mut more);
    assert(views(all@) =~= views(first) + views(second));
    let deduped = dedupe_entries_by_id(&all);
    let changed_count = deduped.len() - existing.len();
    if changed_count > 0 {
        proof {
            lemma_latest_update(views(deduped@));
        }
        match latest_updated(&deduped) {
            Some(updated) => FeedUpdate::Changed { entries: deduped, updated, changed_count },
            None => FeedUpdate::Unchanged,
        }
    } else {
        FeedUpdate::Unchanged
    }
}

/// Nothing is unseen when every id is known.
pub proof fn lemma_unseen_all_known(s: Seq<EntryView>, known: Seq<Seq<char>>)
    requires
        forall|i: int| 0 <= i < s.len() ==> known.contains(#[trigger] s[i].id),
    ensures
        unseen(s, known) == Seq::<EntryView>::empty(),
    decreases s.len(),
{
    if s.len() > 0 {
        let p = s.drop_last();
        assert(forall|i: int| 0 <= i < p.len() ==> p[i] == s[i]);
        lemma_unseen_all_known(p, known);
        assert(known.contains(s[s.len() - 1].id));
    }
}

/// Merging the same fetched entries a second time changes nothing: mail
/// that is fetched again does not add entries to a feed.
pub proof fn lemma_merge_again_unchanged(existing: Seq<EntryView>, fetched: Seq<EntryView>)
    requires
        distinct_ids(existing),
    ensures
        merged_entries(merged_entries(existing, fetched), fetched) == merged_entries(
            existing,
            fetched,
        ),
{
    let d = merged_entries(existing, fetched);
    let df = dedupe_by_id(fetched);
    lemma_dedupe_distinct(existing + fetched);
    lemma_dedupe_append(d, fetched);
    lemma_dedupe_of_distinct(d);
    assert(entry_ids(existing + fetched) =~= entry_ids(existing) + entry_ids(fetched));
    assert forall|i: int| 0 <= i < df.len() implies entry_ids(d).contains(#[trigger] df[i].id) by {
        assert(entry_ids(df)[i] == df[i].id);
        lemma_dedupe_same_ids(fetched, df[i].id);
        lemma_dedupe_same_ids(existing + fetched, df[i].id);
    }
    lemma_unseen_all_known(df, entry_ids(d));
    assert(d + Seq::<EntryView>::empty() =~= d);
}

/// A feed whose ids are distinct is left unchanged by fetched entries whose
/// ids it already holds.
pub proof fn lemma_known_entries_change_nothing(existing: Seq<EntryView>, fetched: Seq<EntryView>)
    requires
        distinct_ids(existing),
        forall|i: int| 0 <= i < fetched.len() ==> entry_ids(existing).contains(#[trigger] fetched[i].id),
    ensures
        merged_entries(existing, fetched) == existing,
{
    let df = dedupe_by_id(fetched);
    lemma_merge_keeps_existing(existing, fetched);
    assert forall|i: int| 0 <= i < df.len() implies entry_ids(existing).contains(#[trigger] df[i].id) by {
        assert(entry_ids(df)[i] == df[i].id);
        lemma_dedupe_same_ids(fetched, df[i].id);
        let k = choose|k: int| 0 <= k < entry_ids(fetched).len() && entry_ids(fetched)[k] == df[i].id;
        assert(fetched[k].id == df[i].id);
    }
    lemma_unseen_all_known(df, entry_ids(existing));
    assert(existing + Seq::<EntryView>::empty() =~= existing);
}

} // verus!
