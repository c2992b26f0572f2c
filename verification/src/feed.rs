//! The changes feed: what a device has to tell of the writes that came after a given time,
//! oldest first.

use crate::changes::{
    change_of_note, change_of_note_tag, change_of_tag, change_views, note_change, note_tag_change,
    tag_change, SyncChange, SyncChangeView,
};
use crate::rows::{
    note_tag_views, note_views, tag_views, NoteRow, NoteTagRow, NoteTagView, NoteView, TagRow,
    TagView,
};
use crate::store::{Store, StoreView};
use crate::text::{
    lemma_lex_asymmetric, lemma_lex_le_transitive, lex_le, lex_lt, opt_str, opt_text, str_lt,
};
use vstd::prelude::*;

verus! {

/// Whether the time `ts` is after `since`; every time is where `since` is absent.
pub open spec fn is_after(ts: Seq<char>, since: Option<Seq<char>>) -> bool {
    match since {
        Some(t) => lex_lt(t, ts),
        None => true,
    }
}

/// The changes that report the notes of a table, in its order.
pub open spec fn note_changes(rows: Seq<NoteView>) -> Seq<SyncChangeView> {
    Seq::new(rows.len(), |i: int| note_change(rows[i]))
}

/// The changes that report the tags of a table, in its order.
pub open spec fn tag_changes(rows: Seq<TagView>) -> Seq<SyncChangeView> {
    Seq::new(rows.len(), |i: int| tag_change(rows[i]))
}

/// The changes that report the associations of a table, in its order.
pub open spec fn note_tag_changes(rows: Seq<NoteTagView>) -> Seq<SyncChangeView> {
    Seq::new(rows.len(), |i: int| note_tag_change(rows[i]))
}

/// One change for every row of the store: the notes, then the tags, then the associations.
pub open spec fn all_changes(s: StoreView) -> Seq<SyncChangeView> {
    note_changes(s.notes) + tag_changes(s.tags) + note_tag_changes(s.note_tags)
}

/// The changes whose time is after `since`, in the order of `cs`.
pub open spec fn changes_after(cs: Seq<SyncChangeView>, since: Option<Seq<char>>) -> Seq<
    SyncChangeView,
>
    decreases cs.len(),
{
    if cs.len() == 0 {
        Seq::empty()
    } else if is_after(cs.last().timestamp, since) {
        changes_after(cs.drop_last(), since).push(cs.last())
    } else {
        changes_after(cs.drop_last(), since)
    }
}

/// `sorted` with `c` put behind the last change that is not later than `c`.
pub open spec fn insert_by_time(sorted: Seq<SyncChangeView>, c: SyncChangeView) -> Seq<
    SyncChangeView,
>
    decreases sorted.len(),
{
    if sorted.len() == 0 {
        seq![c]
    } else if lex_le(sorted.last().timestamp, c.timestamp) {
        sorted.push(c)
    } else {
        insert_by_time(sorted.drop_last(), c).push(sorted.last())
    }
}

/// The changes by ascending time; changes of one time stay in the order they had.
pub open spec fn sort_by_time(cs: Seq<SyncChangeView>) -> Seq<SyncChangeView>
    decreases cs.len(),
{
    if cs.len() == 0 {
        Seq::empty()
    } else {
        insert_by_time(sort_by_time(cs.drop_last()), cs.last())
    }
}

/// Whether no change is later than one behind it.
pub open spec fn ascending(cs: Seq<SyncChangeView>) -> bool {
    forall|i: int, j: int|
        0 <= i < j < cs.len() ==> lex_le((#[trigger] cs[i]).timestamp, (#[trigger] cs[j]).timestamp)
}

/// The changes of `cs` after `since`, by ascending time.
pub open spec fn pending(cs: Seq<SyncChangeView>, since: Option<Seq<char>>) -> Seq<SyncChangeView> {
    sort_by_time(changes_after(cs, since))
}

/// The first `limit` of the changes of the store after `since`, by ascending time.
pub open spec fn feed(s: StoreView, since: Option<Seq<char>>, limit: nat) -> Seq<SyncChangeView> {
    let all = pending(all_changes(s), since);
    if limit < all.len() {
        all.subrange(0, limit as int)
    } else {
        all
    }
}

/// The time of the last change; none where there is no change.
pub open spec fn latest_time(cs: Seq<SyncChangeView>) -> Option<Seq<char>> {
    if cs.len() == 0 {
        None
    } else {
        Some(cs.last().timestamp)
    }
}

// ----------------------------------------------------------------------------
// What holds of a feed
// ----------------------------------------------------------------------------

/// Inserting adds one change and keeps the others.
pub proof fn lemma_insert_members(s: Seq<SyncChangeView>, c: SyncChangeView)
    ensures
        insert_by_time(s, c).len() == s.len() + 1,
        forall|i: int|
            0 <= i < insert_by_time(s, c).len() ==> (#[trigger] insert_by_time(s, c)[i]) == c
                || s.contains(insert_by_time(s, c)[i]),
    decreases s.len(),
{
    let r = insert_by_time(s, c);
    if s.len() == 0 {
    } else if lex_le(s.last().timestamp, c.timestamp) {
        assert forall|i: int| 0 <= i < r.len() implies (#[trigger] r[i]) == c || s.contains(
            r[i],
        ) by {
            if i < s.len() {
                assert(s[i] == r[i]);
            }
        }
    } else {
        let inner = insert_by_time(s.drop_last(), c);
        lemma_insert_members(s.drop_last(), c);
        assert forall|i: int| 0 <= i < r.len() implies (#[trigger] r[i]) == c || s.contains(
            r[i],
        ) by {
            if i < inner.len() {
                assert(r[i] == inner[i]);
                if inner[i] != c {
                    let k = choose|k: int|
                        0 <= k < s.drop_last().len() && s.drop_last()[k] == inner[i];
                    assert(s[k] == r[i]);
                }
            } else {
                assert(s[s.len() - 1] == r[i]);
            }
        }
    }
}

/// Inserting into ascending changes gives ascending changes.
pub proof fn lemma_insert_ascending(s: Seq<SyncChangeView>, c: SyncChangeView)
    requires
        ascending(s),
    ensures
        ascending(insert_by_time(s, c)),
    decreases s.len(),
{
    let r = insert_by_time(s, c);
    if s.len() == 0 {
    } else if lex_le(s.last().timestamp, c.timestamp) {
        assert forall|i: int, j: int| 0 <= i < j < r.len() implies lex_le(
            (#[trigger] r[i]).timestamp,
            (#[trigger] r[j]).timestamp,
        ) by {
            if j == s.len() {
                if i < s.len() - 1 {
                    assert(lex_le(s[i].timestamp, s[s.len() - 1].timestamp));
                    lemma_lex_le_transitive(s[i].timestamp, s.last().timestamp, c.timestamp);
                }
            } else {
                assert(lex_le(s[i].timestamp, s[j].timestamp));
            }
        }
    } else {
        let rest = s.drop_last();
        let inner = insert_by_time(rest, c);
        assert(ascending(rest)) by {
            assert forall|i: int, j: int| 0 <= i < j < rest.len() implies lex_le(
                (#[trigger] rest[i]).timestamp,
                (#[trigger] rest[j]).timestamp,
            ) by {
                assert(lex_le(s[i].timestamp, s[j].timestamp));
            }
        }
        lemma_insert_ascending(rest, c);
        lemma_insert_members(rest, c);
        lemma_lex_asymmetric(c.timestamp, s.last().timestamp, 0);
        assert forall|i: int, j: int| 0 <= i < j < r.len() implies lex_le(
            (#[trigger] r[i]).timestamp,
            (#[trigger] r[j]).timestamp,
        ) by {
            if j < inner.len() {
                assert(lex_le(inner[i].timestamp, inner[j].timestamp));
            } else {
                assert(r[i] == inner[i]);
                if inner[i] != c {
                    let k = choose|k: int| 0 <= k < rest.len() && rest[k] == inner[i];
                    assert(lex_le(s[k].timestamp, s[s.len() - 1].timestamp));
                }
            }
        }
    }
}

/// Sorting gives ascending changes, as many as there were, and none that was not there.
pub proof fn lemma_sort_by_time(cs: Seq<SyncChangeView>)
    ensures
        ascending(sort_by_time(cs)),
        sort_by_time(cs).len() == cs.len(),
        forall|i: int| 0 <= i < cs.len() ==> cs.contains(#[trigger] sort_by_time(cs)[i]),
    decreases cs.len(),
{
    if cs.len() > 0 {
        let rest = cs.drop_last();
        lemma_sort_by_time(rest);
        lemma_insert_ascending(sort_by_time(rest), cs.last());
        lemma_insert_members(sort_by_time(rest), cs.last());
        let r = sort_by_time(cs);
        assert forall|i: int| 0 <= i < cs.len() implies cs.contains(#[trigger] r[i]) by {
            if r[i] == cs.last() {
                assert(cs[cs.len() - 1] == r[i]);
            } else {
                let k = choose|k: int|
                    0 <= k < sort_by_time(rest).len() && sort_by_time(rest)[k] == r[i];
                assert(rest.contains(sort_by_time(rest)[k]));
                let m = choose|m: int| 0 <= m < rest.len() && rest[m] == r[i];
                assert(cs[m] == r[i]);
            }
        }
    }
}

/// What is kept is after `since`, and was there.
pub proof fn lemma_changes_after(cs: Seq<SyncChangeView>, since: Option<Seq<char>>)
    ensures
        changes_after(cs, since).len() <= cs.len(),
        forall|i: int|
            0 <= i < changes_after(cs, since).len() ==> cs.contains(
                #[trigger] changes_after(cs, since)[i],
            ) && is_after(changes_after(cs, since)[i].timestamp, since),
    decreases cs.len(),
{
    if cs.len() > 0 {
        let rest = cs.drop_last();
        lemma_changes_after(rest, since);
        let r = changes_after(cs, since);
        let inner = changes_after(rest, since);
        assert forall|i: int| 0 <= i < r.len() implies cs.contains(#[trigger] r[i]) && is_after(
            r[i].timestamp,
            since,
        ) by {
            if i < inner.len() {
                assert(r[i] == inner[i]);
                let k = choose|k: int| 0 <= k < rest.len() && rest[k] == inner[i];
                assert(cs[k] == r[i]);
            } else {
                assert(cs[cs.len() - 1] == r[i]);
            }
        }
    }
}

/// A feed holds at most `limit` changes, each the change of a row of the store and after
/// `since`, in ascending order of time.
pub proof fn lemma_feed(s: StoreView, since: Option<Seq<char>>, limit: nat)
    ensures
        feed(s, since, limit).len() <= limit,
        ascending(feed(s, since, limit)),
        forall|i: int|
            0 <= i < feed(s, since, limit).len() ==> is_after(
                (#[trigger] feed(s, since, limit)[i]).timestamp,
                since,
            ) && all_changes(s).contains(feed(s, since, limit)[i]),
{
    let all = all_changes(s);
    let kept = changes_after(all, since);
    let sorted = sort_by_time(kept);
    let f = feed(s, since, limit);
    lemma_changes_after(all, since);
    lemma_sort_by_time(kept);
    assert forall|i: int| 0 <= i < f.len() implies is_after((#[trigger] f[i]).timestamp, since)
        && all.contains(f[i]) by {
        assert(f[i] == sorted[i]);
        assert(kept.contains(sorted[i]));
        let k = choose|k: int| 0 <= k < kept.len() && kept[k] == sorted[i];
        assert(all.contains(kept[k]));
    }
    assert forall|i: int, j: int| 0 <= i < j < f.len() implies lex_le(
        (#[trigger] f[i]).timestamp,
        (#[trigger] f[j]).timestamp,
    ) by {
        assert(lex_le(sorted[i].timestamp, sorted[j].timestamp));
    }
}

/// One more change: it is inserted where it is after `since`, and left out where it is not.
pub proof fn lemma_pending_push(
    cs: Seq<SyncChangeView>,
    c: SyncChangeView,
    since: Option<Seq<char>>,
)
    ensures
        pending(cs.push(c), since) == if is_after(c.timestamp, since) {
            insert_by_time(pending(cs, since), c)
        } else {
            pending(cs, since)
        },
{
    assert(cs.push(c).drop_last() == cs);
    if is_after(c.timestamp, since) {
        assert(changes_after(cs, since).push(c).drop_last() == changes_after(cs, since));
    }
}

/// Where `c` goes: behind the changes that are not later, before those that are.
pub proof fn lemma_insert_position(s: Seq<SyncChangeView>, c: SyncChangeView, pos: int)
    requires
        0 <= pos <= s.len(),
        forall|j: int| pos <= j < s.len() ==> lex_lt(c.timestamp, (#[trigger] s[j]).timestamp),
        pos > 0 ==> lex_le(s[pos - 1].timestamp, c.timestamp),
    ensures
        insert_by_time(s, c) == s.insert(pos, c),
    decreases s.len(),
{
    if s.len() == 0 {
        assert(seq![c] =~= s.insert(pos, c));
    } else if pos == s.len() {
        assert(s.push(c) =~= s.insert(pos, c));
    } else {
        assert(lex_lt(c.timestamp, s[s.len() - 1].timestamp));
        let rest = s.drop_last();
        assert forall|j: int| pos <= j < rest.len() implies lex_lt(
            c.timestamp,
            (#[trigger] rest[j]).timestamp,
        ) by {
            assert(rest[j] == s[j]);
        }
        lemma_insert_position(rest, c, pos);
        assert(rest.insert(pos, c).push(s.last()) =~= s.insert(pos, c));
    }
}

// ----------------------------------------------------------------------------
// Computing a feed
// ----------------------------------------------------------------------------

/// Puts `c` behind the last change that is not later than it.
fn insert_change(acc: &mut Vec<SyncChange>, c: SyncChange)
    ensures
        change_views(final(acc)@) == insert_by_time(change_views(old(acc)@), c@),
{
    let ghost before = change_views(acc@);
    let mut pos: usize = acc.len();
    while pos > 0 && str_lt(c.timestamp.as_str(), acc[pos - 1].timestamp.as_str())
        invariant
            pos <= acc.len(),
            change_views(acc@) == before,
            forall|j: int| pos <= j < acc.len() ==> lex_lt(c@.timestamp, (#[trigger] before[j]).timestamp),
        decreases pos,
    {
        assert(before[pos - 1] == acc@[pos - 1]@);
        pos -= 1;
    }
    proof {
        if pos > 0 {
            assert(before[pos - 1] == acc@[pos - 1]@);
        }
        lemma_insert_position(before, c@, pos as int);
    }
    let ghost model = c@;
    acc.insert(pos, c);
    assert(change_views(acc@) =~= before.insert(pos as int, model));
}

/// Whether the time `ts` is after `since`.
pub fn time_is_after(ts: &str, since: Option<&str>) -> (r: bool)
    ensures
        r == is_after(ts@, opt_str(since)),
{
    match since {
        Some(t) => str_lt(t, ts),
        None => true,
    }
}

/// Everything that the store holds, for a first transfer.
#[derive(Debug)]
pub struct FullDataset {
    pub notes: Vec<NoteRow>,
    pub tags: Vec<TagRow>,
    pub note_tags: Vec<NoteTagRow>,
}

impl Store {
    /// The changes after `since`, oldest first, at most `limit` of them, with the time of
    /// the last one.
    ///
    /// Every row of the store whose last write came after `since` is reported by one
    /// change; without `since` every row is. Where more than `limit` changes are due, the
    /// oldest `limit` are returned: asking again with the time returned gives the next.
    pub fn get_changes_since(&self, since: Option<&str>, limit: usize) -> (r: (
        Vec<SyncChange>,
        Option<String>,
    ))
        ensures
            change_views(r.0@) == feed(self@, opt_str(since), limit as nat),
            opt_text(r.1) == latest_time(change_views(r.0@)),
            r.0.len() <= limit,
            ascending(change_views(r.0@)),
            forall|i: int|
                0 <= i < r.0.len() ==> is_after((#[trigger] r.0@[i])@.timestamp, opt_str(since)),
    {
        let ghost s = self@;
        let ghost a = note_changes(s.notes);
        let ghost b = tag_changes(s.tags);
        let ghost c = note_tag_changes(s.note_tags);
        let ghost after = opt_str(since);
        let mut acc: Vec<SyncChange> = Vec::new();
        assert(change_views(acc@) =~= pending(a.take(0), after));

        let notes = self.notes();
        let mut i: usize = 0;
        while i < notes.len()
            invariant
                i <= notes.len(),
                note_views(notes@) == s.notes,
                a == note_changes(s.notes),
                after == opt_str(since),
                change_views(acc@) == pending(a.take(i as int), after),
            decreases notes.len() - i,
        {
            let change = change_of_note(&notes[i]);
            proof {
                assert(s.notes[i as int] == notes@[i as int]@);
                assert(a.take(i + 1) =~= a.take(i as int).push(change@));
                lemma_pending_push(a.take(i as int), change@, after);
            }
            if time_is_after(change.timestamp.as_str(), since) {
                insert_change(&mut acc, change);
            }
            i += 1;
        }
        assert(a.take(a.len() as int) == a);

        let tags = self.tags();
        let mut i: usize = 0;
        assert(a + b.take(0) =~= a);
        while i < tags.len()
            invariant
                i <= tags.len(),
                tag_views(tags@) == s.tags,
                b == tag_changes(s.tags),
                after == opt_str(since),
                change_views(acc@) == pending(a + b.take(i as int), after),
            decreases tags.len() - i,
        {
            let change = change_of_tag(&tags[i]);
            proof {
                assert(s.tags[i as int] == tags@[i as int]@);
                assert(a + b.take(i + 1) =~= (a + b.take(i as int)).push(change@));
                lemma_pending_push(a + b.take(i as int), change@, after);
            }
            if time_is_after(change.timestamp.as_str(), since) {
                insert_change(&mut acc, change);
            }
            i += 1;
        }
        assert(b.take(b.len() as int) == b);

        let note_tags = self.note_tags();
        let mut i: usize = 0;
        assert(a + b + c.take(0) =~= a + b);
        while i < note_tags.len()
            invariant
                i <= note_tags.len(),
                note_tag_views(note_tags@) == s.note_tags,
                c == note_tag_changes(s.note_tags),
                after == opt_str(since),
                change_views(acc@) == pending(a + b + c.take(i as int), after),
            decreases note_tags.len() - i,
        {
            let change = change_of_note_tag(&note_tags[i]);
            proof {
                assert(s.note_tags[i as int] == note_tags@[i as int]@);
                assert(a + b + c.take(i + 1) =~= (a + b + c.take(i as int)).push(change@));
                lemma_pending_push(a + b + c.take(i as int), change@, after);
            }
            if time_is_after(change.timestamp.as_str(), since) {
                insert_change(&mut acc, change);
            }
            i += 1;
        }
        assert(c.take(c.len() as int) == c);
        assert(change_views(acc@) == pending(all_changes(s), after));

        let ghost whole = change_views(acc@);
        if limit < acc.len() {
            acc.truncate(limit);
            assert(change_views(acc@) =~= whole.subrange(0, limit as int));
        }
        let latest = if acc.len() == 0 {
            None
        } else {
            assert(change_views(acc@).last() == acc@[acc.len() - 1]@);
            Some(acc[acc.len() - 1].timestamp.clone())
        };
        proof {
            lemma_feed(s, after, limit as nat);
            assert forall|i: int| 0 <= i < acc.len() implies is_after(
                (#[trigger] acc@[i])@.timestamp,
                after,
            ) by {
                assert(change_views(acc@)[i] == acc@[i]@);
            }
        }
        (acc, latest)
    }

    /// Every row of the store, deleted or not, table by table.
    pub fn get_full_dataset(&self) -> (d: FullDataset)
        ensures
            note_views(d.notes@) == self@.notes,
            tag_views(d.tags@) == self@.tags,
            note_tag_views(d.note_tags@) == self@.note_tags,
    {
        let notes = self.notes();
        let mut out_notes: Vec<NoteRow> = Vec::new();
        let mut i: usize = 0;
        while i < notes.len()
            invariant
                i <= notes.len(),
                out_notes.len() == i,
                forall|j: int| 0 <= j < i ==> (#[trigger] out_notes@[j])@ == notes@[j]@,
            decreases notes.len() - i,
        {
            out_notes.push(notes[i].copy());
            i += 1;
        }
        assert(note_views(out_notes@) =~= note_views(notes@));
        let tags = self.tags();
        let mut out_tags: Vec<TagRow> = Vec::new();
        let mut i: usize = 0;
        while i < tags.len()
            invariant
                i <= tags.len(),
                out_tags.len() == i,
                forall|j: int| 0 <= j < i ==> (#[trigger] out_tags@[j])@ == tags@[j]@,
            decreases tags.len() - i,
        {
            out_tags.push(tags[i].copy());
            i += 1;
        }
        assert(tag_views(out_tags@) =~= tag_views(tags@));
        let note_tags = self.note_tags();
        let mut out_note_tags: Vec<NoteTagRow> = Vec::new();
        let mut i: usize = 0;
        while i < note_tags.len()
            invariant
                i <= note_tags.len(),
                out_note_tags.len() == i,
                forall|j: int| 0 <= j < i ==> (#[trigger] out_note_tags@[j])@ == note_tags@[j]@,
            decreases note_tags.len() - i,
        {
            out_note_tags.push(note_tags[i].copy());
            i += 1;
        }
        assert(note_tag_views(out_note_tags@) =~= note_tag_views(note_tags@));
        FullDataset { notes: out_notes, tags: out_tags, note_tags: out_note_tags }
    }
}

} // verus!
