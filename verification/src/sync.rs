//! Applying a batch of changes that a peer sent, and remembering the exchange.

use crate::changes::{change_views, SyncChange, SyncChangeView};
use crate::error::{VoiceError, VoiceResult};
use crate::feed::FullDataset;
use crate::ids::utc_now_text;
use crate::laws::{after_writes, SyncWrite};
use crate::reconcile::{
    apply_note_change, apply_note_tag_change, apply_tag_change, parent_of_change, parent_readable,
    reconcile_note, reconcile_note_tag, reconcile_tag, ApplyResult,
};
use crate::store::{Store, StoreView};
use crate::text::{opt_str, split, starts_with, str_eq};
use crate::tree::would_cycle;
use crate::validation::{is_uuid_text, refuses_uuid, uuid_text_value, validate_device_id};
use vstd::prelude::*;
use vstd::string::*;

verus! {

/// Whether a change can be read: its entity type is known and its identifiers are
/// identifiers.
pub open spec fn readable(c: SyncChangeView) -> bool {
    if c.entity_type == "note"@ {
        is_uuid_text(c.entity_id)
    } else if c.entity_type == "tag"@ {
        is_uuid_text(c.entity_id) && parent_readable(c)
    } else if c.entity_type == "note_tag"@ {
        let parts = split(c.entity_id, ':');
        parts.len() != 2 || (is_uuid_text(parts[0]) && is_uuid_text(parts[1]))
    } else {
        false
    }
}

/// What the reconciler does with a change that can be read, and the store after it.
pub open spec fn reconcile(
    s: StoreView,
    c: SyncChangeView,
    last_sync: Option<Seq<char>>,
    now: Seq<char>,
) -> (ApplyResult, StoreView) {
    if c.entity_type == "note"@ {
        reconcile_note(s, uuid_text_value(c.entity_id), c, last_sync, now)
    } else if c.entity_type == "tag"@ {
        reconcile_tag(s, uuid_text_value(c.entity_id), parent_of_change(c), c, last_sync, now)
    } else {
        let parts = split(c.entity_id, ':');
        if parts.len() != 2 {
            (ApplyResult::Skipped, s)
        } else {
            reconcile_note_tag(
                s,
                uuid_text_value(parts[0]),
                uuid_text_value(parts[1]),
                c,
                last_sync,
                now,
            )
        }
    }
}

/// The store after one change of a batch: as it was where the change cannot be read.
pub open spec fn step(
    s: StoreView,
    c: SyncChangeView,
    last_sync: Option<Seq<char>>,
    now: Seq<char>,
) -> StoreView {
    if readable(c) {
        reconcile(s, c, last_sync, now).1
    } else {
        s
    }
}

/// Whether a change counts as `what` in a store `s`.
pub open spec fn counts_as(
    s: StoreView,
    c: SyncChangeView,
    last_sync: Option<Seq<char>>,
    now: Seq<char>,
    what: ApplyResult,
) -> bool {
    readable(c) && reconcile(s, c, last_sync, now).0 == what
}

/// A batch of changes, applied: the store after it, and how many changes were written and
/// how many gave a conflict.
pub struct BatchView {
    pub state: StoreView,
    pub applied: nat,
    pub conflicts: nat,
}

/// The changes applied one after the other, each to the store that the one before left.
/// A change that cannot be read leaves the store as it is: it never ends the batch.
pub open spec fn run(
    s: StoreView,
    cs: Seq<SyncChangeView>,
    last_sync: Option<Seq<char>>,
    now: Seq<char>,
) -> BatchView
    decreases cs.len(),
{
    if cs.len() == 0 {
        BatchView { state: s, applied: 0, conflicts: 0 }
    } else {
        let b = run(s, cs.drop_last(), last_sync, now);
        let c = cs.last();
        BatchView {
            state: step(b.state, c, last_sync, now),
            applied: if counts_as(b.state, c, last_sync, now, ApplyResult::Applied) {
                b.applied + 1
            } else {
                b.applied
            },
            conflicts: if counts_as(b.state, c, last_sync, now, ApplyResult::Conflict) {
                b.conflicts + 1
            } else {
                b.conflicts
            },
        }
    }
}

/// How the line begins that reports a change that could not be applied.
pub open spec fn error_head(c: SyncChangeView) -> Seq<char> {
    if c.entity_type == "note"@ || c.entity_type == "tag"@ || c.entity_type == "note_tag"@ {
        "Error applying "@ + c.entity_type + " "@ + c.entity_id + ": "@
    } else {
        "Unknown entity type: "@ + c.entity_type
    }
}

/// The beginnings of the lines that report the changes of a batch that cannot be read, in
/// the order of the batch.
pub open spec fn error_heads(cs: Seq<SyncChangeView>) -> Seq<Seq<char>>
    decreases cs.len(),
{
    if cs.len() == 0 {
        Seq::empty()
    } else if readable(cs.last()) {
        error_heads(cs.drop_last())
    } else {
        error_heads(cs.drop_last()).push(error_head(cs.last()))
    }
}

/// A batch applied on behalf of the peer `peer_id` at the time `now`: the changes are
/// reconciled against the time of the last exchange with the peer, then `now` is
/// remembered as the time of this one.
pub open spec fn sync_outcome(
    s: StoreView,
    cs: Seq<SyncChangeView>,
    peer_id: u128,
    peer_name: Option<Seq<char>>,
    now: Seq<char>,
) -> BatchView {
    let b = run(s, cs, s.last_sync(peer_id), now);
    BatchView { state: b.state.with_sync_time(peer_id, peer_name, now), ..b }
}

/// Reconciles one change, whatever its entity.
///
/// Fails, and leaves the store as it is, exactly when the change cannot be read.
pub fn apply_change(
    store: &mut Store,
    change: &SyncChange,
    last_sync_at: Option<&str>,
    now: &str,
) -> (r: VoiceResult<ApplyResult>)
    requires
        old(store).wf(),
    ensures
        final(store).wf(),
        final(store)@ == step(old(store)@, change@, opt_str(last_sync_at), now@),
        readable(change@) ==> r == Ok::<ApplyResult, VoiceError>(
            reconcile(old(store)@, change@, opt_str(last_sync_at), now@).0,
        ),
        !readable(change@) ==> r is Err,
{
    let kind = change.entity_type.as_str();
    if str_eq(kind, "note") {
        apply_note_change(store, change, last_sync_at, now)
    } else if str_eq(kind, "tag") {
        apply_tag_change(store, change, last_sync_at, now)
    } else if str_eq(kind, "note_tag") {
        apply_note_tag_change(store, change, last_sync_at, now)
    } else {
        Err(
            VoiceError::Sync(
                crate::error::prefixed("Unknown entity type: ", change.entity_type.as_str()),
            ),
        )
    }
}

fn error_line(change: &SyncChange, e: &VoiceError) -> (line: String)
    ensures
        starts_with(line@, error_head(change@)),
{
    let kind = change.entity_type.as_str();
    if str_eq(kind, "note") || str_eq(kind, "tag") || str_eq(kind, "note_tag") {
        let mut line = String::from_str("Error applying ");
        line.append(kind);
        line.append(" ");
        line.append(change.entity_id.as_str());
        line.append(": ");
        let ghost head = line@;
        line.append(e.to_string().as_str());
        assert(line@.subrange(0, head.len() as int) =~= head);
        line
    } else {
        let line = crate::error::prefixed("Unknown entity type: ", kind);
        assert(line@.subrange(0, line@.len() as int) =~= line@);
        line
    }
}

/// Whether the lines begin as the reports of the unreadable changes of `cs` do.
pub open spec fn reports(errors: Seq<String>, cs: Seq<SyncChangeView>) -> bool {
    &&& errors.len() == error_heads(cs).len()
    &&& forall|k: int|
        0 <= k < errors.len() ==> starts_with((#[trigger] errors[k])@, error_heads(cs)[k])
}

/// Reconciles a batch of changes against the time `last_sync_at` of the last exchange,
/// at the time `now`. What is remembered of peers stays as it is.
///
/// Every change is reconciled in turn; a change that cannot be read is reported by a line
/// and leaves the store as it is. Returns how many changes were written, how many gave a
/// conflict, and the lines.
pub fn reconcile_batch(
    store: &mut Store,
    changes: &[SyncChange],
    last_sync_at: Option<&str>,
    now: &str,
) -> (totals: (usize, usize, Vec<String>))
    requires
        old(store).wf(),
    ensures
        final(store).wf(),
        final(store)@ == run(
            old(store)@,
            change_views(changes@),
            opt_str(last_sync_at),
            now@,
        ).state,
        totals.0 == run(old(store)@, change_views(changes@), opt_str(last_sync_at), now@).applied,
        totals.1 == run(
            old(store)@,
            change_views(changes@),
            opt_str(last_sync_at),
            now@,
        ).conflicts,
        totals.0 <= changes@.len(),
        totals.1 <= changes@.len(),
        reports(totals.2@, change_views(changes@)),
{
    let ghost start = store@;
    let ghost cs = change_views(changes@);
    let ghost last = opt_str(last_sync_at);
    let mut applied: usize = 0;
    let mut conflicts: usize = 0;
    let mut errors: Vec<String> = Vec::new();
    let mut i: usize = 0;
    assert(cs.take(0) =~= Seq::<SyncChangeView>::empty());
    while i < changes.len()
        invariant
            i <= changes.len(),
            store.wf(),
            cs == change_views(changes@),
            opt_str(last_sync_at) == last,
            applied <= i,
            conflicts <= i,
            store@ == run(start, cs.take(i as int), last, now@).state,
            applied == run(start, cs.take(i as int), last, now@).applied,
            conflicts == run(start, cs.take(i as int), last, now@).conflicts,
            reports(errors@, cs.take(i as int)),
        decreases changes.len() - i,
    {
        let change = &changes[i];
        proof {
            assert(cs[i as int] == change@);
            assert(cs.take(i + 1).drop_last() =~= cs.take(i as int));
            assert(cs.take(i + 1).last() == change@);
        }
        match apply_change(store, change, last_sync_at, now) {
            Ok(ApplyResult::Applied) => {
                applied += 1;
            },
            Ok(ApplyResult::Conflict) => {
                conflicts += 1;
            },
            Ok(ApplyResult::Skipped) => {},
            Err(e) => {
                let line = error_line(change, &e);
                let ghost before = errors@;
                errors.push(line);
                assert forall|k: int| 0 <= k < errors@.len() implies starts_with(
                    (#[trigger] errors@[k])@,
                    error_heads(cs.take(i + 1))[k],
                ) by {
                    if k < before.len() {
                        assert(errors@[k] == before[k]);
                    }
                }
            },
        }
        i += 1;
    }
    assert(cs.take(cs.len() as int) == cs);
    (applied, conflicts, errors)
}

/// Whether `r` and the store `after` are what applying a batch on behalf of a peer gives.
///
/// Where the peer's identifier is none, the refusal of `device_id` and the store as it was.
/// Otherwise the numbers of [`sync_outcome`], its store, and one line for each change that
/// cannot be read.
pub open spec fn batch_outcome(
    r: VoiceResult<(usize, usize, Vec<String>)>,
    after: StoreView,
    before: StoreView,
    cs: Seq<SyncChangeView>,
    peer_text: Seq<char>,
    peer_name: Option<Seq<char>>,
    now: Seq<char>,
) -> bool {
    if is_uuid_text(peer_text) {
        let b = sync_outcome(before, cs, uuid_text_value(peer_text), peer_name, now);
        match r {
            Ok(totals) => {
                &&& after == b.state
                &&& totals.0 == b.applied
                &&& totals.1 == b.conflicts
                &&& reports(totals.2@, cs)
            },
            Err(_) => false,
        }
    } else {
        refuses_uuid(r, "device_id"@) && after == before
    }
}

/// Applies a batch of changes on behalf of a peer, at the time `now`.
///
/// Fails, without touching the store, exactly when `peer_device_id` is no identifier.
/// Otherwise every change is reconciled in turn against the time of the last exchange
/// with the peer; a change that cannot be read is reported by a line and leaves the store
/// as it is. Then `now` is remembered as the time of this exchange. Returns how many
/// changes were written, how many gave a conflict, and the lines.
pub fn apply_sync_changes_at(
    store: &mut Store,
    changes: &[SyncChange],
    peer_device_id: &str,
    peer_device_name: Option<&str>,
    now: &str,
) -> (r: VoiceResult<(usize, usize, Vec<String>)>)
    requires
        old(store).wf(),
    ensures
        final(store).wf(),
        batch_outcome(
            r,
            final(store)@,
            old(store)@,
            change_views(changes@),
            peer_device_id@,
            opt_str(peer_device_name),
            now@,
        ),
{
    let peer_id = match validate_device_id(peer_device_id) {
        Ok(v) => v,
        Err(e) => {
            return Err(e);
        },
    };
    let last_sync = store.get_peer_last_sync(peer_id);
    let last_sync_at: Option<&str> = match &last_sync {
        Some(t) => Some(t.as_str()),
        None => None,
    };
    let totals = reconcile_batch(store, changes, last_sync_at, now);
    store.update_peer_sync_time(peer_id, peer_device_name, now);
    Ok(totals)
}

/// Applies a batch of changes on behalf of a peer, now.
///
/// Reads the clock, then does what [`apply_sync_changes_at`] does at that time.
pub fn apply_sync_changes(
    store: &mut Store,
    changes: &[SyncChange],
    peer_device_id: &str,
    peer_device_name: Option<&str>,
) -> (r: VoiceResult<(usize, usize, Vec<String>)>)
    requires
        old(store).wf(),
    ensures
        final(store).wf(),
        exists|now: Seq<char>| #[trigger]
            batch_outcome(
                r,
                final(store)@,
                old(store)@,
                change_views(changes@),
                peer_device_id@,
                opt_str(peer_device_name),
                now,
            ),
{
    let now = utc_now_text();
    apply_sync_changes_at(store, changes, peer_device_id, peer_device_name, now.as_str())
}

/// The writes that taking over everything that a peer holds makes: its notes, then its
/// tags, then its associations, each table in its order.
pub open spec fn dataset_writes(data: FullDataset) -> Seq<SyncWrite> {
    Seq::new(data.notes@.len(), |i: int| SyncWrite::Note(data.notes@[i]@)) + Seq::new(
        data.tags@.len(),
        |i: int| SyncWrite::Tag(data.tags@[i]@),
    ) + Seq::new(data.note_tags@.len(), |i: int| SyncWrite::NoteTag(data.note_tags@[i]@))
}

/// How many of the writes are refused: those of a tag that the write would put above
/// itself.
pub open spec fn refused_writes(s: StoreView, ws: Seq<SyncWrite>) -> nat
    decreases ws.len(),
{
    if ws.len() == 0 {
        0
    } else {
        let before = after_writes(s, ws.drop_last());
        let rest = refused_writes(s, ws.drop_last());
        match ws.last() {
            SyncWrite::Tag(t) => if would_cycle(before.tags, t.id, t.parent_id) {
                rest + 1
            } else {
                rest
            },
            _ => rest,
        }
    }
}

/// Takes over everything that a peer holds, for a first sync: every row is written as
/// the peer holds it, whatever this device holds.
///
/// A tag that would be put above itself is left out, and reported by a line.
pub fn apply_full_dataset(store: &mut Store, data: &FullDataset) -> (errors: Vec<String>)
    requires
        old(store).wf(),
    ensures
        final(store).wf(),
        final(store)@ == after_writes(old(store)@, dataset_writes(*data)),
        errors@.len() == refused_writes(old(store)@, dataset_writes(*data)),
        final(store).conflict_ids() == old(store).conflict_ids(),
{
    let ghost start = store@;
    let ghost ws = dataset_writes(*data);
    let ghost a = data.notes@.len() as int;
    let ghost b = data.tags@.len() as int;
    let mut errors: Vec<String> = Vec::new();
    assert(ws.take(0) =~= Seq::<SyncWrite>::empty());
    let mut i: usize = 0;
    while i < data.notes.len()
        invariant
            i <= data.notes.len(),
            store.wf(),
            store.conflict_ids() == old(store).conflict_ids(),
            ws == dataset_writes(*data),
            store@ == after_writes(start, ws.take(i as int)),
            errors@.len() == refused_writes(start, ws.take(i as int)),
        decreases data.notes.len() - i,
    {
        proof {
            assert(ws.take(i + 1).drop_last() =~= ws.take(i as int));
            assert(ws.take(i + 1).last() == SyncWrite::Note(data.notes@[i as int]@));
        }
        store.apply_sync_note(data.notes[i].copy());
        i += 1;
    }
    let mut j: usize = 0;
    while j < data.tags.len()
        invariant
            j <= data.tags.len(),
            a == data.notes@.len(),
            store.wf(),
            store.conflict_ids() == old(store).conflict_ids(),
            ws == dataset_writes(*data),
            store@ == after_writes(start, ws.take(a + j)),
            errors@.len() == refused_writes(start, ws.take(a + j)),
        decreases data.tags.len() - j,
    {
        proof {
            assert(ws.take(a + j + 1).drop_last() =~= ws.take(a + j));
            assert(ws.take(a + j + 1).last() == SyncWrite::Tag(data.tags@[j as int]@));
        }
        match store.apply_sync_tag(data.tags[j].copy()) {
            Ok(_) => {},
            Err(e) => {
                errors.push(e.to_string());
            },
        }
        j += 1;
    }
    let mut k: usize = 0;
    while k < data.note_tags.len()
        invariant
            k <= data.note_tags.len(),
            a == data.notes@.len(),
            b == data.tags@.len(),
            store.wf(),
            store.conflict_ids() == old(store).conflict_ids(),
            ws == dataset_writes(*data),
            store@ == after_writes(start, ws.take(a + b + k)),
            errors@.len() == refused_writes(start, ws.take(a + b + k)),
        decreases data.note_tags.len() - k,
    {
        proof {
            assert(ws.take(a + b + k + 1).drop_last() =~= ws.take(a + b + k));
            assert(ws.take(a + b + k + 1).last() == SyncWrite::NoteTag(
                data.note_tags@[k as int]@,
            ));
        }
        store.apply_sync_note_tag(data.note_tags[k].copy());
        k += 1;
    }
    assert(ws.take(ws.len() as int) =~= ws);
    errors
}

} // verus!
