//! What holds of the store and of the reconciler across calls.

use crate::changes::SyncChangeView;
use crate::error::VoiceResult;
use crate::feed::{all_changes, changes_after, feed, is_after, lemma_changes_after};
use crate::local::{
    after_add_tag, after_delete_note, after_delete_tag, after_remove_tag, insert_note_outcome,
    insert_tag_outcome, move_tag_outcome, rename_tag_outcome, update_note_outcome,
};
use crate::reconcile::{already_seen, incoming_time};
use crate::rows::{NoteTagView, NoteView, TagView};
use crate::store::{note_key, note_tag_key, peer_key, StoreView};
use crate::sync::{run, sync_outcome, BatchView};
use crate::tables::{find, lemma_put, lemma_put_members, put};
use crate::text::lex_le;
use crate::tree::{lemma_reparent_keeps_acyclic, tag_key, would_cycle};
use vstd::prelude::*;

verus! {

/// One row written on behalf of a peer.
pub enum SyncWrite {
    Note(NoteView),
    Tag(TagView),
    NoteTag(NoteTagView),
}

/// The store after one write on behalf of a peer.
pub open spec fn after_write(s: StoreView, w: SyncWrite) -> StoreView {
    match w {
        SyncWrite::Note(n) => s.with_note(n),
        SyncWrite::Tag(t) => s.with_tag(t),
        SyncWrite::NoteTag(a) => s.with_note_tag(a),
    }
}

/// The store after a sequence of writes on behalf of peers.
pub open spec fn after_writes(s: StoreView, ws: Seq<SyncWrite>) -> StoreView
    decreases ws.len(),
{
    if ws.len() == 0 {
        s
    } else {
        after_write(after_writes(s, ws.drop_last()), ws.last())
    }
}

/// The last note written under the identifier `id`, if one was.
pub open spec fn last_note_written(ws: Seq<SyncWrite>, id: u128) -> Option<NoteView>
    decreases ws.len(),
{
    if ws.len() == 0 {
        None
    } else {
        match ws.last() {
            SyncWrite::Note(n) if n.id == id => Some(n),
            _ => last_note_written(ws.drop_last(), id),
        }
    }
}

/// A write on behalf of a peer keeps the store well formed.
pub proof fn lemma_write_keeps_wf(s: StoreView, w: SyncWrite)
    requires
        s.wf(),
    ensures
        after_write(s, w).wf(),
{
    match w {
        SyncWrite::Note(n) => {
            lemma_put(s.notes, note_key(), n);
        },
        SyncWrite::Tag(t) => {
            if !would_cycle(s.tags, t.id, t.parent_id) {
                lemma_put(s.tags, tag_key(), t);
                lemma_reparent_keeps_acyclic(s.tags, put(s.tags, tag_key(), t), t.id, t.parent_id);
            }
        },
        SyncWrite::NoteTag(a) => {
            lemma_put(s.note_tags, note_tag_key(), a);
        },
    }
}

/// After any sequence of writes on behalf of peers, the note found under an identifier is
/// the last one written under it: the one that was there where none was written.
pub proof fn lemma_last_write_wins(s: StoreView, ws: Seq<SyncWrite>, id: u128)
    requires
        s.wf(),
    ensures
        after_writes(s, ws).wf(),
        find(after_writes(s, ws).notes, note_key(), id) == match last_note_written(ws, id) {
            Some(n) => Some(n),
            None => find(s.notes, note_key(), id),
        },
    decreases ws.len(),
{
    if ws.len() > 0 {
        let before = after_writes(s, ws.drop_last());
        lemma_last_write_wins(s, ws.drop_last(), id);
        lemma_write_keeps_wf(before, ws.last());
        match ws.last() {
            SyncWrite::Note(n) => {
                lemma_put(before.notes, note_key(), n);
            },
            _ => {},
        }
    }
}

/// Whether no row of the store was modified or deleted before it was created.
pub open spec fn times_ordered(s: StoreView) -> bool {
    &&& forall|i: int| 0 <= i < s.notes.len() ==> (#[trigger] s.notes[i]).times_ordered()
    &&& forall|i: int| 0 <= i < s.tags.len() ==> (#[trigger] s.tags[i]).times_ordered()
    &&& forall|i: int| 0 <= i < s.note_tags.len() ==> (#[trigger] s.note_tags[i]).times_ordered()
}

/// Whether the row that a write carries was neither modified nor deleted before it was
/// created.
pub open spec fn write_ordered(w: SyncWrite) -> bool {
    match w {
        SyncWrite::Note(n) => n.times_ordered(),
        SyncWrite::Tag(t) => t.times_ordered(),
        SyncWrite::NoteTag(a) => a.times_ordered(),
    }
}

/// Rows whose times are in order stay so under writes on behalf of peers that carry rows
/// whose times are in order.
pub proof fn lemma_writes_keep_times_ordered(s: StoreView, ws: Seq<SyncWrite>)
    requires
        times_ordered(s),
        forall|i: int| 0 <= i < ws.len() ==> write_ordered(#[trigger] ws[i]),
    ensures
        times_ordered(after_writes(s, ws)),
    decreases ws.len(),
{
    if ws.len() > 0 {
        let before = after_writes(s, ws.drop_last());
        assert forall|i: int| 0 <= i < ws.drop_last().len() implies write_ordered(
            #[trigger] ws.drop_last()[i],
        ) by {
            assert(ws.drop_last()[i] == ws[i]);
        }
        lemma_writes_keep_times_ordered(s, ws.drop_last());
        assert(write_ordered(ws[ws.len() - 1]));
        match ws.last() {
            SyncWrite::Note(n) => {
                lemma_put_members(before.notes, note_key(), n);
            },
            SyncWrite::Tag(t) => {
                lemma_put_members(before.tags, tag_key(), t);
            },
            SyncWrite::NoteTag(a) => {
                lemma_put_members(before.note_tags, note_tag_key(), a);
            },
        }
    }
}

/// A batch touches neither what is remembered of peers nor the device.
pub proof fn lemma_run_keeps_peers(
    s: StoreView,
    cs: Seq<SyncChangeView>,
    last_sync: Option<Seq<char>>,
    now: Seq<char>,
)
    ensures
        run(s, cs, last_sync, now).state.peers == s.peers,
        run(s, cs, last_sync, now).state.device_id == s.device_id,
    decreases cs.len(),
{
    if cs.len() > 0 {
        lemma_run_keeps_peers(s, cs.drop_last(), last_sync, now);
    }
}

/// Changes that were seen before are all left: nothing is written, nothing is recorded,
/// and the store stays as it is.
pub proof fn lemma_seen_changes_are_skipped(
    s: StoreView,
    cs: Seq<SyncChangeView>,
    last_sync: Option<Seq<char>>,
    now: Seq<char>,
)
    requires
        forall|i: int| 0 <= i < cs.len() ==> already_seen(#[trigger] cs[i], last_sync),
    ensures
        run(s, cs, last_sync, now) == (BatchView { state: s, applied: 0, conflicts: 0 }),
    decreases cs.len(),
{
    if cs.len() > 0 {
        assert forall|i: int| 0 <= i < cs.drop_last().len() implies already_seen(
            #[trigger] cs.drop_last()[i],
            last_sync,
        ) by {
            assert(cs.drop_last()[i] == cs[i]);
        }
        lemma_seen_changes_are_skipped(s, cs.drop_last(), last_sync, now);
        assert(already_seen(cs[cs.len() - 1], last_sync));
    }
}

/// A batch delivered a second time changes nothing but the time of the last exchange.
///
/// This holds of changes that carry the time of their write, none of them after the time
/// at which the first delivery was remembered.
pub proof fn lemma_second_delivery_is_skipped(
    s: StoreView,
    cs: Seq<SyncChangeView>,
    peer_id: u128,
    peer_name: Option<Seq<char>>,
    first_time: Seq<char>,
    second_time: Seq<char>,
)
    requires
        s.wf(),
        forall|i: int|
            0 <= i < cs.len() ==> match incoming_time(#[trigger] cs[i]) {
                Some(t) => lex_le(t, first_time),
                None => false,
            },
    ensures
        ({
            let first = sync_outcome(s, cs, peer_id, peer_name, first_time);
            let second = sync_outcome(first.state, cs, peer_id, peer_name, second_time);
            &&& second.applied == 0
            &&& second.conflicts == 0
            &&& second.state == first.state.with_sync_time(peer_id, peer_name, second_time)
        }),
{
    let b = run(s, cs, s.last_sync(peer_id), first_time);
    lemma_run_keeps_peers(s, cs, s.last_sync(peer_id), first_time);
    let first = sync_outcome(s, cs, peer_id, peer_name, first_time);
    let name = match peer_name {
        Some(n) => Some(n),
        None => match find(b.state.peers, peer_key(), peer_id) {
            Some(p) => p.peer_name,
            None => None,
        },
    };
    lemma_put(
        b.state.peers,
        peer_key(),
        crate::rows::PeerView { peer_id, peer_name: name, last_sync_at: Some(first_time) },
    );
    assert(first.state.last_sync(peer_id) == Some(first_time));
    assert forall|i: int| 0 <= i < cs.len() implies already_seen(
        #[trigger] cs[i],
        Some(first_time),
    ) by {
        assert(incoming_time(cs[i]) is Some);
    }
    lemma_seen_changes_are_skipped(first.state, cs, Some(first_time), second_time);
}

/// A store whose rows were all last written at or before `since` has nothing to tell.
pub proof fn lemma_nothing_new(s: StoreView, since: Seq<char>, limit: nat)
    requires
        forall|i: int|
            0 <= i < all_changes(s).len() ==> lex_le(
                (#[trigger] all_changes(s)[i]).timestamp,
                since,
            ),
    ensures
        feed(s, Some(since), limit).len() == 0,
{
    let all = all_changes(s);
    let kept = changes_after(all, Some(since));
    lemma_changes_after(all, Some(since));
    if kept.len() > 0 {
        assert(all.contains(kept[0]) && is_after(kept[0].timestamp, Some(since)));
        let k = choose|k: int| 0 <= k < all.len() && all[k] == kept[0];
        assert(lex_le(all[k].timestamp, since));
        crate::text::lemma_lex_asymmetric(since, kept[0].timestamp, 0);
    }
    crate::feed::lemma_sort_by_time(kept);
}

/// Whether no row of the store was created after `now`.
pub open spec fn created_by(s: StoreView, now: Seq<char>) -> bool {
    &&& forall|i: int| 0 <= i < s.notes.len() ==> lex_le((#[trigger] s.notes[i]).created_at, now)
    &&& forall|i: int| 0 <= i < s.tags.len() ==> lex_le((#[trigger] s.tags[i]).created_at, now)
    &&& forall|i: int|
        0 <= i < s.note_tags.len() ==> lex_le((#[trigger] s.note_tags[i]).created_at, now)
}

/// Rows whose times are in order stay so when this device writes a note at a time that is
/// not before the creation of any row.
pub proof fn lemma_note_writes_keep_times_ordered(
    before: StoreView,
    after: StoreView,
    id: u128,
    content: Seq<char>,
    now: Seq<char>,
    created: VoiceResult<()>,
    updated: VoiceResult<bool>,
)
    requires
        before.wf(),
        times_ordered(before),
        created_by(before, now),
        insert_note_outcome(created, after, before, id, content, now) || update_note_outcome(
            updated,
            after,
            before,
            id,
            content,
            now,
        ) || after == after_delete_note(before, id, now),
    ensures
        times_ordered(after),
{
    if after != before {
        match crate::tables::find(before.notes, note_key(), id) {
            Some(n) => {
                crate::tables::lemma_find_some(before.notes, note_key(), id);
            },
            None => {},
        }
        assert forall|i: int| 0 <= i < after.notes.len() implies (
        #[trigger] after.notes[i]).times_ordered() by {
            if insert_note_outcome(created, after, before, id, content, now) {
                lemma_put_members(
                    before.notes,
                    note_key(),
                    crate::local::new_note(before, id, content, now),
                );
            } else {
                let n = crate::tables::find(before.notes, note_key(), id)->0;
                if update_note_outcome(updated, after, before, id, content, now) {
                    lemma_put_members(
                        before.notes,
                        note_key(),
                        NoteView {
                            content,
                            modified_at: Some(now),
                            device_id: Some(before.device_id),
                            ..n
                        },
                    );
                } else {
                    lemma_put_members(
                        before.notes,
                        note_key(),
                        NoteView {
                            deleted_at: Some(now),
                            modified_at: Some(now),
                            device_id: Some(before.device_id),
                            ..n
                        },
                    );
                }
            }
        }
    }
}

/// Rows whose times are in order stay so when this device writes a tag at a time that is
/// not before the creation of any row.
pub proof fn lemma_tag_writes_keep_times_ordered(
    before: StoreView,
    after: StoreView,
    id: u128,
    name: Seq<char>,
    parent: Option<u128>,
    now: Seq<char>,
    created: VoiceResult<()>,
    changed: VoiceResult<bool>,
)
    requires
        before.wf(),
        times_ordered(before),
        created_by(before, now),
        insert_tag_outcome(created, after, before, id, name, parent, now) || rename_tag_outcome(
            changed,
            after,
            before,
            id,
            name,
            now,
        ) || move_tag_outcome(changed, after, before, id, parent, now),
    ensures
        times_ordered(after),
{
    if after != before {
        match crate::tables::find(before.tags, tag_key(), id) {
            Some(t) => {
                crate::tables::lemma_find_some(before.tags, tag_key(), id);
            },
            None => {},
        }
        assert forall|i: int| 0 <= i < after.tags.len() implies (
        #[trigger] after.tags[i]).times_ordered() by {
            if insert_tag_outcome(created, after, before, id, name, parent, now) {
                lemma_put_members(
                    before.tags,
                    tag_key(),
                    crate::local::new_tag(before, id, crate::text::trimmed(name), parent, now),
                );
            } else {
                let t = crate::tables::find(before.tags, tag_key(), id)->0;
                if rename_tag_outcome(changed, after, before, id, name, now) {
                    lemma_put_members(
                        before.tags,
                        tag_key(),
                        TagView {
                            name: crate::text::trimmed(name),
                            modified_at: Some(now),
                            device_id: Some(before.device_id),
                            ..t
                        },
                    );
                } else {
                    lemma_put_members(
                        before.tags,
                        tag_key(),
                        TagView {
                            parent_id: parent,
                            modified_at: Some(now),
                            device_id: Some(before.device_id),
                            ..t
                        },
                    );
                }
            }
        }
    }
}

/// Rows whose times are in order stay so when this device puts a tag on a note, takes one
/// off, or deletes a tag, at a time that is not before the creation of any row.
pub proof fn lemma_tagging_keeps_times_ordered(
    before: StoreView,
    after: StoreView,
    note_id: u128,
    tag_id: u128,
    now: Seq<char>,
)
    requires
        before.wf(),
        times_ordered(before),
        created_by(before, now),
        after == after_add_tag(before, note_id, tag_id, now) || after == after_remove_tag(
            before,
            note_id,
            tag_id,
            now,
        ) || after == after_delete_tag(before, tag_id, now),
    ensures
        times_ordered(after),
{
    let key = (note_id, tag_id);
    match crate::tables::find(before.note_tags, note_tag_key(), key) {
        Some(a) => {
            crate::tables::lemma_find_some(before.note_tags, note_tag_key(), key);
        },
        None => {},
    }
    assert forall|i: int| 0 <= i < after.note_tags.len() implies (
    #[trigger] after.note_tags[i]).times_ordered() by {
        if after == after_delete_tag(before, tag_id, now) {
            if after != before {
                assert(before.note_tags[i].times_ordered());
            }
        } else if after != before {
            let found = crate::tables::find(before.note_tags, note_tag_key(), key);
            if after == after_add_tag(before, note_id, tag_id, now) {
                match found {
                    None => {
                        lemma_put_members(
                            before.note_tags,
                            note_tag_key(),
                            NoteTagView {
                                note_id,
                                tag_id,
                                created_at: now,
                                device_id: Some(before.device_id),
                                modified_at: None,
                                deleted_at: None,
                            },
                        );
                    },
                    Some(a) => {
                        lemma_put_members(
                            before.note_tags,
                            note_tag_key(),
                            NoteTagView {
                                deleted_at: None,
                                modified_at: Some(now),
                                device_id: Some(before.device_id),
                                ..a
                            },
                        );
                    },
                }
            } else {
                lemma_put_members(
                    before.note_tags,
                    note_tag_key(),
                    NoteTagView {
                        deleted_at: Some(now),
                        modified_at: Some(now),
                        device_id: Some(before.device_id),
                        ..found->0
                    },
                );
            }
        }
    }
}

/// Whether every row that `before` holds, `after` holds too, by its key.
pub open spec fn keeps_rows(before: StoreView, after: StoreView) -> bool {
    &&& forall|k: u128|
        crate::tables::has_key(before.notes, note_key(), k) ==> #[trigger] crate::tables::has_key(
            after.notes,
            note_key(),
            k,
        )
    &&& forall|k: u128|
        crate::tables::has_key(before.tags, tag_key(), k) ==> #[trigger] crate::tables::has_key(
            after.tags,
            tag_key(),
            k,
        )
    &&& forall|k: (u128, u128)|
        crate::tables::has_key(before.note_tags, note_tag_key(), k)
            ==> #[trigger] crate::tables::has_key(after.note_tags, note_tag_key(), k)
}

/// No write on behalf of a peer removes a row.
pub proof fn lemma_sync_writes_keep_rows(s: StoreView, ws: Seq<SyncWrite>)
    requires
        s.wf(),
    ensures
        after_writes(s, ws).wf(),
        keeps_rows(s, after_writes(s, ws)),
    decreases ws.len(),
{
    if ws.len() > 0 {
        let before = after_writes(s, ws.drop_last());
        lemma_sync_writes_keep_rows(s, ws.drop_last());
        lemma_write_keeps_wf(before, ws.last());
        match ws.last() {
            SyncWrite::Note(n) => {
                lemma_put(before.notes, note_key(), n);
            },
            SyncWrite::Tag(t) => {
                lemma_put(before.tags, tag_key(), t);
            },
            SyncWrite::NoteTag(a) => {
                lemma_put(before.note_tags, note_tag_key(), a);
            },
        }
    }
}

/// No write of this device removes a row: a deletion leaves the row where it is.
pub proof fn lemma_local_writes_keep_rows(
    before: StoreView,
    after: StoreView,
    id: u128,
    other: u128,
    text: Seq<char>,
    parent: Option<u128>,
    now: Seq<char>,
    created: VoiceResult<()>,
    changed: VoiceResult<bool>,
)
    requires
        before.wf(),
        ({
            ||| insert_note_outcome(created, after, before, id, text, now)
            ||| update_note_outcome(changed, after, before, id, text, now)
            ||| after == after_delete_note(before, id, now)
            ||| insert_tag_outcome(created, after, before, id, text, parent, now)
            ||| rename_tag_outcome(changed, after, before, id, text, now)
            ||| move_tag_outcome(changed, after, before, id, parent, now)
            ||| after == after_delete_tag(before, id, now)
            ||| after == after_add_tag(before, id, other, now)
            ||| after == after_remove_tag(before, id, other, now)
        }),
    ensures
        keeps_rows(before, after),
{
    if after != before {
        if after == after_delete_tag(before, id, now) {
            assert forall|k: (u128, u128)|
                crate::tables::has_key(before.note_tags, note_tag_key(), k)
                    implies #[trigger] crate::tables::has_key(
                after.note_tags,
                note_tag_key(),
                k,
            ) by {
                crate::tables::lemma_find_some(before.note_tags, note_tag_key(), k);
                let i = crate::tables::place_of(before.note_tags, note_tag_key(), k);
                assert(note_tag_key()(after.note_tags[i]) == k);
            }
        } else {
            assert forall|row: NoteView| #[trigger]
                keeps_rows(before, before.with_note(row)) by {
                lemma_put(before.notes, note_key(), row);
            }
            assert forall|row: TagView| #[trigger] keeps_rows(before, before.with_tag(row)) by {
                lemma_put(before.tags, tag_key(), row);
            }
            assert forall|row: NoteTagView| #[trigger]
                keeps_rows(before, before.with_note_tag(row)) by {
                lemma_put(before.note_tags, note_tag_key(), row);
            }
        }
    }
}

} // verus!
