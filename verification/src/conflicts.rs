//! Conflicts: listing them, counting them, and resolving them.
//!
//! A conflict is resolved by a decision of the user. The decision is written as any write
//! of this device is, and the conflict is marked as resolved.

use crate::error::{ErrorView, VoiceError, VoiceResult};
use crate::local::{after_add_tag, after_remove_tag, fails_with, parent_known, sibling_named};
use crate::query::kept;
use crate::rows::{
    conflict_views, ConflictKind, ConflictRow, ConflictView, NoteRow, NoteView, TagView,
};
use crate::store::{closed_at, id_place, note_key, Store, StoreView};
use crate::tables::find;
use crate::text::trimmed;
use crate::tree::{tag_key, would_cycle};
use crate::validation::{
    note_content_refusal, refusal, refuses, tag_name_refusal, validate_note_content,
    validate_tag_name,
};
use vstd::prelude::*;
use vstd::string::*;

verus! {

/// How many conflicts of each kind wait for a decision.
#[derive(Debug, Clone, Copy, PartialEq, Eq, Structural)]
pub struct ConflictCounts {
    pub note_content: usize,
    pub note_delete: usize,
    pub tag_rename: usize,
    pub tag_parent: usize,
    pub tag_delete: usize,
    pub note_tag: usize,
}

/// The condition that a listing puts on a conflict: of the kind `kind`, and unresolved
/// unless the resolved ones are asked for too.
pub open spec fn listed(kind: ConflictKind, include_resolved: bool) -> spec_fn(ConflictView) -> bool {
    |c: ConflictView| c.kind == kind && (include_resolved || c.resolved_at is None)
}

/// The identifiers of the first `upto` conflicts that meet a condition, in their order.
pub open spec fn kept_ids(
    conflicts: Seq<ConflictView>,
    ids: Seq<u128>,
    keep: spec_fn(ConflictView) -> bool,
    upto: int,
) -> Seq<u128>
    decreases upto,
{
    if upto <= 0 || upto > conflicts.len() || upto > ids.len() {
        Seq::empty()
    } else if keep(conflicts[upto - 1]) {
        kept_ids(conflicts, ids, keep, upto - 1).push(ids[upto - 1])
    } else {
        kept_ids(conflicts, ids, keep, upto - 1)
    }
}

/// How many conflicts of the kind `kind` wait for a decision.
pub open spec fn open_count(conflicts: Seq<ConflictView>, kind: ConflictKind) -> nat {
    kept(conflicts, listed(kind, false)).len()
}

/// The place of the conflict `id` where it is of the kind `kind` and waits for a
/// decision; none where there is no such conflict.
pub open spec fn open_conflict(s: StoreView, ids: Seq<u128>, id: u128, kind: ConflictKind) -> Option<
    int,
> {
    let at = id_place(ids, id, 0);
    if at < s.conflicts.len() && s.conflicts[at].kind == kind && s.conflicts[at].resolved_at is None {
        Some(at)
    } else {
        None
    }
}

/// Whether `r` and the store `after` are what deciding a conflict on the content of a
/// note gives: the refusal of a content that is none; false where no such conflict waits
/// or the note is not there; else the note with the content, written by this device at
/// `now`, and the conflict resolved at `now`.
pub open spec fn content_decision(
    r: VoiceResult<bool>,
    after: StoreView,
    before: StoreView,
    ids: Seq<u128>,
    id: u128,
    content: Seq<char>,
    now: Seq<char>,
) -> bool {
    match note_content_refusal(content) {
        Some(m) => refuses(r, "content"@, m) && after == before,
        None => match open_conflict(before, ids, id, ConflictKind::NoteContent) {
            None => r == Ok::<bool, VoiceError>(false) && after == before,
            Some(at) => match find(before.notes, note_key(), before.conflicts[at].entity_id) {
                None => r == Ok::<bool, VoiceError>(false) && after == before,
                Some(n) => r == Ok::<bool, VoiceError>(true) && after == closed_at(
                    before.with_note(
                        NoteView {
                            content,
                            modified_at: Some(now),
                            device_id: Some(before.device_id),
                            ..n
                        },
                    ),
                    at,
                    now,
                ),
            },
        },
    }
}

/// The note after the decision on its deletion: restored, or deleted: at the time at
/// which it was deleted or, where this device had not deleted it, at `now`.
pub open spec fn decided_note(n: NoteView, restore: bool, device_id: u128, now: Seq<char>) -> NoteView {
    NoteView {
        deleted_at: if restore {
            None
        } else {
            match n.deleted_at {
                Some(t) => Some(t),
                None => Some(now),
            }
        },
        modified_at: Some(now),
        device_id: Some(device_id),
        ..n
    }
}

/// The store after the decision on the deletion of a note: as it was where no such
/// conflict waits or the note is not there.
pub open spec fn after_delete_decision(
    s: StoreView,
    ids: Seq<u128>,
    id: u128,
    restore: bool,
    now: Seq<char>,
) -> StoreView {
    match open_conflict(s, ids, id, ConflictKind::NoteDelete) {
        None => s,
        Some(at) => match find(s.notes, note_key(), s.conflicts[at].entity_id) {
            None => s,
            Some(n) => closed_at(s.with_note(decided_note(n, restore, s.device_id, now)), at, now),
        },
    }
}

/// Whether `r` and the store `after` are what deciding a conflict on the name of a tag
/// gives: what renaming the tag gives and, where the tag was renamed, the conflict
/// resolved at `now`. False where no such conflict waits.
pub open spec fn rename_decision(
    r: VoiceResult<bool>,
    after: StoreView,
    before: StoreView,
    ids: Seq<u128>,
    id: u128,
    name: Seq<char>,
    now: Seq<char>,
) -> bool {
    match tag_name_refusal(name) {
        Some(m) => refuses(r, "tag_name"@, m) && after == before,
        None => match open_conflict(before, ids, id, ConflictKind::TagRename) {
            None => r == Ok::<bool, VoiceError>(false) && after == before,
            Some(at) => match find(before.tags, tag_key(), before.conflicts[at].entity_id) {
                None => r == Ok::<bool, VoiceError>(false) && after == before,
                Some(t) => if sibling_named(before.tags, t.parent_id, trimmed(name), Some(t.id)) {
                    after == before && fails_with(
                        r,
                        ErrorView::Conflict("a tag of this name exists under this parent"@),
                    )
                } else {
                    r == Ok::<bool, VoiceError>(true) && after == closed_at(
                        before.with_tag(
                            TagView {
                                name: trimmed(name),
                                modified_at: Some(now),
                                device_id: Some(before.device_id),
                                ..t
                            },
                        ),
                        at,
                        now,
                    )
                },
            },
        },
    }
}

/// Whether `r` and the store `after` are what deciding a conflict on the parent of a tag
/// gives: what moving the tag gives and, where the tag was moved, the conflict resolved
/// at `now`. False where no such conflict waits.
pub open spec fn parent_decision(
    r: VoiceResult<bool>,
    after: StoreView,
    before: StoreView,
    ids: Seq<u128>,
    id: u128,
    parent: Option<u128>,
    now: Seq<char>,
) -> bool {
    match open_conflict(before, ids, id, ConflictKind::TagParent) {
        None => r == Ok::<bool, VoiceError>(false) && after == before,
        Some(at) => {
            let tag = before.conflicts[at].entity_id;
            match find(before.tags, tag_key(), tag) {
                None => r == Ok::<bool, VoiceError>(false) && after == before,
                Some(t) => if !parent_known(before, parent) {
                    after == before && fails_with(r, ErrorView::NotFound("parent tag"@))
                } else if would_cycle(before.tags, tag, parent) {
                    after == before && fails_with(r, refusal("parent_id"@, "tag cycle"@))
                } else if sibling_named(before.tags, parent, t.name, Some(tag)) {
                    after == before && fails_with(
                        r,
                        ErrorView::Conflict("a tag of this name exists under this parent"@),
                    )
                } else {
                    r == Ok::<bool, VoiceError>(true) && after == closed_at(
                        before.with_tag(
                            TagView {
                                parent_id: parent,
                                modified_at: Some(now),
                                device_id: Some(before.device_id),
                                ..t
                            },
                        ),
                        at,
                        now,
                    )
                },
            }
        },
    }
}

/// The store after the decision on a tag of a note: the tag put on the note or taken off
/// it, and the conflict resolved at `now`; as it was where no such conflict waits.
pub open spec fn after_note_tag_decision(
    s: StoreView,
    ids: Seq<u128>,
    id: u128,
    keep: bool,
    now: Seq<char>,
) -> StoreView {
    match open_conflict(s, ids, id, ConflictKind::NoteTag) {
        None => s,
        Some(at) => match s.conflicts[at].tag_id {
            None => s,
            Some(tag) => closed_at(
                if keep {
                    after_add_tag(s, s.conflicts[at].entity_id, tag, now)
                } else {
                    after_remove_tag(s, s.conflicts[at].entity_id, tag, now)
                },
                at,
                now,
            ),
        },
    }
}

impl Store {
    /// The conflicts of the kind `kind` that wait for a decision, or all of that kind.
    pub fn get_conflicts(&self, kind: ConflictKind, include_resolved: bool) -> (r: Vec<ConflictRow>)
        ensures
            conflict_views(r@) == kept(self@.conflicts, listed(kind, include_resolved)),
            crate::rows::conflict_ids(r@) == kept_ids(
                self@.conflicts,
                self.conflict_ids(),
                listed(kind, include_resolved),
                self@.conflicts.len() as int,
            ),
    {
        let rows = self.conflicts();
        let ghost all = self@.conflicts;
        let ghost ids = self.conflict_ids();
        let ghost keep = listed(kind, include_resolved);
        let mut out: Vec<ConflictRow> = Vec::new();
        let mut i: usize = 0;
        assert(all.take(0) =~= Seq::<ConflictView>::empty());
        assert(conflict_views(out@) =~= kept(all.take(0), keep));
        assert(crate::rows::conflict_ids(out@) =~= kept_ids(all, ids, keep, 0));
        assert(conflict_views(rows@).len() == rows@.len());
        assert(crate::rows::conflict_ids(rows@).len() == rows@.len());
        while i < rows.len()
            invariant
                i <= rows.len(),
                conflict_views(rows@) == all,
                crate::rows::conflict_ids(rows@) == ids,
                rows@.len() == all.len(),
                rows@.len() == ids.len(),
                keep == listed(kind, include_resolved),
                conflict_views(out@) == kept(all.take(i as int), keep),
                crate::rows::conflict_ids(out@) == kept_ids(all, ids, keep, i as int),
            decreases rows.len() - i,
        {
            proof {
                assert(all[i as int] == rows@[i as int]@);
                assert(all.take(i + 1).drop_last() =~= all.take(i as int));
                assert(all.take(i + 1).last() == rows@[i as int]@);
            }
            assert(ids[i as int] == rows@[i as int].id);
            if rows[i].kind == kind && (include_resolved || rows[i].resolved_at.is_none()) {
                let ghost before = conflict_views(out@);
                let ghost before_ids = crate::rows::conflict_ids(out@);
                out.push(rows[i].copy());
                assert(conflict_views(out@) =~= before.push(rows@[i as int]@));
                assert(crate::rows::conflict_ids(out@) =~= before_ids.push(rows@[i as int].id));
            }
            i += 1;
        }
        assert(all.take(all.len() as int) =~= all);
        out
    }

    /// How many conflicts of each kind wait for a decision.
    pub fn get_unresolved_conflict_counts(&self) -> (c: ConflictCounts)
        ensures
            c.note_content == open_count(self@.conflicts, ConflictKind::NoteContent),
            c.note_delete == open_count(self@.conflicts, ConflictKind::NoteDelete),
            c.tag_rename == open_count(self@.conflicts, ConflictKind::TagRename),
            c.tag_parent == open_count(self@.conflicts, ConflictKind::TagParent),
            c.tag_delete == open_count(self@.conflicts, ConflictKind::TagDelete),
            c.note_tag == open_count(self@.conflicts, ConflictKind::NoteTag),
    {
        let a = self.get_conflicts(ConflictKind::NoteContent, false);
        let b = self.get_conflicts(ConflictKind::NoteDelete, false);
        let c = self.get_conflicts(ConflictKind::TagRename, false);
        let d = self.get_conflicts(ConflictKind::TagParent, false);
        let e = self.get_conflicts(ConflictKind::TagDelete, false);
        let f = self.get_conflicts(ConflictKind::NoteTag, false);
        assert(conflict_views(a@).len() == a@.len());
        assert(conflict_views(b@).len() == b@.len());
        assert(conflict_views(c@).len() == c@.len());
        assert(conflict_views(d@).len() == d@.len());
        assert(conflict_views(e@).len() == e@.len());
        assert(conflict_views(f@).len() == f@.len());
        ConflictCounts {
            note_content: a.len(),
            note_delete: b.len(),
            tag_rename: c.len(),
            tag_parent: d.len(),
            tag_delete: e.len(),
            note_tag: f.len(),
        }
    }

    /// The place and the subject of the conflict `conflict_id` where it is of the kind
    /// `kind` and waits for a decision.
    fn waiting(&self, conflict_id: u128, kind: ConflictKind) -> (r: Option<(usize, u128, Option<u128>)>)
        ensures
            match r {
                Some(found) => open_conflict(self@, self.conflict_ids(), conflict_id, kind) == Some(
                    found.0 as int,
                ) && found.0 < self@.conflicts.len() && found.1
                    == self@.conflicts[found.0 as int].entity_id && found.2
                    == self@.conflicts[found.0 as int].tag_id,
                None => open_conflict(self@, self.conflict_ids(), conflict_id, kind) is None,
            },
    {
        let at = match self.find_conflict(conflict_id) {
            Some(at) => at,
            None => {
                return None;
            },
        };
        let rows = self.conflicts();
        assert(conflict_views(rows@).len() == rows@.len());
        let row = &rows[at];
        assert(self@.conflicts[at as int] == row@);
        if row.kind == kind && row.resolved_at.is_none() {
            Some((at, row.entity_id, row.tag_id))
        } else {
            None
        }
    }

    /// Decides a conflict on the content of a note: the note gets the content
    /// `new_content`.
    pub fn resolve_note_content_conflict(
        &mut self,
        conflict_id: u128,
        new_content: &str,
        now: &str,
    ) -> (r: VoiceResult<bool>)
        requires
            old(self).wf(),
        ensures
            final(self).wf(),
            final(self).conflict_ids() == old(self).conflict_ids(),
            content_decision(
                r,
                final(self)@,
                old(self)@,
                old(self).conflict_ids(),
                conflict_id,
                new_content@,
                now@,
            ),
    {
        match validate_note_content(new_content) {
            Ok(_) => {},
            Err(e) => {
                return Err(e);
            },
        }
        let (at, note_id, _) = match self.waiting(conflict_id, ConflictKind::NoteContent) {
            Some(found) => found,
            None => {
                return Ok(false);
            },
        };
        let row = match self.get_note_raw(note_id) {
            Some(row) => row,
            None => {
                return Ok(false);
            },
        };
        let device = self.device_id();
        self.apply_sync_note(
            NoteRow {
                id: row.id,
                created_at: row.created_at,
                content: String::from_str(new_content),
                device_id: Some(device),
                modified_at: Some(String::from_str(now)),
                deleted_at: row.deleted_at,
            },
        );
        self.close_conflict(at, now);
        Ok(true)
    }

    /// Decides a conflict on the deletion of a note: the note is restored, or it is
    /// deleted. Tells whether a conflict was decided.
    pub fn resolve_note_delete_conflict(
        &mut self,
        conflict_id: u128,
        restore_note: bool,
        now: &str,
    ) -> (decided: bool)
        requires
            old(self).wf(),
        ensures
            final(self).wf(),
            final(self).conflict_ids() == old(self).conflict_ids(),
            final(self)@ == after_delete_decision(
                old(self)@,
                old(self).conflict_ids(),
                conflict_id,
                restore_note,
                now@,
            ),
            decided == match open_conflict(
                old(self)@,
                old(self).conflict_ids(),
                conflict_id,
                ConflictKind::NoteDelete,
            ) {
                Some(at) => find(
                    old(self)@.notes,
                    note_key(),
                    old(self)@.conflicts[at].entity_id,
                ) is Some,
                None => false,
            },
    {
        let (at, note_id, _) = match self.waiting(conflict_id, ConflictKind::NoteDelete) {
            Some(found) => found,
            None => {
                return false;
            },
        };
        let row = match self.get_note_raw(note_id) {
            Some(row) => row,
            None => {
                return false;
            },
        };
        let device = self.device_id();
        let deleted_at = if restore_note {
            None
        } else {
            match row.deleted_at {
                Some(t) => Some(t),
                None => Some(String::from_str(now)),
            }
        };
        self.apply_sync_note(
            NoteRow {
                id: row.id,
                created_at: row.created_at,
                content: row.content,
                device_id: Some(device),
                modified_at: Some(String::from_str(now)),
                deleted_at,
            },
        );
        self.close_conflict(at, now);
        true
    }

    /// Decides a conflict on the name of a tag: the tag gets the name `new_name`.
    pub fn resolve_tag_rename_conflict(
        &mut self,
        conflict_id: u128,
        new_name: &str,
        now: &str,
    ) -> (r: VoiceResult<bool>)
        requires
            old(self).wf(),
        ensures
            final(self).wf(),
            final(self).conflict_ids() == old(self).conflict_ids(),
            rename_decision(
                r,
                final(self)@,
                old(self)@,
                old(self).conflict_ids(),
                conflict_id,
                new_name@,
                now@,
            ),
    {
        match validate_tag_name(new_name) {
            Ok(_) => {},
            Err(e) => {
                return Err(e);
            },
        }
        let (at, tag_id, _) = match self.waiting(conflict_id, ConflictKind::TagRename) {
            Some(found) => found,
            None => {
                return Ok(false);
            },
        };
        match self.rename_tag(tag_id, new_name, now) {
            Ok(true) => {
                self.close_conflict(at, now);
                Ok(true)
            },
            Ok(false) => Ok(false),
            Err(e) => Err(e),
        }
    }

    /// Decides a conflict on the parent of a tag: the tag is moved under `parent`, or to
    /// the roots.
    pub fn resolve_tag_parent_conflict(
        &mut self,
        conflict_id: u128,
        parent: Option<u128>,
        now: &str,
    ) -> (r: VoiceResult<bool>)
        requires
            old(self).wf(),
        ensures
            final(self).wf(),
            final(self).conflict_ids() == old(self).conflict_ids(),
            parent_decision(
                r,
                final(self)@,
                old(self)@,
                old(self).conflict_ids(),
                conflict_id,
                parent,
                now@,
            ),
    {
        let (at, tag_id, _) = match self.waiting(conflict_id, ConflictKind::TagParent) {
            Some(found) => found,
            None => {
                return Ok(false);
            },
        };
        match self.move_tag(tag_id, parent, now) {
            Ok(true) => {
                self.close_conflict(at, now);
                Ok(true)
            },
            Ok(false) => Ok(false),
            Err(e) => Err(e),
        }
    }

    /// Decides a conflict on a tag of a note: the tag stays on the note, or it is taken
    /// off. Tells whether a conflict was decided.
    pub fn resolve_note_tag_conflict(
        &mut self,
        conflict_id: u128,
        keep: bool,
        now: &str,
    ) -> (decided: bool)
        requires
            old(self).wf(),
        ensures
            final(self).wf(),
            final(self).conflict_ids() == old(self).conflict_ids(),
            final(self)@ == after_note_tag_decision(
                old(self)@,
                old(self).conflict_ids(),
                conflict_id,
                keep,
                now@,
            ),
            decided == match open_conflict(
                old(self)@,
                old(self).conflict_ids(),
                conflict_id,
                ConflictKind::NoteTag,
            ) {
                Some(at) => old(self)@.conflicts[at].tag_id is Some,
                None => false,
            },
    {
        let (at, note_id, tag) = match self.waiting(conflict_id, ConflictKind::NoteTag) {
            Some(found) => found,
            None => {
                return false;
            },
        };
        let tag_id = match tag {
            Some(t) => t,
            None => {
                return false;
            },
        };
        if keep {
            self.add_tag_to_note(note_id, tag_id, now);
        } else {
            self.remove_tag_from_note(note_id, tag_id, now);
        }
        self.close_conflict(at, now);
        true
    }
}

} // verus!
