//! The reconciler: for each change that a peer sends, whether to write it, to leave it, or
//! to keep both sides for someone to decide.
//!
//! A change whose time is not after the last exchange with the peer was seen before and is
//! left. A change to a row that this device wrote since then, and that says something
//! else, is a conflict: the row stays as it is and both sides are recorded.

use crate::changes::{opt_hex, SyncChange, SyncChangeView};
use crate::error::{VoiceError, VoiceResult};
use crate::feed::{is_after, time_is_after};
use crate::ids::{new_id, uuid_simple};
use crate::rows::{
    blocked, ConflictKind, ConflictRow, ConflictView, NoteRow, NoteTagRow, NoteTagView, NoteView,
    Subject, TagRow, TagView,
};
use crate::store::{note_key, note_tag_key, Store, StoreView};
use crate::tables::find;
use crate::text::{
    chars_of, clone_opt, lex_le, opt_str, opt_str_eq, opt_text, split, split_chars, str_eq,
    str_le,
};
use crate::tree::{tag_key, would_cycle};
use crate::validation::{
    is_uuid_text, refuses_uuid, uuid_text_value, validate_note_id, validate_tag_id,
    validate_uuid_hex,
};
use vstd::prelude::*;
use vstd::string::*;

verus! {

/// What became of a change.
#[derive(Debug, Clone, Copy, PartialEq, Eq, Structural)]
pub enum ApplyResult {
    /// The row was written as the peer sent it.
    Applied,
    /// Both sides were kept for someone to decide.
    Conflict,
    /// Nothing was done.
    Skipped,
}

/// The time of the write that a change reports: of the deletion for `delete`, of the
/// modification for `update`, of the creation for `create`.
pub open spec fn incoming_time(c: SyncChangeView) -> Option<Seq<char>> {
    if c.operation == "delete"@ {
        c.data.deleted_at
    } else if c.operation == "update"@ {
        c.data.modified_at
    } else if c.operation == "create"@ {
        c.data.created_at
    } else {
        None
    }
}

/// Whether the change was seen before: its time is not after the last exchange.
pub open spec fn already_seen(c: SyncChangeView, last_sync: Option<Seq<char>>) -> bool {
    match incoming_time(c) {
        Some(t) => match last_sync {
            Some(l) => lex_le(t, l),
            None => false,
        },
        None => false,
    }
}

/// A text that may be absent; empty where it is.
pub open spec fn text_or_empty(o: Option<Seq<char>>) -> Seq<char> {
    match o {
        Some(t) => t,
        None => Seq::empty(),
    }
}

/// The identifier that a text writes, where it writes one.
pub open spec fn id_of_text(t: Seq<char>) -> Option<u128> {
    if is_uuid_text(t) {
        Some(uuid_text_value(t))
    } else {
        None
    }
}

/// The note that a change carries.
pub open spec fn note_payload(id: u128, c: SyncChangeView) -> NoteView {
    NoteView {
        id,
        created_at: text_or_empty(c.data.created_at),
        content: text_or_empty(c.data.content),
        device_id: id_of_text(c.device_id),
        modified_at: c.data.modified_at,
        deleted_at: c.data.deleted_at,
    }
}

/// The record of two sides of a note: `kind` says whether the contents or the deletions
/// are held against each other.
pub open spec fn note_conflict(
    kind: ConflictKind,
    local: NoteView,
    remote: NoteView,
    c: SyncChangeView,
    now: Seq<char>,
) -> ConflictView {
    ConflictView {
        kind,
        entity_id: local.id,
        tag_id: None,
        local_value: if kind == ConflictKind::NoteDelete {
            local.deleted_at
        } else {
            Some(local.content)
        },
        local_time: Some(local.effective_time()),
        remote_value: if kind == ConflictKind::NoteDelete {
            remote.deleted_at
        } else {
            Some(remote.content)
        },
        remote_time: Some(remote.effective_time()),
        remote_device_id: remote.device_id,
        remote_device_name: c.device_name,
        created_at: now,
        resolved_at: None,
    }
}

/// The store with the conflicts that two sides of a note give: one on the deletion where
/// the deletions differ, one on the content where the contents differ.
pub open spec fn with_note_conflicts(
    s: StoreView,
    local: NoteView,
    remote: NoteView,
    c: SyncChangeView,
    now: Seq<char>,
) -> StoreView {
    let s1 = if local.deleted_at != remote.deleted_at {
        s.with_conflict(note_conflict(ConflictKind::NoteDelete, local, remote, c, now))
    } else {
        s
    };
    if local.content != remote.content {
        s1.with_conflict(note_conflict(ConflictKind::NoteContent, local, remote, c, now))
    } else {
        s1
    }
}

/// What the reconciler does with a change of the note `id`, and the store after it.
pub open spec fn reconcile_note(
    s: StoreView,
    id: u128,
    c: SyncChangeView,
    last_sync: Option<Seq<char>>,
    now: Seq<char>,
) -> (ApplyResult, StoreView) {
    let remote = note_payload(id, c);
    if !(c.operation == "create"@ || c.operation == "update"@ || c.operation == "delete"@) {
        (ApplyResult::Skipped, s)
    } else if already_seen(c, last_sync) {
        (ApplyResult::Skipped, s)
    } else {
        match find(s.notes, note_key(), id) {
            None => (ApplyResult::Applied, s.with_note(remote)),
            Some(local) => if c.operation == "create"@ {
                (ApplyResult::Skipped, s)
            } else if blocked(s.conflicts, Subject::Note(id)) {
                (ApplyResult::Conflict, s)
            } else if is_after(local.effective_time(), last_sync) && (local.content
                != remote.content || local.deleted_at != remote.deleted_at) {
                (ApplyResult::Conflict, with_note_conflicts(s, local, remote, c, now))
            } else {
                (ApplyResult::Applied, s.with_note(remote))
            },
        }
    }
}

/// Whether `r` and the store `after` are what reconciling a change of a note gives: the
/// refusal of the identifier, with the store as it was, where the identifier is none.
pub open spec fn note_change_outcome(
    r: VoiceResult<ApplyResult>,
    after: StoreView,
    before: StoreView,
    c: SyncChangeView,
    last_sync: Option<Seq<char>>,
    now: Seq<char>,
) -> bool {
    if is_uuid_text(c.entity_id) {
        match r {
            Ok(res) => (res, after) == reconcile_note(
                before,
                uuid_text_value(c.entity_id),
                c,
                last_sync,
                now,
            ),
            Err(_) => false,
        }
    } else {
        refuses_uuid(r, "note_id"@) && after == before
    }
}

fn is_seen(change: &SyncChange, last_sync_at: Option<&str>) -> (r: bool)
    ensures
        r == already_seen(change@, opt_str(last_sync_at)),
{
    let op = change.operation.as_str();
    let incoming: &Option<String> = if str_eq(op, "delete") {
        &change.data.deleted_at
    } else if str_eq(op, "update") {
        &change.data.modified_at
    } else if str_eq(op, "create") {
        &change.data.created_at
    } else {
        return false;
    };
    match incoming {
        Some(t) => match last_sync_at {
            Some(l) => str_le(t.as_str(), l),
            None => false,
        },
        None => false,
    }
}

fn or_empty(o: &Option<String>) -> (s: String)
    ensures
        s@ == text_or_empty(opt_text(*o)),
{
    match o {
        Some(t) => t.clone(),
        None => String::new(),
    }
}

/// The identifier that a text writes, where it writes one.
pub fn read_id(text: &str) -> (r: Option<u128>)
    ensures
        r == id_of_text(text@),
{
    match validate_uuid_hex(text, "id") {
        Ok(v) => Some(v),
        Err(_) => None,
    }
}

fn note_of_change(id: u128, change: &SyncChange) -> (row: NoteRow)
    ensures
        row@ == note_payload(id, change@),
{
    NoteRow {
        id,
        created_at: or_empty(&change.data.created_at),
        content: or_empty(&change.data.content),
        device_id: read_id(change.device_id.as_str()),
        modified_at: clone_opt(&change.data.modified_at),
        deleted_at: clone_opt(&change.data.deleted_at),
    }
}

fn effective_note_time(n: &NoteRow) -> (s: String)
    ensures
        s@ == n@.effective_time(),
{
    match &n.modified_at {
        Some(t) => t.clone(),
        None => match &n.deleted_at {
            Some(t) => t.clone(),
            None => n.created_at.clone(),
        },
    }
}

fn make_note_conflict(
    kind: ConflictKind,
    local: &NoteRow,
    remote: &NoteRow,
    change: &SyncChange,
    now: &str,
) -> (c: ConflictRow)
    ensures
        c@ == note_conflict(kind, local@, remote@, change@, now@),
{
    let deletion = kind == ConflictKind::NoteDelete;
    ConflictRow {
        id: new_id(),
        kind,
        entity_id: local.id,
        tag_id: None,
        local_value: if deletion {
            clone_opt(&local.deleted_at)
        } else {
            Some(local.content.clone())
        },
        local_time: Some(effective_note_time(local)),
        remote_value: if deletion {
            clone_opt(&remote.deleted_at)
        } else {
            Some(remote.content.clone())
        },
        remote_time: Some(effective_note_time(remote)),
        remote_device_id: remote.device_id,
        remote_device_name: clone_opt(&change.device_name),
        created_at: String::from_str(now),
        resolved_at: None,
    }
}

/// Reconciles one change of a note.
pub fn apply_note_change(
    store: &mut Store,
    change: &SyncChange,
    last_sync_at: Option<&str>,
    now: &str,
) -> (r: VoiceResult<ApplyResult>)
    requires
        old(store).wf(),
    ensures
        final(store).wf(),
        note_change_outcome(
            r,
            final(store)@,
            old(store)@,
            change@,
            opt_str(last_sync_at),
            now@,
        ),
{
    let id = match validate_note_id(change.entity_id.as_str()) {
        Ok(v) => v,
        Err(e) => {
            return Err(e);
        },
    };
    let op = change.operation.as_str();
    let creating = str_eq(op, "create");
    if !(creating || str_eq(op, "update") || str_eq(op, "delete")) {
        return Ok(ApplyResult::Skipped);
    }
    if is_seen(change, last_sync_at) {
        return Ok(ApplyResult::Skipped);
    }
    let remote = note_of_change(id, change);
    let local = match store.get_note_raw(id) {
        None => {
            store.apply_sync_note(remote);
            return Ok(ApplyResult::Applied);
        },
        Some(row) => row,
    };
    if creating {
        return Ok(ApplyResult::Skipped);
    }
    if store.is_blocked(Subject::Note(id)) {
        return Ok(ApplyResult::Conflict);
    }
    let local_time = effective_note_time(&local);
    let contents_differ = !str_eq(local.content.as_str(), remote.content.as_str());
    let deletions_differ = !opt_str_eq(&local.deleted_at, &remote.deleted_at);
    if time_is_after(local_time.as_str(), last_sync_at) && (contents_differ || deletions_differ) {
        if deletions_differ {
            let c = make_note_conflict(ConflictKind::NoteDelete, &local, &remote, change, now);
            store.record_conflict(c);
        }
        if contents_differ {
            let c = make_note_conflict(ConflictKind::NoteContent, &local, &remote, change, now);
            store.record_conflict(c);
        }
        return Ok(ApplyResult::Conflict);
    }
    store.apply_sync_note(remote);
    Ok(ApplyResult::Applied)
}

// ----------------------------------------------------------------------------
// Tags
// ----------------------------------------------------------------------------

/// The tag that a change carries, with the parent that it names.
pub open spec fn tag_payload(id: u128, parent: Option<u128>, c: SyncChangeView) -> TagView {
    TagView {
        id,
        name: text_or_empty(c.data.name),
        parent_id: parent,
        device_id: id_of_text(c.device_id),
        created_at: text_or_empty(c.data.created_at),
        modified_at: c.data.modified_at,
    }
}

/// The record of two sides of a tag: `kind` says whether the names or the parents are held
/// against each other. This device may hold no row of the tag.
pub open spec fn tag_conflict(
    kind: ConflictKind,
    local: Option<TagView>,
    remote: TagView,
    c: SyncChangeView,
    now: Seq<char>,
) -> ConflictView {
    ConflictView {
        kind,
        entity_id: remote.id,
        tag_id: None,
        local_value: match local {
            Some(l) => if kind == ConflictKind::TagParent {
                opt_hex(l.parent_id)
            } else {
                Some(l.name)
            },
            None => None,
        },
        local_time: match local {
            Some(l) => Some(l.effective_time()),
            None => None,
        },
        remote_value: if kind == ConflictKind::TagParent {
            opt_hex(remote.parent_id)
        } else {
            Some(remote.name)
        },
        remote_time: Some(remote.effective_time()),
        remote_device_id: remote.device_id,
        remote_device_name: c.device_name,
        created_at: now,
        resolved_at: None,
    }
}

/// The store with the conflicts that two sides of a tag give: one on the name where the
/// names differ, one on the parent where the parents differ.
pub open spec fn with_tag_conflicts(
    s: StoreView,
    local: TagView,
    remote: TagView,
    c: SyncChangeView,
    now: Seq<char>,
) -> StoreView {
    let s1 = if local.name != remote.name {
        s.with_conflict(tag_conflict(ConflictKind::TagRename, Some(local), remote, c, now))
    } else {
        s
    };
    if local.parent_id != remote.parent_id {
        s1.with_conflict(tag_conflict(ConflictKind::TagParent, Some(local), remote, c, now))
    } else {
        s1
    }
}

/// What the reconciler does with a change of the tag `id`, and the store after it.
///
/// A change that would put the tag above itself is never written: it gives a conflict on
/// the parent, and the tree stays as it is.
pub open spec fn reconcile_tag(
    s: StoreView,
    id: u128,
    parent: Option<u128>,
    c: SyncChangeView,
    last_sync: Option<Seq<char>>,
    now: Seq<char>,
) -> (ApplyResult, StoreView) {
    let remote = tag_payload(id, parent, c);
    let local = find(s.tags, tag_key(), id);
    if !(c.operation == "create"@ || c.operation == "update"@) {
        (ApplyResult::Skipped, s)
    } else if already_seen(c, last_sync) {
        (ApplyResult::Skipped, s)
    } else if local is Some && c.operation == "create"@ {
        (ApplyResult::Skipped, s)
    } else if local is Some && blocked(s.conflicts, Subject::Tag(id)) {
        (ApplyResult::Conflict, s)
    } else if local is Some && is_after(local->0.effective_time(), last_sync) && (local->0.name
        != remote.name || local->0.parent_id != remote.parent_id) {
        (ApplyResult::Conflict, with_tag_conflicts(s, local->0, remote, c, now))
    } else if would_cycle(s.tags, id, parent) {
        (
            ApplyResult::Conflict,
            s.with_conflict(tag_conflict(ConflictKind::TagParent, local, remote, c, now)),
        )
    } else {
        (ApplyResult::Applied, s.with_tag(remote))
    }
}

/// The parent that a change names, where it names one.
pub open spec fn parent_of_change(c: SyncChangeView) -> Option<u128> {
    match c.data.parent_id {
        Some(p) => Some(uuid_text_value(p)),
        None => None,
    }
}

/// Whether the parent that a change names, if it names one, is an identifier.
pub open spec fn parent_readable(c: SyncChangeView) -> bool {
    match c.data.parent_id {
        Some(p) => is_uuid_text(p),
        None => true,
    }
}

/// Whether `r` and the store `after` are what reconciling a change of a tag gives: the
/// refusal of an identifier, with the store as it was, where the tag's or the parent's is
/// none.
pub open spec fn tag_change_outcome(
    r: VoiceResult<ApplyResult>,
    after: StoreView,
    before: StoreView,
    c: SyncChangeView,
    last_sync: Option<Seq<char>>,
    now: Seq<char>,
) -> bool {
    if !is_uuid_text(c.entity_id) {
        refuses_uuid(r, "tag_id"@) && after == before
    } else if !parent_readable(c) {
        refuses_uuid(r, "parent_id"@) && after == before
    } else {
        match r {
            Ok(res) => (res, after) == reconcile_tag(
                before,
                uuid_text_value(c.entity_id),
                parent_of_change(c),
                c,
                last_sync,
                now,
            ),
            Err(_) => false,
        }
    }
}

fn tag_of_change(id: u128, parent: Option<u128>, change: &SyncChange) -> (row: TagRow)
    ensures
        row@ == tag_payload(id, parent, change@),
{
    TagRow {
        id,
        name: or_empty(&change.data.name),
        parent_id: parent,
        device_id: read_id(change.device_id.as_str()),
        created_at: or_empty(&change.data.created_at),
        modified_at: clone_opt(&change.data.modified_at),
    }
}

fn effective_tag_time(t: &TagRow) -> (s: String)
    ensures
        s@ == t@.effective_time(),
{
    match &t.modified_at {
        Some(m) => m.clone(),
        None => t.created_at.clone(),
    }
}

fn hex_of(id: Option<u128>) -> (r: Option<String>)
    ensures
        opt_text(r) == opt_hex(id),
{
    match id {
        Some(v) => Some(uuid_simple(v)),
        None => None,
    }
}

/// The model of a tag that may be absent.
pub open spec fn opt_tag_view(o: Option<&TagRow>) -> Option<TagView> {
    match o {
        Some(t) => Some(t@),
        None => None,
    }
}

fn make_tag_conflict(
    kind: ConflictKind,
    local: Option<&TagRow>,
    remote: &TagRow,
    change: &SyncChange,
    now: &str,
) -> (c: ConflictRow)
    ensures
        c@ == tag_conflict(kind, opt_tag_view(local), remote@, change@, now@),
{
    let parents = kind == ConflictKind::TagParent;
    ConflictRow {
        id: new_id(),
        kind,
        entity_id: remote.id,
        tag_id: None,
        local_value: match local {
            Some(l) => if parents {
                hex_of(l.parent_id)
            } else {
                Some(l.name.clone())
            },
            None => None,
        },
        local_time: match local {
            Some(l) => Some(effective_tag_time(l)),
            None => None,
        },
        remote_value: if parents {
            hex_of(remote.parent_id)
        } else {
            Some(remote.name.clone())
        },
        remote_time: Some(effective_tag_time(remote)),
        remote_device_id: remote.device_id,
        remote_device_name: clone_opt(&change.device_name),
        created_at: String::from_str(now),
        resolved_at: None,
    }
}

/// Reconciles one change of a tag.
pub fn apply_tag_change(
    store: &mut Store,
    change: &SyncChange,
    last_sync_at: Option<&str>,
    now: &str,
) -> (r: VoiceResult<ApplyResult>)
    requires
        old(store).wf(),
    ensures
        final(store).wf(),
        tag_change_outcome(r, final(store)@, old(store)@, change@, opt_str(last_sync_at), now@),
{
    let id = match validate_tag_id(change.entity_id.as_str()) {
        Ok(v) => v,
        Err(e) => {
            return Err(e);
        },
    };
    let parent = match &change.data.parent_id {
        Some(p) => match validate_uuid_hex(p.as_str(), "parent_id") {
            Ok(v) => Some(v),
            Err(e) => {
                return Err(e);
            },
        },
        None => None,
    };
    let op = change.operation.as_str();
    let creating = str_eq(op, "create");
    if !(creating || str_eq(op, "update")) {
        return Ok(ApplyResult::Skipped);
    }
    if is_seen(change, last_sync_at) {
        return Ok(ApplyResult::Skipped);
    }
    let remote = tag_of_change(id, parent, change);
    let found = store.get_tag_raw(id);
    match &found {
        Some(local) => {
            if creating {
                return Ok(ApplyResult::Skipped);
            }
            if store.is_blocked(Subject::Tag(id)) {
                return Ok(ApplyResult::Conflict);
            }
            let local_time = effective_tag_time(local);
            let names_differ = !str_eq(local.name.as_str(), remote.name.as_str());
            let parents_differ = local.parent_id != remote.parent_id;
            if time_is_after(local_time.as_str(), last_sync_at) && (names_differ
                || parents_differ) {
                if names_differ {
                    let c = make_tag_conflict(
                        ConflictKind::TagRename,
                        Some(local),
                        &remote,
                        change,
                        now,
                    );
                    store.record_conflict(c);
                }
                if parents_differ {
                    let c = make_tag_conflict(
                        ConflictKind::TagParent,
                        Some(local),
                        &remote,
                        change,
                        now,
                    );
                    store.record_conflict(c);
                }
                return Ok(ApplyResult::Conflict);
            }
        },
        None => {},
    }
    if store.would_create_cycle(id, parent) {
        let c = make_tag_conflict(ConflictKind::TagParent, found.as_ref(), &remote, change, now);
        store.record_conflict(c);
        return Ok(ApplyResult::Conflict);
    }
    match store.apply_sync_tag(remote) {
        Ok(_) => Ok(ApplyResult::Applied),
        Err(e) => Err(e),
    }
}

// ----------------------------------------------------------------------------
// Associations
// ----------------------------------------------------------------------------

/// The association that a change carries, seen from a device that holds `local`: the time
/// of creation that this device holds is kept, and a `create` carries no deletion.
pub open spec fn note_tag_payload(
    note_id: u128,
    tag_id: u128,
    local: Option<NoteTagView>,
    c: SyncChangeView,
) -> NoteTagView {
    NoteTagView {
        note_id,
        tag_id,
        created_at: match local {
            Some(l) => l.created_at,
            None => text_or_empty(c.data.created_at),
        },
        device_id: id_of_text(c.device_id),
        modified_at: c.data.modified_at,
        deleted_at: if c.operation == "create"@ {
            None
        } else {
            c.data.deleted_at
        },
    }
}

/// The record of two sides of an association: the times of deletion held against each
/// other.
pub open spec fn note_tag_conflict(
    local: NoteTagView,
    remote: NoteTagView,
    c: SyncChangeView,
    now: Seq<char>,
) -> ConflictView {
    ConflictView {
        kind: ConflictKind::NoteTag,
        entity_id: local.note_id,
        tag_id: Some(local.tag_id),
        local_value: local.deleted_at,
        local_time: Some(local.effective_time()),
        remote_value: remote.deleted_at,
        remote_time: Some(remote.effective_time()),
        remote_device_id: remote.device_id,
        remote_device_name: c.device_name,
        created_at: now,
        resolved_at: None,
    }
}

/// What the reconciler does with a change of the association of `tag_id` with `note_id`,
/// and the store after it.
///
/// A deletion does not win over an association that this device wrote since the last
/// exchange: the association stays. An association that comes back is written, and
/// reported where this device had deleted it since the last exchange.
pub open spec fn reconcile_note_tag(
    s: StoreView,
    note_id: u128,
    tag_id: u128,
    c: SyncChangeView,
    last_sync: Option<Seq<char>>,
    now: Seq<char>,
) -> (ApplyResult, StoreView) {
    let found = find(s.note_tags, note_tag_key(), (note_id, tag_id));
    let remote = note_tag_payload(note_id, tag_id, found, c);
    if !(c.operation == "create"@ || c.operation == "update"@ || c.operation == "delete"@) {
        (ApplyResult::Skipped, s)
    } else if already_seen(c, last_sync) {
        (ApplyResult::Skipped, s)
    } else {
        match found {
            None => (ApplyResult::Applied, s.with_note_tag(remote)),
            Some(local) => if blocked(s.conflicts, Subject::NoteTag(note_id, tag_id)) {
                (ApplyResult::Conflict, s)
            } else if (local.deleted_at is Some) == (remote.deleted_at is Some) {
                if c.operation == "update"@ && (local.modified_at != remote.modified_at
                    || local.deleted_at != remote.deleted_at) {
                    (ApplyResult::Applied, s.with_note_tag(remote))
                } else {
                    (ApplyResult::Skipped, s)
                }
            } else if remote.deleted_at is Some {
                if is_after(local.effective_time(), last_sync) {
                    (
                        ApplyResult::Conflict,
                        s.with_conflict(note_tag_conflict(local, remote, c, now)),
                    )
                } else {
                    (ApplyResult::Applied, s.with_note_tag(remote))
                }
            } else {
                if is_after(local.effective_time(), last_sync) {
                    (
                        ApplyResult::Conflict,
                        s.with_note_tag(remote).with_conflict(
                            note_tag_conflict(local, remote, c, now),
                        ),
                    )
                } else {
                    (ApplyResult::Applied, s.with_note_tag(remote))
                }
            },
        }
    }
}

/// Whether `r` and the store `after` are what reconciling a change of an association
/// gives. The identifier of the change is the note's and the tag's with one colon between
/// them: anything else is left. The refusal of an identifier leaves the store as it was.
pub open spec fn note_tag_change_outcome(
    r: VoiceResult<ApplyResult>,
    after: StoreView,
    before: StoreView,
    c: SyncChangeView,
    last_sync: Option<Seq<char>>,
    now: Seq<char>,
) -> bool {
    let parts = split(c.entity_id, ':');
    if parts.len() != 2 {
        r == Ok::<ApplyResult, VoiceError>(ApplyResult::Skipped) && after == before
    } else if !is_uuid_text(parts[0]) {
        refuses_uuid(r, "note_id"@) && after == before
    } else if !is_uuid_text(parts[1]) {
        refuses_uuid(r, "tag_id"@) && after == before
    } else {
        match r {
            Ok(res) => (res, after) == reconcile_note_tag(
                before,
                uuid_text_value(parts[0]),
                uuid_text_value(parts[1]),
                c,
                last_sync,
                now,
            ),
            Err(_) => false,
        }
    }
}

/// The model of an association that may be absent.
pub open spec fn opt_note_tag_view(o: Option<&NoteTagRow>) -> Option<NoteTagView> {
    match o {
        Some(t) => Some(t@),
        None => None,
    }
}

fn note_tag_of_change(
    note_id: u128,
    tag_id: u128,
    local: Option<&NoteTagRow>,
    change: &SyncChange,
) -> (row: NoteTagRow)
    ensures
        row@ == note_tag_payload(note_id, tag_id, opt_note_tag_view(local), change@),
{
    NoteTagRow {
        note_id,
        tag_id,
        created_at: match local {
            Some(l) => l.created_at.clone(),
            None => or_empty(&change.data.created_at),
        },
        device_id: read_id(change.device_id.as_str()),
        modified_at: clone_opt(&change.data.modified_at),
        deleted_at: if str_eq(change.operation.as_str(), "create") {
            None
        } else {
            clone_opt(&change.data.deleted_at)
        },
    }
}

fn effective_note_tag_time(a: &NoteTagRow) -> (s: String)
    ensures
        s@ == a@.effective_time(),
{
    match &a.modified_at {
        Some(t) => t.clone(),
        None => match &a.deleted_at {
            Some(t) => t.clone(),
            None => a.created_at.clone(),
        },
    }
}

fn make_note_tag_conflict(
    local: &NoteTagRow,
    remote: &NoteTagRow,
    change: &SyncChange,
    now: &str,
) -> (c: ConflictRow)
    ensures
        c@ == note_tag_conflict(local@, remote@, change@, now@),
{
    ConflictRow {
        id: new_id(),
        kind: ConflictKind::NoteTag,
        entity_id: local.note_id,
        tag_id: Some(local.tag_id),
        local_value: clone_opt(&local.deleted_at),
        local_time: Some(effective_note_tag_time(local)),
        remote_value: clone_opt(&remote.deleted_at),
        remote_time: Some(effective_note_tag_time(remote)),
        remote_device_id: remote.device_id,
        remote_device_name: clone_opt(&change.device_name),
        created_at: String::from_str(now),
        resolved_at: None,
    }
}

/// Reconciles one change of an association.
pub fn apply_note_tag_change(
    store: &mut Store,
    change: &SyncChange,
    last_sync_at: Option<&str>,
    now: &str,
) -> (r: VoiceResult<ApplyResult>)
    requires
        old(store).wf(),
    ensures
        final(store).wf(),
        note_tag_change_outcome(
            r,
            final(store)@,
            old(store)@,
            change@,
            opt_str(last_sync_at),
            now@,
        ),
{
    let text = chars_of(change.entity_id.as_str());
    let parts = split_chars(&text, ':');
    assert(crate::text::pieces(parts@) == split(change@.entity_id, ':'));
    if parts.len() != 2 {
        return Ok(ApplyResult::Skipped);
    }
    assert(parts@[0]@ == split(change@.entity_id, ':')[0]);
    assert(parts@[1]@ == split(change@.entity_id, ':')[1]);
    let note_text = crate::text::string_of(&parts[0]);
    let tag_text = crate::text::string_of(&parts[1]);
    let note_id = match validate_note_id(note_text.as_str()) {
        Ok(v) => v,
        Err(e) => {
            return Err(e);
        },
    };
    let tag_id = match validate_tag_id(tag_text.as_str()) {
        Ok(v) => v,
        Err(e) => {
            return Err(e);
        },
    };
    let op = change.operation.as_str();
    let updating = str_eq(op, "update");
    if !(updating || str_eq(op, "create") || str_eq(op, "delete")) {
        return Ok(ApplyResult::Skipped);
    }
    if is_seen(change, last_sync_at) {
        return Ok(ApplyResult::Skipped);
    }
    let found = store.get_note_tag_raw(note_id, tag_id);
    let remote = note_tag_of_change(note_id, tag_id, found.as_ref(), change);
    let local = match found {
        None => {
            store.apply_sync_note_tag(remote);
            return Ok(ApplyResult::Applied);
        },
        Some(row) => row,
    };
    if store.is_blocked(Subject::NoteTag(note_id, tag_id)) {
        return Ok(ApplyResult::Conflict);
    }
    let local_changed = time_is_after(effective_note_tag_time(&local).as_str(), last_sync_at);
    if local.deleted_at.is_some() == remote.deleted_at.is_some() {
        if updating && (!opt_str_eq(&local.modified_at, &remote.modified_at) || !opt_str_eq(
            &local.deleted_at,
            &remote.deleted_at,
        )) {
            store.apply_sync_note_tag(remote);
            return Ok(ApplyResult::Applied);
        }
        return Ok(ApplyResult::Skipped);
    }
    if remote.deleted_at.is_some() {
        if local_changed {
            let c = make_note_tag_conflict(&local, &remote, change, now);
            store.record_conflict(c);
            return Ok(ApplyResult::Conflict);
        }
        store.apply_sync_note_tag(remote);
        return Ok(ApplyResult::Applied);
    }
    if local_changed {
        let c = make_note_tag_conflict(&local, &remote, change, now);
        store.apply_sync_note_tag(remote);
        store.record_conflict(c);
        return Ok(ApplyResult::Conflict);
    }
    store.apply_sync_note_tag(remote);
    Ok(ApplyResult::Applied)
}

} // verus!
