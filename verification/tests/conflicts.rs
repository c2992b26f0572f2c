use voice_core::changes::{ChangeData, SyncChange};
use voice_core::error::VoiceError;
use voice_core::reconcile::{apply_note_change, apply_note_tag_change, apply_tag_change, ApplyResult};
use voice_core::rows::{ConflictKind, Subject};
use voice_core::store::Store;
use voice_core::validation::uuid_to_hex;

const ME: u128 = 0x11;
const PEER: u128 = 0x22;
const T1: &str = "2025-01-01T00:00:00Z";
const T2: &str = "2025-01-02T00:00:00Z";
const T3: &str = "2025-01-03T00:00:00Z";
const T4: &str = "2025-01-04T00:00:00Z";

fn data() -> ChangeData {
    ChangeData {
        id: None,
        note_id: None,
        tag_id: None,
        name: None,
        content: None,
        parent_id: None,
        created_at: Some(T1.to_string()),
        modified_at: None,
        deleted_at: None,
    }
}

fn change(kind: &str, id: String, op: &str, data: ChangeData, ts: &str) -> SyncChange {
    SyncChange {
        entity_type: kind.to_string(),
        entity_id: id,
        operation: op.to_string(),
        data,
        timestamp: ts.to_string(),
        device_id: uuid_to_hex(PEER),
        device_name: None,
    }
}

fn store_with_content_conflict() -> (Store, u128) {
    let mut s = Store::new(ME);
    let n = s.create_note("mine", T1).unwrap();
    s.update_note(n, "mine v2", T2).unwrap();
    let mut d = data();
    d.content = Some("theirs".to_string());
    d.modified_at = Some(T3.to_string());
    let c = change("note", uuid_to_hex(n), "update", d, T3);
    assert_eq!(apply_note_change(&mut s, &c, Some(T1), T3).unwrap(), ApplyResult::Conflict);
    (s, n)
}

#[test]
fn conflicts_are_listed_and_counted() {
    let (mut s, n) = store_with_content_conflict();
    let counts = s.get_unresolved_conflict_counts();
    assert_eq!(counts.note_content, 1);
    assert_eq!(counts.note_delete + counts.tag_rename + counts.tag_parent, 0);
    assert_eq!(counts.tag_delete + counts.note_tag, 0);
    let listed = s.get_conflicts(ConflictKind::NoteContent, false);
    assert_eq!(listed.len(), 1);
    assert_eq!(listed[0].entity_id, n);
    assert_eq!(listed[0].local_value.as_deref(), Some("mine v2"));
    assert_eq!(listed[0].remote_value.as_deref(), Some("theirs"));
    assert_eq!(listed[0].local_time.as_deref(), Some(T2));
    assert_eq!(listed[0].remote_time.as_deref(), Some(T3));
    assert_eq!(listed[0].created_at, T3);
    assert!(s.get_conflicts(ConflictKind::NoteDelete, true).is_empty());
    let id = listed[0].id;
    assert_eq!(s.find_conflict(id), Some(0));
    assert_eq!(s.find_conflict(id ^ 1), None);

    assert!(matches!(
        s.resolve_note_content_conflict(id, " ", T4),
        Err(VoiceError::Validation { .. })
    ));
    assert!(!s.resolve_note_content_conflict(id ^ 1, "x", T4).unwrap());
    assert!(!s.resolve_note_delete_conflict(id, true, T4));
    assert!(s.resolve_note_content_conflict(id, "merged", T4).unwrap());
    let row = s.get_note(n).unwrap();
    assert_eq!(row.content, "merged");
    assert_eq!(row.modified_at.as_deref(), Some(T4));
    assert_eq!(row.device_id, Some(ME));
    assert_eq!(s.get_unresolved_conflict_counts().note_content, 0);
    assert!(s.get_conflicts(ConflictKind::NoteContent, false).is_empty());
    let all = s.get_conflicts(ConflictKind::NoteContent, true);
    assert_eq!(all.len(), 1);
    assert_eq!(all[0].resolved_at.as_deref(), Some(T4));
    assert!(!s.resolve_note_content_conflict(id, "again", T4).unwrap());
    assert!(!s.is_blocked(Subject::Note(n)));
}

#[test]
fn unresolved_conflicts_block_later_changes() {
    let (mut s, n) = store_with_content_conflict();
    let mut d = data();
    d.content = Some("theirs again".to_string());
    d.modified_at = Some(T4.to_string());
    let later = change("note", uuid_to_hex(n), "update", d, T4);
    assert_eq!(apply_note_change(&mut s, &later, Some(T3), T4).unwrap(), ApplyResult::Conflict);
    assert_eq!(s.get_note(n).unwrap().content, "mine v2");
    assert_eq!(s.conflicts().len(), 1);
    let id = s.conflicts()[0].id;
    s.resolve_note_content_conflict(id, "decided", T4).unwrap();
    let mut d = data();
    d.content = Some("theirs at last".to_string());
    d.modified_at = Some("2025-01-05T00:00:00Z".to_string());
    let last = change("note", uuid_to_hex(n), "update", d, "2025-01-05T00:00:00Z");
    assert_eq!(
        apply_note_change(&mut s, &last, Some("2025-01-04T12:00:00Z"), "2025-01-05T00:00:00Z").unwrap(),
        ApplyResult::Applied
    );
    assert_eq!(s.get_note(n).unwrap().content, "theirs at last");
}

#[test]
fn a_deletion_is_restored_or_confirmed() {
    for restore in [true, false] {
        let mut s = Store::new(ME);
        let n = s.create_note("kept", T1).unwrap();
        s.update_note(n, "kept", T2).unwrap();
        let mut d = data();
        d.content = Some("kept".to_string());
        d.deleted_at = Some(T3.to_string());
        let c = change("note", uuid_to_hex(n), "delete", d, T3);
        assert_eq!(apply_note_change(&mut s, &c, Some(T1), T3).unwrap(), ApplyResult::Conflict);
        let listed = s.get_conflicts(ConflictKind::NoteDelete, false);
        assert_eq!(listed.len(), 1);
        assert_eq!(listed[0].local_value, None);
        assert_eq!(listed[0].remote_value.as_deref(), Some(T3));
        assert_eq!(s.get_unresolved_conflict_counts().note_delete, 1);
        assert!(s.resolve_note_delete_conflict(listed[0].id, restore, T4));
        let raw = s.get_note_raw(n).unwrap();
        if restore {
            assert_eq!(raw.deleted_at, None);
        } else {
            assert_eq!(raw.deleted_at.as_deref(), Some(T4));
        }
        assert_eq!(raw.modified_at.as_deref(), Some(T4));
        assert_eq!(s.get_unresolved_conflict_counts().note_delete, 0);
        assert!(!s.resolve_note_delete_conflict(listed[0].id, restore, T4));
    }
    let mut s = Store::new(ME);
    let n = s.create_note("gone", T1).unwrap();
    s.delete_note(n, T2);
    let mut d = data();
    d.content = Some("new".to_string());
    d.modified_at = Some(T3.to_string());
    let c = change("note", uuid_to_hex(n), "update", d, T3);
    assert_eq!(apply_note_change(&mut s, &c, Some(T1), T3).unwrap(), ApplyResult::Conflict);
    let id = s.get_conflicts(ConflictKind::NoteDelete, false)[0].id;
    assert!(s.resolve_note_delete_conflict(id, false, T4));
    assert_eq!(s.get_note_raw(n).unwrap().deleted_at.as_deref(), Some(T2));
    assert_eq!(s.get_unresolved_conflict_counts().note_content, 1);
}

#[test]
fn tag_conflicts_are_decided() {
    let mut s = Store::new(ME);
    let root = s.create_tag("root", None, T1).unwrap();
    let other = s.create_tag("other", None, T1).unwrap();
    let t = s.create_tag("mine", Some(root), T1).unwrap();
    s.rename_tag(t, "mine2", T2).unwrap();
    let mut d = data();
    d.name = Some("theirs".to_string());
    d.parent_id = Some(uuid_to_hex(other));
    d.modified_at = Some(T3.to_string());
    let c = change("tag", uuid_to_hex(t), "update", d, T3);
    assert_eq!(apply_tag_change(&mut s, &c, Some(T1), T3).unwrap(), ApplyResult::Conflict);
    let counts = s.get_unresolved_conflict_counts();
    assert_eq!((counts.tag_rename, counts.tag_parent), (1, 1));
    let rename = s.get_conflicts(ConflictKind::TagRename, false)[0].id;
    let parent = s.get_conflicts(ConflictKind::TagParent, false)[0].id;
    assert!(matches!(s.resolve_tag_rename_conflict(rename, "a/b", T4), Err(VoiceError::Validation { .. })));
    assert!(!s.resolve_tag_rename_conflict(parent, "x", T4).unwrap());
    assert!(s.resolve_tag_rename_conflict(rename, "agreed", T4).unwrap());
    assert_eq!(s.get_tag_raw(t).unwrap().name, "agreed");
    assert!(matches!(s.resolve_tag_parent_conflict(parent, Some(t), T4), Err(VoiceError::Validation { .. })));
    assert!(matches!(s.resolve_tag_parent_conflict(parent, Some(9), T4), Err(VoiceError::NotFound(_))));
    assert_eq!(s.get_unresolved_conflict_counts().tag_parent, 1);
    assert!(s.resolve_tag_parent_conflict(parent, Some(other), T4).unwrap());
    assert_eq!(s.get_tag_raw(t).unwrap().parent_id, Some(other));
    let counts = s.get_unresolved_conflict_counts();
    assert_eq!((counts.tag_rename, counts.tag_parent), (0, 0));
    assert!(!s.resolve_tag_parent_conflict(parent, None, T4).unwrap());
}

#[test]
fn note_tag_conflicts_are_decided() {
    for keep in [true, false] {
        let mut s = Store::new(ME);
        let n = s.create_note("n", T1).unwrap();
        let t = s.create_tag("t", None, T1).unwrap();
        s.add_tag_to_note(n, t, T2);
        let mut d = data();
        d.deleted_at = Some(T3.to_string());
        let c = change("note_tag", format!("{}:{}", uuid_to_hex(n), uuid_to_hex(t)), "delete", d, T3);
        assert_eq!(apply_note_tag_change(&mut s, &c, Some(T1), T3).unwrap(), ApplyResult::Conflict);
        assert_eq!(s.get_unresolved_conflict_counts().note_tag, 1);
        assert_eq!(apply_note_tag_change(&mut s, &c, Some(T1), T3).unwrap(), ApplyResult::Conflict);
        assert_eq!(s.conflicts().len(), 1);
        let id = s.conflicts()[0].id;
        assert!(s.resolve_note_tag_conflict(id, keep, T4));
        assert_eq!(s.note_has_tag(n, t), keep);
        assert_eq!(s.get_unresolved_conflict_counts().note_tag, 0);
        assert!(!s.resolve_note_tag_conflict(id, keep, T4));
    }
}
