use voice_core::changes::{ChangeData, SyncChange};
use voice_core::reconcile::{
    apply_note_change, apply_note_tag_change, apply_tag_change, ApplyResult,
};
use voice_core::rows::{ConflictKind, NoteRow, NoteTagRow, Subject, TagRow};
use voice_core::store::Store;
use voice_core::sync::{apply_change, apply_sync_changes, apply_sync_changes_at};
use voice_core::validation::uuid_to_hex;

const A: u128 = 0xaaaaaaaa_aaaa_aaaa_aaaa_aaaaaaaaaaaa;
const B: u128 = 0xbbbbbbbb_bbbb_bbbb_bbbb_bbbbbbbbbbbb;
const T1: &str = "2025-01-01T00:00:00Z";
const T2: &str = "2025-01-02T00:00:00Z";
const T3: &str = "2025-01-03T00:00:00Z";
const T4: &str = "2025-01-04T00:00:00Z";
const T5: &str = "2025-01-05T00:00:00Z";

fn note(id: u128, content: &str, device: u128, created: &str, modified: Option<&str>, deleted: Option<&str>) -> NoteRow {
    NoteRow {
        id,
        created_at: created.to_string(),
        content: content.to_string(),
        device_id: Some(device),
        modified_at: modified.map(String::from),
        deleted_at: deleted.map(String::from),
    }
}

fn tag(id: u128, name: &str, parent: Option<u128>, created: &str, modified: Option<&str>) -> TagRow {
    TagRow {
        id,
        name: name.to_string(),
        parent_id: parent,
        device_id: Some(A),
        created_at: created.to_string(),
        modified_at: modified.map(String::from),
    }
}

fn note_tag(n: u128, t: u128, created: &str, modified: Option<&str>, deleted: Option<&str>) -> NoteTagRow {
    NoteTagRow {
        note_id: n,
        tag_id: t,
        created_at: created.to_string(),
        device_id: Some(A),
        modified_at: modified.map(String::from),
        deleted_at: deleted.map(String::from),
    }
}

fn no_data() -> ChangeData {
    ChangeData {
        id: None,
        note_id: None,
        tag_id: None,
        name: None,
        content: None,
        parent_id: None,
        created_at: None,
        modified_at: None,
        deleted_at: None,
    }
}

fn change(kind: &str, id: &str, op: &str, data: ChangeData, ts: &str) -> SyncChange {
    SyncChange {
        entity_type: kind.to_string(),
        entity_id: id.to_string(),
        operation: op.to_string(),
        data,
        timestamp: ts.to_string(),
        device_id: uuid_to_hex(A),
        device_name: Some("desk".to_string()),
    }
}

#[test]
fn fresh_note_propagates() {
    let mut a = Store::new(A);
    a.apply_sync_note(note(1, "hello", A, T1, None, None));
    let (changes, latest) = a.get_changes_since(None, 1000);
    assert_eq!(changes.len(), 1);
    assert_eq!(latest.as_deref(), Some(T1));
    assert_eq!(changes[0].entity_type, "note");
    assert_eq!(changes[0].operation, "create");
    assert_eq!(changes[0].entity_id, "00000000000000000000000000000001");
    assert_eq!(changes[0].device_id, "aaaaaaaaaaaaaaaaaaaaaaaaaaaaaaaa");
    assert_eq!(changes[0].data.content.as_deref(), Some("hello"));

    let mut b = Store::new(B);
    let (applied, conflicts, errors) =
        apply_sync_changes_at(&mut b, &changes, &uuid_to_hex(A), Some("desk"), T2).unwrap();
    assert_eq!((applied, conflicts), (1, 0));
    assert!(errors.is_empty());
    let got = b.get_note_raw(1).unwrap();
    assert_eq!(got.content, "hello");
    assert_eq!(got.device_id, Some(A));
    assert_eq!(got.modified_at, None);
    assert_eq!(got.created_at, T1);
    assert_eq!(b.get_peer_last_sync(A).as_deref(), Some(T2));
    assert_eq!(b.get_peer_last_sync(B), None);
}

#[test]
fn second_delivery_is_skipped() {
    let mut a = Store::new(A);
    a.apply_sync_note(note(1, "hello", A, T1, None, None));
    a.apply_sync_tag(tag(2, "Work", None, T1, None)).unwrap();
    a.apply_sync_note_tag(note_tag(1, 2, T2, None, None));
    let (changes, _) = a.get_changes_since(None, 1000);
    assert_eq!(changes.len(), 3);
    let mut b = Store::new(B);
    let first = apply_sync_changes_at(&mut b, &changes, &uuid_to_hex(A), None, T3).unwrap();
    assert_eq!((first.0, first.1), (3, 0));
    let second = apply_sync_changes_at(&mut b, &changes, &uuid_to_hex(A), None, T4).unwrap();
    assert_eq!((second.0, second.1), (0, 0));
    assert!(second.2.is_empty());
    assert_eq!(b.conflicts().len(), 0);
    assert_eq!(b.notes().len(), 1);
    assert_eq!(b.tags().len(), 1);
    assert_eq!(b.note_tags().len(), 1);
    assert_eq!(b.get_peer_last_sync(A).as_deref(), Some(T4));
    let (again, latest) = a.get_changes_since(Some(T2), 1000);
    assert!(again.is_empty());
    assert_eq!(latest, None);
}

#[test]
fn divergent_contents_are_a_conflict_on_both_sides() {
    let mut a = Store::new(A);
    let mut b = Store::new(B);
    a.apply_sync_note(note(1, "v1", A, T1, None, None));
    let (first, _) = a.get_changes_since(None, 1000);
    apply_sync_changes_at(&mut b, &first, &uuid_to_hex(A), None, T2).unwrap();
    a.update_peer_sync_time(B, None, T2);
    a.apply_sync_note(note(1, "v2", A, T1, Some(T3), None));
    b.apply_sync_note(note(1, "v3", B, T1, Some(T4), None));

    let (from_a, _) = a.get_changes_since(Some(T2), 1000);
    assert_eq!(from_a.len(), 1);
    assert_eq!(from_a[0].operation, "update");
    let r = apply_sync_changes_at(&mut b, &from_a, &uuid_to_hex(A), None, T5).unwrap();
    assert_eq!((r.0, r.1), (0, 1));
    assert_eq!(b.get_note_raw(1).unwrap().content, "v3");
    let on_b = b.conflicts();
    assert_eq!(on_b.len(), 1);
    assert_eq!(on_b[0].kind, ConflictKind::NoteContent);
    assert_eq!(on_b[0].entity_id, 1);
    assert_eq!(on_b[0].local_value.as_deref(), Some("v3"));
    assert_eq!(on_b[0].remote_value.as_deref(), Some("v2"));
    assert_eq!(on_b[0].remote_device_id, Some(A));
    assert_eq!(on_b[0].resolved_at, None);
    assert!(b.is_blocked(Subject::Note(1)));

    let (from_b, _) = b.get_changes_since(Some(T2), 1000);
    let r = apply_sync_changes_at(&mut a, &from_b, &uuid_to_hex(B), None, T5).unwrap();
    assert_eq!((r.0, r.1), (0, 1));
    let on_a = a.conflicts();
    assert_eq!(on_a.len(), 1);
    assert_eq!(on_a[0].local_value.as_deref(), Some("v2"));
    assert_eq!(on_a[0].remote_value.as_deref(), Some("v3"));
    assert_eq!(a.get_note_raw(1).unwrap().content, "v2");
}

#[test]
fn delete_against_edit_is_a_conflict_on_both_sides() {
    let mut a = Store::new(A);
    let mut b = Store::new(B);
    a.apply_sync_note(note(1, "old", A, T1, None, None));
    b.apply_sync_note(note(1, "old", A, T1, None, None));
    a.update_peer_sync_time(B, None, T2);
    b.update_peer_sync_time(A, None, T2);
    a.apply_sync_note(note(1, "old", A, T1, None, Some(T3)));
    b.apply_sync_note(note(1, "new", B, T1, Some(T4), None));

    let (from_a, _) = a.get_changes_since(Some(T2), 10);
    assert_eq!(from_a[0].operation, "delete");
    let (from_b, _) = b.get_changes_since(Some(T2), 10);
    let rb = apply_sync_changes_at(&mut b, &from_a, &uuid_to_hex(A), None, T5).unwrap();
    let ra = apply_sync_changes_at(&mut a, &from_b, &uuid_to_hex(B), None, T5).unwrap();
    assert_eq!((rb.0, rb.1), (0, 1));
    assert_eq!((ra.0, ra.1), (0, 1));
    for store in [&a, &b] {
        let kinds: Vec<ConflictKind> = store.conflicts().iter().map(|c| c.kind).collect();
        assert!(kinds.contains(&ConflictKind::NoteDelete));
        assert!(kinds.contains(&ConflictKind::NoteContent));
        assert_eq!(kinds.len(), 2);
    }
    assert_eq!(b.get_note_raw(1).unwrap().deleted_at, None);
    assert_eq!(a.get_note_raw(1).unwrap().deleted_at.as_deref(), Some(T3));
}

#[test]
fn conflicts_are_recorded_once() {
    let mut b = Store::new(B);
    b.apply_sync_note(note(1, "mine", B, T1, Some(T3), None));
    let mut data = no_data();
    data.created_at = Some(T1.to_string());
    data.content = Some("theirs".to_string());
    data.modified_at = Some(T4.to_string());
    let c = change("note", &uuid_to_hex(1), "update", data, T4);
    assert_eq!(apply_note_change(&mut b, &c, None, T5).unwrap(), ApplyResult::Conflict);
    assert_eq!(b.conflicts().len(), 1);
    let id = b.conflicts()[0].id;
    assert_ne!(id, 0);
    assert_eq!(apply_note_change(&mut b, &c, None, T5).unwrap(), ApplyResult::Conflict);
    assert_eq!(b.conflicts().len(), 1);
    assert_eq!(b.conflicts()[0].id, id);
    assert_eq!(b.get_note_raw(1).unwrap().content, "mine");
}

#[test]
fn remote_write_wins_where_this_device_wrote_nothing_since() {
    let mut b = Store::new(B);
    b.apply_sync_note(note(1, "old", A, T1, None, None));
    let mut data = no_data();
    data.created_at = Some(T1.to_string());
    data.content = Some("newer".to_string());
    data.modified_at = Some(T3.to_string());
    let c = change("note", &uuid_to_hex(1), "update", data, T3);
    assert_eq!(apply_note_change(&mut b, &c, Some(T2), T4).unwrap(), ApplyResult::Applied);
    let got = b.get_note_raw(1).unwrap();
    assert_eq!(got.content, "newer");
    assert_eq!(got.modified_at.as_deref(), Some(T3));
    assert_eq!(got.device_id, Some(A));
    assert_eq!(apply_note_change(&mut b, &c, Some(T3), T4).unwrap(), ApplyResult::Skipped);
    let create = change("note", &uuid_to_hex(1), "create", no_data(), T5);
    assert_eq!(apply_note_change(&mut b, &create, Some(T2), T5).unwrap(), ApplyResult::Skipped);
    let odd = change("note", &uuid_to_hex(1), "merge", no_data(), T5);
    assert_eq!(apply_note_change(&mut b, &odd, None, T5).unwrap(), ApplyResult::Skipped);
    assert!(apply_note_change(&mut b, &change("note", "zz", "update", no_data(), T5), None, T5).is_err());
}

#[test]
fn reparent_into_a_cycle_is_a_conflict() {
    let mut a = Store::new(A);
    a.apply_sync_tag(tag(10, "x", None, T1, None)).unwrap();
    a.apply_sync_tag(tag(11, "y", Some(10), T1, None)).unwrap();
    let mut data = no_data();
    data.name = Some("x".to_string());
    data.parent_id = Some(uuid_to_hex(11));
    data.created_at = Some(T1.to_string());
    data.modified_at = Some(T3.to_string());
    let c = change("tag", &uuid_to_hex(10), "update", data, T3);
    assert_eq!(apply_tag_change(&mut a, &c, Some(T2), T4).unwrap(), ApplyResult::Conflict);
    assert_eq!(a.get_tag_raw(10).unwrap().parent_id, None);
    assert_eq!(a.get_tag_raw(11).unwrap().parent_id, Some(10));
    assert_eq!(a.conflicts().len(), 1);
    assert_eq!(a.conflicts()[0].kind, ConflictKind::TagParent);
    assert_eq!(a.conflicts()[0].entity_id, 10);
    assert_eq!(a.conflicts()[0].local_value, None);
    assert_eq!(a.conflicts()[0].remote_value.as_deref(), Some("0000000000000000000000000000000b"));
    assert!(a.would_create_cycle(10, Some(11)));
    assert!(a.would_create_cycle(10, Some(10)));
    assert!(!a.would_create_cycle(11, Some(10)));
    assert!(!a.would_create_cycle(10, None));
    assert!(a.apply_sync_tag(tag(10, "x", Some(11), T1, Some(T3))).is_err());
    assert_eq!(a.get_tag_raw(10).unwrap().parent_id, None);
}

#[test]
fn tag_rename_and_parent_conflicts() {
    let mut b = Store::new(B);
    b.apply_sync_tag(tag(10, "root", None, T1, None)).unwrap();
    b.apply_sync_tag(tag(11, "mine", None, T1, Some(T3))).unwrap();
    let mut data = no_data();
    data.name = Some("theirs".to_string());
    data.parent_id = Some(uuid_to_hex(10));
    data.created_at = Some(T1.to_string());
    data.modified_at = Some(T4.to_string());
    let c = change("tag", &uuid_to_hex(11), "update", data, T4);
    assert_eq!(apply_tag_change(&mut b, &c, Some(T2), T5).unwrap(), ApplyResult::Conflict);
    let kinds: Vec<ConflictKind> = b.conflicts().iter().map(|c| c.kind).collect();
    assert_eq!(kinds, vec![ConflictKind::TagRename, ConflictKind::TagParent]);
    assert_eq!(b.get_tag_raw(11).unwrap().name, "mine");
    assert!(b.is_blocked(Subject::Tag(11)));
    assert!(!b.is_blocked(Subject::Tag(10)));
    let mut bad = no_data();
    bad.parent_id = Some("nope".to_string());
    assert!(apply_tag_change(&mut b, &change("tag", &uuid_to_hex(12), "create", bad, T4), None, T5).is_err());
    assert!(b.get_tag_raw(12).is_none());
}

#[test]
fn tombstone_does_not_win_over_a_fresh_attach() {
    let mut b = Store::new(B);
    b.apply_sync_note_tag(note_tag(1, 2, T3, None, None));
    let mut data = no_data();
    data.created_at = Some(T1.to_string());
    data.deleted_at = Some(T4.to_string());
    let id = format!("{}:{}", uuid_to_hex(1), uuid_to_hex(2));
    let c = change("note_tag", &id, "delete", data, T4);
    assert_eq!(apply_note_tag_change(&mut b, &c, Some(T2), T5).unwrap(), ApplyResult::Conflict);
    assert_eq!(b.get_note_tag_raw(1, 2).unwrap().deleted_at, None);
    assert_eq!(b.conflicts().len(), 1);
    assert_eq!(b.conflicts()[0].kind, ConflictKind::NoteTag);
    assert_eq!(b.conflicts()[0].tag_id, Some(2));

    let mut quiet = Store::new(B);
    quiet.apply_sync_note_tag(note_tag(1, 2, T1, None, None));
    assert_eq!(apply_note_tag_change(&mut quiet, &c, Some(T2), T5).unwrap(), ApplyResult::Applied);
    let row = quiet.get_note_tag_raw(1, 2).unwrap();
    assert_eq!(row.deleted_at.as_deref(), Some(T4));
    assert_eq!(row.created_at, T1);
}

#[test]
fn reactivation_is_written_and_reported() {
    let mut b = Store::new(B);
    b.apply_sync_note_tag(note_tag(1, 2, T1, None, Some(T3)));
    let mut data = no_data();
    data.created_at = Some(T2.to_string());
    data.modified_at = Some(T4.to_string());
    let id = format!("{}:{}", uuid_to_hex(1), uuid_to_hex(2));
    let c = change("note_tag", &id, "update", data, T4);
    assert_eq!(apply_note_tag_change(&mut b, &c, Some(T2), T5).unwrap(), ApplyResult::Conflict);
    let row = b.get_note_tag_raw(1, 2).unwrap();
    assert_eq!(row.deleted_at, None);
    assert_eq!(row.created_at, T1);
    assert_eq!(row.modified_at.as_deref(), Some(T4));
    assert_eq!(b.conflicts().len(), 1);

    let mut quiet = Store::new(B);
    quiet.apply_sync_note_tag(note_tag(1, 2, T1, None, Some(T1)));
    assert_eq!(apply_note_tag_change(&mut quiet, &c, Some(T2), T5).unwrap(), ApplyResult::Applied);
    assert_eq!(quiet.conflicts().len(), 0);
    let same = change("note_tag", &id, "create", no_data(), T4);
    assert_eq!(apply_note_tag_change(&mut quiet, &same, None, T5).unwrap(), ApplyResult::Skipped);
    let odd = change("note_tag", "a:b:c", "create", no_data(), T4);
    assert_eq!(apply_note_tag_change(&mut quiet, &odd, None, T5).unwrap(), ApplyResult::Skipped);
    let bad = change("note_tag", "a:b", "create", no_data(), T4);
    assert!(apply_note_tag_change(&mut quiet, &bad, None, T5).is_err());
}

#[test]
fn unreadable_changes_are_reported_and_do_not_end_the_batch() {
    let mut b = Store::new(B);
    let mut data = no_data();
    data.created_at = Some(T1.to_string());
    data.content = Some("ok".to_string());
    let changes = vec![
        change("folder", "1", "create", no_data(), T1),
        change("note", "not hex", "create", no_data(), T1),
        change("note", &uuid_to_hex(5), "create", data, T1),
    ];
    let (applied, conflicts, errors) =
        apply_sync_changes_at(&mut b, &changes, &uuid_to_hex(A), Some("desk"), T2).unwrap();
    assert_eq!((applied, conflicts), (1, 0));
    assert_eq!(errors.len(), 2);
    assert_eq!(errors[0], "Unknown entity type: folder");
    assert!(errors[1].starts_with("Error applying note not hex: Validation error in note_id: invalid UUID format: "));
    assert!(b.get_note_raw(5).is_some());
    match apply_change(&mut b, &changes[0], None, T2) {
        Err(voice_core::error::VoiceError::Sync(m)) => assert_eq!(m, "Unknown entity type: folder"),
        other => panic!("expected a sync error, got {:?}", other),
    }
    assert!(apply_sync_changes_at(&mut b, &changes, "peer", None, T3).is_err());
    assert_eq!(b.get_peer_last_sync(A).as_deref(), Some(T2));
    let r = apply_sync_changes(&mut b, &[], &uuid_to_hex(A), None).unwrap();
    assert_eq!((r.0, r.1), (0, 0));
    let stamp = b.get_peer_last_sync(A).unwrap();
    assert_eq!(stamp.len(), 20);
    assert!(stamp.ends_with('Z'));
    assert!(stamp.as_str() > "2025");
}

#[test]
fn feed_is_ascending_limited_and_after_since() {
    let mut a = Store::new(A);
    a.apply_sync_note(note(1, "c", A, T3, None, None));
    a.apply_sync_note(note(2, "a", A, T1, None, None));
    a.apply_sync_tag(tag(3, "t", None, T2, Some(T5))).unwrap();
    a.apply_sync_note_tag(note_tag(2, 3, T2, None, Some(T4)));
    a.apply_sync_note(note(4, "b", A, T1, Some(T2), None));
    let (all, latest) = a.get_changes_since(None, 100);
    let times: Vec<&str> = all.iter().map(|c| c.timestamp.as_str()).collect();
    assert_eq!(times, vec![T1, T2, T3, T4, T5]);
    let kinds: Vec<&str> = all.iter().map(|c| c.entity_type.as_str()).collect();
    assert_eq!(kinds, vec!["note", "note", "note", "note_tag", "tag"]);
    let ops: Vec<&str> = all.iter().map(|c| c.operation.as_str()).collect();
    assert_eq!(ops, vec!["create", "update", "create", "delete", "update"]);
    assert_eq!(latest.as_deref(), Some(T5));
    assert_eq!(all[3].entity_id, format!("{}:{}", uuid_to_hex(2), uuid_to_hex(3)));

    let (some, latest) = a.get_changes_since(Some(T2), 2);
    let times: Vec<&str> = some.iter().map(|c| c.timestamp.as_str()).collect();
    assert_eq!(times, vec![T3, T4]);
    assert_eq!(latest.as_deref(), Some(T4));
    let (rest, latest) = a.get_changes_since(Some(T4), 2);
    assert_eq!(rest.len(), 1);
    assert_eq!(latest.as_deref(), Some(T5));
    let (none, latest) = a.get_changes_since(Some(T5), 2);
    assert!(none.is_empty());
    assert_eq!(latest, None);
    let (zero, _) = a.get_changes_since(None, 0);
    assert!(zero.is_empty());
}

#[test]
fn last_applied_payload_is_what_is_read() {
    let mut s = Store::new(A);
    s.apply_sync_note(note(1, "one", A, T1, None, None));
    s.apply_sync_note(note(2, "two", A, T1, None, None));
    s.apply_sync_note(note(1, "uno", B, T1, Some(T2), Some(T3)));
    s.apply_sync_tag(tag(1, "tag", None, T1, None)).unwrap();
    let got = s.get_note_raw(1).unwrap();
    assert_eq!(got.content, "uno");
    assert_eq!(got.device_id, Some(B));
    assert_eq!(got.modified_at.as_deref(), Some(T2));
    assert_eq!(got.deleted_at.as_deref(), Some(T3));
    assert_eq!(s.get_note_raw(2).unwrap().content, "two");
    assert!(s.get_note_raw(3).is_none());
    assert_eq!(s.notes().len(), 2);
    let full = s.get_full_dataset();
    assert_eq!(full.notes.len(), 2);
    assert_eq!(full.notes[0].content, "uno");
    assert_eq!(full.tags.len(), 1);
    assert_eq!(full.note_tags.len(), 0);
    assert_eq!(s.device_id(), A);
}

#[test]
fn peer_keeps_its_name_where_none_is_given() {
    let mut s = Store::new(A);
    s.update_peer_sync_time(B, Some("laptop"), T1);
    s.update_peer_sync_time(B, None, T2);
    assert_eq!(s.get_peer_last_sync(B).as_deref(), Some(T2));
}

#[test]
fn a_second_round_of_sync_changes_nothing() {
    let mut a = Store::new(A);
    let mut b = Store::new(B);
    a.apply_sync_note(note(1, "from a", A, T1, None, None));
    a.apply_sync_tag(tag(2, "Work", None, T1, None)).unwrap();
    a.apply_sync_note_tag(note_tag(1, 2, T1, None, None));
    b.apply_sync_note(note(3, "from b", B, T2, None, None));

    let mut round = |a: &mut Store, b: &mut Store, now: &str| -> (usize, usize, usize) {
        let since_a = b.get_peer_last_sync(A);
        let (from_a, _) = a.get_changes_since(since_a.as_deref(), 1000);
        let pulled = apply_sync_changes_at(b, &from_a, &uuid_to_hex(A), None, now).unwrap();
        let since_b = a.get_peer_last_sync(B);
        let (from_b, _) = b.get_changes_since(since_b.as_deref(), 1000);
        let pushed = apply_sync_changes_at(a, &from_b, &uuid_to_hex(B), None, now).unwrap();
        (pulled.0 + pushed.0, pulled.1 + pushed.1, a.conflicts().len() + b.conflicts().len())
    };
    let first = round(&mut a, &mut b, T3);
    assert_eq!(first, (4, 0, 0));
    assert_eq!(a.notes().len(), 2);
    assert_eq!(b.notes().len(), 2);
    assert_eq!(b.tags().len(), 1);
    assert_eq!(b.note_tags().len(), 1);
    let second = round(&mut a, &mut b, T4);
    assert_eq!(second, (0, 0, 0));
    assert_eq!(a.peers().len(), 1);
    assert_eq!(a.peers()[0].last_sync_at.as_deref(), Some(T4));
    assert_eq!(b.get_peer_last_sync(A).as_deref(), Some(T4));
}
