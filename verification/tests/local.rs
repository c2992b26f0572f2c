use voice_core::error::VoiceError;
use voice_core::store::Store;

const ME: u128 = 0x11;
const T1: &str = "2025-01-01T00:00:00Z";
const T2: &str = "2025-01-02T00:00:00Z";
const T3: &str = "2025-01-03T00:00:00Z";

#[test]
fn notes_are_created_updated_and_deleted() {
    let mut s = Store::new(ME);
    let id = s.create_note("first", T1).unwrap();
    assert_ne!(id, 0);
    let row = s.get_note(id).unwrap();
    assert_eq!(row.content, "first");
    assert_eq!(row.created_at, T1);
    assert_eq!(row.device_id, Some(ME));
    assert_eq!(row.modified_at, None);
    assert_eq!(row.deleted_at, None);

    assert!(s.update_note(id, "second", T2).unwrap());
    let row = s.get_note(id).unwrap();
    assert_eq!(row.content, "second");
    assert_eq!(row.created_at, T1);
    assert_eq!(row.modified_at.as_deref(), Some(T2));
    assert!(!s.update_note(id + 1, "x", T2).unwrap());

    assert!(s.delete_note(id, T3));
    assert!(s.get_note(id).is_none());
    let raw = s.get_note_raw(id).unwrap();
    assert_eq!(raw.deleted_at.as_deref(), Some(T3));
    assert_eq!(raw.modified_at.as_deref(), Some(T3));
    assert_eq!(raw.content, "second");
    assert!(!s.delete_note(id, T3));
    assert!(!s.update_note(id, "third", T3).unwrap());
    assert_eq!(s.notes().len(), 1);
    assert!(s.get_all_notes().is_empty());
}

#[test]
fn note_contents_are_checked() {
    let mut s = Store::new(ME);
    assert!(matches!(s.create_note("  ", T1), Err(VoiceError::Validation { .. })));
    s.insert_note(5, "ok", T1).unwrap();
    assert!(matches!(s.update_note(5, "", T2), Err(VoiceError::Validation { .. })));
    match s.insert_note(5, "again", T2) {
        Err(VoiceError::Storage(m)) => assert_eq!(m, "note identifier is taken"),
        other => panic!("expected a failure of the store, got {:?}", other),
    }
    assert_eq!(s.get_note(5).unwrap().content, "ok");
    assert_eq!(s.notes().len(), 1);
}

#[test]
fn tags_are_created_renamed_and_moved() {
    let mut s = Store::new(ME);
    let europe = s.create_tag("  Europe ", None, T1).unwrap();
    let france = s.create_tag("France", Some(europe), T1).unwrap();
    let asia = s.create_tag("Asia", None, T1).unwrap();
    assert_eq!(s.get_tag_raw(europe).unwrap().name, "Europe");
    assert_eq!(s.get_tag_raw(france).unwrap().parent_id, Some(europe));
    assert_eq!(s.get_tag_raw(france).unwrap().device_id, Some(ME));

    assert!(matches!(s.create_tag("France", Some(europe), T2), Err(VoiceError::Conflict(_))));
    assert!(s.create_tag("France", Some(asia), T2).is_ok());
    assert!(matches!(s.create_tag("a/b", None, T2), Err(VoiceError::Validation { .. })));
    assert!(matches!(s.create_tag("x", Some(12345), T2), Err(VoiceError::NotFound(_))));
    assert!(matches!(s.insert_tag(europe, "Other", None, T2), Err(VoiceError::Storage(_))));

    assert!(s.rename_tag(france, "Frankreich", T2).unwrap());
    let row = s.get_tag_raw(france).unwrap();
    assert_eq!(row.name, "Frankreich");
    assert_eq!(row.modified_at.as_deref(), Some(T2));
    assert_eq!(row.created_at, T1);
    assert!(s.rename_tag(france, "Frankreich", T3).unwrap());
    assert!(!s.rename_tag(999, "x", T2).unwrap());
    assert!(matches!(s.rename_tag(asia, "Europe", T2), Err(VoiceError::Conflict(_))));
    assert!(matches!(s.rename_tag(asia, " ", T2), Err(VoiceError::Validation { .. })));

    match s.move_tag(europe, Some(france), T3) {
        Err(VoiceError::Validation { field, message }) => {
            assert_eq!(field, "parent_id");
            assert_eq!(message, "tag cycle");
        }
        other => panic!("expected a refusal, got {:?}", other),
    }
    assert!(matches!(s.move_tag(europe, Some(europe), T3), Err(VoiceError::Validation { .. })));
    assert!(matches!(s.move_tag(europe, Some(777), T3), Err(VoiceError::NotFound(_))));
    assert_eq!(s.get_tag_raw(europe).unwrap().parent_id, None);
    s.create_tag("Frankreich", Some(asia), T2).unwrap();
    assert!(matches!(s.move_tag(france, Some(asia), T3), Err(VoiceError::Conflict(_))));
    assert_eq!(s.get_tag_raw(france).unwrap().parent_id, Some(europe));
    assert!(s.move_tag(france, None, T3).unwrap());
    assert_eq!(s.get_tag_raw(france).unwrap().parent_id, None);
    assert!(s.move_tag(europe, Some(france), T3).unwrap());
    assert_eq!(s.get_tag_raw(europe).unwrap().parent_id, Some(france));
    assert!(!s.move_tag(4242, None, T3).unwrap());
}

#[test]
fn deleting_a_tag_takes_it_off_every_note() {
    let mut s = Store::new(ME);
    let n1 = s.create_note("one", T1).unwrap();
    let n2 = s.create_note("two", T1).unwrap();
    let work = s.create_tag("Work", None, T1).unwrap();
    let home = s.create_tag("Home", None, T1).unwrap();
    assert!(s.add_tag_to_note(n1, work, T1));
    assert!(s.add_tag_to_note(n2, work, T1));
    assert!(s.add_tag_to_note(n1, home, T1));
    assert!(s.remove_tag_from_note(n2, work, T2));
    assert!(s.delete_tag(work, T3));
    let a = s.get_note_tag_raw(n1, work).unwrap();
    assert_eq!(a.deleted_at.as_deref(), Some(T3));
    assert_eq!(a.modified_at.as_deref(), Some(T3));
    assert_eq!(a.created_at, T1);
    let b = s.get_note_tag_raw(n2, work).unwrap();
    assert_eq!(b.deleted_at.as_deref(), Some(T2));
    let c = s.get_note_tag_raw(n1, home).unwrap();
    assert_eq!(c.deleted_at, None);
    assert!(s.get_tag_raw(work).is_some());
    assert_eq!(s.note_tags().len(), 3);
    assert!(!s.delete_tag(31337, T3));
    let (changes, _) = s.get_changes_since(Some(T2), 100);
    assert_eq!(changes.len(), 1);
    assert_eq!(changes[0].entity_type, "note_tag");
    assert_eq!(changes[0].operation, "delete");
}

#[test]
fn tags_are_put_on_notes_and_taken_off() {
    let mut s = Store::new(ME);
    let n = s.create_note("one", T1).unwrap();
    let t = s.create_tag("Work", None, T1).unwrap();
    assert!(!s.add_tag_to_note(n, 99, T1));
    assert!(!s.add_tag_to_note(98, t, T1));
    assert!(!s.remove_tag_from_note(n, t, T1));
    assert!(s.add_tag_to_note(n, t, T1));
    assert!(!s.add_tag_to_note(n, t, T2));
    assert!(s.note_has_tag(n, t));
    assert!(s.remove_tag_from_note(n, t, T2));
    assert!(!s.note_has_tag(n, t));
    assert!(!s.remove_tag_from_note(n, t, T3));
    assert!(s.add_tag_to_note(n, t, T3));
    let row = s.get_note_tag_raw(n, t).unwrap();
    assert_eq!(row.created_at, T1);
    assert_eq!(row.modified_at.as_deref(), Some(T3));
    assert_eq!(row.deleted_at, None);
    assert_eq!(row.device_id, Some(ME));
    s.delete_note(n, T3);
    assert!(!s.add_tag_to_note(n, t, T3));
}
