use uuid::Uuid;
use voice_core::models::{Note, NoteTag, Tag};

#[test]
fn test_note_creation() {
    let device_id = Uuid::now_v7().as_u128();
    let note = Note::new("Test content".to_string(), device_id);

    assert!(note.id != 0);
    assert_eq!(note.content, "Test content");
    assert_eq!(note.device_id, device_id);
    assert!(note.modified_at.is_none());
    assert!(note.deleted_at.is_none());
    assert!(!note.is_deleted());
}

#[test]
fn test_tag_creation() {
    let device_id = Uuid::now_v7().as_u128();
    let tag = Tag::new("Work".to_string(), device_id, None);

    assert!(tag.id != 0);
    assert_eq!(tag.name, "Work");
    assert!(tag.parent_id.is_none());
}

#[test]
fn test_tag_with_parent() {
    let device_id = Uuid::now_v7().as_u128();
    let parent = Tag::new("Work".to_string(), device_id, None);
    let child = Tag::new("Projects".to_string(), device_id, Some(parent.id));

    assert_eq!(child.parent_id, Some(parent.id));
}

#[test]
fn test_note_tag_creation() {
    let device_id = Uuid::now_v7().as_u128();
    let note = Note::new("Test".to_string(), device_id);
    let tag = Tag::new("Work".to_string(), device_id, None);
    let note_tag = NoteTag::new(note.id, tag.id, device_id);

    assert_eq!(note_tag.note_id, note.id);
    assert_eq!(note_tag.tag_id, tag.id);
    assert!(!note_tag.is_deleted());
}

#[test]
fn test_id_hex_format() {
    let device_id = Uuid::now_v7().as_u128();
    let note = Note::new("Test".to_string(), device_id);

    let hex = note.id_hex();
    assert_eq!(hex.len(), 32);
    assert!(hex.chars().all(|c| c.is_ascii_hexdigit()));
}

#[test]
fn models_write_their_identifiers_in_hexadecimal() {
    let note = Note::created(0xabc, "2025-01-01T00:00:00Z".to_string(), "n".to_string(), 0x12);
    assert_eq!(note.id_hex(), "00000000000000000000000000000abc");
    assert_eq!(note.device_id_hex(), "00000000000000000000000000000012");
    assert_eq!(note.created_at, "2025-01-01T00:00:00Z");
    let tag = Tag::created(1, "2025-01-01T00:00:00Z".to_string(), "t".to_string(), 2, Some(0xff));
    assert_eq!(tag.id_hex(), "00000000000000000000000000000001");
    assert_eq!(tag.device_id_hex(), "00000000000000000000000000000002");
    assert_eq!(tag.parent_id_hex().as_deref(), Some("000000000000000000000000000000ff"));
    assert_eq!(Tag::new("r".to_string(), 2, None).parent_id_hex(), None);
    let mut link = NoteTag::created(3, 4, "2025-01-01T00:00:00Z".to_string(), 5);
    assert_eq!(link.note_id_hex(), "00000000000000000000000000000003");
    assert_eq!(link.tag_id_hex(), "00000000000000000000000000000004");
    assert_eq!(link.device_id_hex(), "00000000000000000000000000000005");
    link.deleted_at = Some("2025-01-02T00:00:00Z".to_string());
    assert!(link.is_deleted());
    let fresh = Note::new("x".to_string(), 1);
    assert_eq!((fresh.id >> 76) & 0xf, 7);
    assert_eq!(fresh.created_at.len(), 20);
    assert!(fresh.created_at.ends_with('Z'));
    assert_eq!(Uuid::from_u128(fresh.id).get_version_num(), 7);
}
