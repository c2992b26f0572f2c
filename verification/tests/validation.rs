use uuid::Uuid;
use voice_core::error::VoiceError;
use voice_core::validation::{
    uuid_bytes_to_hex, uuid_to_hex, validate_device_id, validate_note_content, validate_note_id,
    validate_parent_tag_id, validate_search_query, validate_tag_id_groups, validate_tag_ids,
    validate_tag_name, validate_tag_path, validate_uuid, validate_uuid_hex,
    MAX_NOTE_CONTENT_LENGTH, MAX_SEARCH_QUERY_LENGTH, MAX_TAG_NAME_LENGTH,
};

fn refusal(r: Result<impl std::fmt::Debug, VoiceError>) -> (String, String) {
    match r {
        Err(VoiceError::Validation { field, message }) => (field, message),
        other => panic!("expected a validation error, got {:?}", other),
    }
}

#[test]
fn test_validate_uuid_hex_valid() {
    let uuid = Uuid::now_v7();
    let hex = uuid.simple().to_string();
    let result = validate_uuid_hex(&hex, "test");
    assert!(result.is_ok());
    assert_eq!(result.unwrap(), uuid.as_u128());
}

#[test]
fn test_validate_uuid_hex_with_hyphens() {
    let uuid = Uuid::now_v7();
    let hex_with_hyphens = uuid.to_string();
    let result = validate_uuid_hex(&hex_with_hyphens, "test");
    assert!(result.is_ok());
    assert_eq!(result.unwrap(), uuid.as_u128());
}

#[test]
fn test_validate_uuid_hex_invalid() {
    let result = validate_uuid_hex("not-a-uuid", "test");
    assert!(result.is_err());
}

#[test]
fn test_validate_tag_name_valid() {
    assert!(validate_tag_name("Work").is_ok());
    assert!(validate_tag_name("Personal").is_ok());
    assert!(validate_tag_name("  Trimmed  ").is_ok());
}

#[test]
fn test_validate_tag_name_empty() {
    assert!(validate_tag_name("").is_err());
    assert!(validate_tag_name("   ").is_err());
}

#[test]
fn test_validate_tag_name_with_slash() {
    assert!(validate_tag_name("Work/Projects").is_err());
}

#[test]
fn test_validate_tag_name_too_long() {
    let long_name = "a".repeat(MAX_TAG_NAME_LENGTH + 1);
    assert!(validate_tag_name(&long_name).is_err());
}

#[test]
fn test_validate_tag_path_valid() {
    assert!(validate_tag_path("Work").is_ok());
    assert!(validate_tag_path("Europe/France/Paris").is_ok());
    assert!(validate_tag_path("/Work/").is_ok());
}

#[test]
fn test_validate_tag_path_empty() {
    assert!(validate_tag_path("").is_err());
    assert!(validate_tag_path("   ").is_err());
    assert!(validate_tag_path("///").is_err());
}

#[test]
fn test_validate_note_content_valid() {
    assert!(validate_note_content("Hello, world!").is_ok());
    assert!(validate_note_content("  Content  ").is_ok());
}

#[test]
fn test_validate_note_content_empty() {
    assert!(validate_note_content("").is_err());
    assert!(validate_note_content("   ").is_err());
}

#[test]
fn test_validate_note_content_too_long() {
    let long_content = "a".repeat(MAX_NOTE_CONTENT_LENGTH + 1);
    assert!(validate_note_content(&long_content).is_err());
}

#[test]
fn test_validate_search_query_none() {
    assert!(validate_search_query(None).is_ok());
}

#[test]
fn test_validate_search_query_valid() {
    assert!(validate_search_query(Some("hello world")).is_ok());
}

#[test]
fn test_validate_search_query_too_long() {
    let long_query = "a".repeat(MAX_SEARCH_QUERY_LENGTH + 1);
    assert!(validate_search_query(Some(&long_query)).is_err());
}

#[test]
fn test_validate_parent_tag_id_none() {
    assert!(validate_parent_tag_id(None, None).is_ok());
}

#[test]
fn test_validate_parent_tag_id_self_reference() {
    let uuid = Uuid::now_v7();
    let hex = uuid.simple().to_string();
    let result = validate_parent_tag_id(Some(&hex), Some(&hex));
    assert!(result.is_err());
}

#[test]
fn uuid_hex_reads_the_digits_most_significant_first() {
    let v = validate_uuid_hex("000102030405060708090a0b0c0d0e0f", "id").unwrap();
    assert_eq!(v, 0x0001_0203_0405_0607_0809_0a0b_0c0d_0e0fu128);
    let upper = validate_uuid_hex("000102030405060708090A0B0C0D0E0F", "id").unwrap();
    assert_eq!(upper, v);
    assert_eq!(uuid_to_hex(v), "000102030405060708090a0b0c0d0e0f");
}

#[test]
fn uuid_hex_refusal_names_the_field() {
    let (field, message) = refusal(validate_uuid_hex("xyz", "peer"));
    assert_eq!(field, "peer");
    assert!(message.starts_with("invalid UUID format: "));
    let (field, _) = refusal(validate_note_id("12"));
    assert_eq!(field, "note_id");
    let (field, _) = refusal(validate_device_id(""));
    assert_eq!(field, "device_id");
}

#[test]
fn uuid_hex_refuses_braces_and_urn_once_hyphens_are_gone() {
    assert!(validate_uuid_hex("{936da01f-9abd-4d9d-80c7-02af85c822a8}", "id").is_err());
    assert!(validate_uuid_hex("urn:uuid:936da01f-9abd-4d9d-80c7-02af85c822a8", "id").is_err());
    assert!(validate_uuid_hex("936da01f-9abd-4d9d-80c7-02af85c822a8", "id").is_ok());
    assert!(validate_uuid_hex("9-3-6da01f9abd4d9d80c702af85c822a8", "id").is_ok());
}

#[test]
fn uuid_bytes_checks() {
    assert!(validate_uuid(&[0u8; 16], "id").is_ok());
    let (field, message) = refusal(validate_uuid(&[0u8; 15], "id"));
    assert_eq!(field, "id");
    assert_eq!(message, "must be 16 bytes, got 15");
    let bytes: Vec<u8> = (0u8..16).collect();
    assert_eq!(uuid_bytes_to_hex(&bytes).unwrap(), "000102030405060708090a0b0c0d0e0f");
    let (field, message) = refusal(uuid_bytes_to_hex(&bytes[..3]));
    assert_eq!(field, "uuid");
    assert_eq!(message, "must be 16 bytes");
}

#[test]
fn tag_name_messages() {
    let (field, message) = refusal(validate_tag_name(" \t "));
    assert_eq!(field, "tag_name");
    assert_eq!(message, "cannot be empty or whitespace only");
    let (_, message) = refusal(validate_tag_name(&"b".repeat(123)));
    assert_eq!(message, "cannot exceed 100 characters (got 123)");
    let (_, message) = refusal(validate_tag_name("a/b"));
    assert_eq!(message, "cannot contain '/' character (reserved for paths)");
    assert!(validate_tag_name(&"c".repeat(100)).is_ok());
    let padded = format!("  {}  ", "d".repeat(100));
    assert!(validate_tag_name(&padded).is_ok());
    assert!(validate_tag_name("\u{3000}").is_err());
}

#[test]
fn tag_path_messages() {
    let (field, message) = refusal(validate_tag_path(""));
    assert_eq!(field, "tag_path");
    assert_eq!(message, "cannot be empty or whitespace only");
    let (_, message) = refusal(validate_tag_path(&"p".repeat(501)));
    assert_eq!(message, "cannot exceed 500 characters (got 501)");
    let deep = vec!["a"; 51].join("/");
    let (_, message) = refusal(validate_tag_path(&deep));
    assert_eq!(message, "cannot exceed 50 levels (got 51)");
    assert!(validate_tag_path(&vec!["a"; 50].join("/")).is_ok());
    let (_, message) = refusal(validate_tag_path("/ / /"));
    assert_eq!(message, "must contain at least one valid tag name");
    let long = format!("ok/{}", "0123456789".repeat(11));
    let (_, message) = refusal(validate_tag_path(&long));
    assert_eq!(message, "tag name '01234567890123456789...' exceeds 100 characters");
}

#[test]
fn note_content_and_query_messages() {
    let (field, message) = refusal(validate_note_content("\n"));
    assert_eq!(field, "content");
    assert_eq!(message, "cannot be empty or whitespace only");
    let (_, message) = refusal(validate_note_content(&"x".repeat(100_001)));
    assert_eq!(message, "cannot exceed 100000 characters (got 100001)");
    assert!(validate_note_content(&"x".repeat(100_000)).is_ok());
    let (field, message) = refusal(validate_search_query(Some(&"q".repeat(501))));
    assert_eq!(field, "search_query");
    assert_eq!(message, "cannot exceed 500 characters (got 501)");
    assert!(validate_search_query(Some(&"q".repeat(500))).is_ok());
}

#[test]
fn parent_tag_checks() {
    let a = "00000000000000000000000000000001";
    let b = "00000000000000000000000000000002";
    assert_eq!(validate_parent_tag_id(Some(a), Some(b)).unwrap(), Some(1));
    assert_eq!(validate_parent_tag_id(Some(a), None).unwrap(), Some(1));
    assert_eq!(validate_parent_tag_id(None, Some("junk")).unwrap(), None);
    let (field, message) = refusal(validate_parent_tag_id(Some(a), Some(a)));
    assert_eq!(field, "parent_id");
    assert_eq!(message, "tag cannot be its own parent");
    let (field, _) = refusal(validate_parent_tag_id(Some("junk"), None));
    assert_eq!(field, "tag_id");
}

#[test]
fn tag_id_lists() {
    let a = "00000000000000000000000000000001".to_string();
    let b = "0000000000000000000000000000000b".to_string();
    assert_eq!(validate_tag_ids(&[a.clone(), b.clone()]).unwrap(), vec![1, 11]);
    assert_eq!(validate_tag_ids(&[]).unwrap(), Vec::<u128>::new());
    let (field, message) = refusal(validate_tag_ids(&[a.clone(), "no".to_string(), "x".to_string()]));
    assert_eq!(field, "tag_ids");
    assert_eq!(message, "item 1: invalid tag ID");
    assert!(validate_tag_id_groups(None).unwrap().is_none());
    let groups = vec![vec![a.clone()], vec![b.clone(), a.clone()]];
    assert_eq!(validate_tag_id_groups(Some(&groups)).unwrap(), Some(vec![vec![1], vec![11, 1]]));
    let bad = vec![vec![a.clone()], vec![b, "zz".to_string()]];
    let (field, message) = refusal(validate_tag_id_groups(Some(&bad)));
    assert_eq!(field, "tag_id_groups");
    assert_eq!(message, "group 1, item 1: invalid tag ID");
}
