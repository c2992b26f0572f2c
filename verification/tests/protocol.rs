use voice_core::protocol::{
    apply_changes, apply_changes_at, changes_limit, get_changes, get_full_sync, handshake,
    handshake_at, status, ApplyRequest, HandshakeRequest, ServerIdentity, DEFAULT_CHANGES_LIMIT,
    MAX_CHANGES_LIMIT, PROTOCOL_VERSION,
};
use voice_core::rows::NoteRow;
use voice_core::store::Store;

const A: &str = "aaaaaaaaaaaaaaaaaaaaaaaaaaaaaaaa";
const A_ID: u128 = 0xaaaaaaaa_aaaa_aaaa_aaaa_aaaaaaaaaaaa;
const T1: &str = "2025-01-01T00:00:00Z";
const T2: &str = "2025-01-02T00:00:00Z";

fn server() -> ServerIdentity {
    ServerIdentity { device_id: "b".repeat(32), device_name: "server".to_string() }
}

fn note(id: u128, created: &str) -> NoteRow {
    NoteRow {
        id,
        created_at: created.to_string(),
        content: "text".to_string(),
        device_id: Some(A_ID),
        modified_at: None,
        deleted_at: None,
    }
}

fn hello(id: &str) -> HandshakeRequest {
    HandshakeRequest {
        device_id: id.to_string(),
        device_name: "client".to_string(),
        protocol_version: "1.0".to_string(),
    }
}

#[test]
fn handshake_tells_who_serves_and_since_when() {
    let mut store = Store::new(1);
    let answer = handshake_at(&server(), &store, &hello(A), T2).unwrap();
    assert_eq!(answer.device_id, "b".repeat(32));
    assert_eq!(answer.device_name, "server");
    assert_eq!(answer.protocol_version, "1.0");
    assert_eq!(answer.last_sync_timestamp, None);
    assert_eq!(answer.server_timestamp, T2);
    store.update_peer_sync_time(A_ID, None, T1);
    let answer = handshake_at(&server(), &store, &hello(A), T2).unwrap();
    assert_eq!(answer.last_sync_timestamp.as_deref(), Some(T1));
    let now = handshake(&server(), &store, &hello(A)).unwrap();
    assert!(now.server_timestamp.as_str() > T2);
    for bad in ["", "xyz", "aaaaaaaa-aaaa-aaaa-aaaa-aaaaaaaaaaaa", &"g".repeat(32)] {
        let refused = handshake_at(&server(), &store, &hello(bad), T2).unwrap_err();
        assert_eq!(refused.status, 400);
        assert_eq!(refused.error, "Invalid device_id format");
    }
}

#[test]
fn changes_are_limited() {
    assert_eq!(changes_limit(None), 1000);
    assert_eq!(changes_limit(Some(5)), 5);
    assert_eq!(changes_limit(Some(10000)), 10000);
    assert_eq!(changes_limit(Some(10001)), 10000);
    assert_eq!(changes_limit(Some(0)), 0);
    assert_eq!(DEFAULT_CHANGES_LIMIT, 1000);
    assert_eq!(MAX_CHANGES_LIMIT, 10000);
    assert_eq!(PROTOCOL_VERSION, "1.0");
    let mut store = Store::new(1);
    store.apply_sync_note(note(1, T1));
    store.apply_sync_note(note(2, T2));
    let answer = get_changes(&server(), &store, None, Some(2));
    assert_eq!(answer.changes.len(), 2);
    assert!(!answer.is_complete);
    assert_eq!(answer.from_timestamp, None);
    assert_eq!(answer.to_timestamp.as_deref(), Some(T2));
    assert_eq!(answer.device_name, "server");
    let answer = get_changes(&server(), &store, Some(T1), None);
    assert_eq!(answer.changes.len(), 1);
    assert!(answer.is_complete);
    assert_eq!(answer.from_timestamp.as_deref(), Some(T1));
    let answer = get_changes(&server(), &store, Some(T2), Some(1));
    assert!(answer.changes.is_empty());
    assert!(answer.is_complete);
    assert_eq!(answer.to_timestamp, None);
}

#[test]
fn apply_answers_with_the_totals() {
    let mut source = Store::new(A_ID);
    source.apply_sync_note(note(1, T1));
    let (changes, _) = source.get_changes_since(None, 10);
    let mut store = Store::new(1);
    let request = ApplyRequest { device_id: A.to_string(), device_name: "client".to_string(), changes };
    let answer = apply_changes_at(&mut store, &request, T2).unwrap();
    assert_eq!((answer.applied, answer.conflicts), (1, 0));
    assert!(answer.errors.is_empty());
    assert_eq!(store.get_peer_last_sync(A_ID).as_deref(), Some(T2));
    let again = apply_changes(&mut store, &request).unwrap();
    assert_eq!((again.applied, again.conflicts), (0, 0));
    let bad = ApplyRequest { device_id: "nope".to_string(), device_name: "c".to_string(), changes: vec![] };
    let refused = apply_changes_at(&mut store, &bad, T2).unwrap_err();
    assert_eq!(refused.status, 400);
    assert_eq!(refused.error, "Invalid device_id format");
    let full = get_full_sync(&store);
    assert_eq!(full.notes.len(), 1);
    assert_eq!(full.notes[0].id, 1);
    let s = status(&server());
    assert_eq!(s.status, "ok");
    assert_eq!(s.protocol_version, "1.0");
    assert_eq!(s.device_id, "b".repeat(32));
}
