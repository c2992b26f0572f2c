use voice_core::client::{Direction, Phase, Step, SyncRun};
use voice_core::feed::FullDataset;
use voice_core::protocol::{
    apply_changes_at, get_changes, get_full_sync, handshake_at, ChangesResponse,
    HandshakeResponse, ServerIdentity,
};
use voice_core::rows::{NoteRow, TagRow};
use voice_core::store::Store;
use voice_core::sync::apply_full_dataset;
use voice_core::validation::uuid_to_hex;

const A: u128 = 0xaaaaaaaa_aaaa_aaaa_aaaa_aaaaaaaaaaaa;
const B: u128 = 0xbbbbbbbb_bbbb_bbbb_bbbb_bbbbbbbbbbbb;
const T1: &str = "2025-01-01T00:00:00Z";
const T2: &str = "2025-01-02T00:00:00Z";
const T3: &str = "2025-01-03T00:00:00Z";
const T4: &str = "2025-01-04T00:00:00Z";
const T5: &str = "2025-01-05T00:00:00Z";

fn identity(id: u128, name: &str) -> ServerIdentity {
    ServerIdentity { device_id: uuid_to_hex(id), device_name: name.to_string() }
}

fn note(id: u128, content: &str, device: u128, created: &str) -> NoteRow {
    NoteRow {
        id,
        created_at: created.to_string(),
        content: content.to_string(),
        device_id: Some(device),
        modified_at: None,
        deleted_at: None,
    }
}

/// Runs a whole sync of `local` with `remote`, answering each step as the server would.
fn sync(local: &mut Store, remote: &mut Store, limit: usize, now: &str) -> (SyncRun, usize) {
    sync_one_way(local, remote, Direction::Both, limit, now)
}

fn sync_one_way(
    local: &mut Store,
    remote: &mut Store,
    direction: Direction,
    limit: usize,
    now: &str,
) -> (SyncRun, usize) {
    let me = identity(A, "a");
    let server = identity(B, "b");
    let (mut run, mut step) = SyncRun::begin(&me, B, Some("b"), direction, limit);
    let mut requests = 0;
    loop {
        requests += 1;
        assert!(requests < 100);
        step = match step {
            Step::Handshake(request) => {
                let answer = handshake_at(&server, remote, &request, now).unwrap();
                run.on_handshake(local, &me, &answer, now)
            }
            Step::RequestChanges { since, limit } => {
                let answer = get_changes(&server, remote, since.as_deref(), Some(limit));
                run.on_changes(local, &me, &answer, now)
            }
            Step::SendChanges(request) => {
                let answer = apply_changes_at(remote, &request, now).unwrap();
                run.on_applied(local, &me, &answer, now)
            }
            Step::Done => return (run, requests - 1),
        };
    }
}

#[test]
fn a_sync_pulls_then_pushes_and_is_remembered() {
    let mut a = Store::new(A);
    let mut b = Store::new(B);
    a.apply_sync_note(note(1, "one", A, T1));
    a.apply_sync_note(note(2, "two", A, T1));
    a.apply_sync_note(note(3, "three", A, T2));
    b.apply_sync_note(note(10, "ten", B, T1));
    b.apply_sync_note(note(11, "eleven", B, T2));

    let (run, requests) = sync(&mut a, &mut b, 10, T3);
    let result = run.result();
    assert!(result.success);
    assert_eq!(run.phase, Phase::Finished);
    assert_eq!(requests, 3);
    assert_eq!(result.pulled, 2);
    assert_eq!(result.pushed, 5);
    assert_eq!(result.conflicts, 0);
    assert!(result.errors.is_empty());
    assert_eq!(a.notes().len(), 5);
    assert_eq!(b.notes().len(), 5);
    assert_eq!(a.get_peer_last_sync(B).as_deref(), Some(T3));
    assert_eq!(b.get_peer_last_sync(A).as_deref(), Some(T3));
    assert_eq!(b.get_note_raw(3).unwrap().content, "three");
    assert_eq!(a.get_note_raw(11).unwrap().device_id, Some(B));

    let (again, requests) = sync(&mut a, &mut b, 10, T4);
    let result = again.result();
    assert!(result.success);
    assert_eq!((result.pulled, result.pushed, result.conflicts), (0, 0, 0));
    assert_eq!(requests, 2);
    assert_eq!(a.conflicts().len() + b.conflicts().len(), 0);
    assert_eq!(a.get_peer_last_sync(B).as_deref(), Some(T4));

    a.apply_sync_note(NoteRow { modified_at: Some(T5.to_string()), ..note(1, "one!", A, T1) });
    let (third, _) = sync(&mut a, &mut b, 10, "2025-01-06T00:00:00Z");
    assert_eq!(third.result().pushed, 1);
    assert_eq!(b.get_note_raw(1).unwrap().content, "one!");
}

#[test]
fn a_failed_sync_is_not_remembered() {
    let mut a = Store::new(A);
    let b = Store::new(B);
    let me = identity(A, "a");
    let server = identity(B, "b");
    let (mut run, step) = SyncRun::begin(&me, B, None, Direction::Both, 10);
    let request = match step {
        Step::Handshake(r) => r,
        other => panic!("expected a handshake, got {:?}", other),
    };
    assert_eq!(request.protocol_version, "1.0");
    let answer = handshake_at(&server, &b, &request, T1).unwrap();
    let step = run.on_handshake(&mut a, &me, &answer, T1);
    assert!(matches!(step, Step::RequestChanges { since: None, limit: 10 }));
    run.on_failure("connection refused");
    assert_eq!(run.phase, Phase::Failed);
    let result = run.result();
    assert!(!result.success);
    assert_eq!(result.errors, vec!["connection refused".to_string()]);
    assert_eq!(a.get_peer_last_sync(B), None);
    let late = get_changes(&server, &b, None, None);
    assert!(matches!(run.on_changes(&mut a, &me, &late, T2), Step::Done));
    assert_eq!(run.errors.last().unwrap(), "Unexpected changes");
    assert_eq!(a.get_peer_last_sync(B), None);
}

#[test]
fn handshakes_of_another_version_are_refused() {
    let mut a = Store::new(A);
    let me = identity(A, "a");
    let (mut run, _) = SyncRun::begin(&me, B, None, Direction::Both, 10);
    let answer = HandshakeResponse {
        device_id: uuid_to_hex(B),
        device_name: "b".to_string(),
        protocol_version: "2.0".to_string(),
        last_sync_timestamp: None,
        server_timestamp: T1.to_string(),
    };
    assert!(matches!(run.on_handshake(&mut a, &me, &answer, T1), Step::Done));
    assert_eq!(run.phase, Phase::Failed);
    assert_eq!(run.errors, vec!["Protocol version mismatch".to_string()]);
    assert!(matches!(run.on_handshake(&mut a, &me, &answer, T1), Step::Done));
    assert_eq!(run.errors.last().unwrap(), "Unexpected handshake");
}

#[test]
fn a_page_without_a_time_to_go_on_from_ends_the_sync() {
    let mut a = Store::new(A);
    let me = identity(A, "a");
    let (mut run, _) = SyncRun::begin(&me, B, None, Direction::Both, 10);
    let hello = HandshakeResponse {
        device_id: uuid_to_hex(B),
        device_name: "b".to_string(),
        protocol_version: "1.0".to_string(),
        last_sync_timestamp: Some(T1.to_string()),
        server_timestamp: T2.to_string(),
    };
    run.on_handshake(&mut a, &me, &hello, T2);
    let stuck = ChangesResponse {
        changes: vec![],
        from_timestamp: None,
        to_timestamp: None,
        device_id: uuid_to_hex(B),
        device_name: "b".to_string(),
        is_complete: false,
    };
    assert!(matches!(run.on_changes(&mut a, &me, &stuck, T3), Step::Done));
    assert_eq!(run.phase, Phase::Failed);
    assert_eq!(a.get_peer_last_sync(B), None);
}

#[test]
fn a_first_sync_takes_everything_over() {
    let mut b = Store::new(B);
    b.apply_sync_note(note(1, "one", B, T1));
    b.apply_sync_tag(TagRow {
        id: 5,
        name: "t".to_string(),
        parent_id: None,
        device_id: Some(B),
        created_at: T1.to_string(),
        modified_at: None,
    })
    .unwrap();
    b.add_tag_to_note(1, 5, T2);
    let everything = get_full_sync(&b);
    let mut a = Store::new(A);
    a.apply_sync_note(note(1, "stale", A, T1));
    let errors = apply_full_dataset(&mut a, &everything);
    assert!(errors.is_empty());
    assert_eq!(a.get_note_raw(1).unwrap().content, "one");
    assert_eq!(a.tags().len(), 1);
    assert!(a.note_has_tag(1, 5));
    assert_eq!(a.get_peer_last_sync(B), None);

    let looped = FullDataset {
        notes: vec![],
        tags: vec![TagRow {
            id: 7,
            name: "self".to_string(),
            parent_id: Some(7),
            device_id: None,
            created_at: T1.to_string(),
            modified_at: None,
        }],
        note_tags: vec![],
    };
    let errors = apply_full_dataset(&mut a, &looped);
    assert_eq!(errors, vec!["Validation error in parent_id: tag cycle".to_string()]);
    assert!(a.get_tag_raw(7).is_none());
}

#[test]
fn the_changes_of_the_peer_come_page_by_page() {
    let mut a = Store::new(A);
    let mut b = Store::new(B);
    for (i, t) in [T1, T2, T3, T4, T5].iter().enumerate() {
        b.apply_sync_note(note(20 + i as u128, "text", B, t));
    }
    let (run, requests) = sync(&mut a, &mut b, 2, "2025-01-06T00:00:00Z");
    let result = run.result();
    assert!(result.success);
    assert_eq!(result.pulled, 5);
    assert_eq!(a.notes().len(), 5);
    assert!(requests >= 4);
    assert_eq!(a.get_peer_last_sync(B).as_deref(), Some("2025-01-06T00:00:00Z"));
}

#[test]
fn a_sync_can_go_one_way() {
    let mut a = Store::new(A);
    let mut b = Store::new(B);
    a.apply_sync_note(note(1, "mine", A, T1));
    b.apply_sync_note(note(10, "theirs", B, T1));
    let (pull, requests) = sync_one_way(&mut a, &mut b, Direction::Pull, 10, T2);
    let result = pull.result();
    assert!(result.success);
    assert_eq!((result.pulled, result.pushed), (1, 0));
    assert_eq!(requests, 2);
    assert_eq!(a.notes().len(), 2);
    assert_eq!(b.notes().len(), 1);
    assert_eq!(a.get_peer_last_sync(B).as_deref(), Some(T2));
    assert_eq!(b.get_peer_last_sync(A), None);

    let mut c = Store::new(A);
    let mut d = Store::new(B);
    c.apply_sync_note(note(1, "mine", A, T1));
    d.apply_sync_note(note(10, "theirs", B, T1));
    let (push, requests) = sync_one_way(&mut c, &mut d, Direction::Push, 10, T2);
    let result = push.result();
    assert!(result.success);
    assert_eq!((result.pulled, result.pushed), (0, 1));
    assert_eq!(requests, 2);
    assert_eq!(c.notes().len(), 1);
    assert_eq!(d.notes().len(), 2);
    assert_eq!(c.get_peer_last_sync(B).as_deref(), Some(T2));
    assert_eq!(d.get_peer_last_sync(A).as_deref(), Some(T2));

    let (nothing, requests) = sync_one_way(&mut c, &mut d, Direction::Push, 10, T3);
    assert!(nothing.result().success);
    assert_eq!(nothing.result().pushed, 0);
    assert_eq!(requests, 1);
}
