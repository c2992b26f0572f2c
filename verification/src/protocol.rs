//! The sync protocol as a server speaks it: for each request, the response.
//!
//! The transport is left to the caller: it hands over what a request holds and sends
//! what these functions return.

use crate::changes::{change_views, SyncChange};
use crate::feed::{feed, latest_time, FullDataset};
use crate::ids::utc_now_text;
use crate::rows::{note_tag_views, note_views, tag_views};
use crate::store::{Store, StoreView};
use crate::sync::{apply_sync_changes_at, reports, sync_outcome};
use crate::text::{all_hex, is_hex32, opt_str, opt_text};
use crate::validation::{is_uuid_text, uuid_text_value, validate_device_id};
use vstd::prelude::*;
use vstd::string::*;

verus! {

/// The version of the protocol that this library speaks.
pub const PROTOCOL_VERSION: &'static str = "1.0";

/// How many changes one answer holds where the request names no limit.
pub const DEFAULT_CHANGES_LIMIT: usize = 1000;

/// How many changes one answer holds at most, whatever the request asks for.
pub const MAX_CHANGES_LIMIT: usize = 10000;

/// What answers a request that cannot be served: the status and what is wrong.
#[derive(Debug)]
pub struct ErrorResponse {
    /// 400 for a request that is wrong; 500 for a failure of this device.
    pub status: u16,
    pub error: String,
}

/// A device that introduces itself.
#[derive(Debug)]
pub struct HandshakeRequest {
    pub device_id: String,
    pub device_name: String,
    pub protocol_version: String,
}

/// What answers a handshake.
#[derive(Debug)]
pub struct HandshakeResponse {
    pub device_id: String,
    pub device_name: String,
    pub protocol_version: String,
    /// When the last exchange with the device that asks succeeded, if one did.
    pub last_sync_timestamp: Option<String>,
    pub server_timestamp: String,
}

/// What answers a request for changes.
#[derive(Debug)]
pub struct ChangesResponse {
    pub changes: Vec<SyncChange>,
    pub from_timestamp: Option<String>,
    pub to_timestamp: Option<String>,
    pub device_id: String,
    pub device_name: String,
    /// False where as many changes are returned as the limit allows: there may be more.
    pub is_complete: bool,
}

/// Changes that a device sends to be applied.
#[derive(Debug)]
pub struct ApplyRequest {
    pub device_id: String,
    pub device_name: String,
    pub changes: Vec<SyncChange>,
}

/// What answers changes sent to be applied.
#[derive(Debug)]
pub struct ApplyResponse {
    pub applied: usize,
    pub conflicts: usize,
    pub errors: Vec<String>,
}

/// What answers a request for the status.
#[derive(Debug)]
pub struct StatusResponse {
    pub device_id: String,
    pub device_name: String,
    pub protocol_version: String,
    pub status: String,
}

/// Who serves: the identifier of the device in hexadecimal, and its name.
#[derive(Debug)]
pub struct ServerIdentity {
    pub device_id: String,
    pub device_name: String,
}

/// Whether a text is the identifier of a device as the protocol writes it: 32 hexadecimal
/// digits.
pub open spec fn is_device_id(id: Seq<char>) -> bool {
    id.len() == 32 && all_hex(id)
}

/// The limit that serves a request for changes: what the request asks for, 1000 where it
/// asks for nothing, and never more than 10000.
pub open spec fn effective_limit(asked: Option<usize>) -> nat {
    let wanted = match asked {
        Some(n) => n,
        None => DEFAULT_CHANGES_LIMIT,
    };
    if wanted < MAX_CHANGES_LIMIT {
        wanted as nat
    } else {
        MAX_CHANGES_LIMIT as nat
    }
}

/// The limit that serves a request for changes.
pub fn changes_limit(asked: Option<usize>) -> (limit: usize)
    ensures
        limit == effective_limit(asked),
        limit <= MAX_CHANGES_LIMIT,
{
    let wanted = match asked {
        Some(n) => n,
        None => DEFAULT_CHANGES_LIMIT,
    };
    if wanted < MAX_CHANGES_LIMIT {
        wanted
    } else {
        MAX_CHANGES_LIMIT
    }
}

fn invalid_device_id() -> (e: ErrorResponse)
    ensures
        e.status == 400,
        e.error@ == "Invalid device_id format"@,
{
    ErrorResponse { status: 400, error: String::from_str("Invalid device_id format") }
}

/// A 32-digit identifier is an identifier.
pub proof fn lemma_device_id_is_uuid_text(id: Seq<char>)
    requires
        is_device_id(id),
    ensures
        is_uuid_text(id),
{
    lemma_no_hyphen_unchanged(id);
}

/// Taking the hyphens out of a text that holds none changes nothing.
pub proof fn lemma_no_hyphen_unchanged(s: Seq<char>)
    requires
        all_hex(s),
    ensures
        crate::text::remove_char(s, '-') == s,
    decreases s.len(),
{
    if s.len() > 0 {
        assert(crate::text::is_hex_digit(s[s.len() - 1]));
        assert forall|i: int| 0 <= i < s.drop_last().len() implies crate::text::is_hex_digit(
            #[trigger] s.drop_last()[i],
        ) by {
            assert(s.drop_last()[i] == s[i]);
        }
        lemma_no_hyphen_unchanged(s.drop_last());
        assert(s.drop_last().push(s.last()) =~= s);
    } else {
        assert(crate::text::remove_char(s, '-') =~= s);
    }
}

/// Whether `r` is the answer to a handshake at the time `now`: the refusal with the
/// status 400 of a device whose identifier is not made of 32 hexadecimal digits; else who
/// serves, since when the device is in sync, and the time.
pub open spec fn handshake_answer(
    r: Result<HandshakeResponse, ErrorResponse>,
    server: ServerIdentity,
    store: StoreView,
    request: HandshakeRequest,
    now: Seq<char>,
) -> bool {
    match r {
        Ok(answer) => {
            &&& is_device_id(request.device_id@)
            &&& answer.device_id@ == server.device_id@
            &&& answer.device_name@ == server.device_name@
            &&& answer.protocol_version@ == PROTOCOL_VERSION@
            &&& opt_text(answer.last_sync_timestamp) == store.last_sync(
                uuid_text_value(request.device_id@),
            )
            &&& answer.server_timestamp@ == now
        },
        Err(e) => !is_device_id(request.device_id@) && e.status == 400 && e.error@
            == "Invalid device_id format"@,
    }
}

/// Answers a handshake, at the time `now`.
///
/// A device whose identifier is not made of 32 hexadecimal digits is refused with the
/// status 400. Any other is told who serves, since when it is in sync, and the time.
pub fn handshake_at(
    server: &ServerIdentity,
    store: &Store,
    request: &HandshakeRequest,
    now: &str,
) -> (r: Result<HandshakeResponse, ErrorResponse>)
    requires
        store.wf(),
    ensures
        handshake_answer(r, *server, store@, *request, now@),
{
    if !is_hex32(request.device_id.as_str()) {
        return Err(invalid_device_id());
    }
    proof {
        lemma_device_id_is_uuid_text(request.device_id@);
    }
    let last = match validate_device_id(request.device_id.as_str()) {
        Ok(peer) => store.get_peer_last_sync(peer),
        Err(_) => None,
    };
    Ok(
        HandshakeResponse {
            device_id: server.device_id.clone(),
            device_name: server.device_name.clone(),
            protocol_version: String::from_str(PROTOCOL_VERSION),
            last_sync_timestamp: last,
            server_timestamp: String::from_str(now),
        },
    )
}

/// Answers a handshake, now.
pub fn handshake(server: &ServerIdentity, store: &Store, request: &HandshakeRequest) -> (r: Result<
    HandshakeResponse,
    ErrorResponse,
>)
    requires
        store.wf(),
    ensures
        exists|now: Seq<char>| #[trigger] handshake_answer(r, *server, store@, *request, now),
{
    let now = utc_now_text();
    handshake_at(server, store, request, now.as_str())
}

/// Answers a request for the changes after `since`.
///
/// At most `limit` changes are returned, and never more than 10000; 1000 where the
/// request names no limit. The answer is complete where fewer changes are returned than
/// the limit allows: otherwise the device that asks goes on from `to_timestamp`.
pub fn get_changes(
    server: &ServerIdentity,
    store: &Store,
    since: Option<&str>,
    limit: Option<usize>,
) -> (answer: ChangesResponse)
    ensures
        change_views(answer.changes@) == feed(store@, opt_str(since), effective_limit(limit)),
        opt_text(answer.from_timestamp) == opt_str(since),
        opt_text(answer.to_timestamp) == latest_time(change_views(answer.changes@)),
        answer.device_id@ == server.device_id@,
        answer.device_name@ == server.device_name@,
        answer.is_complete == (answer.changes@.len() < effective_limit(limit)),
{
    let limit = changes_limit(limit);
    let (changes, latest) = store.get_changes_since(since, limit);
    let is_complete = changes.len() < limit;
    ChangesResponse {
        changes,
        from_timestamp: match since {
            Some(t) => Some(String::from_str(t)),
            None => None,
        },
        to_timestamp: latest,
        device_id: server.device_id.clone(),
        device_name: server.device_name.clone(),
        is_complete,
    }
}

/// Whether `r` and the store `after` are what applying the changes of a request at the
/// time `now` gives: the refusal with the status 400 of a device whose identifier is not
/// made of 32 hexadecimal digits, and the store as it was; else the totals and the store
/// of [`sync_outcome`], and one line for each change that cannot be read.
pub open spec fn apply_answer(
    r: Result<ApplyResponse, ErrorResponse>,
    after: StoreView,
    before: StoreView,
    request: ApplyRequest,
    now: Seq<char>,
) -> bool {
    match r {
        Ok(answer) => {
            let b = sync_outcome(
                before,
                change_views(request.changes@),
                uuid_text_value(request.device_id@),
                Some(request.device_name@),
                now,
            );
            &&& is_device_id(request.device_id@)
            &&& after == b.state
            &&& answer.applied == b.applied
            &&& answer.conflicts == b.conflicts
            &&& reports(answer.errors@, change_views(request.changes@))
        },
        Err(e) => !is_device_id(request.device_id@) && e.status == 400 && e.error@
            == "Invalid device_id format"@ && after == before,
    }
}

/// Applies the changes that a device sends, at the time `now`, and answers with the
/// totals.
///
/// A device whose identifier is not made of 32 hexadecimal digits is refused with the
/// status 400, and nothing is applied.
pub fn apply_changes_at(store: &mut Store, request: &ApplyRequest, now: &str) -> (r: Result<
    ApplyResponse,
    ErrorResponse,
>)
    requires
        old(store).wf(),
    ensures
        final(store).wf(),
        apply_answer(r, final(store)@, old(store)@, *request, now@),
{
    if !is_hex32(request.device_id.as_str()) {
        return Err(invalid_device_id());
    }
    proof {
        lemma_device_id_is_uuid_text(request.device_id@);
    }
    match apply_sync_changes_at(
        store,
        request.changes.as_slice(),
        request.device_id.as_str(),
        Some(request.device_name.as_str()),
        now,
    ) {
        Ok(totals) => Ok(
            ApplyResponse { applied: totals.0, conflicts: totals.1, errors: totals.2 },
        ),
        Err(e) => Err(ErrorResponse { status: 500, error: e.to_string() }),
    }
}

/// Applies the changes that a device sends, now, and answers with the totals.
pub fn apply_changes(store: &mut Store, request: &ApplyRequest) -> (r: Result<
    ApplyResponse,
    ErrorResponse,
>)
    requires
        old(store).wf(),
    ensures
        final(store).wf(),
        exists|now: Seq<char>| #[trigger]
            apply_answer(r, final(store)@, old(store)@, *request, now),
{
    let now = utc_now_text();
    apply_changes_at(store, request, now.as_str())
}

/// Answers a request for everything: every row of the store, deleted or not.
pub fn get_full_sync(store: &Store) -> (d: FullDataset)
    ensures
        note_views(d.notes@) == store@.notes,
        tag_views(d.tags@) == store@.tags,
        note_tag_views(d.note_tags@) == store@.note_tags,
{
    store.get_full_dataset()
}

/// Answers a request for the status.
pub fn status(server: &ServerIdentity) -> (answer: StatusResponse)
    ensures
        answer.device_id@ == server.device_id@,
        answer.device_name@ == server.device_name@,
        answer.protocol_version@ == PROTOCOL_VERSION@,
        answer.status@ == "ok"@,
{
    StatusResponse {
        device_id: server.device_id.clone(),
        device_name: server.device_name.clone(),
        protocol_version: String::from_str(PROTOCOL_VERSION),
        status: String::from_str("ok"),
    }
}

} // verus!
