//! The sync client: what a device does, step by step, to sync with one peer.
//!
//! The transport is left to the caller. It sends what a step asks for and hands the
//! answer to the next step: the handshake, then the changes of the peer page by page,
//! then the changes of this device page by page. Only a sync that went through to the end
//! is remembered as the last exchange with the peer.

use crate::changes::{change_views, SyncChangeView};
use crate::feed::{feed, latest_time};
use crate::laws::lemma_run_keeps_peers;
use crate::protocol::{
    ApplyRequest, ApplyResponse, ChangesResponse, HandshakeRequest, HandshakeResponse,
    PROTOCOL_VERSION, ServerIdentity,
};
use crate::store::{Store, StoreView};
use crate::sync::{error_heads, reconcile_batch, reports, run};
use crate::text::{clone_opt, opt_text, str_eq};
use vstd::prelude::*;
use vstd::string::*;

verus! {

/// How far a sync with a peer has come.
#[derive(Debug, Clone, Copy, PartialEq, Eq, Structural)]
pub enum Phase {
    /// The handshake was sent.
    Handshake,
    /// The changes of the peer are being fetched.
    Pull,
    /// The changes of this device are being sent.
    Push,
    /// The sync went through to the end.
    Finished,
    /// The sync was given up.
    Failed,
}

/// Which way a sync goes.
#[derive(Debug, Clone, Copy, PartialEq, Eq, Structural)]
pub enum Direction {
    /// The changes of the peer are fetched, then those of this device are sent.
    Both,
    /// Only the changes of the peer are fetched.
    Pull,
    /// Only the changes of this device are sent.
    Push,
}

/// A sync with one peer, under way.
#[derive(Debug)]
pub struct SyncRun {
    pub peer_id: u128,
    pub peer_name: Option<String>,
    pub direction: Direction,
    pub phase: Phase,
    /// How many changes a page holds at most.
    pub limit: usize,
    /// The time after which the next page of the changes of this device begins: first the
    /// time that the peer named in the handshake, then the time of the last change sent.
    pub push_since: Option<String>,
    /// How many changes the page sent last holds.
    pub sent: usize,
    /// How many changes of the peer were written.
    pub pulled: usize,
    /// How many changes of this device were sent.
    pub pushed: usize,
    /// How many changes of the peer gave a conflict.
    pub conflicts: usize,
    pub errors: Vec<String>,
}

/// What is to be sent next.
#[derive(Debug)]
pub enum Step {
    Handshake(HandshakeRequest),
    RequestChanges { since: Option<String>, limit: usize },
    SendChanges(ApplyRequest),
    /// Nothing: the sync is finished, or given up.
    Done,
}

/// What a sync came to.
#[derive(Debug)]
pub struct SyncResult {
    pub success: bool,
    pub pulled: usize,
    pub pushed: usize,
    pub conflicts: usize,
    pub errors: Vec<String>,
}

/// The sum of two counts, as far as it can be counted.
pub open spec fn capped_sum(a: usize, b: usize) -> usize {
    if a + b > usize::MAX {
        usize::MAX
    } else {
        (a + b) as usize
    }
}

fn add_capped(a: usize, b: usize) -> (r: usize)
    ensures
        r == capped_sum(a, b),
{
    if a > usize::MAX - b {
        usize::MAX
    } else {
        a + b
    }
}

/// Whether two runs are after the same peer, the same way, with the same limit.
pub open spec fn same_peer(a: SyncRun, b: SyncRun) -> bool {
    a.peer_id == b.peer_id && opt_text(a.peer_name) == opt_text(b.peer_name) && a.limit == b.limit
        && a.direction == b.direction
}

/// Whether two runs have the same counts and the same lines.
pub open spec fn same_totals(a: SyncRun, b: SyncRun) -> bool {
    a.pulled == b.pulled && a.pushed == b.pushed && a.conflicts == b.conflicts && a.errors@
        == b.errors@
}

/// Whether the run `after` is the run `before` given up for the reason `reason`.
pub open spec fn given_up(after: SyncRun, before: SyncRun, reason: Seq<char>) -> bool {
    &&& after.phase == Phase::Failed
    &&& same_peer(after, before)
    &&& after.pulled == before.pulled
    &&& after.pushed == before.pushed
    &&& after.conflicts == before.conflicts
    &&& after.errors@.len() == before.errors@.len() + 1
    &&& after.errors@.subrange(0, before.errors@.len() as int) == before.errors@
    &&& after.errors@.last()@ == reason
}

/// The page of the changes of this device that a run sends next.
pub open spec fn next_page(s: StoreView, run: SyncRun) -> Seq<SyncChangeView> {
    feed(s, opt_text(run.push_since), run.limit as nat)
}

/// Whether `step`, the run `after` and the store `store_after` are what going on with the
/// push gives.
///
/// Where this device has nothing more to tell, the sync is finished and `now` is
/// remembered as the time of the last exchange. Otherwise the next page is sent, and the
/// store stays as it is.
pub open spec fn push_goes_on(
    step: Step,
    after: SyncRun,
    store_after: StoreView,
    before: SyncRun,
    store_before: StoreView,
    identity: ServerIdentity,
    now: Seq<char>,
) -> bool {
    let page = next_page(store_before, before);
    &&& same_peer(after, before)
    &&& same_totals(after, before)
    &&& if page.len() == 0 {
        &&& step is Done
        &&& after.phase == Phase::Finished
        &&& store_after == store_before.with_sync_time(
            before.peer_id,
            opt_text(before.peer_name),
            now,
        )
    } else {
        &&& after.phase == Phase::Push
        &&& store_after == store_before
        &&& after.sent == page.len()
        &&& opt_text(after.push_since) == latest_time(page)
        &&& match step {
            Step::SendChanges(request) => {
                &&& change_views(request.changes@) == page
                &&& request.device_id@ == identity.device_id@
                &&& request.device_name@ == identity.device_name@
            },
            _ => false,
        }
    }
}

impl SyncRun {
    /// Begins a sync with the peer `peer_id`: the handshake is to be sent.
    pub fn begin(
        identity: &ServerIdentity,
        peer_id: u128,
        peer_name: Option<&str>,
        direction: Direction,
        limit: usize,
    ) -> (r: (SyncRun, Step))
        ensures
            r.0.phase == Phase::Handshake,
            r.0.direction == direction,
            r.0.peer_id == peer_id,
            opt_text(r.0.peer_name) == crate::text::opt_str(peer_name),
            r.0.limit == limit,
            r.0.pulled == 0 && r.0.pushed == 0 && r.0.conflicts == 0 && r.0.errors@.len() == 0,
            match r.1 {
                Step::Handshake(request) => request.device_id@ == identity.device_id@
                    && request.device_name@ == identity.device_name@ && request.protocol_version@
                    == PROTOCOL_VERSION@,
                _ => false,
            },
    {
        let run = SyncRun {
            peer_id,
            peer_name: match peer_name {
                Some(n) => Some(String::from_str(n)),
                None => None,
            },
            direction,
            phase: Phase::Handshake,
            limit,
            push_since: None,
            sent: 0,
            pulled: 0,
            pushed: 0,
            conflicts: 0,
            errors: Vec::new(),
        };
        let request = HandshakeRequest {
            device_id: identity.device_id.clone(),
            device_name: identity.device_name.clone(),
            protocol_version: String::from_str(PROTOCOL_VERSION),
        };
        (run, Step::Handshake(request))
    }

    /// Gives the sync up for the reason `reason`. Nothing that the store remembers of the
    /// peer changes.
    pub fn on_failure(&mut self, reason: &str)
        ensures
            given_up(*final(self), *old(self), reason@),
    {
        let ghost before = self.errors@;
        self.phase = Phase::Failed;
        self.errors.push(String::from_str(reason));
        assert(self.errors@.subrange(0, before.len() as int) =~= before);
    }

    /// Takes the answer to the handshake, at the time `now`: the changes of the peer after
    /// the last exchange with it are to be asked for or, in a sync that only sends, the
    /// push begins, from the time that the peer names.
    ///
    /// The sync is given up where no handshake was under way, and where the peer speaks
    /// another version of the protocol.
    pub fn on_handshake(
        &mut self,
        store: &mut Store,
        identity: &ServerIdentity,
        answer: &HandshakeResponse,
        now: &str,
    ) -> (step: Step)
        requires
            old(store).wf(),
        ensures
            final(store).wf(),
            final(store)@.peers == old(store)@.peers || final(self).phase == Phase::Finished,
            if old(self).phase != Phase::Handshake {
                step is Done && final(store)@ == old(store)@ && given_up(
                    *final(self),
                    *old(self),
                    "Unexpected handshake"@,
                )
            } else if answer.protocol_version@ != PROTOCOL_VERSION@ {
                step is Done && final(store)@ == old(store)@ && given_up(
                    *final(self),
                    *old(self),
                    "Protocol version mismatch"@,
                )
            } else if old(self).direction == Direction::Push {
                push_goes_on(
                    step,
                    *final(self),
                    final(store)@,
                    SyncRun {
                        push_since: answer.last_sync_timestamp,
                        errors: final(self).errors,
                        ..*old(self)
                    },
                    old(store)@,
                    *identity,
                    now@,
                )
            } else {
                &&& final(self).phase == Phase::Pull
                &&& final(store)@ == old(store)@
                &&& same_peer(*final(self), *old(self))
                &&& same_totals(*final(self), *old(self))
                &&& opt_text(final(self).push_since) == opt_text(answer.last_sync_timestamp)
                &&& match step {
                    Step::RequestChanges { since, limit } => limit == old(self).limit
                        && opt_text(since) == old(store)@.last_sync(old(self).peer_id),
                    _ => false,
                }
            },
    {
        if self.phase != Phase::Handshake {
            self.on_failure("Unexpected handshake");
            return Step::Done;
        }
        if !str_eq(answer.protocol_version.as_str(), PROTOCOL_VERSION) {
            self.on_failure("Protocol version mismatch");
            return Step::Done;
        }
        self.push_since = clone_opt(&answer.last_sync_timestamp);
        if self.direction == Direction::Push {
            return self.push_on(store, identity, now);
        }
        self.phase = Phase::Pull;
        Step::RequestChanges { since: store.get_peer_last_sync(self.peer_id), limit: self.limit }
    }

    /// Finishes the sync at the time `now`: the time is remembered as that of the last
    /// exchange with the peer.
    fn finish(&mut self, store: &mut Store, now: &str)
        requires
            old(store).wf(),
        ensures
            final(store).wf(),
            final(store)@ == old(store)@.with_sync_time(
                old(self).peer_id,
                opt_text(old(self).peer_name),
                now@,
            ),
            *final(self) == (SyncRun { phase: Phase::Finished, ..*old(self) }),
    {
        let name: Option<&str> = match &self.peer_name {
            Some(n) => Some(n.as_str()),
            None => None,
        };
        store.update_peer_sync_time(self.peer_id, name, now);
        self.phase = Phase::Finished;
    }

    /// Goes on with the push: sends the next page of the changes of this device or, where
    /// there is none, finishes the sync at the time `now`.
    fn push_on(&mut self, store: &mut Store, identity: &ServerIdentity, now: &str) -> (step: Step)
        requires
            old(store).wf(),
        ensures
            final(store).wf(),
            push_goes_on(step, *final(self), final(store)@, *old(self), old(store)@, *identity, now@),
    {
        let since: Option<&str> = match &self.push_since {
            Some(t) => Some(t.as_str()),
            None => None,
        };
        let (changes, latest) = store.get_changes_since(since, self.limit);
        assert(change_views(changes@).len() == changes@.len());
        if changes.len() == 0 {
            self.finish(store, now);
            return Step::Done;
        }
        self.phase = Phase::Push;
        self.sent = changes.len();
        self.push_since = latest;
        Step::SendChanges(
            ApplyRequest {
                device_id: identity.device_id.clone(),
                device_name: identity.device_name.clone(),
                changes,
            },
        )
    }

    /// Takes a page of the changes of the peer, at the time `now`: they are reconciled
    /// against the time of the last exchange with the peer, which stays as it is.
    ///
    /// Where the peer has more, the next page is asked for, from the time where this one
    /// ends. Where it has no more, the push begins. The sync is given up where no pull was
    /// under way, and where a page that is not the last names no time to go on from.
    pub fn on_changes(
        &mut self,
        store: &mut Store,
        identity: &ServerIdentity,
        answer: &ChangesResponse,
        now: &str,
    ) -> (step: Step)
        requires
            old(store).wf(),
        ensures
            final(store).wf(),
            final(store)@.peers == old(store)@.peers || final(self).phase == Phase::Finished,
            old(self).phase != Phase::Pull ==> step is Done && final(store)@ == old(store)@
                && given_up(*final(self), *old(self), "Unexpected changes"@),
            old(self).phase == Phase::Pull ==> pull_goes_on(
                step,
                *final(self),
                final(store)@,
                *old(self),
                old(store)@,
                *identity,
                *answer,
                now@,
            ),
    {
        if self.phase != Phase::Pull {
            self.on_failure("Unexpected changes");
            return Step::Done;
        }
        let last_sync = store.get_peer_last_sync(self.peer_id);
        let last_sync_at: Option<&str> = match &last_sync {
            Some(t) => Some(t.as_str()),
            None => None,
        };
        proof {
            lemma_run_keeps_peers(
                store@,
                change_views(answer.changes@),
                store@.last_sync(self.peer_id),
                now@,
            );
        }
        let ghost lines = self.errors@;
        let (applied, conflicts, mut errors) = reconcile_batch(
            store,
            answer.changes.as_slice(),
            last_sync_at,
            now,
        );
        let ghost reported = errors@;
        self.pulled = add_capped(self.pulled, applied);
        self.conflicts = add_capped(self.conflicts, conflicts);
        self.errors.append(&mut errors);
        assert(self.errors@ == lines + reported);
        assert(self.errors@.subrange(0, lines.len() as int) =~= lines);
        assert(self.errors@.subrange(lines.len() as int, (lines.len() + reported.len()) as int)
            =~= reported);
        if !answer.is_complete {
            match &answer.to_timestamp {
                Some(t) => {
                    return Step::RequestChanges { since: Some(t.clone()), limit: self.limit };
                },
                None => {
                    let ghost counted = self.errors@;
                    self.on_failure("Peer named no time to go on from");
                    assert(self.errors@.subrange(0, lines.len() as int) =~= lines);
                    assert(self.errors@.subrange(lines.len() as int, (lines.len() + reported.len()) as int)
                        =~= reported) by {
                        assert(self.errors@.subrange(0, counted.len() as int) == counted);
                    }
                    return Step::Done;
                },
            }
        }
        if self.direction == Direction::Pull {
            self.finish(store, now);
            return Step::Done;
        }
        self.push_on(store, identity, now)
    }

    /// Takes the answer to a page of the changes of this device, at the time `now`: the
    /// next page is sent or, where the last page was not full, the sync is finished.
    ///
    /// The lines that the peer reports are kept. The sync is given up where no push was
    /// under way.
    pub fn on_applied(
        &mut self,
        store: &mut Store,
        identity: &ServerIdentity,
        answer: &ApplyResponse,
        now: &str,
    ) -> (step: Step)
        requires
            old(store).wf(),
        ensures
            final(store).wf(),
            final(store)@.peers == old(store)@.peers || final(self).phase == Phase::Finished,
            old(self).phase != Phase::Push ==> step is Done && final(store)@ == old(store)@
                && given_up(*final(self), *old(self), "Unexpected answer"@),
            old(self).phase == Phase::Push ==> {
                let counted = SyncRun {
                    pushed: capped_sum(old(self).pushed, old(self).sent),
                    errors: final(self).errors,
                    ..*old(self)
                };
                &&& final(self).errors@ == old(self).errors@ + answer.errors@
                &&& if old(self).sent < old(self).limit {
                    &&& step is Done
                    &&& final(self).phase == Phase::Finished
                    &&& same_peer(*final(self), *old(self))
                    &&& final(self).pushed == counted.pushed
                    &&& final(self).pulled == old(self).pulled
                    &&& final(self).conflicts == old(self).conflicts
                    &&& final(store)@ == old(store)@.with_sync_time(
                        old(self).peer_id,
                        opt_text(old(self).peer_name),
                        now@,
                    )
                } else {
                    push_goes_on(
                        step,
                        *final(self),
                        final(store)@,
                        counted,
                        old(store)@,
                        *identity,
                        now@,
                    )
                }
            },
    {
        if self.phase != Phase::Push {
            self.on_failure("Unexpected answer");
            return Step::Done;
        }
        self.pushed = add_capped(self.pushed, self.sent);
        let mut i: usize = 0;
        let ghost lines = self.errors@;
        while i < answer.errors.len()
            invariant
                i <= answer.errors.len(),
                self.errors@ == lines + answer.errors@.take(i as int),
                self.phase == old(self).phase,
                self.direction == old(self).direction,
                same_peer(*self, *old(self)),
                self.pushed == capped_sum(old(self).pushed, old(self).sent),
                self.pulled == old(self).pulled,
                self.conflicts == old(self).conflicts,
                self.sent == old(self).sent,
                self.push_since == old(self).push_since,
            decreases answer.errors.len() - i,
        {
            self.errors.push(answer.errors[i].clone());
            assert(answer.errors@.take(i + 1) =~= answer.errors@.take(i as int).push(
                answer.errors@[i as int],
            ));
            i += 1;
        }
        assert(answer.errors@.take(answer.errors@.len() as int) =~= answer.errors@);
        if self.sent < self.limit {
            self.finish(store, now);
            return Step::Done;
        }
        self.push_on(store, identity, now)
    }

    /// What the sync came to, so far.
    pub fn result(&self) -> (r: SyncResult)
        ensures
            r.success == (self.phase == Phase::Finished),
            r.pulled == self.pulled,
            r.pushed == self.pushed,
            r.conflicts == self.conflicts,
            r.errors@.len() == self.errors@.len(),
            forall|i: int| 0 <= i < r.errors@.len() ==> (#[trigger] r.errors@[i])@ == self.errors@[i]@,
    {
        let mut errors: Vec<String> = Vec::new();
        let mut i: usize = 0;
        while i < self.errors.len()
            invariant
                i <= self.errors.len(),
                errors@.len() == i,
                forall|j: int| 0 <= j < i ==> (#[trigger] errors@[j])@ == self.errors@[j]@,
            decreases self.errors.len() - i,
        {
            errors.push(self.errors[i].clone());
            i += 1;
        }
        SyncResult {
            success: self.phase == Phase::Finished,
            pulled: self.pulled,
            pushed: self.pushed,
            conflicts: self.conflicts,
            errors,
        }
    }
}

/// Whether `step`, the run `after` and the store `store_after` are what taking a page of
/// the changes of the peer gives, at the time `now`.
///
/// The store is the one that reconciling the page against the time of the last exchange
/// leaves; the counts grow by what was written and by what gave a conflict; there is one
/// more line for each change that cannot be read. Then the next page is asked for, or the
/// push goes on, or the sync is given up.
pub open spec fn pull_goes_on(
    step: Step,
    after: SyncRun,
    store_after: StoreView,
    before: SyncRun,
    store_before: StoreView,
    identity: ServerIdentity,
    answer: ChangesResponse,
    now: Seq<char>,
) -> bool {
    let cs = change_views(answer.changes@);
    let b = run(store_before, cs, store_before.last_sync(before.peer_id), now);
    let first = before.errors@.len() as int;
    let lines = after.errors@.subrange(first, first + error_heads(cs).len());
    let counted = SyncRun {
        pulled: capped_sum(before.pulled, b.applied as usize),
        conflicts: capped_sum(before.conflicts, b.conflicts as usize),
        errors: after.errors,
        ..before
    };
    &&& first + error_heads(cs).len() <= after.errors@.len()
    &&& after.errors@.subrange(0, first) == before.errors@
    &&& reports(lines, cs)
    &&& if !answer.is_complete {
        match answer.to_timestamp {
            Some(t) => {
                &&& after.phase == Phase::Pull
                &&& store_after == b.state
                &&& same_peer(after, before)
                &&& after.pulled == counted.pulled
                &&& after.conflicts == counted.conflicts
                &&& after.pushed == before.pushed
                &&& opt_text(after.push_since) == opt_text(before.push_since)
                &&& match step {
                    Step::RequestChanges { since, limit } => opt_text(since) == Some(t@) && limit
                        == before.limit,
                    _ => false,
                }
            },
            None => {
                &&& step is Done
                &&& store_after == b.state
                &&& after.phase == Phase::Failed
                &&& same_peer(after, before)
                &&& after.pulled == counted.pulled
                &&& after.conflicts == counted.conflicts
                &&& after.pushed == before.pushed
                &&& after.errors@.len() > before.errors@.len()
                &&& after.errors@.last()@ == "Peer named no time to go on from"@
            },
        }
    } else if before.direction == Direction::Pull {
        &&& step is Done
        &&& after.phase == Phase::Finished
        &&& same_peer(after, before)
        &&& after.pulled == counted.pulled
        &&& after.conflicts == counted.conflicts
        &&& after.pushed == before.pushed
        &&& store_after == b.state.with_sync_time(
            before.peer_id,
            opt_text(before.peer_name),
            now,
        )
    } else {
        push_goes_on(step, after, store_after, counted, b.state, identity, now)
    }
}

} // verus!
