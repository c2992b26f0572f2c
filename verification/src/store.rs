//! The local store: notes, tags, note-tag associations and what is remembered of peers.
//!
//! Rows written on behalf of a peer are taken as they come: the device and the
//! timestamps that the peer gave are kept. The reconciler decides whether to write.

use crate::error::{VoiceError, VoiceResult};
use crate::rows::{
    blocked, conflict_ids, conflict_views, note_tag_views, note_views, on_record, peer_views,
    recorded, tag_views, ConflictKind, ConflictRow, ConflictView, NoteRow, NoteTagRow, NoteTagView,
    NoteView, PeerRow, PeerView, Subject, TagRow, TagView,
};
use crate::tables::{distinct_keys, find, has_key, lemma_find_at, lemma_put, place_of, put};
use crate::text::{clone_opt, opt_str, opt_str_eq, opt_text};
use crate::tree::{
    acyclic, ancestor, chain_ends, lemma_chain_stays_ended, lemma_reparent_keeps_acyclic, parent_of,
    tag_key, would_cycle,
};
use vstd::prelude::*;
use vstd::string::*;

verus! {

/// The key of a note: its identifier.
pub open spec fn note_key() -> spec_fn(NoteView) -> u128 {
    |n: NoteView| n.id
}

/// The key of an association: the note and the tag.
pub open spec fn note_tag_key() -> spec_fn(NoteTagView) -> (u128, u128) {
    |a: NoteTagView| (a.note_id, a.tag_id)
}

/// The key of a peer: its device identifier.
pub open spec fn peer_key() -> spec_fn(PeerView) -> u128 {
    |p: PeerView| p.peer_id
}

/// The model of a [`Store`]: its tables, each in the order in which its rows were first
/// written.
pub struct StoreView {
    pub device_id: u128,
    pub notes: Seq<NoteView>,
    pub tags: Seq<TagView>,
    pub note_tags: Seq<NoteTagView>,
    pub peers: Seq<PeerView>,
    pub conflicts: Seq<ConflictView>,
}

impl StoreView {
    /// No key occurs twice in a table, and the tags form a forest.
    pub open spec fn wf(self) -> bool {
        &&& distinct_keys(self.notes, note_key())
        &&& distinct_keys(self.tags, tag_key())
        &&& distinct_keys(self.note_tags, note_tag_key())
        &&& distinct_keys(self.peers, peer_key())
        &&& acyclic(self.tags)
    }

    /// The store after a note was written on behalf of a peer.
    pub open spec fn with_note(self, row: NoteView) -> StoreView {
        StoreView { notes: put(self.notes, note_key(), row), ..self }
    }

    /// The store after a tag was written on behalf of a peer: unchanged where the row would
    /// put the tag above itself.
    pub open spec fn with_tag(self, row: TagView) -> StoreView {
        if would_cycle(self.tags, row.id, row.parent_id) {
            self
        } else {
            StoreView { tags: put(self.tags, tag_key(), row), ..self }
        }
    }

    /// The store after an association was written on behalf of a peer.
    pub open spec fn with_note_tag(self, row: NoteTagView) -> StoreView {
        StoreView { note_tags: put(self.note_tags, note_tag_key(), row), ..self }
    }

    /// The store after a conflict was recorded.
    pub open spec fn with_conflict(self, c: ConflictView) -> StoreView {
        StoreView { conflicts: recorded(self.conflicts, c), ..self }
    }

    /// When the last exchange with `peer_id` succeeded, if one did.
    pub open spec fn last_sync(self, peer_id: u128) -> Option<Seq<char>> {
        match find(self.peers, peer_key(), peer_id) {
            Some(p) => p.last_sync_at,
            None => None,
        }
    }

    /// The store after an exchange with `peer_id` succeeded at `now`. A peer keeps the name
    /// it had where none is given.
    pub open spec fn with_sync_time(
        self,
        peer_id: u128,
        peer_name: Option<Seq<char>>,
        now: Seq<char>,
    ) -> StoreView {
        let name = match peer_name {
            Some(n) => Some(n),
            None => match find(self.peers, peer_key(), peer_id) {
                Some(p) => p.peer_name,
                None => None,
            },
        };
        StoreView {
            peers: put(
                self.peers,
                peer_key(),
                PeerView { peer_id, peer_name: name, last_sync_at: Some(now) },
            ),
            ..self
        }
    }
}

/// The first place at or after `i` of the identifier `id`; the number of identifiers if it
/// is not among them.
pub open spec fn id_place(ids: Seq<u128>, id: u128, i: int) -> int
    decreases ids.len() - i,
{
    if i < 0 || i >= ids.len() {
        ids.len() as int
    } else if ids[i] == id {
        i
    } else {
        id_place(ids, id, i + 1)
    }
}

/// The store after the conflict at the place `at` was resolved at `now`.
pub open spec fn closed_at(s: StoreView, at: int, now: Seq<char>) -> StoreView {
    StoreView {
        conflicts: s.conflicts.update(
            at,
            ConflictView { resolved_at: Some(now), ..s.conflicts[at] },
        ),
        ..s
    }
}

/// The model of a note that may be absent.
pub open spec fn opt_note(o: Option<NoteRow>) -> Option<NoteView> {
    match o {
        Some(r) => Some(r@),
        None => None,
    }
}

/// The model of a tag that may be absent.
pub open spec fn opt_tag(o: Option<TagRow>) -> Option<TagView> {
    match o {
        Some(r) => Some(r@),
        None => None,
    }
}

/// The model of an association that may be absent.
pub open spec fn opt_note_tag(o: Option<NoteTagRow>) -> Option<NoteTagView> {
    match o {
        Some(r) => Some(r@),
        None => None,
    }
}

/// The local store of one device.
pub struct Store {
    device_id: u128,
    notes: Vec<NoteRow>,
    tags: Vec<TagRow>,
    note_tags: Vec<NoteTagRow>,
    peers: Vec<PeerRow>,
    conflicts: Vec<ConflictRow>,
}

impl View for Store {
    type V = StoreView;

    closed spec fn view(&self) -> StoreView {
        StoreView {
            device_id: self.device_id,
            notes: note_views(self.notes@),
            tags: tag_views(self.tags@),
            note_tags: note_tag_views(self.note_tags@),
            peers: peer_views(self.peers@),
            conflicts: conflict_views(self.conflicts@),
        }
    }
}

impl Store {
    /// Whether the store is well formed: see [`StoreView::wf`].
    pub open spec fn wf(&self) -> bool {
        self@.wf()
    }

    /// The identifiers of the conflicts, in the order of the records.
    pub closed spec fn conflict_ids(&self) -> Seq<u128> {
        conflict_ids(self.conflicts@)
    }

    /// The empty store of the device `device_id`.
    pub fn new(device_id: u128) -> (s: Store)
        ensures
            s.wf(),
            s@ == (StoreView {
                device_id,
                notes: Seq::empty(),
                tags: Seq::empty(),
                note_tags: Seq::empty(),
                peers: Seq::empty(),
                conflicts: Seq::empty(),
            }),
            s.conflict_ids() == Seq::<u128>::empty(),
    {
        let s = Store {
            device_id,
            notes: Vec::new(),
            tags: Vec::new(),
            note_tags: Vec::new(),
            peers: Vec::new(),
            conflicts: Vec::new(),
        };
        assert(s@.conflicts =~= Seq::empty());
        assert(s.conflict_ids() =~= Seq::<u128>::empty());
        assert(s@.notes =~= Seq::empty());
        assert(s@.tags =~= Seq::empty());
        assert(s@.note_tags =~= Seq::empty());
        assert(s@.peers =~= Seq::empty());
        assert forall|id: u128| #[trigger] chain_ends(s@.tags, id) by {
            assert(ancestor(s@.tags, id, 1) is None);
        }
        s
    }

    /// The device that owns the store.
    pub fn device_id(&self) -> (id: u128)
        ensures
            id == self@.device_id,
    {
        self.device_id
    }

    /// Every note, deleted or not.
    pub fn notes(&self) -> (rows: &Vec<NoteRow>)
        ensures
            note_views(rows@) == self@.notes,
    {
        &self.notes
    }

    /// Every tag.
    pub fn tags(&self) -> (rows: &Vec<TagRow>)
        ensures
            tag_views(rows@) == self@.tags,
    {
        &self.tags
    }

    /// What is remembered of every peer.
    pub fn peers(&self) -> (rows: &Vec<PeerRow>)
        ensures
            peer_views(rows@) == self@.peers,
    {
        &self.peers
    }

    /// Every association, deleted or not.
    pub fn note_tags(&self) -> (rows: &Vec<NoteTagRow>)
        ensures
            note_tag_views(rows@) == self@.note_tags,
    {
        &self.note_tags
    }

    fn note_index(&self, id: u128) -> (r: Option<usize>)
        requires
            self.wf(),
        ensures
            match r {
                Some(i) => i < self.notes.len() && self.notes[i as int].id == id && has_key(
                    self@.notes,
                    note_key(),
                    id,
                ) && place_of(self@.notes, note_key(), id) == i,
                None => !has_key(self@.notes, note_key(), id),
            },
    {
        let mut i: usize = 0;
        while i < self.notes.len()
            invariant
                self.wf(),
                i <= self.notes.len(),
                forall|j: int| 0 <= j < i ==> (#[trigger] self.notes[j]).id != id,
            decreases self.notes.len() - i,
        {
            if self.notes[i].id == id {
                proof {
                    lemma_find_at(self@.notes, note_key(), i as int);
                }
                return Some(i);
            }
            i += 1;
        }
        assert forall|j: int| 0 <= j < self@.notes.len() implies note_key()(
            #[trigger] self@.notes[j],
        ) != id by {
            assert(self.notes[j].id != id);
        }
        None
    }

    fn tag_index(&self, id: u128) -> (r: Option<usize>)
        requires
            self.wf(),
        ensures
            match r {
                Some(i) => i < self.tags.len() && self.tags[i as int].id == id && has_key(
                    self@.tags,
                    tag_key(),
                    id,
                ) && place_of(self@.tags, tag_key(), id) == i,
                None => !has_key(self@.tags, tag_key(), id),
            },
    {
        let mut i: usize = 0;
        while i < self.tags.len()
            invariant
                self.wf(),
                i <= self.tags.len(),
                forall|j: int| 0 <= j < i ==> (#[trigger] self.tags[j]).id != id,
            decreases self.tags.len() - i,
        {
            if self.tags[i].id == id {
                proof {
                    lemma_find_at(self@.tags, tag_key(), i as int);
                }
                return Some(i);
            }
            i += 1;
        }
        assert forall|j: int| 0 <= j < self@.tags.len() implies tag_key()(
            #[trigger] self@.tags[j],
        ) != id by {
            assert(self.tags[j].id != id);
        }
        None
    }

    fn note_tag_index(&self, note_id: u128, tag_id: u128) -> (r: Option<usize>)
        requires
            self.wf(),
        ensures
            match r {
                Some(i) => i < self.note_tags.len() && self.note_tags[i as int].note_id == note_id
                    && self.note_tags[i as int].tag_id == tag_id && has_key(
                    self@.note_tags,
                    note_tag_key(),
                    (note_id, tag_id),
                ) && place_of(self@.note_tags, note_tag_key(), (note_id, tag_id)) == i,
                None => !has_key(self@.note_tags, note_tag_key(), (note_id, tag_id)),
            },
    {
        let mut i: usize = 0;
        while i < self.note_tags.len()
            invariant
                self.wf(),
                i <= self.note_tags.len(),
                forall|j: int|
                    0 <= j < i ==> !((#[trigger] self.note_tags[j]).note_id == note_id
                        && self.note_tags[j].tag_id == tag_id),
            decreases self.note_tags.len() - i,
        {
            if self.note_tags[i].note_id == note_id && self.note_tags[i].tag_id == tag_id {
                proof {
                    lemma_find_at(self@.note_tags, note_tag_key(), i as int);
                }
                return Some(i);
            }
            i += 1;
        }
        assert forall|j: int| 0 <= j < self@.note_tags.len() implies note_tag_key()(
            #[trigger] self@.note_tags[j],
        ) != (note_id, tag_id) by {
            assert(!(self.note_tags[j].note_id == note_id && self.note_tags[j].tag_id == tag_id));
        }
        None
    }

    fn peer_index(&self, peer_id: u128) -> (r: Option<usize>)
        requires
            self.wf(),
        ensures
            match r {
                Some(i) => i < self.peers.len() && self.peers[i as int].peer_id == peer_id
                    && has_key(self@.peers, peer_key(), peer_id) && place_of(
                    self@.peers,
                    peer_key(),
                    peer_id,
                ) == i,
                None => !has_key(self@.peers, peer_key(), peer_id),
            },
    {
        let mut i: usize = 0;
        while i < self.peers.len()
            invariant
                self.wf(),
                i <= self.peers.len(),
                forall|j: int| 0 <= j < i ==> (#[trigger] self.peers[j]).peer_id != peer_id,
            decreases self.peers.len() - i,
        {
            if self.peers[i].peer_id == peer_id {
                proof {
                    lemma_find_at(self@.peers, peer_key(), i as int);
                }
                return Some(i);
            }
            i += 1;
        }
        assert forall|j: int| 0 <= j < self@.peers.len() implies peer_key()(
            #[trigger] self@.peers[j],
        ) != peer_id by {
            assert(self.peers[j].peer_id != peer_id);
        }
        None
    }

    /// The note `id` as the store holds it, deleted or not.
    pub fn get_note_raw(&self, id: u128) -> (r: Option<NoteRow>)
        requires
            self.wf(),
        ensures
            opt_note(r) == find(self@.notes, note_key(), id),
    {
        match self.note_index(id) {
            Some(i) => Some(self.notes[i].copy()),
            None => None,
        }
    }

    /// The tag `id` as the store holds it.
    pub fn get_tag_raw(&self, id: u128) -> (r: Option<TagRow>)
        requires
            self.wf(),
        ensures
            opt_tag(r) == find(self@.tags, tag_key(), id),
    {
        match self.tag_index(id) {
            Some(i) => Some(self.tags[i].copy()),
            None => None,
        }
    }

    /// The association of `tag_id` with `note_id` as the store holds it, deleted or not.
    pub fn get_note_tag_raw(&self, note_id: u128, tag_id: u128) -> (r: Option<NoteTagRow>)
        requires
            self.wf(),
        ensures
            opt_note_tag(r) == find(self@.note_tags, note_tag_key(), (note_id, tag_id)),
    {
        match self.note_tag_index(note_id, tag_id) {
            Some(i) => Some(self.note_tags[i].copy()),
            None => None,
        }
    }

    /// Writes a note on behalf of a peer: the row replaces the one of its identifier, or is
    /// added. Nothing of the row is changed.
    pub fn apply_sync_note(&mut self, row: NoteRow)
        requires
            old(self).wf(),
        ensures
            final(self).wf(),
            final(self).conflict_ids() == old(self).conflict_ids(),
            final(self)@ == old(self)@.with_note(row@),
    {
        proof {
            lemma_put(self@.notes, note_key(), row@);
        }
        let ghost before = self@.notes;
        let ghost model = row@;
        match self.note_index(row.id) {
            Some(i) => {
                self.notes.set(i, row);
                assert(self@.notes =~= put(before, note_key(), model));
            },
            None => {
                self.notes.push(row);
                assert(self@.notes =~= put(before, note_key(), model));
            },
        }
    }

    /// Whether giving the tag `id` the parent `parent` would put the tag above itself.
    pub fn would_create_cycle(&self, id: u128, parent: Option<u128>) -> (r: bool)
        requires
            self.wf(),
        ensures
            r == would_cycle(self@.tags, id, parent),
    {
        let p = match parent {
            Some(p) => p,
            None => {
                return false;
            },
        };
        let ghost tags = self@.tags;
        assert(chain_ends(tags, p));
        let ghost bound: nat = choose|n: nat| ancestor(tags, p, n) is None;
        let ghost mut steps: nat = 0;
        let mut cur = p;
        loop
            invariant
                self.wf(),
                tags == self@.tags,
                ancestor(tags, p, steps) == Some(cur),
                ancestor(tags, p, bound) is None,
                forall|j: nat| j < steps ==> ancestor(tags, p, j) != Some(id),
                parent == Some(p),
            decreases bound - steps,
        {
            if cur == id {
                return true;
            }
            proof {
                if bound <= steps {
                    lemma_chain_stays_ended(tags, p, bound, steps);
                }
            }
            let next = match self.tag_index(cur) {
                Some(i) => self.tags[i].parent_id,
                None => None,
            };
            assert(next == parent_of(tags, cur)) by {
                if has_key(tags, tag_key(), cur) {
                    let i = place_of(tags, tag_key(), cur);
                    assert(tags[i].parent_id == self.tags[i].parent_id);
                }
            }
            assert(ancestor(tags, p, steps + 1) == next);
            match next {
                Some(q) => {
                    cur = q;
                    proof {
                        steps = steps + 1;
                    }
                },
                None => {
                    assert forall|n: nat| ancestor(tags, p, n) != Some(id) by {
                        if n > steps {
                            lemma_chain_stays_ended(tags, p, steps + 1, n);
                        }
                    }
                    return false;
                },
            }
        }
    }

    /// Writes a tag on behalf of a peer: the row replaces the one of its identifier, or is
    /// added. A row that would put the tag above itself is refused, and the store keeps what
    /// it held.
    pub fn apply_sync_tag(&mut self, row: TagRow) -> (r: VoiceResult<()>)
        requires
            old(self).wf(),
        ensures
            final(self).wf(),
            final(self).conflict_ids() == old(self).conflict_ids(),
            final(self)@ == old(self)@.with_tag(row@),
            match r {
                Ok(_) => !would_cycle(old(self)@.tags, row.id, row.parent_id),
                Err(e) => would_cycle(old(self)@.tags, row.id, row.parent_id) && e@
                    == crate::validation::refusal("parent_id"@, "tag cycle"@),
            },
    {
        if self.would_create_cycle(row.id, row.parent_id) {
            return Err(VoiceError::validation("parent_id", "tag cycle"));
        }
        let ghost before = self@.tags;
        let ghost model = row@;
        proof {
            lemma_put(before, tag_key(), model);
            lemma_reparent_keeps_acyclic(
                before,
                put(before, tag_key(), model),
                model.id,
                model.parent_id,
            );
        }
        match self.tag_index(row.id) {
            Some(i) => {
                self.tags.set(i, row);
                assert(self@.tags =~= put(before, tag_key(), model));
            },
            None => {
                self.tags.push(row);
                assert(self@.tags =~= put(before, tag_key(), model));
            },
        }
        Ok(())
    }

    /// Writes an association on behalf of a peer: the row replaces the one of its note and
    /// tag, or is added.
    pub fn apply_sync_note_tag(&mut self, row: NoteTagRow)
        requires
            old(self).wf(),
        ensures
            final(self).wf(),
            final(self).conflict_ids() == old(self).conflict_ids(),
            final(self)@ == old(self)@.with_note_tag(row@),
    {
        proof {
            lemma_put(self@.note_tags, note_tag_key(), row@);
        }
        let ghost before = self@.note_tags;
        let ghost model = row@;
        match self.note_tag_index(row.note_id, row.tag_id) {
            Some(i) => {
                self.note_tags.set(i, row);
                assert(self@.note_tags =~= put(before, note_tag_key(), model));
            },
            None => {
                self.note_tags.push(row);
                assert(self@.note_tags =~= put(before, note_tag_key(), model));
            },
        }
    }

    /// When the last exchange with the peer succeeded, if one did.
    pub fn get_peer_last_sync(&self, peer_id: u128) -> (r: Option<String>)
        requires
            self.wf(),
        ensures
            opt_text(r) == self@.last_sync(peer_id),
    {
        match self.peer_index(peer_id) {
            Some(i) => clone_opt(&self.peers[i].last_sync_at),
            None => None,
        }
    }

    /// Records that an exchange with the peer succeeded at `now`.
    pub fn update_peer_sync_time(&mut self, peer_id: u128, peer_name: Option<&str>, now: &str)
        requires
            old(self).wf(),
        ensures
            final(self).wf(),
            final(self).conflict_ids() == old(self).conflict_ids(),
            final(self)@ == old(self)@.with_sync_time(peer_id, opt_str(peer_name), now@),
    {
        let ghost before = self@.peers;
        let found = self.peer_index(peer_id);
        let name = match peer_name {
            Some(n) => Some(String::from_str(n)),
            None => match found {
                Some(i) => clone_opt(&self.peers[i].peer_name),
                None => None,
            },
        };
        let row = PeerRow { peer_id, peer_name: name, last_sync_at: Some(String::from_str(now)) };
        let ghost model = row@;
        proof {
            lemma_put(before, peer_key(), model);
        }
        match found {
            Some(i) => {
                self.peers.set(i, row);
                assert(self@.peers =~= put(before, peer_key(), model));
            },
            None => {
                self.peers.push(row);
                assert(self@.peers =~= put(before, peer_key(), model));
            },
        }
    }

    /// Every conflict on record, resolved or not.
    pub fn conflicts(&self) -> (rows: &Vec<ConflictRow>)
        ensures
            conflict_views(rows@) == self@.conflicts,
            conflict_ids(rows@) == self.conflict_ids(),
    {
        &self.conflicts
    }

    /// Whether an unresolved conflict is about `subject`.
    pub fn is_blocked(&self, subject: Subject) -> (r: bool)
        ensures
            r == blocked(self@.conflicts, subject),
    {
        let mut i: usize = 0;
        while i < self.conflicts.len()
            invariant
                i <= self.conflicts.len(),
                forall|j: int|
                    0 <= j < i ==> !((#[trigger] self@.conflicts[j]).resolved_at is None
                        && self@.conflicts[j].concerns(subject)),
            decreases self.conflicts.len() - i,
        {
            let c = &self.conflicts[i];
            assert(c@ == self@.conflicts[i as int]);
            let about = match subject {
                Subject::Note(id) => (c.kind == ConflictKind::NoteContent || c.kind
                    == ConflictKind::NoteDelete) && c.entity_id == id,
                Subject::Tag(id) => (c.kind == ConflictKind::TagRename || c.kind
                    == ConflictKind::TagParent || c.kind == ConflictKind::TagDelete)
                    && c.entity_id == id,
                Subject::NoteTag(note, tag) => c.kind == ConflictKind::NoteTag && c.entity_id
                    == note && c.tag_id == Some(tag),
            };
            if c.resolved_at.is_none() && about {
                return true;
            }
            i += 1;
        }
        false
    }

    /// Records a conflict, once: where the same observation is on record nothing is
    /// written. Returns the identifier of the record.
    pub fn record_conflict(&mut self, c: ConflictRow) -> (id: u128)
        requires
            old(self).wf(),
        ensures
            final(self).wf(),
            final(self)@ == old(self)@.with_conflict(c@),
            on_record(old(self)@.conflicts, c@) ==> final(self).conflict_ids() == old(
                self,
            ).conflict_ids() && old(self).conflict_ids().contains(id),
            !on_record(old(self)@.conflicts, c@) ==> final(self).conflict_ids() == old(
                self,
            ).conflict_ids().push(c.id) && id == c.id,
    {
        let mut i: usize = 0;
        while i < self.conflicts.len()
            invariant
                self.wf(),
                self@ == old(self)@,
                self.conflict_ids() == old(self).conflict_ids(),
                i <= self.conflicts.len(),
                forall|j: int|
                    0 <= j < i ==> !(#[trigger] self@.conflicts[j]).same_observation(c@),
            decreases self.conflicts.len() - i,
        {
            let have = &self.conflicts[i];
            assert(have@ == self@.conflicts[i as int]);
            if have.kind == c.kind && have.entity_id == c.entity_id && have.tag_id == c.tag_id
                && opt_str_eq(&have.local_time, &c.local_time) && opt_str_eq(
                &have.remote_time,
                &c.remote_time,
            ) {
                assert(self.conflict_ids()[i as int] == have.id);
                return have.id;
            }
            i += 1;
        }
        let id = c.id;
        let ghost before = self@.conflicts;
        let ghost ids = self.conflict_ids();
        let ghost model = c@;
        self.conflicts.push(c);
        assert(self@.conflicts =~= before.push(model));
        assert(self.conflict_ids() =~= ids.push(id));
        id
    }

    /// The place of the conflict `conflict_id` among the conflicts.
    pub fn find_conflict(&self, conflict_id: u128) -> (r: Option<usize>)
        ensures
            match r {
                Some(i) => i == id_place(self.conflict_ids(), conflict_id, 0) && i
                    < self@.conflicts.len(),
                None => id_place(self.conflict_ids(), conflict_id, 0) == self@.conflicts.len(),
            },
    {
        let mut i: usize = 0;
        while i < self.conflicts.len()
            invariant
                i <= self.conflicts.len(),
                id_place(self.conflict_ids(), conflict_id, 0) == id_place(
                    self.conflict_ids(),
                    conflict_id,
                    i as int,
                ),
            decreases self.conflicts.len() - i,
        {
            if self.conflicts[i].id == conflict_id {
                return Some(i);
            }
            i += 1;
        }
        None
    }

    /// Marks the conflict at the place `at` as resolved at `now`.
    pub fn close_conflict(&mut self, at: usize, now: &str)
        requires
            old(self).wf(),
            at < old(self)@.conflicts.len(),
        ensures
            final(self).wf(),
            final(self)@ == closed_at(old(self)@, at as int, now@),
            final(self).conflict_ids() == old(self).conflict_ids(),
    {
        let ghost before = self@.conflicts;
        let ghost ids = self.conflict_ids();
        let mut row = self.conflicts[at].copy();
        assert(row@ == before[at as int]);
        row.resolved_at = Some(String::from_str(now));
        self.conflicts.set(at, row);
        assert(self@.conflicts =~= before.update(
            at as int,
            ConflictView { resolved_at: Some(now@), ..before[at as int] },
        ));
        assert(self.conflict_ids() =~= ids);
    }
}

} // verus!
