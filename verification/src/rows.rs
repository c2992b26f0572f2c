//! The rows of the local store, as they are kept and as peers exchange them.
//!
//! Identifiers are 128-bit values. Timestamps are UTC texts of one format, compared
//! as texts. Each row type has a mathematical model, its view, over which the
//! contracts of the store are stated.

use crate::text::{clone_opt, lex_le, opt_text};
use vstd::prelude::*;

verus! {

/// A note with everything that sync needs, deleted or not.
#[derive(Debug)]
pub struct NoteRow {
    pub id: u128,
    pub created_at: String,
    pub content: String,
    /// The device that last wrote the note, where it is known.
    pub device_id: Option<u128>,
    pub modified_at: Option<String>,
    /// Set when the note is deleted: the row stays.
    pub deleted_at: Option<String>,
}

/// The model of a [`NoteRow`].
pub struct NoteView {
    pub id: u128,
    pub created_at: Seq<char>,
    pub content: Seq<char>,
    pub device_id: Option<u128>,
    pub modified_at: Option<Seq<char>>,
    pub deleted_at: Option<Seq<char>>,
}

impl View for NoteRow {
    type V = NoteView;

    open spec fn view(&self) -> NoteView {
        NoteView {
            id: self.id,
            created_at: self.created_at@,
            content: self.content@,
            device_id: self.device_id,
            modified_at: opt_text(self.modified_at),
            deleted_at: opt_text(self.deleted_at),
        }
    }
}

impl NoteRow {
    /// A copy of the row.
    pub fn copy(&self) -> (r: NoteRow)
        ensures
            r@ == self@,
    {
        NoteRow {
            id: self.id,
            created_at: self.created_at.clone(),
            content: self.content.clone(),
            device_id: self.device_id,
            modified_at: clone_opt(&self.modified_at),
            deleted_at: clone_opt(&self.deleted_at),
        }
    }
}

impl NoteView {
    /// Whether the note was neither modified nor deleted before it was created.
    pub open spec fn times_ordered(self) -> bool {
        &&& self.modified_at matches Some(t) ==> lex_le(self.created_at, t)
        &&& self.deleted_at matches Some(t) ==> lex_le(self.created_at, t)
    }

    /// The time of the last write: of the modification, else of the deletion, else of the
    /// creation.
    pub open spec fn effective_time(self) -> Seq<char> {
        match self.modified_at {
            Some(t) => t,
            None => match self.deleted_at {
                Some(t) => t,
                None => self.created_at,
            },
        }
    }
}

/// A tag of the tag tree.
#[derive(Debug)]
pub struct TagRow {
    pub id: u128,
    pub name: String,
    /// The tag above this one; none for a root.
    pub parent_id: Option<u128>,
    pub device_id: Option<u128>,
    pub created_at: String,
    pub modified_at: Option<String>,
}

/// The model of a [`TagRow`].
pub struct TagView {
    pub id: u128,
    pub name: Seq<char>,
    pub parent_id: Option<u128>,
    pub device_id: Option<u128>,
    pub created_at: Seq<char>,
    pub modified_at: Option<Seq<char>>,
}

impl View for TagRow {
    type V = TagView;

    open spec fn view(&self) -> TagView {
        TagView {
            id: self.id,
            name: self.name@,
            parent_id: self.parent_id,
            device_id: self.device_id,
            created_at: self.created_at@,
            modified_at: opt_text(self.modified_at),
        }
    }
}

impl TagRow {
    /// A copy of the row.
    pub fn copy(&self) -> (r: TagRow)
        ensures
            r@ == self@,
    {
        TagRow {
            id: self.id,
            name: self.name.clone(),
            parent_id: self.parent_id,
            device_id: self.device_id,
            created_at: self.created_at.clone(),
            modified_at: clone_opt(&self.modified_at),
        }
    }
}

impl TagView {
    /// Whether the tag was not modified before it was created.
    pub open spec fn times_ordered(self) -> bool {
        self.modified_at matches Some(t) ==> lex_le(self.created_at, t)
    }

    /// The time of the last write: of the modification, else of the creation.
    pub open spec fn effective_time(self) -> Seq<char> {
        match self.modified_at {
            Some(t) => t,
            None => self.created_at,
        }
    }
}

/// The association of a tag with a note.
#[derive(Debug)]
pub struct NoteTagRow {
    pub note_id: u128,
    pub tag_id: u128,
    pub created_at: String,
    pub device_id: Option<u128>,
    pub modified_at: Option<String>,
    /// Set when the tag is taken off the note: the row stays.
    pub deleted_at: Option<String>,
}

/// The model of a [`NoteTagRow`].
pub struct NoteTagView {
    pub note_id: u128,
    pub tag_id: u128,
    pub created_at: Seq<char>,
    pub device_id: Option<u128>,
    pub modified_at: Option<Seq<char>>,
    pub deleted_at: Option<Seq<char>>,
}

impl View for NoteTagRow {
    type V = NoteTagView;

    open spec fn view(&self) -> NoteTagView {
        NoteTagView {
            note_id: self.note_id,
            tag_id: self.tag_id,
            created_at: self.created_at@,
            device_id: self.device_id,
            modified_at: opt_text(self.modified_at),
            deleted_at: opt_text(self.deleted_at),
        }
    }
}

impl NoteTagRow {
    /// A copy of the row.
    pub fn copy(&self) -> (r: NoteTagRow)
        ensures
            r@ == self@,
    {
        NoteTagRow {
            note_id: self.note_id,
            tag_id: self.tag_id,
            created_at: self.created_at.clone(),
            device_id: self.device_id,
            modified_at: clone_opt(&self.modified_at),
            deleted_at: clone_opt(&self.deleted_at),
        }
    }
}

impl NoteTagView {
    /// Whether the association was neither modified nor deleted before it was created.
    pub open spec fn times_ordered(self) -> bool {
        &&& self.modified_at matches Some(t) ==> lex_le(self.created_at, t)
        &&& self.deleted_at matches Some(t) ==> lex_le(self.created_at, t)
    }

    /// The time of the last write: of the modification, else of the deletion, else of the
    /// creation.
    pub open spec fn effective_time(self) -> Seq<char> {
        match self.modified_at {
            Some(t) => t,
            None => match self.deleted_at {
                Some(t) => t,
                None => self.created_at,
            },
        }
    }
}

/// What is remembered of a peer: when the last exchange with it succeeded.
#[derive(Debug)]
pub struct PeerRow {
    pub peer_id: u128,
    pub peer_name: Option<String>,
    pub last_sync_at: Option<String>,
}

/// The model of a [`PeerRow`].
pub struct PeerView {
    pub peer_id: u128,
    pub peer_name: Option<Seq<char>>,
    pub last_sync_at: Option<Seq<char>>,
}

impl View for PeerRow {
    type V = PeerView;

    open spec fn view(&self) -> PeerView {
        PeerView {
            peer_id: self.peer_id,
            peer_name: opt_text(self.peer_name),
            last_sync_at: opt_text(self.last_sync_at),
        }
    }
}

/// The models of the rows of a table, in the order in which it holds them.
pub open spec fn note_views(rows: Seq<NoteRow>) -> Seq<NoteView> {
    Seq::new(rows.len(), |i: int| rows[i]@)
}

/// The models of the rows of a table, in the order in which it holds them.
pub open spec fn tag_views(rows: Seq<TagRow>) -> Seq<TagView> {
    Seq::new(rows.len(), |i: int| rows[i]@)
}

/// The models of the rows of a table, in the order in which it holds them.
pub open spec fn note_tag_views(rows: Seq<NoteTagRow>) -> Seq<NoteTagView> {
    Seq::new(rows.len(), |i: int| rows[i]@)
}

/// The models of the rows of a table, in the order in which it holds them.
pub open spec fn peer_views(rows: Seq<PeerRow>) -> Seq<PeerView> {
    Seq::new(rows.len(), |i: int| rows[i]@)
}

/// What two divergent writes disagreed on.
#[derive(Debug, Clone, Copy, PartialEq, Eq, Structural)]
pub enum ConflictKind {
    /// Two contents for one note.
    NoteContent,
    /// One side deleted a note that the other side wrote.
    NoteDelete,
    /// Two names for one tag.
    TagRename,
    /// Two parents for one tag.
    TagParent,
    /// One side deleted a tag that the other side wrote.
    TagDelete,
    /// One side took a tag off a note that the other side put on it.
    NoteTag,
}

/// What a conflict is about.
#[derive(Debug, Clone, Copy, PartialEq, Eq, Structural)]
pub enum Subject {
    Note(u128),
    Tag(u128),
    NoteTag(u128, u128),
}

/// Both sides of a diverged write, kept until someone decides.
#[derive(Debug)]
pub struct ConflictRow {
    pub id: u128,
    pub kind: ConflictKind,
    /// The note, or the tag for a conflict on a tag.
    pub entity_id: u128,
    /// The tag, for a conflict on an association.
    pub tag_id: Option<u128>,
    /// What this device held: a content, a name, a parent, or the time of a deletion.
    pub local_value: Option<String>,
    pub local_time: Option<String>,
    /// What the peer sent.
    pub remote_value: Option<String>,
    pub remote_time: Option<String>,
    pub remote_device_id: Option<u128>,
    pub remote_device_name: Option<String>,
    pub created_at: String,
    /// Set once the conflict is resolved.
    pub resolved_at: Option<String>,
}

/// The model of a [`ConflictRow`]: everything but its identifier, which is drawn at random.
pub struct ConflictView {
    pub kind: ConflictKind,
    pub entity_id: u128,
    pub tag_id: Option<u128>,
    pub local_value: Option<Seq<char>>,
    pub local_time: Option<Seq<char>>,
    pub remote_value: Option<Seq<char>>,
    pub remote_time: Option<Seq<char>>,
    pub remote_device_id: Option<u128>,
    pub remote_device_name: Option<Seq<char>>,
    pub created_at: Seq<char>,
    pub resolved_at: Option<Seq<char>>,
}

impl View for ConflictRow {
    type V = ConflictView;

    open spec fn view(&self) -> ConflictView {
        ConflictView {
            kind: self.kind,
            entity_id: self.entity_id,
            tag_id: self.tag_id,
            local_value: opt_text(self.local_value),
            local_time: opt_text(self.local_time),
            remote_value: opt_text(self.remote_value),
            remote_time: opt_text(self.remote_time),
            remote_device_id: self.remote_device_id,
            remote_device_name: opt_text(self.remote_device_name),
            created_at: self.created_at@,
            resolved_at: opt_text(self.resolved_at),
        }
    }
}

impl ConflictRow {
    /// A copy of the row.
    pub fn copy(&self) -> (r: ConflictRow)
        ensures
            r@ == self@,
            r.id == self.id,
    {
        ConflictRow {
            id: self.id,
            kind: self.kind,
            entity_id: self.entity_id,
            tag_id: self.tag_id,
            local_value: clone_opt(&self.local_value),
            local_time: clone_opt(&self.local_time),
            remote_value: clone_opt(&self.remote_value),
            remote_time: clone_opt(&self.remote_time),
            remote_device_id: self.remote_device_id,
            remote_device_name: clone_opt(&self.remote_device_name),
            created_at: self.created_at.clone(),
            resolved_at: clone_opt(&self.resolved_at),
        }
    }
}

impl ConflictView {
    /// Whether the conflict is about `subject`.
    pub open spec fn concerns(self, subject: Subject) -> bool {
        match subject {
            Subject::Note(id) => (self.kind == ConflictKind::NoteContent || self.kind
                == ConflictKind::NoteDelete) && self.entity_id == id,
            Subject::Tag(id) => (self.kind == ConflictKind::TagRename || self.kind
                == ConflictKind::TagParent || self.kind == ConflictKind::TagDelete)
                && self.entity_id == id,
            Subject::NoteTag(note, tag) => self.kind == ConflictKind::NoteTag && self.entity_id
                == note && self.tag_id == Some(tag),
        }
    }

    /// Whether two records stand for one observation: the same kind, entity and pair of
    /// timestamps.
    pub open spec fn same_observation(self, other: ConflictView) -> bool {
        &&& self.kind == other.kind
        &&& self.entity_id == other.entity_id
        &&& self.tag_id == other.tag_id
        &&& self.local_time == other.local_time
        &&& self.remote_time == other.remote_time
    }
}

/// The models of the rows of a table, in the order in which it holds them.
pub open spec fn conflict_views(rows: Seq<ConflictRow>) -> Seq<ConflictView> {
    Seq::new(rows.len(), |i: int| rows[i]@)
}

/// The identifiers of the rows of a table, in the order in which it holds them.
pub open spec fn conflict_ids(rows: Seq<ConflictRow>) -> Seq<u128> {
    Seq::new(rows.len(), |i: int| rows[i].id)
}

/// Whether an observation is on record.
pub open spec fn on_record(conflicts: Seq<ConflictView>, c: ConflictView) -> bool {
    exists|i: int| 0 <= i < conflicts.len() && (#[trigger] conflicts[i]).same_observation(c)
}

/// The records after `c` was recorded: unchanged where the observation is on record.
pub open spec fn recorded(conflicts: Seq<ConflictView>, c: ConflictView) -> Seq<ConflictView> {
    if on_record(conflicts, c) {
        conflicts
    } else {
        conflicts.push(c)
    }
}

/// Whether an unresolved conflict is about `subject`.
pub open spec fn blocked(conflicts: Seq<ConflictView>, subject: Subject) -> bool {
    exists|i: int|
        0 <= i < conflicts.len() && (#[trigger] conflicts[i]).resolved_at is None
            && conflicts[i].concerns(subject)
}

} // verus!
