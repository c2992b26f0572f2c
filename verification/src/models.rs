//! The entities as the interfaces see them: notes, tags, and the tags of notes.

use crate::ids::{new_id, utc_now_text, uuid_simple, uuid_version};
use crate::text::{hex32, opt_text};
use vstd::prelude::*;

verus! {

/// A note.
#[derive(Debug, Clone)]
pub struct Note {
    pub id: u128,
    /// When the note was created: UTC, to the second.
    pub created_at: String,
    pub content: String,
    /// The device that last wrote the note.
    pub device_id: u128,
    /// When the note was last modified; none if it never was.
    pub modified_at: Option<String>,
    /// When the note was deleted; none if it is not.
    pub deleted_at: Option<String>,
}

impl Note {
    /// The note `id`, created at `created_at` on the device `device_id`, never modified
    /// and not deleted.
    pub fn created(id: u128, created_at: String, content: String, device_id: u128) -> (n: Note)
        ensures
            n.id == id,
            n.created_at == created_at,
            n.content == content,
            n.device_id == device_id,
            n.modified_at is None,
            n.deleted_at is None,
    {
        Note { id, created_at, content, device_id, modified_at: None, deleted_at: None }
    }

    /// A new note, created now under a fresh identifier.
    pub fn new(content: String, device_id: u128) -> (n: Note)
        ensures
            n.content == content,
            n.device_id == device_id,
            n.modified_at is None,
            n.deleted_at is None,
            n.id != 0,
            uuid_version(n.id) == 7,
    {
        Note::created(new_id(), utc_now_text(), content, device_id)
    }

    /// The identifier in hexadecimal.
    pub fn id_hex(&self) -> (s: String)
        ensures
            s@ == hex32(self.id),
    {
        uuid_simple(self.id)
    }

    /// The identifier of the device in hexadecimal.
    pub fn device_id_hex(&self) -> (s: String)
        ensures
            s@ == hex32(self.device_id),
    {
        uuid_simple(self.device_id)
    }

    /// Whether the note is deleted.
    pub fn is_deleted(&self) -> (b: bool)
        ensures
            b == self.deleted_at is Some,
    {
        self.deleted_at.is_some()
    }
}

/// A tag of the tag tree.
#[derive(Debug, Clone)]
pub struct Tag {
    pub id: u128,
    /// The name: no two tags of one parent have the same.
    pub name: String,
    /// The device that last wrote the tag.
    pub device_id: u128,
    /// The tag above this one; none for a root.
    pub parent_id: Option<u128>,
    pub created_at: Option<String>,
    pub modified_at: Option<String>,
}

impl Tag {
    /// The tag `id`, created at `created_at` on the device `device_id`, never modified.
    pub fn created(
        id: u128,
        created_at: String,
        name: String,
        device_id: u128,
        parent_id: Option<u128>,
    ) -> (t: Tag)
        ensures
            t.id == id,
            t.created_at == Some(created_at),
            t.name == name,
            t.device_id == device_id,
            t.parent_id == parent_id,
            t.modified_at is None,
    {
        Tag { id, name, device_id, parent_id, created_at: Some(created_at), modified_at: None }
    }

    /// A new tag, created now under a fresh identifier.
    pub fn new(name: String, device_id: u128, parent_id: Option<u128>) -> (t: Tag)
        ensures
            t.name == name,
            t.device_id == device_id,
            t.parent_id == parent_id,
            t.created_at is Some,
            t.modified_at is None,
            t.id != 0,
            uuid_version(t.id) == 7,
    {
        Tag::created(new_id(), utc_now_text(), name, device_id, parent_id)
    }

    /// The identifier in hexadecimal.
    pub fn id_hex(&self) -> (s: String)
        ensures
            s@ == hex32(self.id),
    {
        uuid_simple(self.id)
    }

    /// The identifier of the device in hexadecimal.
    pub fn device_id_hex(&self) -> (s: String)
        ensures
            s@ == hex32(self.device_id),
    {
        uuid_simple(self.device_id)
    }

    /// The identifier of the parent in hexadecimal, where there is one.
    pub fn parent_id_hex(&self) -> (s: Option<String>)
        ensures
            opt_text(s) == match self.parent_id {
                Some(p) => Some(hex32(p)),
                None => None,
            },
    {
        match self.parent_id {
            Some(p) => Some(uuid_simple(p)),
            None => None,
        }
    }
}

/// The association of a tag with a note.
#[derive(Debug, Clone)]
pub struct NoteTag {
    pub note_id: u128,
    pub tag_id: u128,
    pub created_at: String,
    /// The device that made the association.
    pub device_id: u128,
    pub modified_at: Option<String>,
    /// When the tag was taken off the note; none if it is on it.
    pub deleted_at: Option<String>,
}

impl NoteTag {
    /// The association of `tag_id` with `note_id`, made at `created_at` on the device
    /// `device_id`, never modified and not deleted.
    pub fn created(note_id: u128, tag_id: u128, created_at: String, device_id: u128) -> (a: NoteTag)
        ensures
            a.note_id == note_id,
            a.tag_id == tag_id,
            a.created_at == created_at,
            a.device_id == device_id,
            a.modified_at is None,
            a.deleted_at is None,
    {
        NoteTag { note_id, tag_id, created_at, device_id, modified_at: None, deleted_at: None }
    }

    /// A new association, made now.
    pub fn new(note_id: u128, tag_id: u128, device_id: u128) -> (a: NoteTag)
        ensures
            a.note_id == note_id,
            a.tag_id == tag_id,
            a.device_id == device_id,
            a.modified_at is None,
            a.deleted_at is None,
    {
        NoteTag::created(note_id, tag_id, utc_now_text(), device_id)
    }

    /// The identifier of the note in hexadecimal.
    pub fn note_id_hex(&self) -> (s: String)
        ensures
            s@ == hex32(self.note_id),
    {
        uuid_simple(self.note_id)
    }

    /// The identifier of the tag in hexadecimal.
    pub fn tag_id_hex(&self) -> (s: String)
        ensures
            s@ == hex32(self.tag_id),
    {
        uuid_simple(self.tag_id)
    }

    /// The identifier of the device in hexadecimal.
    pub fn device_id_hex(&self) -> (s: String)
        ensures
            s@ == hex32(self.device_id),
    {
        uuid_simple(self.device_id)
    }

    /// Whether the association is deleted.
    pub fn is_deleted(&self) -> (b: bool)
        ensures
            b == self.deleted_at is Some,
    {
        self.deleted_at.is_some()
    }
}

} // verus!
