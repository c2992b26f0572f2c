//! Change records: what one device tells another of a row, and the feed of the
//! changes that came after a given time.

use crate::ids::uuid_simple;
use crate::rows::{NoteRow, NoteTagRow, NoteTagView, NoteView, TagRow, TagView};
use crate::text::{clone_opt, hex32, opt_text};
use vstd::prelude::*;
use vstd::string::*;

verus! {

/// The fields of a row as a change carries them: texts, each present or not.
#[derive(Debug)]
pub struct ChangeData {
    pub id: Option<String>,
    pub note_id: Option<String>,
    pub tag_id: Option<String>,
    pub name: Option<String>,
    pub content: Option<String>,
    pub parent_id: Option<String>,
    pub created_at: Option<String>,
    pub modified_at: Option<String>,
    pub deleted_at: Option<String>,
}

/// The model of a [`ChangeData`].
pub struct ChangeDataView {
    pub id: Option<Seq<char>>,
    pub note_id: Option<Seq<char>>,
    pub tag_id: Option<Seq<char>>,
    pub name: Option<Seq<char>>,
    pub content: Option<Seq<char>>,
    pub parent_id: Option<Seq<char>>,
    pub created_at: Option<Seq<char>>,
    pub modified_at: Option<Seq<char>>,
    pub deleted_at: Option<Seq<char>>,
}

impl View for ChangeData {
    type V = ChangeDataView;

    open spec fn view(&self) -> ChangeDataView {
        ChangeDataView {
            id: opt_text(self.id),
            note_id: opt_text(self.note_id),
            tag_id: opt_text(self.tag_id),
            name: opt_text(self.name),
            content: opt_text(self.content),
            parent_id: opt_text(self.parent_id),
            created_at: opt_text(self.created_at),
            modified_at: opt_text(self.modified_at),
            deleted_at: opt_text(self.deleted_at),
        }
    }
}

impl ChangeData {
    /// A copy of the fields.
    pub fn copy(&self) -> (r: ChangeData)
        ensures
            r@ == self@,
    {
        ChangeData {
            id: clone_opt(&self.id),
            note_id: clone_opt(&self.note_id),
            tag_id: clone_opt(&self.tag_id),
            name: clone_opt(&self.name),
            content: clone_opt(&self.content),
            parent_id: clone_opt(&self.parent_id),
            created_at: clone_opt(&self.created_at),
            modified_at: clone_opt(&self.modified_at),
            deleted_at: clone_opt(&self.deleted_at),
        }
    }
}

/// One change of one entity, as peers exchange it.
#[derive(Debug)]
pub struct SyncChange {
    /// `note`, `tag` or `note_tag`.
    pub entity_type: String,
    /// The identifier in hexadecimal; for an association, the note's and the tag's with a
    /// colon between them.
    pub entity_id: String,
    /// `create`, `update` or `delete`.
    pub operation: String,
    pub data: ChangeData,
    /// The time of the write that the change reports.
    pub timestamp: String,
    /// The device that made the write, in hexadecimal; empty where it is not known.
    pub device_id: String,
    pub device_name: Option<String>,
}

/// The model of a [`SyncChange`].
pub struct SyncChangeView {
    pub entity_type: Seq<char>,
    pub entity_id: Seq<char>,
    pub operation: Seq<char>,
    pub data: ChangeDataView,
    pub timestamp: Seq<char>,
    pub device_id: Seq<char>,
    pub device_name: Option<Seq<char>>,
}

impl View for SyncChange {
    type V = SyncChangeView;

    open spec fn view(&self) -> SyncChangeView {
        SyncChangeView {
            entity_type: self.entity_type@,
            entity_id: self.entity_id@,
            operation: self.operation@,
            data: self.data@,
            timestamp: self.timestamp@,
            device_id: self.device_id@,
            device_name: opt_text(self.device_name),
        }
    }
}

impl SyncChange {
    /// A copy of the change.
    pub fn copy(&self) -> (r: SyncChange)
        ensures
            r@ == self@,
    {
        SyncChange {
            entity_type: self.entity_type.clone(),
            entity_id: self.entity_id.clone(),
            operation: self.operation.clone(),
            data: self.data.copy(),
            timestamp: self.timestamp.clone(),
            device_id: self.device_id.clone(),
            device_name: clone_opt(&self.device_name),
        }
    }
}

/// The models of the changes, in order.
pub open spec fn change_views(changes: Seq<SyncChange>) -> Seq<SyncChangeView> {
    Seq::new(changes.len(), |i: int| changes[i]@)
}

// ----------------------------------------------------------------------------
// From rows to changes
// ----------------------------------------------------------------------------

/// The operation that the timestamps of a row tell: `delete` where it is deleted, else
/// `update` where it was modified, else `create`.
pub open spec fn operation_of(modified_at: Option<Seq<char>>, deleted_at: Option<Seq<char>>) -> Seq<
    char,
> {
    if deleted_at is Some {
        "delete"@
    } else if modified_at is Some {
        "update"@
    } else {
        "create"@
    }
}

/// A device identifier as a change carries it: empty where it is not known.
pub open spec fn device_text(device_id: Option<u128>) -> Seq<char> {
    match device_id {
        Some(d) => hex32(d),
        None => Seq::empty(),
    }
}

/// An optional identifier as a change carries it.
pub open spec fn opt_hex(id: Option<u128>) -> Option<Seq<char>> {
    match id {
        Some(v) => Some(hex32(v)),
        None => None,
    }
}

/// The fields of a change when none is present.
pub open spec fn no_data() -> ChangeDataView {
    ChangeDataView {
        id: None,
        note_id: None,
        tag_id: None,
        name: None,
        content: None,
        parent_id: None,
        created_at: None,
        modified_at: None,
        deleted_at: None,
    }
}

/// The change that reports a note.
pub open spec fn note_change(n: NoteView) -> SyncChangeView {
    SyncChangeView {
        entity_type: "note"@,
        entity_id: hex32(n.id),
        operation: operation_of(n.modified_at, n.deleted_at),
        data: ChangeDataView {
            id: Some(hex32(n.id)),
            created_at: Some(n.created_at),
            content: Some(n.content),
            modified_at: n.modified_at,
            deleted_at: n.deleted_at,
            ..no_data()
        },
        timestamp: n.effective_time(),
        device_id: device_text(n.device_id),
        device_name: None,
    }
}

/// The change that reports a tag.
pub open spec fn tag_change(t: TagView) -> SyncChangeView {
    SyncChangeView {
        entity_type: "tag"@,
        entity_id: hex32(t.id),
        operation: operation_of(t.modified_at, None),
        data: ChangeDataView {
            id: Some(hex32(t.id)),
            name: Some(t.name),
            parent_id: opt_hex(t.parent_id),
            created_at: Some(t.created_at),
            modified_at: t.modified_at,
            ..no_data()
        },
        timestamp: t.effective_time(),
        device_id: device_text(t.device_id),
        device_name: None,
    }
}

/// The change that reports an association.
pub open spec fn note_tag_change(a: NoteTagView) -> SyncChangeView {
    SyncChangeView {
        entity_type: "note_tag"@,
        entity_id: hex32(a.note_id) + ":"@ + hex32(a.tag_id),
        operation: operation_of(a.modified_at, a.deleted_at),
        data: ChangeDataView {
            note_id: Some(hex32(a.note_id)),
            tag_id: Some(hex32(a.tag_id)),
            created_at: Some(a.created_at),
            modified_at: a.modified_at,
            deleted_at: a.deleted_at,
            ..no_data()
        },
        timestamp: a.effective_time(),
        device_id: device_text(a.device_id),
        device_name: None,
    }
}

fn operation_text(modified_at: &Option<String>, deleted_at: &Option<String>) -> (s: String)
    ensures
        s@ == operation_of(opt_text(*modified_at), opt_text(*deleted_at)),
{
    if deleted_at.is_some() {
        String::from_str("delete")
    } else if modified_at.is_some() {
        String::from_str("update")
    } else {
        String::from_str("create")
    }
}

fn device_string(device_id: Option<u128>) -> (s: String)
    ensures
        s@ == device_text(device_id),
{
    match device_id {
        Some(d) => uuid_simple(d),
        None => String::new(),
    }
}

fn effective_of(
    created_at: &String,
    modified_at: &Option<String>,
    deleted_at: &Option<String>,
) -> (s: String)
    ensures
        s@ == match opt_text(*modified_at) {
            Some(t) => t,
            None => match opt_text(*deleted_at) {
                Some(t) => t,
                None => created_at@,
            },
        },
{
    match modified_at {
        Some(t) => t.clone(),
        None => match deleted_at {
            Some(t) => t.clone(),
            None => created_at.clone(),
        },
    }
}

fn empty_data() -> (d: ChangeData)
    ensures
        d@ == no_data(),
{
    ChangeData {
        id: None,
        note_id: None,
        tag_id: None,
        name: None,
        content: None,
        parent_id: None,
        created_at: None,
        modified_at: None,
        deleted_at: None,
    }
}

/// The change that reports a note.
pub fn change_of_note(n: &NoteRow) -> (c: SyncChange)
    ensures
        c@ == note_change(n@),
{
    let mut data = empty_data();
    data.id = Some(uuid_simple(n.id));
    data.created_at = Some(n.created_at.clone());
    data.content = Some(n.content.clone());
    data.modified_at = clone_opt(&n.modified_at);
    data.deleted_at = clone_opt(&n.deleted_at);
    SyncChange {
        entity_type: String::from_str("note"),
        entity_id: uuid_simple(n.id),
        operation: operation_text(&n.modified_at, &n.deleted_at),
        data,
        timestamp: effective_of(&n.created_at, &n.modified_at, &n.deleted_at),
        device_id: device_string(n.device_id),
        device_name: None,
    }
}

/// The change that reports a tag.
pub fn change_of_tag(t: &TagRow) -> (c: SyncChange)
    ensures
        c@ == tag_change(t@),
{
    let mut data = empty_data();
    data.id = Some(uuid_simple(t.id));
    data.name = Some(t.name.clone());
    data.parent_id = match t.parent_id {
        Some(p) => Some(uuid_simple(p)),
        None => None,
    };
    data.created_at = Some(t.created_at.clone());
    data.modified_at = clone_opt(&t.modified_at);
    let none: Option<String> = None;
    SyncChange {
        entity_type: String::from_str("tag"),
        entity_id: uuid_simple(t.id),
        operation: operation_text(&t.modified_at, &none),
        data,
        timestamp: effective_of(&t.created_at, &t.modified_at, &none),
        device_id: device_string(t.device_id),
        device_name: None,
    }
}

/// The change that reports an association.
pub fn change_of_note_tag(a: &NoteTagRow) -> (c: SyncChange)
    ensures
        c@ == note_tag_change(a@),
{
    let mut data = empty_data();
    data.note_id = Some(uuid_simple(a.note_id));
    data.tag_id = Some(uuid_simple(a.tag_id));
    data.created_at = Some(a.created_at.clone());
    data.modified_at = clone_opt(&a.modified_at);
    data.deleted_at = clone_opt(&a.deleted_at);
    let mut entity_id = uuid_simple(a.note_id);
    entity_id.append(":");
    entity_id.append(uuid_simple(a.tag_id).as_str());
    SyncChange {
        entity_type: String::from_str("note_tag"),
        entity_id,
        operation: operation_text(&a.modified_at, &a.deleted_at),
        data,
        timestamp: effective_of(&a.created_at, &a.modified_at, &a.deleted_at),
        device_id: device_string(a.device_id),
        device_name: None,
    }
}

} // verus!
