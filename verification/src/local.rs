//! Writes that the user of this device makes.
//!
//! Every such write stamps the row with this device and with the time of the write, so
//! that peers learn of it. Nothing is ever removed: a deletion is a time of deletion.

use crate::error::{ErrorView, VoiceError, VoiceResult};
use crate::ids::new_id;
use crate::rows::{NoteRow, NoteTagRow, NoteTagView, NoteView, TagRow, TagView};
use crate::store::{note_key, note_tag_key, Store, StoreView};
use crate::tables::{find, has_key, lemma_find_at, put};
use crate::text::{chars_of, str_eq, string_of_range, trim_bounds, trimmed};
use crate::tree::{lemma_parent_not_below, tag_key, would_cycle};
use crate::validation::{
    note_content_refusal, refusal, refuses, tag_name_refusal, validate_note_content,
    validate_tag_name,
};
use vstd::prelude::*;
use vstd::string::*;

verus! {

// ----------------------------------------------------------------------------
// Notes
// ----------------------------------------------------------------------------

/// A note as this device creates it.
pub open spec fn new_note(s: StoreView, id: u128, content: Seq<char>, now: Seq<char>) -> NoteView {
    NoteView {
        id,
        created_at: now,
        content,
        device_id: Some(s.device_id),
        modified_at: None,
        deleted_at: None,
    }
}

/// Whether `r` and the store `after` are what creating the note `id` gives.
///
/// A content that is no content is refused. So is an identifier that is taken: then the
/// store fails. A refusal changes nothing.
pub open spec fn insert_note_outcome(
    r: VoiceResult<()>,
    after: StoreView,
    before: StoreView,
    id: u128,
    content: Seq<char>,
    now: Seq<char>,
) -> bool {
    match note_content_refusal(content) {
        Some(m) => refuses(r, "content"@, m) && after == before,
        None => if has_key(before.notes, note_key(), id) {
            after == before && match r {
                Ok(_) => false,
                Err(e) => e@ == ErrorView::Storage("note identifier is taken"@),
            }
        } else {
            r is Ok && after == before.with_note(new_note(before, id, content, now))
        },
    }
}

/// The result without what it holds on success.
pub open spec fn outcome_of<T>(r: VoiceResult<T>) -> VoiceResult<()> {
    match r {
        Ok(_) => Ok(()),
        Err(e) => Err(e),
    }
}

/// Whether `r` and the store `after` are what creating a note gives when the identifier
/// drawn is `id`: what creating the note `id` gives, and `id` on success. The identifier
/// is of version 7.
pub open spec fn create_note_outcome(
    r: VoiceResult<u128>,
    after: StoreView,
    before: StoreView,
    id: u128,
    content: Seq<char>,
    now: Seq<char>,
) -> bool {
    &&& insert_note_outcome(outcome_of(r), after, before, id, content, now)
    &&& r matches Ok(v) ==> v == id
    &&& crate::ids::uuid_version(id) == 7
}

/// The live note `id`: the one found, unless it is deleted.
pub open spec fn live_note(s: StoreView, id: u128) -> Option<NoteView> {
    match find(s.notes, note_key(), id) {
        Some(n) => if n.deleted_at is None {
            Some(n)
        } else {
            None
        },
        None => None,
    }
}

/// Whether `r` and the store `after` are what giving the note `id` a new content gives:
/// the refusal of a content that is none; false for a note that is not there or is
/// deleted; else the note with the content, modified at `now` by this device.
pub open spec fn update_note_outcome(
    r: VoiceResult<bool>,
    after: StoreView,
    before: StoreView,
    id: u128,
    content: Seq<char>,
    now: Seq<char>,
) -> bool {
    match note_content_refusal(content) {
        Some(m) => refuses(r, "content"@, m) && after == before,
        None => match live_note(before, id) {
            None => r == Ok::<bool, VoiceError>(false) && after == before,
            Some(n) => r == Ok::<bool, VoiceError>(true) && after == before.with_note(
                NoteView {
                    content,
                    modified_at: Some(now),
                    device_id: Some(before.device_id),
                    ..n
                },
            ),
        },
    }
}

/// The store after the note `id` was deleted at `now`: as it was where the note is not
/// there or is deleted already.
pub open spec fn after_delete_note(s: StoreView, id: u128, now: Seq<char>) -> StoreView {
    match live_note(s, id) {
        None => s,
        Some(n) => s.with_note(
            NoteView {
                deleted_at: Some(now),
                modified_at: Some(now),
                device_id: Some(s.device_id),
                ..n
            },
        ),
    }
}

impl Store {
    /// Creates the note `id` with the content `content`, at the time `now`.
    pub fn insert_note(&mut self, id: u128, content: &str, now: &str) -> (r: VoiceResult<()>)
        requires
            old(self).wf(),
        ensures
            final(self).wf(),
            final(self).conflict_ids() == old(self).conflict_ids(),
            insert_note_outcome(r, final(self)@, old(self)@, id, content@, now@),
    {
        match validate_note_content(content) {
            Ok(_) => {},
            Err(e) => {
                return Err(e);
            },
        }
        if self.get_note_raw(id).is_some() {
            return Err(VoiceError::database_op("note identifier is taken"));
        }
        let device = self.device_id();
        self.apply_sync_note(
            NoteRow {
                id,
                created_at: String::from_str(now),
                content: String::from_str(content),
                device_id: Some(device),
                modified_at: None,
                deleted_at: None,
            },
        );
        Ok(())
    }

    /// Creates a note with the content `content`, at the time `now`, under a fresh
    /// identifier, which is returned.
    ///
    /// The identifier is drawn at random: what [`Store::insert_note`] does with it is what
    /// this call does.
    pub fn create_note(&mut self, content: &str, now: &str) -> (r: VoiceResult<u128>)
        requires
            old(self).wf(),
        ensures
            final(self).wf(),
            final(self).conflict_ids() == old(self).conflict_ids(),
            exists|id: u128| #[trigger]
                create_note_outcome(r, final(self)@, old(self)@, id, content@, now@),
    {
        let id = new_id();
        let r = match self.insert_note(id, content, now) {
            Ok(_) => Ok(id),
            Err(e) => Err(e),
        };
        assert(create_note_outcome(r, self@, old(self)@, id, content@, now@));
        r
    }

    /// Gives the note `id` the content `content`, at the time `now`.
    pub fn update_note(&mut self, id: u128, content: &str, now: &str) -> (r: VoiceResult<bool>)
        requires
            old(self).wf(),
        ensures
            final(self).wf(),
            final(self).conflict_ids() == old(self).conflict_ids(),
            update_note_outcome(r, final(self)@, old(self)@, id, content@, now@),
    {
        match validate_note_content(content) {
            Ok(_) => {},
            Err(e) => {
                return Err(e);
            },
        }
        let row = match self.get_note_raw(id) {
            Some(row) => row,
            None => {
                return Ok(false);
            },
        };
        if row.deleted_at.is_some() {
            return Ok(false);
        }
        let device = self.device_id();
        self.apply_sync_note(
            NoteRow {
                id: row.id,
                created_at: row.created_at,
                content: String::from_str(content),
                device_id: Some(device),
                modified_at: Some(String::from_str(now)),
                deleted_at: row.deleted_at,
            },
        );
        Ok(true)
    }

    /// Deletes the note `id`, at the time `now`: the row stays, with the time of its
    /// deletion. Tells whether there was a note to delete.
    pub fn delete_note(&mut self, id: u128, now: &str) -> (deleted: bool)
        requires
            old(self).wf(),
        ensures
            final(self).wf(),
            final(self).conflict_ids() == old(self).conflict_ids(),
            final(self)@ == after_delete_note(old(self)@, id, now@),
            deleted == live_note(old(self)@, id) is Some,
    {
        let row = match self.get_note_raw(id) {
            Some(row) => row,
            None => {
                return false;
            },
        };
        if row.deleted_at.is_some() {
            return false;
        }
        let device = self.device_id();
        self.apply_sync_note(
            NoteRow {
                id: row.id,
                created_at: row.created_at,
                content: row.content,
                device_id: Some(device),
                modified_at: Some(String::from_str(now)),
                deleted_at: Some(String::from_str(now)),
            },
        );
        true
    }

    /// The note `id`, unless it is deleted.
    pub fn get_note(&self, id: u128) -> (r: Option<NoteRow>)
        requires
            self.wf(),
        ensures
            crate::store::opt_note(r) == live_note(self@, id),
    {
        match self.get_note_raw(id) {
            Some(row) => if row.deleted_at.is_none() {
                Some(row)
            } else {
                None
            },
            None => None,
        }
    }
}

// ----------------------------------------------------------------------------
// Tags
// ----------------------------------------------------------------------------

/// Whether a tag other than `except` has the name `name` under the parent `parent`.
pub open spec fn sibling_named(
    tags: Seq<TagView>,
    parent: Option<u128>,
    name: Seq<char>,
    except: Option<u128>,
) -> bool {
    exists|i: int|
        0 <= i < tags.len() && (#[trigger] tags[i]).parent_id == parent && tags[i].name == name
            && Some(tags[i].id) != except
}

/// A tag as this device creates it.
pub open spec fn new_tag(
    s: StoreView,
    id: u128,
    name: Seq<char>,
    parent: Option<u128>,
    now: Seq<char>,
) -> TagView {
    TagView {
        id,
        name,
        parent_id: parent,
        device_id: Some(s.device_id),
        created_at: now,
        modified_at: None,
    }
}

/// Whether the parent named, if one is named, is a tag of the store.
pub open spec fn parent_known(s: StoreView, parent: Option<u128>) -> bool {
    match parent {
        Some(p) => has_key(s.tags, tag_key(), p),
        None => true,
    }
}

/// Whether `r` fails with the error `e`.
pub open spec fn fails_with<T>(r: VoiceResult<T>, e: ErrorView) -> bool {
    match r {
        Ok(_) => false,
        Err(err) => err@ == e,
    }
}

/// Whether `r` and the store `after` are what creating the tag `id` gives.
///
/// The name is kept without the white space around it. Refused are: a name that is no
/// tag name; an identifier that is taken; a parent that is not there; a place that would
/// put the tag above itself; a name that another tag has under the same parent. A refusal
/// changes nothing.
pub open spec fn insert_tag_outcome(
    r: VoiceResult<()>,
    after: StoreView,
    before: StoreView,
    id: u128,
    name: Seq<char>,
    parent: Option<u128>,
    now: Seq<char>,
) -> bool {
    match tag_name_refusal(name) {
        Some(m) => refuses(r, "tag_name"@, m) && after == before,
        None => if has_key(before.tags, tag_key(), id) {
            after == before && fails_with(r, ErrorView::Storage("tag identifier is taken"@))
        } else if !parent_known(before, parent) {
            after == before && fails_with(r, ErrorView::NotFound("parent tag"@))
        } else if would_cycle(before.tags, id, parent) {
            after == before && fails_with(r, refusal("parent_id"@, "tag cycle"@))
        } else if sibling_named(before.tags, parent, trimmed(name), None) {
            after == before && fails_with(
                r,
                ErrorView::Conflict("a tag of this name exists under this parent"@),
            )
        } else {
            r is Ok && after == before.with_tag(new_tag(before, id, trimmed(name), parent, now))
        },
    }
}

/// Whether `r` and the store `after` are what creating a tag gives when the identifier
/// drawn is `id`: what creating the tag `id` gives, and `id` on success. The identifier is
/// of version 7.
pub open spec fn create_tag_outcome(
    r: VoiceResult<u128>,
    after: StoreView,
    before: StoreView,
    id: u128,
    name: Seq<char>,
    parent: Option<u128>,
    now: Seq<char>,
) -> bool {
    &&& insert_tag_outcome(outcome_of(r), after, before, id, name, parent, now)
    &&& r matches Ok(v) ==> v == id
    &&& crate::ids::uuid_version(id) == 7
}

/// Whether `r` and the store `after` are what renaming the tag `id` gives: false for a
/// tag that is not there; the refusal of a name that is no tag name or that another tag
/// has under the same parent; else the tag with the name, without the white space around
/// it, modified at `now` by this device.
pub open spec fn rename_tag_outcome(
    r: VoiceResult<bool>,
    after: StoreView,
    before: StoreView,
    id: u128,
    name: Seq<char>,
    now: Seq<char>,
) -> bool {
    match tag_name_refusal(name) {
        Some(m) => refuses(r, "tag_name"@, m) && after == before,
        None => match find(before.tags, tag_key(), id) {
            None => r == Ok::<bool, VoiceError>(false) && after == before,
            Some(t) => if sibling_named(before.tags, t.parent_id, trimmed(name), Some(id)) {
                after == before && fails_with(
                    r,
                    ErrorView::Conflict("a tag of this name exists under this parent"@),
                )
            } else {
                r == Ok::<bool, VoiceError>(true) && after == before.with_tag(
                    TagView {
                        name: trimmed(name),
                        modified_at: Some(now),
                        device_id: Some(before.device_id),
                        ..t
                    },
                )
            },
        },
    }
}

/// Whether `r` and the store `after` are what moving the tag `id` under `parent` gives:
/// false for a tag that is not there; the refusal of a parent that is not there, of a
/// place that would put the tag above itself, and of a place where another tag has the
/// name; else the tag with the parent, modified at `now` by this device.
pub open spec fn move_tag_outcome(
    r: VoiceResult<bool>,
    after: StoreView,
    before: StoreView,
    id: u128,
    parent: Option<u128>,
    now: Seq<char>,
) -> bool {
    match find(before.tags, tag_key(), id) {
        None => r == Ok::<bool, VoiceError>(false) && after == before,
        Some(t) => if !parent_known(before, parent) {
            after == before && fails_with(r, ErrorView::NotFound("parent tag"@))
        } else if would_cycle(before.tags, id, parent) {
            after == before && fails_with(r, refusal("parent_id"@, "tag cycle"@))
        } else if sibling_named(before.tags, parent, t.name, Some(id)) {
            after == before && fails_with(
                r,
                ErrorView::Conflict("a tag of this name exists under this parent"@),
            )
        } else {
            r == Ok::<bool, VoiceError>(true) && after == before.with_tag(
                TagView {
                    parent_id: parent,
                    modified_at: Some(now),
                    device_id: Some(before.device_id),
                    ..t
                },
            )
        },
    }
}

/// An association once its tag is deleted at `now`: deleted with it, unless it was
/// deleted before.
pub open spec fn detached_with(a: NoteTagView, tag_id: u128, device_id: u128, now: Seq<char>) -> NoteTagView {
    if a.tag_id == tag_id && a.deleted_at is None {
        NoteTagView {
            deleted_at: Some(now),
            modified_at: Some(now),
            device_id: Some(device_id),
            ..a
        }
    } else {
        a
    }
}

/// The store after the tag `id` was deleted at `now`: every association of the tag is
/// deleted. The tag itself stays: a tag carries no time of deletion.
pub open spec fn after_delete_tag(s: StoreView, id: u128, now: Seq<char>) -> StoreView {
    if has_key(s.tags, tag_key(), id) {
        StoreView {
            note_tags: Seq::new(
                s.note_tags.len(),
                |i: int| detached_with(s.note_tags[i], id, s.device_id, now),
            ),
            ..s
        }
    } else {
        s
    }
}

/// The store after the tag `tag_id` was put on the note `note_id` at `now`.
///
/// Nothing changes where the note is not there or deleted, where the tag is not there,
/// and where the tag is on the note already. An association that was deleted comes back.
pub open spec fn after_add_tag(s: StoreView, note_id: u128, tag_id: u128, now: Seq<char>) -> StoreView {
    if live_note(s, note_id) is None || !has_key(s.tags, tag_key(), tag_id) {
        s
    } else {
        match find(s.note_tags, note_tag_key(), (note_id, tag_id)) {
            None => s.with_note_tag(
                NoteTagView {
                    note_id,
                    tag_id,
                    created_at: now,
                    device_id: Some(s.device_id),
                    modified_at: None,
                    deleted_at: None,
                },
            ),
            Some(a) => if a.deleted_at is None {
                s
            } else {
                s.with_note_tag(
                    NoteTagView {
                        deleted_at: None,
                        modified_at: Some(now),
                        device_id: Some(s.device_id),
                        ..a
                    },
                )
            },
        }
    }
}

/// The store after the tag `tag_id` was taken off the note `note_id` at `now`: as it was
/// where the tag is not on the note.
pub open spec fn after_remove_tag(s: StoreView, note_id: u128, tag_id: u128, now: Seq<char>) -> StoreView {
    match find(s.note_tags, note_tag_key(), (note_id, tag_id)) {
        Some(a) => if a.deleted_at is None {
            s.with_note_tag(
                NoteTagView {
                    deleted_at: Some(now),
                    modified_at: Some(now),
                    device_id: Some(s.device_id),
                    ..a
                },
            )
        } else {
            s
        },
        None => s,
    }
}

fn trimmed_text(text: &str) -> (s: String)
    ensures
        s@ == trimmed(text@),
{
    let v = chars_of(text);
    let (a, b) = trim_bounds(&v);
    string_of_range(&v, a, b)
}

impl Store {
    /// Whether a tag other than `except` has the name `name` under the parent `parent`.
    pub fn has_sibling_named(
        &self,
        parent: Option<u128>,
        name: &str,
        except: Option<u128>,
    ) -> (r: bool)
        ensures
            r == sibling_named(self@.tags, parent, name@, except),
    {
        let tags = self.tags();
        let mut i: usize = 0;
        while i < tags.len()
            invariant
                i <= tags.len(),
                crate::rows::tag_views(tags@) == self@.tags,
                forall|j: int|
                    0 <= j < i ==> !((#[trigger] self@.tags[j]).parent_id == parent
                        && self@.tags[j].name == name@ && Some(self@.tags[j].id) != except),
            decreases tags.len() - i,
        {
            let t = &tags[i];
            assert(self@.tags[i as int] == t@);
            if t.parent_id == parent && str_eq(t.name.as_str(), name) && Some(t.id) != except {
                return true;
            }
            i += 1;
        }
        false
    }

    /// Creates the tag `id` with the name `name` under `parent`, at the time `now`.
    pub fn insert_tag(
        &mut self,
        id: u128,
        name: &str,
        parent: Option<u128>,
        now: &str,
    ) -> (r: VoiceResult<()>)
        requires
            old(self).wf(),
        ensures
            final(self).wf(),
            final(self).conflict_ids() == old(self).conflict_ids(),
            insert_tag_outcome(r, final(self)@, old(self)@, id, name@, parent, now@),
    {
        match validate_tag_name(name) {
            Ok(_) => {},
            Err(e) => {
                return Err(e);
            },
        }
        if self.get_tag_raw(id).is_some() {
            return Err(VoiceError::database_op("tag identifier is taken"));
        }
        match parent {
            Some(p) => {
                if self.get_tag_raw(p).is_none() {
                    return Err(VoiceError::NotFound(String::from_str("parent tag")));
                }
            },
            None => {},
        }
        if self.would_create_cycle(id, parent) {
            return Err(VoiceError::validation("parent_id", "tag cycle"));
        }
        let kept = trimmed_text(name);
        if self.has_sibling_named(parent, kept.as_str(), None) {
            return Err(
                VoiceError::Conflict(String::from_str("a tag of this name exists under this parent")),
            );
        }
        let device = self.device_id();
        self.apply_sync_tag(
            TagRow {
                id,
                name: kept,
                parent_id: parent,
                device_id: Some(device),
                created_at: String::from_str(now),
                modified_at: None,
            },
        )
    }

    /// Creates a tag with the name `name` under `parent`, at the time `now`, under a fresh
    /// identifier, which is returned.
    ///
    /// The identifier is drawn at random: what [`Store::insert_tag`] does with it is what
    /// this call does.
    pub fn create_tag(&mut self, name: &str, parent: Option<u128>, now: &str) -> (r: VoiceResult<u128>)
        requires
            old(self).wf(),
        ensures
            final(self).wf(),
            final(self).conflict_ids() == old(self).conflict_ids(),
            exists|id: u128| #[trigger]
                create_tag_outcome(r, final(self)@, old(self)@, id, name@, parent, now@),
    {
        let id = new_id();
        let r = match self.insert_tag(id, name, parent, now) {
            Ok(_) => Ok(id),
            Err(e) => Err(e),
        };
        assert(create_tag_outcome(r, self@, old(self)@, id, name@, parent, now@));
        r
    }

    /// Renames the tag `id`, at the time `now`.
    pub fn rename_tag(&mut self, id: u128, new_name: &str, now: &str) -> (r: VoiceResult<bool>)
        requires
            old(self).wf(),
        ensures
            final(self).wf(),
            final(self).conflict_ids() == old(self).conflict_ids(),
            rename_tag_outcome(r, final(self)@, old(self)@, id, new_name@, now@),
    {
        match validate_tag_name(new_name) {
            Ok(_) => {},
            Err(e) => {
                return Err(e);
            },
        }
        let row = match self.get_tag_raw(id) {
            Some(row) => row,
            None => {
                return Ok(false);
            },
        };
        let kept = trimmed_text(new_name);
        if self.has_sibling_named(row.parent_id, kept.as_str(), Some(id)) {
            return Err(
                VoiceError::Conflict(String::from_str("a tag of this name exists under this parent")),
            );
        }
        proof {
            lemma_parent_not_below(self@.tags, id);
        }
        let device = self.device_id();
        match self.apply_sync_tag(
            TagRow {
                id: row.id,
                name: kept,
                parent_id: row.parent_id,
                device_id: Some(device),
                created_at: row.created_at,
                modified_at: Some(String::from_str(now)),
            },
        ) {
            Ok(_) => Ok(true),
            Err(e) => Err(e),
        }
    }

    /// Moves the tag `id` under `parent`, or to the roots, at the time `now`.
    pub fn move_tag(&mut self, id: u128, parent: Option<u128>, now: &str) -> (r: VoiceResult<bool>)
        requires
            old(self).wf(),
        ensures
            final(self).wf(),
            final(self).conflict_ids() == old(self).conflict_ids(),
            move_tag_outcome(r, final(self)@, old(self)@, id, parent, now@),
    {
        let row = match self.get_tag_raw(id) {
            Some(row) => row,
            None => {
                return Ok(false);
            },
        };
        match parent {
            Some(p) => {
                if self.get_tag_raw(p).is_none() {
                    return Err(VoiceError::NotFound(String::from_str("parent tag")));
                }
            },
            None => {},
        }
        if self.would_create_cycle(id, parent) {
            return Err(VoiceError::validation("parent_id", "tag cycle"));
        }
        if self.has_sibling_named(parent, row.name.as_str(), Some(id)) {
            return Err(
                VoiceError::Conflict(String::from_str("a tag of this name exists under this parent")),
            );
        }
        let device = self.device_id();
        match self.apply_sync_tag(
            TagRow {
                id: row.id,
                name: row.name,
                parent_id: parent,
                device_id: Some(device),
                created_at: row.created_at,
                modified_at: Some(String::from_str(now)),
            },
        ) {
            Ok(_) => Ok(true),
            Err(e) => Err(e),
        }
    }

    /// Deletes the tag `id`, at the time `now`: the tag is taken off every note. Tells
    /// whether there is such a tag.
    pub fn delete_tag(&mut self, id: u128, now: &str) -> (found: bool)
        requires
            old(self).wf(),
        ensures
            final(self).wf(),
            final(self).conflict_ids() == old(self).conflict_ids(),
            final(self)@ == after_delete_tag(old(self)@, id, now@),
            found == has_key(old(self)@.tags, tag_key(), id),
    {
        if self.get_tag_raw(id).is_none() {
            return false;
        }
        let device = self.device_id();
        let ghost before = self@;
        let rows = self.note_tags();
        let n = rows.len();
        assert(n == before.note_tags.len()) by {
            assert(crate::rows::note_tag_views(rows@).len() == rows@.len());
        }
        let mut i: usize = 0;
        assert(self@.note_tags =~= Seq::new(
            before.note_tags.len(),
            |j: int|
                if j < 0 {
                    detached_with(before.note_tags[j], id, before.device_id, now@)
                } else {
                    before.note_tags[j]
                },
        ));
        while i < n
            invariant
                i <= n,
                n == before.note_tags.len(),
                before.wf(),
                self.wf(),
                device == before.device_id,
                self@ == (StoreView { note_tags: self@.note_tags, ..before }),
                self.conflict_ids() == old(self).conflict_ids(),
                self@.note_tags == Seq::new(
                    before.note_tags.len(),
                    |j: int|
                        if j < i {
                            detached_with(before.note_tags[j], id, before.device_id, now@)
                        } else {
                            before.note_tags[j]
                        },
                ),
            decreases n - i,
        {
            let ghost current = self@.note_tags;
            let rows = self.note_tags();
            assert(crate::rows::note_tag_views(rows@).len() == rows@.len());
            let row = rows[i].copy();
            assert(row@ == before.note_tags[i as int]) by {
                assert(crate::rows::note_tag_views(rows@)[i as int] == row@);
            }
            if row.tag_id == id && row.deleted_at.is_none() {
                let changed = NoteTagRow {
                    note_id: row.note_id,
                    tag_id: row.tag_id,
                    created_at: row.created_at,
                    device_id: Some(device),
                    modified_at: Some(String::from_str(now)),
                    deleted_at: Some(String::from_str(now)),
                };
                proof {
                    assert(note_tag_key()(changed@) == note_tag_key()(current[i as int]));
                    lemma_find_at(current, note_tag_key(), i as int);
                }
                self.apply_sync_note_tag(changed);
                assert(self@.note_tags =~= Seq::new(
                    before.note_tags.len(),
                    |j: int|
                        if j < i + 1 {
                            detached_with(before.note_tags[j], id, before.device_id, now@)
                        } else {
                            before.note_tags[j]
                        },
                ));
            } else {
                assert(self@.note_tags =~= Seq::new(
                    before.note_tags.len(),
                    |j: int|
                        if j < i + 1 {
                            detached_with(before.note_tags[j], id, before.device_id, now@)
                        } else {
                            before.note_tags[j]
                        },
                ));
            }
            i += 1;
        }
        assert(self@.note_tags =~= after_delete_tag(before, id, now@).note_tags);
        true
    }

    /// Puts the tag `tag_id` on the note `note_id`, at the time `now`. Tells whether the
    /// store changed.
    pub fn add_tag_to_note(&mut self, note_id: u128, tag_id: u128, now: &str) -> (changed: bool)
        requires
            old(self).wf(),
        ensures
            final(self).wf(),
            final(self).conflict_ids() == old(self).conflict_ids(),
            final(self)@ == after_add_tag(old(self)@, note_id, tag_id, now@),
            changed == (live_note(old(self)@, note_id) is Some && has_key(
                old(self)@.tags,
                tag_key(),
                tag_id,
            ) && match find(old(self)@.note_tags, note_tag_key(), (note_id, tag_id)) {
                Some(a) => a.deleted_at is Some,
                None => true,
            }),
    {
        if self.get_note(note_id).is_none() || self.get_tag_raw(tag_id).is_none() {
            return false;
        }
        let device = self.device_id();
        match self.get_note_tag_raw(note_id, tag_id) {
            None => {
                self.apply_sync_note_tag(
                    NoteTagRow {
                        note_id,
                        tag_id,
                        created_at: String::from_str(now),
                        device_id: Some(device),
                        modified_at: None,
                        deleted_at: None,
                    },
                );
                true
            },
            Some(row) => {
                if row.deleted_at.is_none() {
                    return false;
                }
                self.apply_sync_note_tag(
                    NoteTagRow {
                        note_id: row.note_id,
                        tag_id: row.tag_id,
                        created_at: row.created_at,
                        device_id: Some(device),
                        modified_at: Some(String::from_str(now)),
                        deleted_at: None,
                    },
                );
                true
            },
        }
    }

    /// Takes the tag `tag_id` off the note `note_id`, at the time `now`: the association
    /// stays, with the time of its deletion. Tells whether the tag was on the note.
    pub fn remove_tag_from_note(
        &mut self,
        note_id: u128,
        tag_id: u128,
        now: &str,
    ) -> (changed: bool)
        requires
            old(self).wf(),
        ensures
            final(self).wf(),
            final(self).conflict_ids() == old(self).conflict_ids(),
            final(self)@ == after_remove_tag(old(self)@, note_id, tag_id, now@),
            changed == match find(old(self)@.note_tags, note_tag_key(), (note_id, tag_id)) {
                Some(a) => a.deleted_at is None,
                None => false,
            },
    {
        let row = match self.get_note_tag_raw(note_id, tag_id) {
            Some(row) => row,
            None => {
                return false;
            },
        };
        if row.deleted_at.is_some() {
            return false;
        }
        let device = self.device_id();
        self.apply_sync_note_tag(
            NoteTagRow {
                note_id: row.note_id,
                tag_id: row.tag_id,
                created_at: row.created_at,
                device_id: Some(device),
                modified_at: Some(String::from_str(now)),
                deleted_at: Some(String::from_str(now)),
            },
        );
        true
    }
}

} // verus!
