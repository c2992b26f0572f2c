//! What the user of this device asks of the store. Deleted notes and deleted associations
//! are passed over.

use crate::rows::{note_tag_views, note_views, tag_views, NoteRow, NoteView, TagRow, TagView};
use crate::store::{note_tag_key, Store, StoreView};
use crate::tables::find;
use crate::text::{
    chars_of, copy_range, find_first, first_occurrence, is_blank, opt_str, pieces, split,
    split_chars, str_eq, string_of_range, trim_bounds, trimmed,
};
use crate::tree::tag_key;
use vstd::prelude::*;

verus! {

// ----------------------------------------------------------------------------
// Notes and tags, listed
// ----------------------------------------------------------------------------

/// The rows that meet a condition, in the order of the table.
pub open spec fn kept<V>(rows: Seq<V>, keep: spec_fn(V) -> bool) -> Seq<V>
    decreases rows.len(),
{
    if rows.len() == 0 {
        Seq::empty()
    } else if keep(rows.last()) {
        kept(rows.drop_last(), keep).push(rows.last())
    } else {
        kept(rows.drop_last(), keep)
    }
}

/// Whether the tag `tag_id` is on the note `note_id`.
pub open spec fn is_tagged(s: StoreView, note_id: u128, tag_id: u128) -> bool {
    match find(s.note_tags, note_tag_key(), (note_id, tag_id)) {
        Some(a) => a.deleted_at is None,
        None => false,
    }
}

/// The tags that the first `upto` associations put on the note `note_id`, in their order:
/// one for each association that is not deleted and whose tag the store holds.
pub open spec fn tags_on(s: StoreView, note_id: u128, upto: int) -> Seq<TagView>
    decreases upto,
{
    if upto <= 0 || upto > s.note_tags.len() {
        Seq::empty()
    } else {
        let a = s.note_tags[upto - 1];
        let rest = tags_on(s, note_id, upto - 1);
        if a.note_id == note_id && a.deleted_at is None {
            match find(s.tags, tag_key(), a.tag_id) {
                Some(t) => rest.push(t),
                None => rest,
            }
        } else {
            rest
        }
    }
}

/// The tags that are on the note `note_id`, in the order in which they were first put on
/// it.
pub open spec fn tags_of_note(s: StoreView, note_id: u128) -> Seq<TagView> {
    tags_on(s, note_id, s.note_tags.len() as int)
}

/// Whether every tag of `tags` is on the note `note_id`.
pub open spec fn has_all_tags(s: StoreView, note_id: u128, tags: Seq<u128>) -> bool {
    forall|i: int| 0 <= i < tags.len() ==> is_tagged(s, note_id, #[trigger] tags[i])
}

/// Whether the note has every tag of one of the groups.
pub open spec fn in_some_group(s: StoreView, note_id: u128, groups: Seq<Vec<u128>>) -> bool {
    exists|g: int| 0 <= g < groups.len() && has_all_tags(s, note_id, (#[trigger] groups[g])@)
}

/// Whether `text` holds `query` somewhere.
pub open spec fn holds_text(text: Seq<char>, query: Seq<char>) -> bool {
    first_occurrence(text, query, 0) >= 0
}

/// Whether a search finds the note: it is not deleted, its content holds the query where
/// one is given, and it has every tag of one of the groups where groups are given.
pub open spec fn found_by(
    s: StoreView,
    n: NoteView,
    query: Option<Seq<char>>,
    groups: Option<Seq<Vec<u128>>>,
) -> bool {
    &&& n.deleted_at is None
    &&& match query {
        Some(q) => holds_text(n.content, q),
        None => true,
    }
    &&& match groups {
        Some(gs) => gs.len() == 0 || in_some_group(s, n.id, gs),
        None => true,
    }
}

/// The condition that a search puts on a note.
pub open spec fn search_filter(
    s: StoreView,
    query: Option<Seq<char>>,
    groups: Option<Seq<Vec<u128>>>,
) -> spec_fn(NoteView) -> bool {
    |n: NoteView| found_by(s, n, query, groups)
}

/// The groups of a search that may have none.
pub open spec fn group_lists(g: Option<&Vec<Vec<u128>>>) -> Option<Seq<Vec<u128>>> {
    match g {
        Some(gs) => Some(gs@),
        None => None,
    }
}

/// The tags that have the name `name`.
pub open spec fn tags_named(tags: Seq<TagView>, name: Seq<char>) -> Seq<TagView> {
    kept(tags, |t: TagView| t.name == name)
}

/// The first tag at or after the place `i` with the name `name` under the parent
/// `parent`.
pub open spec fn child_named(tags: Seq<TagView>, parent: Option<u128>, name: Seq<char>, i: int) -> Option<
    TagView,
>
    decreases tags.len() - i,
{
    if i < 0 || i >= tags.len() {
        None
    } else if tags[i].parent_id == parent && tags[i].name == name {
        Some(tags[i])
    } else {
        child_named(tags, parent, name, i + 1)
    }
}

/// The tag that the levels `names[from..]` lead to, descending from `parent`: none where
/// a level names no tag. Blank levels are passed over; the others count without the white
/// space around them.
pub open spec fn descend(
    tags: Seq<TagView>,
    names: Seq<Seq<char>>,
    from: int,
    parent: Option<u128>,
    reached: Option<TagView>,
) -> Option<TagView>
    decreases names.len() - from,
{
    if from < 0 || from >= names.len() {
        reached
    } else if is_blank(names[from]) {
        descend(tags, names, from + 1, parent, reached)
    } else {
        match child_named(tags, parent, trimmed(names[from]), 0) {
            Some(t) => descend(tags, names, from + 1, Some(t.id), Some(t)),
            None => None,
        }
    }
}

/// The tag that a path such as `Europe/France/Paris` names: the root of the first name,
/// then for each further name the child of that name.
pub open spec fn tag_at_path(tags: Seq<TagView>, path: Seq<char>) -> Option<TagView> {
    descend(tags, split(trimmed(path), '/'), 0, None, None)
}

/// The model of a tag that may be absent.
pub open spec fn opt_tag_row(o: Option<TagRow>) -> Option<TagView> {
    match o {
        Some(t) => Some(t@),
        None => None,
    }
}

// ----------------------------------------------------------------------------
// Descendants
// ----------------------------------------------------------------------------

/// The tags whose parent is `parent`, in the order of the table, from the place `i` on.
pub open spec fn children_from(tags: Seq<TagView>, parent: u128, i: int) -> Seq<u128>
    decreases tags.len() - i,
{
    if i < 0 || i >= tags.len() {
        Seq::empty()
    } else if tags[i].parent_id == Some(parent) {
        seq![tags[i].id] + children_from(tags, parent, i + 1)
    } else {
        children_from(tags, parent, i + 1)
    }
}

/// The children of the tags `level[from..]`, parent by parent.
pub open spec fn next_level(tags: Seq<TagView>, level: Seq<u128>, from: int) -> Seq<u128>
    decreases level.len() - from,
{
    if from < 0 || from >= level.len() {
        Seq::empty()
    } else {
        children_from(tags, level[from], 0) + next_level(tags, level, from + 1)
    }
}

/// The tags below the tags of `level`, level by level, `depth` levels deep.
pub open spec fn levels_below(tags: Seq<TagView>, level: Seq<u128>, depth: nat) -> Seq<u128>
    decreases depth,
{
    if depth == 0 {
        Seq::empty()
    } else {
        next_level(tags, level, 0) + levels_below(
            tags,
            next_level(tags, level, 0),
            (depth - 1) as nat,
        )
    }
}

/// The tags below the tag `id`: its children, then their children, and so on, as deep as
/// the table has tags.
pub open spec fn descendants(tags: Seq<TagView>, id: u128) -> Seq<u128> {
    levels_below(tags, seq![id], tags.len())
}

impl Store {
    /// The notes that are not deleted, in the order in which they were first written.
    pub fn get_all_notes(&self) -> (r: Vec<NoteRow>)
        ensures
            note_views(r@) == kept(self@.notes, |n: NoteView| n.deleted_at is None),
    {
        let notes = self.notes();
        let ghost all = self@.notes;
        let ghost keep = |n: NoteView| n.deleted_at is None;
        let mut out: Vec<NoteRow> = Vec::new();
        let mut i: usize = 0;
        assert(all.take(0) =~= Seq::<NoteView>::empty());
        assert(note_views(out@) =~= kept(all.take(0), keep));
        while i < notes.len()
            invariant
                i <= notes.len(),
                note_views(notes@) == all,
                keep == |n: NoteView| n.deleted_at is None,
                note_views(out@) == kept(all.take(i as int), keep),
            decreases notes.len() - i,
        {
            proof {
                assert(all[i as int] == notes@[i as int]@);
                assert(all.take(i + 1).drop_last() =~= all.take(i as int));
                assert(all.take(i + 1).last() == notes@[i as int]@);
            }
            if notes[i].deleted_at.is_none() {
                let ghost before = note_views(out@);
                out.push(notes[i].copy());
                assert(note_views(out@) =~= before.push(notes@[i as int]@));
            }
            i += 1;
        }
        assert(all.take(all.len() as int) =~= all);
        out
    }

    /// Every tag, in the order in which the tags were first written.
    pub fn get_all_tags(&self) -> (r: Vec<TagRow>)
        ensures
            tag_views(r@) == self@.tags,
    {
        self.get_full_dataset().tags
    }

    /// The tags that have the name `name`, wherever they are in the tree.
    pub fn get_tags_by_name(&self, name: &str) -> (r: Vec<TagRow>)
        ensures
            tag_views(r@) == tags_named(self@.tags, name@),
    {
        let tags = self.tags();
        let ghost all = self@.tags;
        let ghost keep = |t: TagView| t.name == name@;
        let mut out: Vec<TagRow> = Vec::new();
        let mut i: usize = 0;
        assert(all.take(0) =~= Seq::<TagView>::empty());
        assert(tag_views(out@) =~= kept(all.take(0), keep));
        while i < tags.len()
            invariant
                i <= tags.len(),
                tag_views(tags@) == all,
                keep == |t: TagView| t.name == name@,
                tag_views(out@) == kept(all.take(i as int), keep),
            decreases tags.len() - i,
        {
            proof {
                assert(all[i as int] == tags@[i as int]@);
                assert(all.take(i + 1).drop_last() =~= all.take(i as int));
                assert(all.take(i + 1).last() == tags@[i as int]@);
            }
            if str_eq(tags[i].name.as_str(), name) {
                let ghost before = tag_views(out@);
                out.push(tags[i].copy());
                assert(tag_views(out@) =~= before.push(tags@[i as int]@));
            }
            i += 1;
        }
        assert(all.take(all.len() as int) =~= all);
        out
    }

    /// Whether more than one tag has the name `name`.
    pub fn is_tag_name_ambiguous(&self, name: &str) -> (r: bool)
        ensures
            r == (tags_named(self@.tags, name@).len() > 1),
    {
        let found = self.get_tags_by_name(name);
        assert(tag_views(found@).len() == found@.len());
        found.len() > 1
    }

    fn find_child(&self, parent: Option<u128>, name: &str) -> (r: Option<TagRow>)
        ensures
            opt_tag_row(r) == child_named(self@.tags, parent, name@, 0),
    {
        let tags = self.tags();
        let mut i: usize = 0;
        while i < tags.len()
            invariant
                i <= tags.len(),
                tag_views(tags@) == self@.tags,
                child_named(self@.tags, parent, name@, 0) == child_named(
                    self@.tags,
                    parent,
                    name@,
                    i as int,
                ),
            decreases tags.len() - i,
        {
            assert(self@.tags[i as int] == tags@[i as int]@);
            if tags[i].parent_id == parent && str_eq(tags[i].name.as_str(), name) {
                return Some(tags[i].copy());
            }
            i += 1;
        }
        assert(tag_views(tags@).len() == tags@.len());
        None
    }

    /// The tag that a path such as `Europe/France/Paris` names.
    pub fn get_tag_by_path(&self, path: &str) -> (r: Option<TagRow>)
        ensures
            opt_tag_row(r) == tag_at_path(self@.tags, path@),
    {
        let v = chars_of(path);
        let (a, b) = trim_bounds(&v);
        let stripped = copy_range(&v, a, b);
        let parts = split_chars(&stripped, '/');
        let ghost names = split(trimmed(path@), '/');
        assert(pieces(parts@) == names);
        let mut parent: Option<u128> = None;
        let mut reached: Option<TagRow> = None;
        let mut i: usize = 0;
        while i < parts.len()
            invariant
                i <= parts.len(),
                pieces(parts@) == names,
                tag_at_path(self@.tags, path@) == descend(
                    self@.tags,
                    names,
                    i as int,
                    parent,
                    opt_tag_row(reached),
                ),
            decreases parts.len() - i,
        {
            assert(names[i as int] == parts@[i as int]@);
            let (pa, pb) = trim_bounds(&parts[i]);
            if pa < pb {
                let name = string_of_range(&parts[i], pa, pb);
                match self.find_child(parent, name.as_str()) {
                    Some(t) => {
                        parent = Some(t.id);
                        reached = Some(t);
                    },
                    None => {
                        return None;
                    },
                }
            }
            i += 1;
        }
        reached
    }

    fn children(&self, parent: u128) -> (r: Vec<u128>)
        ensures
            r@ == children_from(self@.tags, parent, 0),
    {
        let tags = self.tags();
        let mut out: Vec<u128> = Vec::new();
        let mut i: usize = 0;
        while i < tags.len()
            invariant
                i <= tags.len(),
                tag_views(tags@) == self@.tags,
                children_from(self@.tags, parent, 0) == out@ + children_from(
                    self@.tags,
                    parent,
                    i as int,
                ),
            decreases tags.len() - i,
        {
            assert(self@.tags[i as int] == tags@[i as int]@);
            if tags[i].parent_id == Some(parent) {
                let ghost before = out@;
                out.push(tags[i].id);
                assert(before + (seq![tags@[i as int].id] + children_from(
                    self@.tags,
                    parent,
                    i + 1,
                )) =~= out@ + children_from(self@.tags, parent, i + 1));
            }
            i += 1;
        }
        assert(tag_views(tags@).len() == tags@.len());
        assert(out@ + Seq::<u128>::empty() =~= out@);
        out
    }

    fn level_below(&self, level: &Vec<u128>) -> (r: Vec<u128>)
        ensures
            r@ == next_level(self@.tags, level@, 0),
    {
        let mut out: Vec<u128> = Vec::new();
        let mut i: usize = 0;
        while i < level.len()
            invariant
                i <= level.len(),
                next_level(self@.tags, level@, 0) == out@ + next_level(
                    self@.tags,
                    level@,
                    i as int,
                ),
            decreases level.len() - i,
        {
            let mut found = self.children(level[i]);
            let ghost before = out@;
            let ghost added = found@;
            out.append(&mut found);
            assert(before + (added + next_level(self@.tags, level@, i + 1)) =~= out@ + next_level(
                self@.tags,
                level@,
                i + 1,
            ));
            i += 1;
        }
        assert(out@ + Seq::<u128>::empty() =~= out@);
        out
    }

    /// The tags below the tag `id`: its children, then their children, and so on.
    pub fn get_tag_descendants(&self, id: u128) -> (r: Vec<u128>)
        ensures
            r@ == descendants(self@.tags, id),
    {
        let tags = self.tags();
        let n = tags.len();
        assert(tag_views(tags@).len() == tags@.len());
        let mut out: Vec<u128> = Vec::new();
        let mut level: Vec<u128> = Vec::new();
        level.push(id);
        assert(level@ =~= seq![id]);
        let mut depth: usize = n;
        assert(out@ + levels_below(self@.tags, level@, depth as nat) =~= descendants(
            self@.tags,
            id,
        ));
        while depth > 0
            invariant
                descendants(self@.tags, id) == out@ + levels_below(
                    self@.tags,
                    level@,
                    depth as nat,
                ),
            decreases depth,
        {
            let next = self.level_below(&level);
            let ghost before = out@;
            let mut i: usize = 0;
            while i < next.len()
                invariant
                    i <= next.len(),
                    out@ == before + next@.take(i as int),
                decreases next.len() - i,
            {
                out.push(next[i]);
                assert(next@.take(i + 1) =~= next@.take(i as int).push(next@[i as int]));
                i += 1;
            }
            assert(next@.take(next.len() as int) =~= next@);
            assert(before + (next@ + levels_below(self@.tags, next@, (depth - 1) as nat))
                =~= out@ + levels_below(self@.tags, next@, (depth - 1) as nat));
            level = next;
            depth -= 1;
        }
        assert(out@ + Seq::<u128>::empty() =~= out@);
        out
    }

    /// Whether the tag `tag_id` is on the note `note_id`.
    pub fn note_has_tag(&self, note_id: u128, tag_id: u128) -> (r: bool)
        requires
            self.wf(),
        ensures
            r == is_tagged(self@, note_id, tag_id),
    {
        match self.get_note_tag_raw(note_id, tag_id) {
            Some(a) => a.deleted_at.is_none(),
            None => false,
        }
    }

    /// Whether every tag of `tags` is on the note `note_id`.
    pub fn note_has_all_tags(&self, note_id: u128, tags: &Vec<u128>) -> (r: bool)
        requires
            self.wf(),
        ensures
            r == has_all_tags(self@, note_id, tags@),
    {
        let mut i: usize = 0;
        while i < tags.len()
            invariant
                self.wf(),
                i <= tags.len(),
                forall|j: int| 0 <= j < i ==> is_tagged(self@, note_id, #[trigger] tags@[j]),
            decreases tags.len() - i,
        {
            if !self.note_has_tag(note_id, tags[i]) {
                return false;
            }
            i += 1;
        }
        true
    }

    /// The tags that are on the note `note_id`, in the order in which they were first put
    /// on it. A tag that the store does not hold is passed over.
    pub fn get_note_tags(&self, note_id: u128) -> (r: Vec<TagRow>)
        requires
            self.wf(),
        ensures
            tag_views(r@) == tags_of_note(self@, note_id),
    {
        let links = self.note_tags();
        let ghost all = self@.note_tags;
        assert(note_tag_views(links@).len() == links@.len());
        let mut out: Vec<TagRow> = Vec::new();
        let mut i: usize = 0;
        assert(tag_views(out@) =~= tags_on(self@, note_id, 0));
        while i < links.len()
            invariant
                self.wf(),
                i <= links.len(),
                note_tag_views(links@) == all,
                all == self@.note_tags,
                links@.len() == all.len(),
                tag_views(out@) == tags_on(self@, note_id, i as int),
            decreases links.len() - i,
        {
            let link = &links[i];
            assert(all[i as int] == link@);
            if link.note_id == note_id && link.deleted_at.is_none() {
                match self.get_tag_raw(link.tag_id) {
                    Some(t) => {
                        let ghost before = tag_views(out@);
                        let ghost model = t@;
                        out.push(t);
                        assert(tag_views(out@) =~= before.push(model));
                    },
                    None => {},
                }
            }
            i += 1;
        }
        out
    }

    /// The notes that are not deleted and have every tag of `tag_ids`.
    pub fn filter_notes(&self, tag_ids: &Vec<u128>) -> (r: Vec<NoteRow>)
        requires
            self.wf(),
        ensures
            note_views(r@) == kept(
                self@.notes,
                |n: NoteView| n.deleted_at is None && has_all_tags(self@, n.id, tag_ids@),
            ),
    {
        let notes = self.notes();
        let ghost all = self@.notes;
        let ghost keep = |n: NoteView| n.deleted_at is None && has_all_tags(self@, n.id, tag_ids@);
        let mut out: Vec<NoteRow> = Vec::new();
        let mut i: usize = 0;
        assert(all.take(0) =~= Seq::<NoteView>::empty());
        assert(note_views(out@) =~= kept(all.take(0), keep));
        while i < notes.len()
            invariant
                self.wf(),
                i <= notes.len(),
                note_views(notes@) == all,
                keep == |n: NoteView|
                    n.deleted_at is None && has_all_tags(self@, n.id, tag_ids@),
                note_views(out@) == kept(all.take(i as int), keep),
            decreases notes.len() - i,
        {
            proof {
                assert(all[i as int] == notes@[i as int]@);
                assert(all.take(i + 1).drop_last() =~= all.take(i as int));
                assert(all.take(i + 1).last() == notes@[i as int]@);
            }
            if notes[i].deleted_at.is_none() && self.note_has_all_tags(notes[i].id, tag_ids) {
                let ghost before = note_views(out@);
                out.push(notes[i].copy());
                assert(note_views(out@) =~= before.push(notes@[i as int]@));
            }
            i += 1;
        }
        assert(all.take(all.len() as int) =~= all);
        out
    }

    fn in_group(&self, note_id: u128, groups: &Vec<Vec<u128>>) -> (r: bool)
        requires
            self.wf(),
        ensures
            r == in_some_group(self@, note_id, groups@),
    {
        let mut g: usize = 0;
        while g < groups.len()
            invariant
                self.wf(),
                g <= groups.len(),
                forall|j: int|
                    0 <= j < g ==> !has_all_tags(self@, note_id, (#[trigger] groups@[j])@),
            decreases groups.len() - g,
        {
            if self.note_has_all_tags(note_id, &groups[g]) {
                return true;
            }
            g += 1;
        }
        false
    }

    /// The notes that a search finds: those that are not deleted, whose content holds
    /// `text_query` where one is given, and that have every tag of one of the groups of
    /// `tag_id_groups` where groups are given.
    pub fn search_notes(
        &self,
        text_query: Option<&str>,
        tag_id_groups: Option<&Vec<Vec<u128>>>,
    ) -> (r: Vec<NoteRow>)
        requires
            self.wf(),
        ensures
            note_views(r@) == kept(
                self@.notes,
                search_filter(self@, opt_str(text_query), group_lists(tag_id_groups)),
            ),
    {
        let notes = self.notes();
        let ghost all = self@.notes;
        let ghost query = opt_str(text_query);
        let ghost groups = group_lists(tag_id_groups);
        let ghost keep = search_filter(self@, query, groups);
        let wanted = match text_query {
            Some(q) => Some(chars_of(q)),
            None => None,
        };
        let mut out: Vec<NoteRow> = Vec::new();
        let mut i: usize = 0;
        assert(all.take(0) =~= Seq::<NoteView>::empty());
        assert(note_views(out@) =~= kept(all.take(0), keep));
        while i < notes.len()
            invariant
                self.wf(),
                i <= notes.len(),
                note_views(notes@) == all,
                query == opt_str(text_query),
                groups == group_lists(tag_id_groups),
                match wanted {
                    Some(w) => query == Some(w@),
                    None => query is None,
                },
                keep == search_filter(self@, query, groups),
                note_views(out@) == kept(all.take(i as int), keep),
            decreases notes.len() - i,
        {
            proof {
                assert(all[i as int] == notes@[i as int]@);
                assert(all.take(i + 1).drop_last() =~= all.take(i as int));
                assert(all.take(i + 1).last() == notes@[i as int]@);
            }
            let note = &notes[i];
            let live = note.deleted_at.is_none();
            let text_ok = match &wanted {
                Some(w) => find_first(&chars_of(note.content.as_str()), w).is_some(),
                None => true,
            };
            let tags_ok = match tag_id_groups {
                Some(gs) => gs.len() == 0 || self.in_group(note.id, gs),
                None => true,
            };
            if live && text_ok && tags_ok {
                let ghost before = note_views(out@);
                out.push(note.copy());
                assert(note_views(out@) =~= before.push(notes@[i as int]@));
            }
            i += 1;
        }
        assert(all.take(all.len() as int) =~= all);
        out
    }
}

} // verus!
