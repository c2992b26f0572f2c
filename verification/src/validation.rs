//! Checks on what enters the library: identifiers, names, contents, paths, queries.
//!
//! Every check returns `VoiceError::Validation` on refusal, with the field it refuses.
//! Lengths are counted in characters.

use crate::error::{ErrorView, VoiceError, VoiceResult};
use crate::ids::{big_endian, parse_uuid, uuid_error_text, uuid_from_slice, uuid_simple, uuid_value};
use crate::text::{
    all_hex, chars_of, contains_char, copy_range, decimal, decimal_string, hex32, hex_number,
    is_blank, lemma_remove_char_absent, pieces, remove_char, split, split_chars, starts_with,
    string_of, string_of_range, trim_bounds, trimmed, without_char,
};
use vstd::prelude::*;
use vstd::string::*;

verus! {

/// Longest tag name, in characters.
pub const MAX_TAG_NAME_LENGTH: usize = 100;

/// Longest note content, in characters.
pub const MAX_NOTE_CONTENT_LENGTH: usize = 100_000;

/// Longest search query, in characters.
pub const MAX_SEARCH_QUERY_LENGTH: usize = 500;

/// Longest tag path, in characters.
pub const MAX_TAG_PATH_LENGTH: usize = 500;

/// Most levels in a tag path.
pub const MAX_TAG_PATH_DEPTH: usize = 50;

/// Bytes in a UUID.
pub const UUID_BYTES_LENGTH: usize = 16;

/// The validation error on `field` with the text `message`.
pub open spec fn refusal(field: Seq<char>, message: Seq<char>) -> ErrorView {
    ErrorView::Validation { field, message }
}

/// Whether `r` refuses `field` with the text `message`.
pub open spec fn refuses<T>(r: VoiceResult<T>, field: Seq<char>, message: Seq<char>) -> bool {
    r matches Err(e) && e@ == refusal(field, message)
}

/// "cannot exceed `limit` `unit` (got `got`)".
pub open spec fn exceeds_text(limit: nat, unit: Seq<char>, got: nat) -> Seq<char> {
    "cannot exceed "@ + decimal(limit) + " "@ + unit + " (got "@ + decimal(got) + ")"@
}

fn exceeds_message(limit: usize, unit: &str, got: usize) -> (s: String)
    ensures
        s@ == exceeds_text(limit as nat, unit@, got as nat),
{
    let mut s = String::from_str("cannot exceed ");
    s.append(decimal_string(limit).as_str());
    s.append(" ");
    s.append(unit);
    s.append(" (got ");
    s.append(decimal_string(got).as_str());
    s.append(")");
    s
}

// ----------------------------------------------------------------------------
// Identifiers
// ----------------------------------------------------------------------------

/// Accepts exactly 16 bytes.
pub fn validate_uuid(value: &[u8], field_name: &str) -> (r: VoiceResult<()>)
    ensures
        value@.len() == 16 ==> r is Ok,
        value@.len() != 16 ==> refuses(
            r,
            field_name@,
            "must be "@ + decimal(16) + " bytes, got "@ + decimal(value@.len()),
        ),
{
    if value.len() != UUID_BYTES_LENGTH {
        let mut m = String::from_str("must be ");
        m.append(decimal_string(UUID_BYTES_LENGTH).as_str());
        m.append(" bytes, got ");
        m.append(decimal_string(value.len()).as_str());
        return Err(VoiceError::validation(field_name, m.as_str()));
    }
    Ok(())
}

/// Whether `s`, once its hyphens are taken out, is made of exactly 32 hexadecimal digits.
pub open spec fn is_uuid_text(s: Seq<char>) -> bool {
    remove_char(s, '-').len() == 32 && all_hex(remove_char(s, '-'))
}

/// The value that the hexadecimal digits of `s` write.
pub open spec fn uuid_text_value(s: Seq<char>) -> u128 {
    hex_number(remove_char(s, '-')) as u128
}

/// Whether `r` refuses `field` as an identifier: the text begins with `invalid UUID format: `
/// and goes on with the parser's own description.
pub open spec fn refuses_uuid<T>(r: VoiceResult<T>, field: Seq<char>) -> bool {
    match r {
        Ok(_) => false,
        Err(e) => match e@ {
            ErrorView::Validation { field: f, message } => f == field && starts_with(
                message,
                "invalid UUID format: "@,
            ),
            _ => false,
        },
    }
}

/// Whether `r` is what reading `text` as an identifier gives: its value when it is a UUID
/// text, the refusal of `field` when it is none.
pub open spec fn reads_uuid(r: VoiceResult<u128>, text: Seq<char>, field: Seq<char>) -> bool {
    if is_uuid_text(text) {
        r == Ok::<u128, VoiceError>(uuid_text_value(text))
    } else {
        refuses_uuid(r, field)
    }
}

/// A text without hyphens is a UUID exactly when it is made of 32 hexadecimal digits.
pub proof fn lemma_uuid_value_without_hyphens(c: Seq<char>)
    requires
        forall|i: int| 0 <= i < c.len() ==> #[trigger] c[i] != '-',
    ensures
        uuid_value(c) == if c.len() == 32 && all_hex(c) {
            Some(hex_number(c) as u128)
        } else {
            None
        },
{
    if c.len() == 36 {
        assert(c[8] != '-');
    } else if c.len() == 38 {
        assert(c.subrange(1, 37)[8] == c[9]);
    } else if c.len() == 45 {
        assert(c.subrange(9, 45)[8] == c[17]);
    }
}

/// Reads a UUID written in hexadecimal, with or without hyphens.
///
/// Succeeds exactly when 32 hexadecimal digits remain once the hyphens are taken out, with
/// the value that they write. The refusal names `field_name`; its text begins with
/// `invalid UUID format: ` and goes on with the parser's own description.
pub fn validate_uuid_hex(value: &str, field_name: &str) -> (r: VoiceResult<u128>)
    ensures
        reads_uuid(r, value@, field_name@),
{
    let cleaned = without_char(value, '-');
    let cleaned_text = string_of(&cleaned);
    proof {
        lemma_remove_char_absent(value@, '-');
        lemma_uuid_value_without_hyphens(cleaned@);
    }
    match parse_uuid(cleaned_text.as_str()) {
        Ok(v) => Ok(v),
        Err(e) => {
            let m = crate::error::prefixed("invalid UUID format: ", uuid_error_text(&e).as_str());
            assert(m@.subrange(0, "invalid UUID format: "@.len() as int)
                =~= "invalid UUID format: "@);
            Err(VoiceError::validation(field_name, m.as_str()))
        },
    }
}

/// The 32 lower-case hexadecimal digits of `value`, without hyphens.
pub fn uuid_to_hex(value: u128) -> (s: String)
    ensures
        s@ == hex32(value),
{
    uuid_simple(value)
}

/// The 32 lower-case hexadecimal digits of the 16 bytes of a UUID.
pub fn uuid_bytes_to_hex(bytes: &[u8]) -> (r: VoiceResult<String>)
    ensures
        bytes@.len() == 16 ==> (r matches Ok(s) && s@ == hex32(big_endian(bytes@) as u128)),
        bytes@.len() != 16 ==> refuses(r, "uuid"@, "must be "@ + decimal(16) + " bytes"@),
{
    if bytes.len() != UUID_BYTES_LENGTH {
        let mut m = String::from_str("must be ");
        m.append(decimal_string(UUID_BYTES_LENGTH).as_str());
        m.append(" bytes");
        return Err(VoiceError::validation("uuid", m.as_str()));
    }
    match uuid_from_slice(bytes) {
        Ok(v) => Ok(uuid_simple(v)),
        Err(e) => {
            let m = crate::error::prefixed("invalid UUID bytes: ", uuid_error_text(&e).as_str());
            Err(VoiceError::validation("uuid", m.as_str()))
        },
    }
}

/// Reads the identifier of an entity (a note, a tag, a device).
pub fn validate_entity_id(entity_id: &str, field_name: &str) -> (r: VoiceResult<u128>)
    ensures
        reads_uuid(r, entity_id@, field_name@),
{
    validate_uuid_hex(entity_id, field_name)
}

/// Reads the identifier of a note; the refusal names `note_id`.
pub fn validate_note_id(note_id: &str) -> (r: VoiceResult<u128>)
    ensures
        reads_uuid(r, note_id@, "note_id"@),
{
    validate_entity_id(note_id, "note_id")
}

/// Reads the identifier of a tag; the refusal names `tag_id`.
pub fn validate_tag_id(tag_id: &str) -> (r: VoiceResult<u128>)
    ensures
        reads_uuid(r, tag_id@, "tag_id"@),
{
    validate_entity_id(tag_id, "tag_id")
}

/// Reads the identifier of a device; the refusal names `device_id`.
pub fn validate_device_id(device_id: &str) -> (r: VoiceResult<u128>)
    ensures
        reads_uuid(r, device_id@, "device_id"@),
{
    validate_entity_id(device_id, "device_id")
}

/// Reads identifiers from the front of `items` until one is refused: the values read, in
/// order; their number is the index of the first refused item, or the length.
pub fn read_ids(items: &[String]) -> (ids: Vec<u128>)
    ensures
        ids.len() <= items@.len(),
        forall|j: int| 0 <= j < ids.len() ==> is_uuid_text(#[trigger] items@[j]@) && ids@[j]
            == uuid_text_value(items@[j]@),
        ids.len() < items@.len() ==> !is_uuid_text(items@[ids.len() as int]@),
{
    let mut ids: Vec<u128> = Vec::new();
    let mut i: usize = 0;
    while i < items.len()
        invariant
            i <= items@.len(),
            ids.len() == i,
            forall|j: int| 0 <= j < i ==> is_uuid_text(#[trigger] items@[j]@) && ids@[j]
                == uuid_text_value(items@[j]@),
        decreases items@.len() - i,
    {
        match validate_tag_id(items[i].as_str()) {
            Ok(v) => ids.push(v),
            Err(_) => {
                return ids;
            },
        }
        i += 1;
    }
    ids
}

/// Reads a list of tag identifiers.
///
/// Succeeds when every item is a UUID text, with their values in order. Otherwise the
/// refusal names `tag_ids` and the index of the first item that is none.
pub fn validate_tag_ids(tag_ids: &[String]) -> (r: VoiceResult<Vec<u128>>)
    ensures
        match r {
            Ok(ids) => ids.len() == tag_ids@.len() && forall|j: int|
                0 <= j < ids.len() ==> is_uuid_text(#[trigger] tag_ids@[j]@) && ids@[j]
                    == uuid_text_value(tag_ids@[j]@),
            Err(e) => exists|i: int|
                0 <= i < tag_ids@.len() && !is_uuid_text(tag_ids@[i]@) && (forall|j: int|
                    0 <= j < i ==> is_uuid_text(#[trigger] tag_ids@[j]@)) && e@ == refusal(
                    "tag_ids"@,
                    "item "@ + decimal(i as nat) + ": invalid tag ID"@,
                ),
        },
{
    let ids = read_ids(tag_ids);
    if ids.len() < tag_ids.len() {
        let mut m = String::from_str("item ");
        m.append(decimal_string(ids.len()).as_str());
        m.append(": invalid tag ID");
        Err(VoiceError::validation("tag_ids", m.as_str()))
    } else {
        Ok(ids)
    }
}

// ----------------------------------------------------------------------------
// Names, paths, contents, queries
// ----------------------------------------------------------------------------

/// Why `name` is no tag name, if it is none: blank, longer than 100 characters once
/// trimmed, or holding a `/`.
pub open spec fn tag_name_refusal(name: Seq<char>) -> Option<Seq<char>> {
    if is_blank(name) {
        Some("cannot be empty or whitespace only"@)
    } else if trimmed(name).len() > MAX_TAG_NAME_LENGTH {
        Some(exceeds_text(MAX_TAG_NAME_LENGTH as nat, "characters"@, trimmed(name).len()))
    } else if trimmed(name).contains('/') {
        Some("cannot contain '/' character (reserved for paths)"@)
    } else {
        None
    }
}

/// Checks a tag name: not blank, at most 100 characters once trimmed, no `/`.
pub fn validate_tag_name(name: &str) -> (r: VoiceResult<()>)
    ensures
        match tag_name_refusal(name@) {
            None => r is Ok,
            Some(m) => refuses(r, "tag_name"@, m),
        },
{
    let v = chars_of(name);
    let (a, b) = trim_bounds(&v);
    if a == b {
        return Err(VoiceError::validation("tag_name", "cannot be empty or whitespace only"));
    }
    if b - a > MAX_TAG_NAME_LENGTH {
        let m = exceeds_message(MAX_TAG_NAME_LENGTH, "characters", b - a);
        return Err(VoiceError::validation("tag_name", m.as_str()));
    }
    if contains_char(&v, a, b, '/') {
        return Err(
            VoiceError::validation("tag_name", "cannot contain '/' character (reserved for paths)"),
        );
    }
    Ok(())
}

/// Why `content` is no note content, if it is none: blank, or longer than 100 000 characters.
pub open spec fn note_content_refusal(content: Seq<char>) -> Option<Seq<char>> {
    if is_blank(content) {
        Some("cannot be empty or whitespace only"@)
    } else if content.len() > MAX_NOTE_CONTENT_LENGTH {
        Some(exceeds_text(MAX_NOTE_CONTENT_LENGTH as nat, "characters"@, content.len()))
    } else {
        None
    }
}

/// Checks the content of a note: not blank, at most 100 000 characters.
pub fn validate_note_content(content: &str) -> (r: VoiceResult<()>)
    ensures
        match note_content_refusal(content@) {
            None => r is Ok,
            Some(m) => refuses(r, "content"@, m),
        },
{
    let v = chars_of(content);
    let (a, b) = trim_bounds(&v);
    if a == b {
        return Err(VoiceError::validation("content", "cannot be empty or whitespace only"));
    }
    if v.len() > MAX_NOTE_CONTENT_LENGTH {
        let m = exceeds_message(MAX_NOTE_CONTENT_LENGTH, "characters", v.len());
        return Err(VoiceError::validation("content", m.as_str()));
    }
    Ok(())
}

/// Checks a search query: absent, or at most 500 characters.
pub fn validate_search_query(query: Option<&str>) -> (r: VoiceResult<()>)
    ensures
        match query {
            Some(q) if q@.len() > MAX_SEARCH_QUERY_LENGTH => refuses(
                r,
                "search_query"@,
                exceeds_text(MAX_SEARCH_QUERY_LENGTH as nat, "characters"@, q@.len()),
            ),
            _ => r is Ok,
        },
{
    match query {
        Some(q) => {
            let n = q.unicode_len();
            if n > MAX_SEARCH_QUERY_LENGTH {
                let m = exceeds_message(MAX_SEARCH_QUERY_LENGTH, "characters", n);
                return Err(VoiceError::validation("search_query", m.as_str()));
            }
            Ok(())
        },
        None => Ok(()),
    }
}

/// The first index at or after `i` of a piece longer than 100 characters once trimmed; the
/// number of pieces if there is none.
pub open spec fn first_long_part(parts: Seq<Seq<char>>, i: int) -> int
    decreases parts.len() - i,
{
    if i < 0 || i >= parts.len() {
        parts.len() as int
    } else if trimmed(parts[i]).len() > MAX_TAG_NAME_LENGTH {
        i
    } else {
        first_long_part(parts, i + 1)
    }
}

/// "tag name '`head`...' exceeds 100 characters", `head` being the first 20 characters of `part`.
pub open spec fn long_part_text(part: Seq<char>) -> Seq<char> {
    "tag name '"@ + part.subrange(0, if part.len() < 20 {
        part.len() as int
    } else {
        20
    }) + "...' exceeds "@ + decimal(MAX_TAG_NAME_LENGTH as nat) + " characters"@
}

/// The levels of a path: the pieces of the trimmed path between slashes.
pub open spec fn path_parts(path: Seq<char>) -> Seq<Seq<char>> {
    split(trimmed(path), '/')
}

/// Why `path` is no tag path, if it is none: blank, longer than 500 characters once trimmed,
/// deeper than 50 levels, without any level that is not blank, or with a level longer than
/// 100 characters. Blank levels, as a leading or trailing slash leaves them, are passed over.
pub open spec fn tag_path_refusal(path: Seq<char>) -> Option<Seq<char>> {
    let parts = path_parts(path);
    if is_blank(path) {
        Some("cannot be empty or whitespace only"@)
    } else if trimmed(path).len() > MAX_TAG_PATH_LENGTH {
        Some(exceeds_text(MAX_TAG_PATH_LENGTH as nat, "characters"@, trimmed(path).len()))
    } else if parts.len() > MAX_TAG_PATH_DEPTH {
        Some(exceeds_text(MAX_TAG_PATH_DEPTH as nat, "levels"@, parts.len()))
    } else if forall|i: int| 0 <= i < parts.len() ==> is_blank(#[trigger] parts[i]) {
        Some("must contain at least one valid tag name"@)
    } else if first_long_part(parts, 0) < parts.len() {
        Some(long_part_text(trimmed(parts[first_long_part(parts, 0)])))
    } else {
        None
    }
}

/// Checks a tag path such as `Europe/France/Paris`.
pub fn validate_tag_path(path: &str) -> (r: VoiceResult<()>)
    ensures
        match tag_path_refusal(path@) {
            None => r is Ok,
            Some(m) => refuses(r, "tag_path"@, m),
        },
{
    let v = chars_of(path);
    let (a, b) = trim_bounds(&v);
    if a == b {
        return Err(VoiceError::validation("tag_path", "cannot be empty or whitespace only"));
    }
    if b - a > MAX_TAG_PATH_LENGTH {
        let m = exceeds_message(MAX_TAG_PATH_LENGTH, "characters", b - a);
        return Err(VoiceError::validation("tag_path", m.as_str()));
    }
    let stripped = copy_range(&v, a, b);
    let parts = split_chars(&stripped, '/');
    let ghost model = path_parts(path@);
    assert(pieces(parts@) == model);
    if parts.len() > MAX_TAG_PATH_DEPTH {
        let m = exceeds_message(MAX_TAG_PATH_DEPTH, "levels", parts.len());
        return Err(VoiceError::validation("tag_path", m.as_str()));
    }
    let n = parts.len();
    let mut some_name = false;
    let mut long_at: usize = n;
    let mut i: usize = 0;
    while i < n
        invariant
            i <= n,
            n == parts.len(),
            pieces(parts@) == model,
            long_at <= n,
            long_at < n ==> long_at < i,
            some_name <==> exists|j: int| 0 <= j < i && !is_blank(#[trigger] model[j]),
            long_at == n ==> first_long_part(model, 0) == first_long_part(model, i as int),
            long_at < n ==> first_long_part(model, 0) == long_at,
        decreases n - i,
    {
        assert(model[i as int] == parts@[i as int]@);
        let (pa, pb) = trim_bounds(&parts[i]);
        if pa < pb {
            some_name = true;
        }
        if long_at == n && pb - pa > MAX_TAG_NAME_LENGTH {
            long_at = i;
        }
        i += 1;
    }
    if !some_name {
        return Err(VoiceError::validation("tag_path", "must contain at least one valid tag name"));
    }
    if long_at < n {
        assert(model[long_at as int] == parts@[long_at as int]@);
        let part = &parts[long_at];
        let (pa, pb) = trim_bounds(part);
        let shown: usize = if pb - pa < 20 {
            pb
        } else {
            pa + 20
        };
        let head = string_of_range(part, pa, shown);
        assert(head@ == trimmed(part@).subrange(0, shown - pa)) by {
            assert(part@.subrange(pa as int, pb as int).subrange(0, shown - pa)
                =~= part@.subrange(pa as int, shown as int));
        }
        let mut m = String::from_str("tag name '");
        m.append(head.as_str());
        m.append("...' exceeds ");
        m.append(decimal_string(MAX_TAG_NAME_LENGTH).as_str());
        m.append(" characters");
        return Err(VoiceError::validation("tag_path", m.as_str()));
    }
    Ok(())
}

/// What checking a parent for a tag gives.
///
/// Without a parent there is nothing to check. With one, it must be a UUID text, and so
/// must the tag's own identifier where it is given; the two must differ.
pub open spec fn parent_tag_outcome(
    r: VoiceResult<Option<u128>>,
    parent_id: Option<&str>,
    tag_id: Option<&str>,
) -> bool {
    match parent_id {
        None => r == Ok::<Option<u128>, VoiceError>(None),
        Some(pid) => if !is_uuid_text(pid@) {
            refuses_uuid(r, "tag_id"@)
        } else {
            match tag_id {
                Some(tid) if !is_uuid_text(tid@) => refuses_uuid(r, "tag_id"@),
                Some(tid) if uuid_text_value(tid@) == uuid_text_value(pid@) => refuses(
                    r,
                    "parent_id"@,
                    "tag cannot be its own parent"@,
                ),
                _ => r == Ok::<Option<u128>, VoiceError>(Some(uuid_text_value(pid@))),
            }
        },
    }
}

/// Checks the parent chosen for a tag.
pub fn validate_parent_tag_id(parent_id: Option<&str>, tag_id: Option<&str>) -> (r: VoiceResult<Option<u128>>)
    ensures
        parent_tag_outcome(r, parent_id, tag_id),
{
    match parent_id {
        None => Ok(None),
        Some(pid) => {
            let parent = match validate_tag_id(pid) {
                Ok(v) => v,
                Err(e) => {
                    return Err(e);
                },
            };
            match tag_id {
                Some(tid) => {
                    let tag = match validate_tag_id(tid) {
                        Ok(v) => v,
                        Err(e) => {
                            return Err(e);
                        },
                    };
                    if parent == tag {
                        return Err(
                            VoiceError::validation("parent_id", "tag cannot be its own parent"),
                        );
                    }
                },
                None => {},
            }
            Ok(Some(parent))
        },
    }
}

/// Whether `ids` holds the values of the items of `groups`, group by group.
pub open spec fn groups_read(groups: Seq<Vec<String>>, ids: Seq<Vec<u128>>) -> bool {
    &&& ids.len() == groups.len()
    &&& forall|i: int| 0 <= i < groups.len() ==> (#[trigger] ids[i])@.len() == groups[i]@.len()
    &&& forall|i: int, j: int|
        0 <= i < groups.len() && 0 <= j < groups[i]@.len() ==> is_uuid_text(
            #[trigger] groups[i]@[j]@,
        ) && ids[i]@[j] == uuid_text_value(groups[i]@[j]@)
}

/// Whether item `j` of group `i` is the first, group by group, that is no UUID text.
pub open spec fn first_bad_item(groups: Seq<Vec<String>>, i: int, j: int) -> bool {
    &&& 0 <= i < groups.len()
    &&& 0 <= j < groups[i]@.len()
    &&& !is_uuid_text(groups[i]@[j]@)
    &&& forall|l: int| 0 <= l < j ==> is_uuid_text(#[trigger] groups[i]@[l]@)
    &&& forall|k: int, l: int|
        0 <= k < i && 0 <= l < groups[k]@.len() ==> is_uuid_text(#[trigger] groups[k]@[l]@)
}

/// The refusal of item `j` of group `i`.
pub open spec fn bad_item_refusal(i: int, j: int) -> ErrorView {
    refusal(
        "tag_id_groups"@,
        "group "@ + decimal(i as nat) + ", item "@ + decimal(j as nat) + ": invalid tag ID"@,
    )
}

/// What reading groups of tag identifiers gives: nothing where there are none; their values
/// where every item is a UUID text; else the refusal of the first item that is none.
pub open spec fn groups_outcome(
    r: VoiceResult<Option<Vec<Vec<u128>>>>,
    tag_id_groups: Option<&Vec<Vec<String>>>,
) -> bool {
    match tag_id_groups {
        None => r matches Ok(None),
        Some(groups) => match r {
            Ok(Some(ids)) => groups_read(groups@, ids@),
            Ok(None) => false,
            Err(e) => exists|i: int, j: int| #[trigger]
                first_bad_item(groups@, i, j) && e@ == bad_item_refusal(i, j),
        },
    }
}

/// Reads the groups in order until an item is refused: their values, or the place of the
/// first item that is no UUID text.
pub fn read_groups(groups: &Vec<Vec<String>>) -> (r: Result<Vec<Vec<u128>>, (usize, usize)>)
    ensures
        match r {
            Ok(ids) => groups_read(groups@, ids@),
            Err(at) => first_bad_item(groups@, at.0 as int, at.1 as int),
        },
{
    let mut result: Vec<Vec<u128>> = Vec::new();
    let mut i: usize = 0;
    while i < groups.len()
        invariant
            i <= groups.len(),
            result.len() == i,
            forall|k: int| 0 <= k < i ==> (#[trigger] result@[k])@.len() == groups@[k]@.len(),
            forall|k: int, l: int|
                0 <= k < i && 0 <= l < groups@[k]@.len() ==> is_uuid_text(
                    #[trigger] groups@[k]@[l]@,
                ) && result@[k]@[l] == uuid_text_value(groups@[k]@[l]@),
        decreases groups.len() - i,
    {
        let ids = read_ids(groups[i].as_slice());
        if ids.len() < groups[i].len() {
            return Err((i, ids.len()));
        }
        result.push(ids);
        i += 1;
    }
    Ok(result)
}

/// Reads groups of tag identifiers, as a search takes them.
///
/// Succeeds when every item of every group is a UUID text. Otherwise the refusal names
/// `tag_id_groups` and the place of the first item that is none.
pub fn validate_tag_id_groups(tag_id_groups: Option<&Vec<Vec<String>>>) -> (r: VoiceResult<Option<Vec<Vec<u128>>>>)
    ensures
        groups_outcome(r, tag_id_groups),
{
    match tag_id_groups {
        None => Ok(None),
        Some(groups) => match read_groups(groups) {
            Ok(ids) => Ok(Some(ids)),
            Err(at) => {
                let mut m = String::from_str("group ");
                m.append(decimal_string(at.0).as_str());
                m.append(", item ");
                m.append(decimal_string(at.1).as_str());
                m.append(": invalid tag ID");
                let e = VoiceError::validation("tag_id_groups", m.as_str());
                assert(e@ == bad_item_refusal(at.0 as int, at.1 as int));
                Err(e)
            },
        },
    }
}

} // verus!
