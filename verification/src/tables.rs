//! Tables: sequences of rows in which no key occurs twice.
//!
//! A table is modelled by the sequence of its rows, in the order in which they were
//! first written, and a function that gives the key of a row.

use vstd::prelude::*;

verus! {

/// Whether no key occurs twice.
pub open spec fn distinct_keys<V, K>(rows: Seq<V>, key: spec_fn(V) -> K) -> bool {
    forall|i: int, j: int|
        0 <= i < rows.len() && 0 <= j < rows.len() && i != j ==> key(#[trigger] rows[i]) != key(
            #[trigger] rows[j],
        )
}

/// Whether a row has the key `k`.
pub open spec fn has_key<V, K>(rows: Seq<V>, key: spec_fn(V) -> K, k: K) -> bool {
    exists|i: int| 0 <= i < rows.len() && key(#[trigger] rows[i]) == k
}

/// The place of a row with the key `k`.
pub open spec fn place_of<V, K>(rows: Seq<V>, key: spec_fn(V) -> K, k: K) -> int {
    choose|i: int| 0 <= i < rows.len() && key(#[trigger] rows[i]) == k
}

/// The row with the key `k`, if there is one.
pub open spec fn find<V, K>(rows: Seq<V>, key: spec_fn(V) -> K, k: K) -> Option<V> {
    if has_key(rows, key, k) {
        Some(rows[place_of(rows, key, k)])
    } else {
        None
    }
}

/// The table after `row` was written: in the place of the row of its key, or at the end.
pub open spec fn put<V, K>(rows: Seq<V>, key: spec_fn(V) -> K, row: V) -> Seq<V> {
    if has_key(rows, key, key(row)) {
        rows.update(place_of(rows, key, key(row)), row)
    } else {
        rows.push(row)
    }
}

/// In a table, the row at a place is the row found by its key.
pub proof fn lemma_find_at<V, K>(rows: Seq<V>, key: spec_fn(V) -> K, i: int)
    requires
        distinct_keys(rows, key),
        0 <= i < rows.len(),
    ensures
        has_key(rows, key, key(rows[i])),
        place_of(rows, key, key(rows[i])) == i,
        find(rows, key, key(rows[i])) == Some(rows[i]),
{
    let k = key(rows[i]);
    assert(has_key(rows, key, k));
    let p = place_of(rows, key, k);
    assert(0 <= p < rows.len() && key(rows[p]) == k);
}

/// What is found is a row of the table, with the key asked for.
pub proof fn lemma_find_some<V, K>(rows: Seq<V>, key: spec_fn(V) -> K, k: K)
    requires
        has_key(rows, key, k),
    ensures
        0 <= place_of(rows, key, k) < rows.len(),
        key(rows[place_of(rows, key, k)]) == k,
{
}

/// Writing a row keeps the table a table; the row is then found by its key, and what was
/// found by another key still is.
pub proof fn lemma_put<V, K>(rows: Seq<V>, key: spec_fn(V) -> K, row: V)
    requires
        distinct_keys(rows, key),
    ensures
        distinct_keys(put(rows, key, row), key),
        find(put(rows, key, row), key, key(row)) == Some(row),
        forall|k: K| k != key(row) ==> #[trigger] find(put(rows, key, row), key, k) == find(rows, key, k),
        forall|k: K| #[trigger]
            has_key(put(rows, key, row), key, k) <==> (k == key(row) || has_key(rows, key, k)),
{
    let after = put(rows, key, row);
    let at: int = if has_key(rows, key, key(row)) {
        place_of(rows, key, key(row))
    } else {
        rows.len() as int
    };
    assert(0 <= at < after.len() && after[at] == row);
    assert(forall|i: int| 0 <= i < after.len() && i != at ==> after[i] == rows[i]);
    assert(forall|i: int| 0 <= i < rows.len() && i != at ==> after[i] == rows[i]);
    assert forall|i: int, j: int|
        0 <= i < after.len() && 0 <= j < after.len() && i != j implies key(#[trigger] after[i])
        != key(#[trigger] after[j]) by {
        if i != at && j != at {
            assert(key(rows[i]) != key(rows[j]));
        } else if i == at {
            assert(after[j] == rows[j]);
            if has_key(rows, key, key(row)) {
                assert(key(rows[at]) != key(rows[j]));
            }
        } else {
            assert(after[i] == rows[i]);
            if has_key(rows, key, key(row)) {
                assert(key(rows[at]) != key(rows[i]));
            }
        }
    }
    lemma_find_at(after, key, at);
    assert forall|k: K| #[trigger]
        has_key(after, key, k) <==> (k == key(row) || has_key(rows, key, k)) by {
        if has_key(after, key, k) {
            let i = place_of(after, key, k);
            if i != at {
                assert(key(rows[i]) == k);
            }
        }
        if has_key(rows, key, k) && k != key(row) {
            let i = place_of(rows, key, k);
            assert(after[i] == rows[i]);
            assert(key(after[i]) == k);
        }
    }
    assert forall|k: K| k != key(row) implies #[trigger] find(after, key, k) == find(
        rows,
        key,
        k,
    ) by {
        if has_key(rows, key, k) {
            let i = place_of(rows, key, k);
            assert(after[i] == rows[i]);
            lemma_find_at(after, key, i);
        }
    }
}

/// Writing a row changes no other row: every row of the table after it is the row written
/// or a row that was there.
pub proof fn lemma_put_members<V, K>(rows: Seq<V>, key: spec_fn(V) -> K, row: V)
    ensures
        rows.len() <= put(rows, key, row).len() <= rows.len() + 1,
        forall|i: int|
            0 <= i < put(rows, key, row).len() ==> (#[trigger] put(rows, key, row)[i]) == row || (i
                < rows.len() && put(rows, key, row)[i] == rows[i]),
{
    if has_key(rows, key, key(row)) {
        lemma_find_some(rows, key, key(row));
    }
}

} // verus!
