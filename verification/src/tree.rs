//! The tag tree: every tag has at most one parent, and no tag is above itself.

use crate::rows::TagView;
use crate::tables::find;
use vstd::prelude::*;

verus! {

/// The key of a tag: its identifier.
pub open spec fn tag_key() -> spec_fn(TagView) -> u128 {
    |t: TagView| t.id
}

/// The parent of the tag `id`; none for a root, and for a tag that the table does not hold.
pub open spec fn parent_of(tags: Seq<TagView>, id: u128) -> Option<u128> {
    match find(tags, tag_key(), id) {
        Some(t) => t.parent_id,
        None => None,
    }
}

/// The tag `n` levels above `id`: `id` itself for 0; none once the chain has ended.
pub open spec fn ancestor(tags: Seq<TagView>, id: u128, n: nat) -> Option<u128>
    decreases n,
{
    if n == 0 {
        Some(id)
    } else {
        match ancestor(tags, id, (n - 1) as nat) {
            Some(a) => parent_of(tags, a),
            None => None,
        }
    }
}

/// Whether the chain of parents that starts at `id` is finite.
pub open spec fn chain_ends(tags: Seq<TagView>, id: u128) -> bool {
    exists|n: nat| ancestor(tags, id, n) is None
}

/// Whether every chain of parents is finite: no tag is above itself.
pub open spec fn acyclic(tags: Seq<TagView>) -> bool {
    forall|id: u128| #[trigger] chain_ends(tags, id)
}

/// Whether `target` is `from` or above it.
pub open spec fn reaches(tags: Seq<TagView>, from: u128, target: u128) -> bool {
    exists|n: nat| ancestor(tags, from, n) == Some(target)
}

/// Whether giving the tag `id` the parent `parent` would put the tag above itself.
pub open spec fn would_cycle(tags: Seq<TagView>, id: u128, parent: Option<u128>) -> bool {
    match parent {
        Some(p) => reaches(tags, p, id),
        None => false,
    }
}

/// Whether every parent named is a tag of the table.
pub open spec fn parents_present(tags: Seq<TagView>) -> bool {
    forall|i: int|
        0 <= i < tags.len() ==> match (#[trigger] tags[i]).parent_id {
            Some(p) => find(tags, tag_key(), p) is Some,
            None => true,
        }
}

/// Once a chain has ended, it has ended.
pub proof fn lemma_chain_stays_ended(tags: Seq<TagView>, id: u128, n: nat, m: nat)
    requires
        ancestor(tags, id, n) is None,
        n <= m,
    ensures
        ancestor(tags, id, m) is None,
    decreases m,
{
    if n < m {
        lemma_chain_stays_ended(tags, id, n, (m - 1) as nat);
    }
}

/// Going up `a` levels and then `b` levels is going up `a + b` levels.
pub proof fn lemma_ancestor_add(tags: Seq<TagView>, id: u128, a: nat, b: nat)
    ensures
        ancestor(tags, id, a + b) == match ancestor(tags, id, a) {
            Some(y) => ancestor(tags, y, b),
            None => None,
        },
    decreases b,
{
    if b > 0 {
        lemma_ancestor_add(tags, id, a, (b - 1) as nat);
        assert(a + b - 1 == a + (b - 1) as nat);
    }
}

/// Two tables that give the same parent to every tag of a chain, but perhaps to `id`, give
/// the same chain up to the first occurrence of `id`.
pub proof fn lemma_same_chain(t1: Seq<TagView>, t2: Seq<TagView>, id: u128, x: u128, n: nat)
    requires
        forall|y: u128| y != id ==> #[trigger] parent_of(t2, y) == parent_of(t1, y),
        forall|j: nat| j < n ==> #[trigger] ancestor(t1, x, j) != Some(id),
    ensures
        ancestor(t2, x, n) == ancestor(t1, x, n),
    decreases n,
{
    if n > 0 {
        lemma_same_chain(t1, t2, id, x, (n - 1) as nat);
        assert(ancestor(t1, x, (n - 1) as nat) != Some(id));
    }
}

/// A chain that does not pass `id` ends in the second table as it does in the first.
proof fn lemma_chain_beside(t1: Seq<TagView>, t2: Seq<TagView>, id: u128, x: u128)
    requires
        forall|y: u128| y != id ==> #[trigger] parent_of(t2, y) == parent_of(t1, y),
        !reaches(t1, x, id),
        chain_ends(t1, x),
    ensures
        chain_ends(t2, x),
        !reaches(t2, x, id),
{
    let n = choose|n: nat| ancestor(t1, x, n) is None;
    assert forall|m: nat| ancestor(t2, x, m) == ancestor(t1, x, m) by {
        lemma_same_chain(t1, t2, id, x, m);
    }
    assert(ancestor(t2, x, n) is None);
}

/// A chain that passes `id` ends in the second table, where `id` has a parent whose own
/// chain never passes `id`.
proof fn lemma_chain_through(
    t1: Seq<TagView>,
    t2: Seq<TagView>,
    id: u128,
    parent: Option<u128>,
    x: u128,
    n: nat,
)
    requires
        acyclic(t1),
        forall|y: u128| y != id ==> #[trigger] parent_of(t2, y) == parent_of(t1, y),
        parent_of(t2, id) == parent,
        !would_cycle(t1, id, parent),
        ancestor(t1, x, n) == Some(id),
    ensures
        chain_ends(t2, x),
    decreases n,
{
    if exists|j: nat| j < n && ancestor(t1, x, j) == Some(id) {
        let j = choose|j: nat| j < n && ancestor(t1, x, j) == Some(id);
        lemma_chain_through(t1, t2, id, parent, x, j);
    } else {
        lemma_same_chain(t1, t2, id, x, n);
        assert(ancestor(t2, x, n + 1) == parent);
        match parent {
            None => {},
            Some(p) => {
                assert(chain_ends(t1, p));
                lemma_chain_beside(t1, t2, id, p);
                let m = choose|m: nat| ancestor(t2, p, m) is None;
                lemma_ancestor_add(t2, x, n + 1, m);
                assert(ancestor(t2, x, n + 1 + m) is None);
            },
        }
    }
}

/// A tree stays a tree when one tag is given a parent that is not below it.
pub proof fn lemma_reparent_keeps_acyclic(
    t1: Seq<TagView>,
    t2: Seq<TagView>,
    id: u128,
    parent: Option<u128>,
)
    requires
        acyclic(t1),
        forall|y: u128| y != id ==> #[trigger] parent_of(t2, y) == parent_of(t1, y),
        parent_of(t2, id) == parent,
        !would_cycle(t1, id, parent),
    ensures
        acyclic(t2),
{
    assert forall|x: u128| #[trigger] chain_ends(t2, x) by {
        assert(chain_ends(t1, x));
        if reaches(t1, x, id) {
            let n = choose|n: nat| ancestor(t1, x, n) == Some(id);
            lemma_chain_through(t1, t2, id, parent, x, n);
        } else {
            lemma_chain_beside(t1, t2, id, x);
        }
    }
}

/// In a tree whose parents are all present, every chain of parents ends at a root: a tag
/// of the table that has no parent.
pub proof fn lemma_chain_ends_at_root(tags: Seq<TagView>, id: u128)
    requires
        acyclic(tags),
        parents_present(tags),
        find(tags, tag_key(), id) is Some,
    ensures
        exists|n: nat, root: u128|
            #[trigger] ancestor(tags, id, n) == Some(root) && (#[trigger] find(
                tags,
                tag_key(),
                root,
            )) is Some && parent_of(tags, root) is None,
{
    assert(chain_ends(tags, id));
    let m = choose|m: nat| ancestor(tags, id, m) is None;
    lemma_last_of_chain(tags, id, m);
}

/// The last tag of a chain that has ended by level `m` is a root.
proof fn lemma_last_of_chain(tags: Seq<TagView>, id: u128, m: nat)
    requires
        parents_present(tags),
        find(tags, tag_key(), id) is Some,
        ancestor(tags, id, m) is None,
    ensures
        exists|n: nat, root: u128|
            #[trigger] ancestor(tags, id, n) == Some(root) && (#[trigger] find(
                tags,
                tag_key(),
                root,
            )) is Some && parent_of(tags, root) is None,
    decreases m,
{
    if m > 0 {
        let k = (m - 1) as nat;
        match ancestor(tags, id, k) {
            None => {
                lemma_last_of_chain(tags, id, k);
            },
            Some(a) => {
                lemma_chain_in_table(tags, id, k);
                assert(parent_of(tags, a) is None);
                assert(ancestor(tags, id, k) == Some(a) && find(tags, tag_key(), a) is Some);
            },
        }
    }
}

/// Where every parent is present, every tag of a chain that starts in the table is in the
/// table.
proof fn lemma_chain_in_table(tags: Seq<TagView>, id: u128, n: nat)
    requires
        parents_present(tags),
        find(tags, tag_key(), id) is Some,
    ensures
        match ancestor(tags, id, n) {
            Some(a) => find(tags, tag_key(), a) is Some,
            None => true,
        },
    decreases n,
{
    if n > 0 {
        lemma_chain_in_table(tags, id, (n - 1) as nat);
        match ancestor(tags, id, (n - 1) as nat) {
            Some(a) => {
                crate::tables::lemma_find_some(tags, tag_key(), a);
                let i = crate::tables::place_of(tags, tag_key(), a);
                assert(tags[i].parent_id == parent_of(tags, a));
            },
            None => {},
        }
    }
}

/// A tag on its own chain of parents, `period` levels up, is there again after any number
/// of rounds.
proof fn lemma_cycle_repeats(tags: Seq<TagView>, id: u128, period: nat, rounds: nat) -> (total: nat)
    requires
        period >= 1,
        ancestor(tags, id, period) == Some(id),
    ensures
        total >= rounds,
        ancestor(tags, id, total) == Some(id),
    decreases rounds,
{
    if rounds == 0 {
        0
    } else {
        let before = lemma_cycle_repeats(tags, id, period, (rounds - 1) as nat);
        lemma_ancestor_add(tags, id, before, period);
        before + period
    }
}

/// In a tree, the parent of a tag is not below the tag: giving a tag the parent it has
/// never puts it above itself.
pub proof fn lemma_parent_not_below(tags: Seq<TagView>, id: u128)
    requires
        acyclic(tags),
    ensures
        !would_cycle(tags, id, parent_of(tags, id)),
{
    match parent_of(tags, id) {
        None => {},
        Some(p) => {
            if reaches(tags, p, id) {
                let n = choose|n: nat| ancestor(tags, p, n) == Some(id);
                lemma_ancestor_add(tags, id, 1, n);
                assert(ancestor(tags, id, 0) == Some(id));
                assert(ancestor(tags, id, 1) == Some(p));
                assert(ancestor(tags, id, 1 + n) == Some(id));
                assert(chain_ends(tags, id));
                let m = choose|m: nat| ancestor(tags, id, m) is None;
                let total = lemma_cycle_repeats(tags, id, 1 + n, m);
                lemma_chain_stays_ended(tags, id, m, total);
            }
        },
    }
}

} // verus!
