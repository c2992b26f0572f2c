//! Merging two versions of a text, line by line.
//!
//! Nothing is merged by meaning. Two equal versions are one. Otherwise the lines that the
//! versions share at the beginning and at the end are kept, and what lies between is set
//! out as one conflict block that shows both sides.

use crate::text::{chars_of, pieces, split, split_chars, str_eq, string_of};
use vstd::prelude::*;

verus! {

/// A merged text.
#[derive(Debug)]
pub struct MergeResult {
    pub content: String,
    /// Whether the text holds a conflict block.
    pub has_conflicts: bool,
    /// How many conflict blocks the text holds.
    pub conflict_count: usize,
}

/// The first place at or after `i` where the lines differ or one side ends.
pub open spec fn common_prefix(a: Seq<Seq<char>>, b: Seq<Seq<char>>, i: int) -> int
    decreases a.len() - i,
{
    if i < 0 || i >= a.len() || i >= b.len() || a[i] != b[i] {
        i
    } else {
        common_prefix(a, b, i + 1)
    }
}

/// How many lines the two sides share at the end, counted from `k` on, without reaching
/// into the first `p` lines of either side.
pub open spec fn common_suffix(a: Seq<Seq<char>>, b: Seq<Seq<char>>, p: int, k: int) -> int
    decreases a.len() - p - k,
{
    if k < 0 || k >= a.len() - p || k >= b.len() - p || a[a.len() - 1 - k] != b[b.len() - 1 - k] {
        k
    } else {
        common_suffix(a, b, p, k + 1)
    }
}

/// The lines one after the other, each ended by a line feed.
pub open spec fn joined(lines: Seq<Seq<char>>) -> Seq<char>
    decreases lines.len(),
{
    if lines.len() == 0 {
        Seq::empty()
    } else {
        joined(lines.drop_last()) + lines.last() + seq!['\n']
    }
}

/// A conflict block: the lines of this side under its label, a separator, the lines of
/// the other side above its label.
pub open spec fn conflict_block(
    local: Seq<Seq<char>>,
    remote: Seq<Seq<char>>,
    local_label: Seq<char>,
    remote_label: Seq<char>,
) -> Seq<char> {
    "<<<<<<< "@ + local_label + seq!['\n'] + joined(local) + "=======\n"@ + joined(remote)
        + ">>>>>>> "@ + remote_label + seq!['\n']
}

/// The two versions merged: one of them where they are equal; else the lines shared at
/// the beginning, one conflict block, and the lines shared at the end.
pub open spec fn merged_text(
    local: Seq<char>,
    remote: Seq<char>,
    local_label: Seq<char>,
    remote_label: Seq<char>,
) -> Seq<char> {
    if local == remote {
        local
    } else {
        let a = split(local, '\n');
        let b = split(remote, '\n');
        let p = common_prefix(a, b, 0);
        let q = common_suffix(a, b, p, 0);
        joined(a.subrange(0, p)) + conflict_block(
            a.subrange(p, a.len() - q),
            b.subrange(p, b.len() - q),
            local_label,
            remote_label,
        ) + joined(a.subrange(a.len() - q, a.len() as int))
    }
}

fn same_line(a: &Vec<char>, b: &Vec<char>) -> (r: bool)
    ensures
        r == (a@ == b@),
{
    if a.len() != b.len() {
        return false;
    }
    let mut i: usize = 0;
    while i < a.len()
        invariant
            i <= a.len(),
            a.len() == b.len(),
            forall|j: int| 0 <= j < i ==> a@[j] == b@[j],
        decreases a.len() - i,
    {
        if a[i] != b[i] {
            return false;
        }
        i += 1;
    }
    assert(a@ =~= b@);
    true
}

fn push_all(out: &mut Vec<char>, text: &Vec<char>)
    ensures
        final(out)@ == old(out)@ + text@,
{
    let mut i: usize = 0;
    while i < text.len()
        invariant
            i <= text.len(),
            out@ == old(out)@ + text@.take(i as int),
        decreases text.len() - i,
    {
        out.push(text[i]);
        i += 1;
    }
    assert(text@.take(text.len() as int) =~= text@);
}

fn push_lines(out: &mut Vec<char>, lines: &Vec<Vec<char>>, from: usize, to: usize)
    requires
        from <= to <= lines.len(),
    ensures
        final(out)@ == old(out)@ + joined(pieces(lines@).subrange(from as int, to as int)),
{
    let ghost all = pieces(lines@);
    let mut i: usize = from;
    assert(all.subrange(from as int, from as int) =~= Seq::<Seq<char>>::empty());
    while i < to
        invariant
            from <= i <= to <= lines.len(),
            all == pieces(lines@),
            out@ == old(out)@ + joined(all.subrange(from as int, i as int)),
        decreases to - i,
    {
        proof {
            assert(all.subrange(from as int, i + 1).drop_last() =~= all.subrange(
                from as int,
                i as int,
            ));
            assert(all.subrange(from as int, i + 1).last() == lines@[i as int]@);
        }
        let ghost before = out@;
        push_all(out, &lines[i]);
        out.push('\n');
        assert(out@ =~= old(out)@ + (joined(all.subrange(from as int, i as int)) + lines@[i as int]@
            + seq!['\n']));
        i += 1;
    }
}

/// Merges two versions of a text.
///
/// Two equal versions give the version, without a conflict. Two different versions give
/// one conflict block between the lines that they share at the beginning and at the end.
pub fn merge_content(
    local: &str,
    remote: &str,
    local_label: &str,
    remote_label: &str,
) -> (r: MergeResult)
    ensures
        r.content@ == merged_text(local@, remote@, local_label@, remote_label@),
        r.has_conflicts == (local@ != remote@),
        r.conflict_count == if local@ == remote@ {
            0usize
        } else {
            1usize
        },
        local@ == remote@ ==> r.content@ == local@ && !r.has_conflicts,
{
    if str_eq(local, remote) {
        return MergeResult {
            content: string_of(&chars_of(local)),
            has_conflicts: false,
            conflict_count: 0,
        };
    }
    let a = split_chars(&chars_of(local), '\n');
    let b = split_chars(&chars_of(remote), '\n');
    let ghost la = pieces(a@);
    let ghost lb = pieces(b@);
    let mut p: usize = 0;
    while p < a.len() && p < b.len() && same_line(&a[p], &b[p])
        invariant
            p <= a.len(),
            p <= b.len(),
            la == pieces(a@),
            lb == pieces(b@),
            common_prefix(la, lb, 0) == common_prefix(la, lb, p as int),
        decreases a.len() - p,
    {
        assert(la[p as int] == a@[p as int]@ && lb[p as int] == b@[p as int]@);
        p += 1;
    }
    proof {
        if p < a.len() && p < b.len() {
            assert(la[p as int] == a@[p as int]@ && lb[p as int] == b@[p as int]@);
        }
    }
    let mut q: usize = 0;
    while q < a.len() - p && q < b.len() - p && same_line(&a[a.len() - 1 - q], &b[b.len() - 1 - q])
        invariant
            p <= a.len(),
            p <= b.len(),
            q <= a.len() - p,
            q <= b.len() - p,
            la == pieces(a@),
            lb == pieces(b@),
            common_suffix(la, lb, p as int, 0) == common_suffix(la, lb, p as int, q as int),
        decreases a.len() - p - q,
    {
        assert(la[a.len() - 1 - q] == a@[a.len() - 1 - q]@ && lb[b.len() - 1 - q] == b@[b.len()
            - 1 - q]@);
        q += 1;
    }
    proof {
        if q < a.len() - p && q < b.len() - p {
            assert(la[a.len() - 1 - q] == a@[a.len() - 1 - q]@ && lb[b.len() - 1 - q] == b@[b.len()
                - 1 - q]@);
        }
    }
    let mut block: Vec<char> = Vec::new();
    push_all(&mut block, &chars_of("<<<<<<< "));
    push_all(&mut block, &chars_of(local_label));
    block.push('\n');
    push_lines(&mut block, &a, p, a.len() - q);
    push_all(&mut block, &chars_of("=======\n"));
    push_lines(&mut block, &b, p, b.len() - q);
    push_all(&mut block, &chars_of(">>>>>>> "));
    push_all(&mut block, &chars_of(remote_label));
    block.push('\n');
    assert(block@ =~= conflict_block(
        la.subrange(p as int, a.len() - q),
        lb.subrange(p as int, b.len() - q),
        local_label@,
        remote_label@,
    ));
    let mut out: Vec<char> = Vec::new();
    push_lines(&mut out, &a, 0, p);
    push_all(&mut out, &block);
    push_lines(&mut out, &a, a.len() - q, a.len());
    assert(out@ =~= merged_text(local@, remote@, local_label@, remote_label@));
    MergeResult { content: string_of(&out), has_conflicts: true, conflict_count: 1 }
}

} // verus!
