//! Orderings used by the read-only projections: notes compared by creation
//! time, due timestamp or last update, each tied by case-insensitive title,
//! and a stable insertion sort over index vectors that provably keeps the
//! multiset of entries and sorts them by the chosen order.

use vstd::prelude::*;
use vstd::seq_lib::group_to_multiset_ensures;
use crate::model::Note;
use crate::text::{chars_le, chars_vec_le, lemma_chars_le_total, lemma_chars_le_trans, lower_chars, lower_of};

verus! {

/// Which key a projection sorts notes by.
#[derive(Clone, Copy, PartialEq, Eq, Structural, Debug)]
pub enum NoteOrder {
    /// Creation time, then title: the unassigned timeline list.
    Created,
    /// Due timestamp, then title: the assigned timeline list.
    Due,
    /// Last update, then title: notes inside a project-view tag bucket.
    Updated,
}

/// The primary sort key of a note under the given order. A missing due date
/// sorts before every real one.
pub open spec fn prim_key(o: NoteOrder, n: Note) -> int {
    match o {
        NoteOrder::Created => n.created_at as int,
        NoteOrder::Updated => n.updated_at as int,
        NoteOrder::Due => match n.due {
            Some(d) => 1 + d.key_spec(),
            None => 0,
        },
    }
}

/// Note order: primary key first, lowercased title as the tie break.
pub open spec fn note_le(o: NoteOrder, a: Note, b: Note) -> bool {
    prim_key(o, a) < prim_key(o, b) || (prim_key(o, a) == prim_key(o, b) && chars_le(
        lower_of(a.title@),
        lower_of(b.title@),
    ))
}

/// `note_le` relates every pair of notes one way or the other.
pub proof fn lemma_note_le_total(o: NoteOrder, a: Note, b: Note)
    ensures
        note_le(o, a, b) || note_le(o, b, a),
{
    lemma_chars_le_total(lower_of(a.title@), lower_of(b.title@));
}

/// `note_le` is transitive.
pub proof fn lemma_note_le_trans(o: NoteOrder, a: Note, b: Note, c: Note)
    requires
        note_le(o, a, b),
        note_le(o, b, c),
    ensures
        note_le(o, a, c),
{
    if prim_key(o, a) == prim_key(o, b) && prim_key(o, b) == prim_key(o, c) {
        lemma_chars_le_trans(lower_of(a.title@), lower_of(b.title@), lower_of(c.title@));
    }
}

/// Executable twin of [`note_le`].
pub fn note_le_exec(o: NoteOrder, a: &Note, b: &Note) -> (r: bool)
    ensures
        r == note_le(o, *a, *b),
{
    let ka: u64;
    let kb: u64;
    match o {
        NoteOrder::Created => {
            ka = a.created_at;
            kb = b.created_at;
        },
        NoteOrder::Updated => {
            ka = a.updated_at;
            kb = b.updated_at;
        },
        NoteOrder::Due => {
            ka = match &a.due {
                Some(d) => 1 + d.key(),
                None => 0,
            };
            kb = match &b.due {
                Some(d) => 1 + d.key(),
                None => 0,
            };
        },
    }
    if ka < kb {
        true
    } else if ka > kb {
        false
    } else {
        let la = lower_chars(a.title.as_str());
        let lb = lower_chars(b.title.as_str());
        chars_vec_le(&la, &lb)
    }
}

/// `v` lists indices into `notes` in nondecreasing `note_le` order.
pub open spec fn idx_sorted(o: NoteOrder, notes: Seq<Note>, v: Seq<usize>) -> bool {
    forall|p: int, q: int|
        0 <= p < q < v.len() ==> note_le(o, notes[(#[trigger] v[p]) as int], notes[(
        #[trigger] v[q]) as int])
}

/// Sorts a vector of note indices by the given order, stably: the result
/// holds exactly the same index entries, arranged in nondecreasing key order.
pub fn sort_indices(o: NoteOrder, notes: &Vec<Note>, v: Vec<usize>) -> (out: Vec<usize>)
    requires
        forall|k: int| 0 <= k < v@.len() ==> (#[trigger] v@[k]) < notes@.len(),
    ensures
        out@.to_multiset() == v@.to_multiset(),
        out@.len() == v@.len(),
        forall|k: int| 0 <= k < out@.len() ==> (#[trigger] out@[k]) < notes@.len(),
        idx_sorted(o, notes@, out@),
{
    broadcast use group_to_multiset_ensures;

    let n = v.len();
    let mut out: Vec<usize> = Vec::new();
    let mut i: usize = 0;
    while i < n
        invariant
            0 <= i <= n,
            n == v@.len(),
            forall|k: int| 0 <= k < v@.len() ==> (#[trigger] v@[k]) < notes@.len(),
            out@.to_multiset() == v@.subrange(0, i as int).to_multiset(),
            out@.len() == i,
            forall|k: int| 0 <= k < out@.len() ==> (#[trigger] out@[k]) < notes@.len(),
            idx_sorted(o, notes@, out@),
        decreases n - i,
    {
        broadcast use group_to_multiset_ensures;

        let x = v[i];
        let ghost out0 = out@;
        let mut pos: usize = 0;
        while pos < out.len() && note_le_exec(o, &notes[out[pos]], &notes[x])
            invariant
                0 <= pos <= out@.len(),
                out@ == out0,
                x < notes@.len(),
                forall|k: int| 0 <= k < out@.len() ==> (#[trigger] out@[k]) < notes@.len(),
                forall|p: int|
                    0 <= p < pos ==> note_le(o, notes@[(#[trigger] out@[p]) as int], notes@[x as int]),
            decreases out@.len() - pos,
        {
            pos += 1;
        }
        proof {
            if (pos as int) < out0.len() {
                lemma_note_le_total(o, notes@[out0[pos as int] as int], notes@[x as int]);
            }
        }
        out.insert(pos, x);
        proof {
            let t = out@;
            assert(t.remove(pos as int) =~= out0);
            assert(t.remove(pos as int).to_multiset() == t.to_multiset().remove(t[pos as int]));
            assert(t.to_multiset().contains(x));
            assert(t.to_multiset() =~= out0.to_multiset().insert(x));
            assert(v@.subrange(0, i + 1).drop_last() =~= v@.subrange(0, i as int));
            assert(v@.subrange(0, i + 1) =~= v@.subrange(0, i as int).push(x));
            assert forall|p: int, q: int| 0 <= p < q < t.len() implies note_le(
                o,
                notes@[(#[trigger] t[p]) as int],
                notes@[(#[trigger] t[q]) as int],
            ) by {
                let pi = pos as int;
                if q < pi {
                    assert(t[p] == out0[p] && t[q] == out0[q]);
                } else if p < pi && q == pi {
                    assert(t[p] == out0[p] && t[q] == x);
                } else if p < pi && q > pi {
                    assert(t[p] == out0[p] && t[q] == out0[q - 1]);
                } else if p == pi && q > pi {
                    assert(t[p] == x && t[q] == out0[q - 1]);
                    if q - 1 > pi {
                        lemma_note_le_trans(
                            o,
                            notes@[x as int],
                            notes@[out0[pi] as int],
                            notes@[out0[q - 1] as int],
                        );
                    }
                } else {
                    assert(t[p] == out0[p - 1] && t[q] == out0[q - 1]);
                }
            };
        }
        i += 1;
    }
    proof {
        assert(v@.subrange(0, n as int) =~= v@);
    }
    out
}

} // verus!
