//! Read-only projections of the board that the timeline and project views
//! display: the unassigned/assigned due-date lists, the notes due on a given
//! day, and the tag-grouped buckets. Each is recomputed from the board on
//! demand and returns plain index vectors into the board's note list.

use vstd::prelude::*;
use vstd::seq_lib::group_to_multiset_ensures;
use crate::model::{Board, Note};
use crate::sort::{idx_sorted, sort_indices, NoteOrder};
use crate::text::{chars_le, chars_vec_le, lemma_chars_le_total, lemma_chars_le_trans, str_chars, str_eq};
use crate::time::Date;

verus! {

/// How many of these notes have no due date.
pub open spec fn count_unassigned(notes: Seq<Note>) -> int
    decreases notes.len(),
{
    if notes.len() == 0 {
        0
    } else {
        count_unassigned(notes.drop_last()) + if notes.last().due is None {
            1int
        } else {
            0int
        }
    }
}

/// Whether the note's due date falls on the given day.
pub open spec fn due_on(n: Note, date: Date) -> bool {
    match n.due {
        Some(d) => d.date_spec() == date,
        None => false,
    }
}

/// `un` is a well-formed unassigned list of `notes`: exactly the indices of
/// the notes without a due date, each once, sorted by creation time then
/// lowercased title.
pub open spec fn is_unassigned_list(notes: Seq<Note>, un: Seq<usize>) -> bool {
    &&& forall|k: int|
        0 <= k < un.len() ==> (#[trigger] un[k]) < notes.len() && notes[un[k] as int].due is None
    &&& forall|x: usize| (x as int) < notes.len() ==> (notes[x as int].due is None <==> un.contains(x))
    &&& un.no_duplicates()
    &&& un.len() == count_unassigned(notes)
    &&& idx_sorted(NoteOrder::Created, notes, un)
}

/// `asg` is a well-formed assigned list of `notes`: exactly the indices of
/// the notes with a due date, each once, sorted by due timestamp then
/// lowercased title.
pub open spec fn is_assigned_list(notes: Seq<Note>, asg: Seq<usize>) -> bool {
    &&& forall|k: int|
        0 <= k < asg.len() ==> (#[trigger] asg[k]) < notes.len() && notes[asg[k] as int].due
            is Some
    &&& forall|x: usize| (x as int) < notes.len() ==> (notes[x as int].due is Some <==> asg.contains(x))
    &&& asg.no_duplicates()
    &&& asg.len() == notes.len() - count_unassigned(notes)
    &&& idx_sorted(NoteOrder::Due, notes, asg)
}

/// The timeline's two lists: indices of notes without a due date, sorted by
/// creation time then title, and indices of notes with one, sorted by due
/// timestamp then title. Together they cover every note exactly once.
pub fn timeline_lists(board: &Board) -> (r: (Vec<usize>, Vec<usize>))
    ensures
        is_unassigned_list(board.notes@, r.0@),
        is_assigned_list(board.notes@, r.1@),
        forall|k: int|
            0 <= k < r.0@.len() ==> (#[trigger] r.0@[k]) < board.notes@.len()
                && board.notes@[r.0@[k] as int].due is None,
        forall|k: int|
            0 <= k < r.1@.len() ==> (#[trigger] r.1@[k]) < board.notes@.len()
                && board.notes@[r.1@[k] as int].due is Some,
        forall|x: usize|
            x < board.notes@.len() ==> (board.notes@[x as int].due is None <==> r.0@.contains(x))
                && (board.notes@[x as int].due is Some <==> r.1@.contains(x)),
        r.0@.no_duplicates(),
        r.1@.no_duplicates(),
        r.0@.len() == count_unassigned(board.notes@),
        r.0@.len() + r.1@.len() == board.notes@.len(),
        idx_sorted(NoteOrder::Created, board.notes@, r.0@),
        idx_sorted(NoteOrder::Due, board.notes@, r.1@),
{
    broadcast use group_to_multiset_ensures;

    let n = board.notes.len();
    let mut un: Vec<usize> = Vec::new();
    let mut asg: Vec<usize> = Vec::new();
    let mut j: usize = 0;
    while j < n
        invariant
            0 <= j <= n,
            n == board.notes@.len(),
            forall|k: int|
                0 <= k < un@.len() ==> (#[trigger] un@[k]) < j && board.notes@[un@[k] as int].due
                    is None,
            forall|k: int|
                0 <= k < asg@.len() ==> (#[trigger] asg@[k]) < j && board.notes@[asg@[k] as int].due
                    is Some,
            forall|p: int, q: int| 0 <= p < q < un@.len() ==> un@[p] != un@[q],
            forall|p: int, q: int| 0 <= p < q < asg@.len() ==> asg@[p] != asg@[q],
            forall|x: usize|
                x < j ==> (board.notes@[x as int].due is None <==> un@.contains(x)) && (
                board.notes@[x as int].due is Some <==> asg@.contains(x)),
            un@.len() == count_unassigned(board.notes@.subrange(0, j as int)),
            un@.len() + asg@.len() == j,
        decreases n - j,
    {
        let ghost un0 = un@;
        let ghost asg0 = asg@;
        let is_due = match &board.notes[j].due {
            Some(_d) => true,
            None => false,
        };
        if is_due {
            asg.push(j);
        } else {
            un.push(j);
        }
        proof {
            assert(board.notes@.subrange(0, j + 1).drop_last() =~= board.notes@.subrange(
                0,
                j as int,
            ));
            assert(board.notes@.subrange(0, j + 1).last() == board.notes@[j as int]);
            assert forall|x: usize|
                x < j + 1 implies (board.notes@[x as int].due is None <==> un@.contains(x)) && (
            board.notes@[x as int].due is Some <==> asg@.contains(x)) by {
                if x < j {
                    assert(un0.contains(x) ==> un@.contains(x)) by {
                        if un0.contains(x) {
                            let w = choose|w: int| 0 <= w < un0.len() && un0[w] == x;
                            assert(un@[w] == x);
                        }
                    }
                    assert(asg0.contains(x) ==> asg@.contains(x)) by {
                        if asg0.contains(x) {
                            let w = choose|w: int| 0 <= w < asg0.len() && asg0[w] == x;
                            assert(asg@[w] == x);
                        }
                    }
                    assert(un@.contains(x) ==> board.notes@[x as int].due is None) by {
                        if un@.contains(x) {
                            let w = choose|w: int| 0 <= w < un@.len() && un@[w] == x;
                        }
                    }
                    assert(asg@.contains(x) ==> board.notes@[x as int].due is Some) by {
                        if asg@.contains(x) {
                            let w = choose|w: int| 0 <= w < asg@.len() && asg@[w] == x;
                        }
                    }
                } else {
                    if is_due {
                        assert(asg@[asg@.len() - 1] == x);
                        assert(un@.contains(x) ==> false) by {
                            if un@.contains(x) {
                                let w = choose|w: int| 0 <= w < un@.len() && un@[w] == x;
                            }
                        }
                    } else {
                        assert(un@[un@.len() - 1] == x);
                        assert(asg@.contains(x) ==> false) by {
                            if asg@.contains(x) {
                                let w = choose|w: int| 0 <= w < asg@.len() && asg@[w] == x;
                            }
                        }
                    }
                }
            };
        }
        j += 1;
    }
    proof {
        assert(board.notes@.subrange(0, n as int) =~= board.notes@);
    }
    let ghost unb = un@;
    let ghost asgb = asg@;
    let un_sorted = sort_indices(NoteOrder::Created, &board.notes, un);
    let asg_sorted = sort_indices(NoteOrder::Due, &board.notes, asg);
    proof {
        assert(unb.no_duplicates());
        assert(asgb.no_duplicates());
        unb.lemma_multiset_has_no_duplicates();
        asgb.lemma_multiset_has_no_duplicates();
        un_sorted@.lemma_multiset_has_no_duplicates_conv();
        asg_sorted@.lemma_multiset_has_no_duplicates_conv();
        assert forall|x: usize|
            x < board.notes@.len() implies (board.notes@[x as int].due is None
            <==> un_sorted@.contains(x)) && (board.notes@[x as int].due is Some
            <==> asg_sorted@.contains(x)) by {
            assert(unb.contains(x) <==> unb.to_multiset().count(x) > 0);
            assert(un_sorted@.contains(x) <==> un_sorted@.to_multiset().count(x) > 0);
            assert(asgb.contains(x) <==> asgb.to_multiset().count(x) > 0);
            assert(asg_sorted@.contains(x) <==> asg_sorted@.to_multiset().count(x) > 0);
        };
        assert forall|k: int|
            0 <= k < un_sorted@.len() implies (#[trigger] un_sorted@[k]) < board.notes@.len()
            && board.notes@[un_sorted@[k] as int].due is None by {
            assert(un_sorted@.contains(un_sorted@[k]));
            assert(unb.contains(un_sorted@[k]));
            let w = choose|w: int| 0 <= w < unb.len() && unb[w] == un_sorted@[k];
        };
        assert forall|k: int|
            0 <= k < asg_sorted@.len() implies (#[trigger] asg_sorted@[k]) < board.notes@.len()
            && board.notes@[asg_sorted@[k] as int].due is Some by {
            assert(asg_sorted@.contains(asg_sorted@[k]));
            assert(asgb.contains(asg_sorted@[k]));
            let w = choose|w: int| 0 <= w < asgb.len() && asgb[w] == asg_sorted@[k];
        };
    }
    (un_sorted, asg_sorted)
}

/// Indices of the notes due on `date`, sorted by due timestamp then title.
pub fn notes_due_on(board: &Board, date: Date) -> (r: Vec<usize>)
    ensures
        forall|k: int|
            0 <= k < r@.len() ==> (#[trigger] r@[k]) < board.notes@.len() && due_on(
                board.notes@[r@[k] as int],
                date,
            ),
        forall|x: usize| x < board.notes@.len() ==> (due_on(board.notes@[x as int], date) <==> r@.contains(x)),
        r@.no_duplicates(),
        idx_sorted(NoteOrder::Due, board.notes@, r@),
{
    broadcast use group_to_multiset_ensures;

    let n = board.notes.len();
    let mut hits: Vec<usize> = Vec::new();
    let mut j: usize = 0;
    while j < n
        invariant
            0 <= j <= n,
            n == board.notes@.len(),
            forall|k: int|
                0 <= k < hits@.len() ==> (#[trigger] hits@[k]) < j && due_on(
                    board.notes@[hits@[k] as int],
                    date,
                ),
            forall|p: int, q: int| 0 <= p < q < hits@.len() ==> hits@[p] != hits@[q],
            forall|x: usize| x < j ==> (due_on(board.notes@[x as int], date) <==> hits@.contains(x)),
        decreases n - j,
    {
        let ghost h0 = hits@;
        let hit = match &board.notes[j].due {
            Some(d) => {
                let dd = d.date();
                dd.year == date.year && dd.month == date.month && dd.day == date.day
            },
            None => false,
        };
        if hit {
            hits.push(j);
        }
        proof {
            assert forall|x: usize|
                x < j + 1 implies (due_on(board.notes@[x as int], date) <==> hits@.contains(x)) by {
                if x < j {
                    if h0.contains(x) {
                        let w = choose|w: int| 0 <= w < h0.len() && h0[w] == x;
                        assert(hits@[w] == x);
                    }
                    if hits@.contains(x) {
                        let w = choose|w: int| 0 <= w < hits@.len() && hits@[w] == x;
                        assert(h0.contains(x));
                    }
                } else {
                    if hit {
                        assert(hits@[hits@.len() - 1] == x);
                    } else {
                        if hits@.contains(x) {
                            let w = choose|w: int| 0 <= w < hits@.len() && hits@[w] == x;
                        }
                    }
                }
            };
        }
        j += 1;
    }
    let ghost hb = hits@;
    let sorted = sort_indices(NoteOrder::Due, &board.notes, hits);
    proof {
        assert(hb.no_duplicates());
        hb.lemma_multiset_has_no_duplicates();
        sorted@.lemma_multiset_has_no_duplicates_conv();
        assert forall|x: usize|
            x < board.notes@.len() implies (due_on(board.notes@[x as int], date)
            <==> sorted@.contains(x)) by {
            assert(hb.contains(x) <==> hb.to_multiset().count(x) > 0);
            assert(sorted@.contains(x) <==> sorted@.to_multiset().count(x) > 0);
        };
        assert forall|k: int|
            0 <= k < sorted@.len() implies (#[trigger] sorted@[k]) < board.notes@.len() && due_on(
                board.notes@[sorted@[k] as int],
                date,
            ) by {
            assert(sorted@.contains(sorted@[k]));
            assert(hb.contains(sorted@[k]));
            let w = choose|w: int| 0 <= w < hb.len() && hb[w] == sorted@[k];
        };
    }
    sorted
}

/// Position in the assigned list of the first note due on `date`.
pub fn first_due_on_cursor(board: &Board, assigned: &Vec<usize>, date: Date) -> (r: Option<usize>)
    requires
        forall|k: int| 0 <= k < assigned@.len() ==> (#[trigger] assigned@[k]) < board.notes@.len(),
    ensures
        r matches Some(p) ==> p < assigned@.len() && due_on(
            board.notes@[assigned@[p as int] as int],
            date,
        ) && forall|q: int|
            0 <= q < p ==> !due_on(board.notes@[(#[trigger] assigned@[q]) as int], date),
        r is None ==> forall|q: int|
            0 <= q < assigned@.len() ==> !due_on(board.notes@[(#[trigger] assigned@[q]) as int], date),
{
    let n = assigned.len();
    let mut p: usize = 0;
    while p < n
        invariant
            0 <= p <= n,
            n == assigned@.len(),
            forall|k: int| 0 <= k < assigned@.len() ==> (#[trigger] assigned@[k]) < board.notes@.len(),
            forall|q: int|
                0 <= q < p ==> !due_on(board.notes@[(#[trigger] assigned@[q]) as int], date),
        decreases n - p,
    {
        let idx = assigned[p];
        let hit = match &board.notes[idx].due {
            Some(d) => {
                let dd = d.date();
                dd.year == date.year && dd.month == date.month && dd.day == date.day
            },
            None => false,
        };
        if hit {
            return Some(p);
        }
        p += 1;
    }
    None
}

/// One tag bucket of the project view: the tag's name and the indices of the
/// notes carrying it.
pub type TagBucket = (String, Vec<usize>);

/// Occurrences of tag text `t` in a tag list.
pub open spec fn count_tag(tags: Seq<String>, t: Seq<char>) -> int
    decreases tags.len(),
{
    if tags.len() == 0 {
        0
    } else {
        count_tag(tags.drop_last(), t) + (if tags.last()@ == t {
            1int
        } else {
            0int
        })
    }
}

/// How many times note `n` belongs under bucket name `t`: once per listed
/// occurrence of the tag, or exactly once under the untagged bucket for a
/// note without tags.
pub open spec fn tag_occurrences(n: Note, t: Seq<char>) -> int {
    if n.tags@.len() == 0 {
        if t == "(untagged)"@ {
            1int
        } else {
            0int
        }
    } else {
        count_tag(n.tags@, t)
    }
}

/// `count_tag` is positive exactly when the list holds the tag.
proof fn lemma_count_tag_pos(tags: Seq<String>, t: Seq<char>)
    ensures
        count_tag(tags, t) >= 0,
        count_tag(tags, t) > 0 <==> (exists|k: int|
            0 <= k < tags.len() && (#[trigger] tags[k])@ == t),
    decreases tags.len(),
{
    if tags.len() > 0 {
        lemma_count_tag_pos(tags.drop_last(), t);
        if count_tag(tags, t) > 0 {
            if tags.last()@ == t {
                assert(tags[tags.len() - 1]@ == t);
            } else {
                let k = choose|k: int|
                    0 <= k < tags.drop_last().len() && (#[trigger] tags.drop_last()[k])@ == t;
                assert(tags[k]@ == t);
            }
        }
        if exists|k: int| 0 <= k < tags.len() && (#[trigger] tags[k])@ == t {
            let k = choose|k: int| 0 <= k < tags.len() && (#[trigger] tags[k])@ == t;
            if k < tags.len() - 1 {
                assert(tags.drop_last()[k]@ == t);
            }
        }
    }
}

/// Whether a note belongs under tag name `t`: it lists the tag, or it has no
/// tags at all and `t` is the synthetic untagged bucket.
pub open spec fn note_has_tag(n: Note, t: Seq<char>) -> bool {
    if n.tags@.len() == 0 {
        t == "(untagged)"@
    } else {
        exists|j: int| 0 <= j < n.tags@.len() && (#[trigger] n.tags@[j])@ == t
    }
}

/// Bucket names are pairwise distinct.
pub open spec fn names_distinct(bs: Seq<TagBucket>) -> bool {
    forall|p: int, q: int| 0 <= p < q < bs.len() ==> (#[trigger] bs[p]).0@ != (#[trigger] bs[q]).0@
}

/// Every bucket entry is a valid note index belonging under the bucket's tag.
pub open spec fn buckets_entries_ok(notes: Seq<Note>, bs: Seq<TagBucket>) -> bool {
    forall|b: int, x: usize|
        0 <= b < bs.len() && (#[trigger] bs[b].1@.contains(x)) ==> x < notes.len() && note_has_tag(
            notes[x as int],
            bs[b].0@,
        )
}

/// Some bucket is named `t` and lists note `x`.
pub open spec fn buckets_have_note(bs: Seq<TagBucket>, t: Seq<char>, x: usize) -> bool {
    exists|b: int| 0 <= b < bs.len() && (#[trigger] bs[b]).0@ == t && bs[b].1@.contains(x)
}

/// The first `upto` notes are fully bucketed: each appears under every tag it
/// lists, and a note without tags appears under the untagged bucket.
pub open spec fn buckets_complete(notes: Seq<Note>, bs: Seq<TagBucket>, upto: int) -> bool {
    forall|x: int|
        0 <= x < upto ==> ((forall|ti: int|
            0 <= ti < (#[trigger] notes[x]).tags@.len() ==> buckets_have_note(
                bs,
                (#[trigger] notes[x].tags@[ti])@,
                x as usize,
            )) && (notes[x].tags@.len() == 0 ==> buckets_have_note(bs, "(untagged)"@, x as usize)))
}

/// Whether any note uses tag name `t` (the untagged bucket's name counts as
/// used when some note has no tags).
pub open spec fn tag_used(notes: Seq<Note>, t: Seq<char>) -> bool {
    exists|x: int| 0 <= x < notes.len() && note_has_tag(#[trigger] notes[x], t)
}

/// The full shape `project_tags` guarantees, as one predicate: names sorted
/// ascending and pairwise distinct, entries valid, every note bucketed under
/// each of its tags, buckets non-empty, each note counted once per tag
/// occurrence, and each bucket sorted by last update then title.
pub open spec fn is_tag_buckets(notes: Seq<Note>, bs: Seq<TagBucket>) -> bool {
    &&& forall|p: int, q: int|
        0 <= p < q < bs.len() ==> chars_le((#[trigger] bs[p]).0@, (#[trigger] bs[q]).0@)
            && bs[p].0@ != bs[q].0@
    &&& buckets_entries_ok(notes, bs)
    &&& buckets_complete(notes, bs, notes.len() as int)
    &&& forall|b: int| 0 <= b < bs.len() ==> (#[trigger] bs[b]).1@.len() > 0
    &&& forall|b: int, x: usize|
        0 <= b < bs.len() && (x as int) < notes.len() ==> ((
        #[trigger] bs[b].1@.to_multiset().count(x)) as int == tag_occurrences(
            notes[x as int],
            bs[b].0@,
        ))
    &&& forall|b: int| 0 <= b < bs.len() ==> idx_sorted(NoteOrder::Updated, notes, (#[trigger] bs[b]).1@)
}

/// A bucket list of this shape names a tag exactly when some note uses it.
proof fn lemma_bucket_names_used(notes: Seq<Note>, bs: Seq<TagBucket>, t: Seq<char>)
    requires
        is_tag_buckets(notes, bs),
    ensures
        (exists|i: int| 0 <= i < bs.len() && (#[trigger] bs[i]).0@ == t) <==> tag_used(notes, t),
{
    if exists|i: int| 0 <= i < bs.len() && (#[trigger] bs[i]).0@ == t {
        let i = choose|i: int| 0 <= i < bs.len() && (#[trigger] bs[i]).0@ == t;
        assert(bs[i].1@.len() > 0);
        assert(bs[i].1@.contains(bs[i].1@[0]));
        let y = bs[i].1@[0];
        assert(note_has_tag(notes[y as int], t));
    }
    if tag_used(notes, t) {
        let x = choose|x: int| 0 <= x < notes.len() && note_has_tag(#[trigger] notes[x], t);
        if notes[x].tags@.len() == 0 {
            assert(buckets_have_note(bs, t, x as usize));
            let b = choose|b: int|
                0 <= b < bs.len() && (#[trigger] bs[b]).0@ == t && bs[b].1@.contains(x as usize);
        } else {
            let ti = choose|ti: int|
                0 <= ti < notes[x].tags@.len() && (#[trigger] notes[x].tags@[ti])@ == t;
            assert(buckets_have_note(bs, notes[x].tags@[ti]@, x as usize));
            let b = choose|b: int|
                0 <= b < bs.len() && (#[trigger] bs[b]).0@ == t && bs[b].1@.contains(x as usize);
        }
    }
}

/// Some bucket of `bs` is named `t`.
pub open spec fn name_present(bs: Seq<TagBucket>, t: Seq<char>) -> bool {
    exists|j: int| 0 <= j < bs.len() && (#[trigger] bs[j]).0@ == t
}

/// Two strictly name-sorted bucket lists naming the same tags agree on length
/// and on every name.
#[verifier::rlimit(50)]
proof fn lemma_sorted_names_equal(b1: Seq<TagBucket>, b2: Seq<TagBucket>)
    requires
        forall|p: int, q: int|
            0 <= p < q < b1.len() ==> chars_le((#[trigger] b1[p]).0@, (#[trigger] b1[q]).0@)
                && b1[p].0@ != b1[q].0@,
        forall|p: int, q: int|
            0 <= p < q < b2.len() ==> chars_le((#[trigger] b2[p]).0@, (#[trigger] b2[q]).0@)
                && b2[p].0@ != b2[q].0@,
        forall|i: int| 0 <= i < b1.len() ==> name_present(b2, (#[trigger] b1[i]).0@),
        forall|j: int| 0 <= j < b2.len() ==> name_present(b1, (#[trigger] b2[j]).0@),
    ensures
        b1.len() == b2.len(),
        forall|k: int| 0 <= k < b1.len() ==> (#[trigger] b1[k]).0@ == b2[k].0@,
    decreases b1.len(),
{
    if b1.len() == 0 {
        assert(b2.len() == 0) by {
            if b2.len() > 0 {
                assert(name_present(b1, b2[0].0@));
                let i = choose|i: int| 0 <= i < b1.len() && (#[trigger] b1[i]).0@ == b2[0].0@;
                assert(false);
            }
        }
    } else {
        assert(b2.len() > 0) by {
            assert(name_present(b2, b1[0].0@));
            let j = choose|j: int| 0 <= j < b2.len() && (#[trigger] b2[j]).0@ == b1[0].0@;
        }
        assert(b1[0].0@ == b2[0].0@) by {
            assert(name_present(b2, b1[0].0@));
            assert(name_present(b1, b2[0].0@));
            let j = choose|j: int| 0 <= j < b2.len() && (#[trigger] b2[j]).0@ == b1[0].0@;
            let i = choose|i: int| 0 <= i < b1.len() && (#[trigger] b1[i]).0@ == b2[0].0@;
            if i > 0 && j > 0 {
                assert(chars_le(b2[0].0@, b2[j].0@));
                assert(chars_le(b1[0].0@, b1[i].0@));
                crate::text::lemma_chars_le_antisym(b1[0].0@, b2[0].0@);
                assert(b1[0].0@ == b1[i].0@);
                assert(false);
            }
        }
        let t1 = b1.drop_first();
        let t2 = b2.drop_first();
        assert forall|p: int, q: int|
            0 <= p < q < t1.len() implies chars_le((#[trigger] t1[p]).0@, (#[trigger] t1[q]).0@)
            && t1[p].0@ != t1[q].0@ by {
            assert(t1[p] == b1[p + 1] && t1[q] == b1[q + 1]);
        };
        assert forall|p: int, q: int|
            0 <= p < q < t2.len() implies chars_le((#[trigger] t2[p]).0@, (#[trigger] t2[q]).0@)
            && t2[p].0@ != t2[q].0@ by {
            assert(t2[p] == b2[p + 1] && t2[q] == b2[q + 1]);
        };
        assert forall|i: int| 0 <= i < t1.len() implies name_present(
            t2,
            (#[trigger] t1[i]).0@,
        ) by {
            assert(t1[i] == b1[i + 1]);
            assert(name_present(b2, b1[i + 1].0@));
            let j = choose|j: int| 0 <= j < b2.len() && (#[trigger] b2[j]).0@ == b1[i + 1].0@;
            assert(b1[i + 1].0@ != b1[0].0@);
            assert(j != 0);
            assert(t2[j - 1] == b2[j]);
            assert(t2[j - 1].0@ == t1[i].0@);
        };
        assert forall|j: int| 0 <= j < t2.len() implies name_present(
            t1,
            (#[trigger] t2[j]).0@,
        ) by {
            assert(t2[j] == b2[j + 1]);
            assert(name_present(b1, b2[j + 1].0@));
            let i = choose|i: int| 0 <= i < b1.len() && (#[trigger] b1[i]).0@ == b2[j + 1].0@;
            assert(b2[j + 1].0@ != b2[0].0@);
            assert(i != 0);
            assert(t1[i - 1] == b1[i]);
            assert(t1[i - 1].0@ == t2[j].0@);
        };
        lemma_sorted_names_equal(t1, t2);
        assert forall|k: int| 0 <= k < b1.len() implies (#[trigger] b1[k]).0@ == b2[k].0@ by {
            if k > 0 {
                assert(t1[k - 1].0@ == t2[k - 1].0@);
                assert(t1[k - 1] == b1[k] && t2[k - 1] == b2[k]);
            }
        };
    }
}

/// Any two bucket lists of the right shape for the same notes agree on
/// length, names and bucket sizes: the project view's dimensions are a
/// function of the board.
pub proof fn lemma_tag_buckets_unique_shape(
    notes: Seq<Note>,
    b1: Seq<TagBucket>,
    b2: Seq<TagBucket>,
)
    requires
        is_tag_buckets(notes, b1),
        is_tag_buckets(notes, b2),
    ensures
        b1.len() == b2.len(),
        forall|k: int|
            0 <= k < b1.len() ==> (#[trigger] b1[k]).0@ == b2[k].0@ && b1[k].1@.len()
                == b2[k].1@.len(),
{
    broadcast use group_to_multiset_ensures;

    assert forall|i: int| 0 <= i < b1.len() implies name_present(b2, (#[trigger] b1[i]).0@) by {
        lemma_bucket_names_used(notes, b1, b1[i].0@);
        lemma_bucket_names_used(notes, b2, b1[i].0@);
    };
    assert forall|j: int| 0 <= j < b2.len() implies name_present(b1, (#[trigger] b2[j]).0@) by {
        lemma_bucket_names_used(notes, b1, b2[j].0@);
        lemma_bucket_names_used(notes, b2, b2[j].0@);
    };
    lemma_sorted_names_equal(b1, b2);
    assert forall|k: int| 0 <= k < b1.len() implies (#[trigger] b1[k]).0@ == b2[k].0@
        && b1[k].1@.len() == b2[k].1@.len() by {
        assert(b1[k].0@ == b2[k].0@);
        assert forall|y: usize| #[trigger] b1[k].1@.to_multiset().count(y) == b2[
            k
        ].1@.to_multiset().count(y) by {
            if (y as int) < notes.len() {
                assert(b1[k].1@.to_multiset().count(y) as int == tag_occurrences(
                    notes[y as int],
                    b1[k].0@,
                ));
                assert(b2[k].1@.to_multiset().count(y) as int == tag_occurrences(
                    notes[y as int],
                    b2[k].0@,
                ));
            } else {
                if b1[k].1@.to_multiset().count(y) > 0 {
                    assert(b1[k].1@.contains(y));
                    assert(false);
                }
                if b2[k].1@.to_multiset().count(y) > 0 {
                    assert(b2[k].1@.contains(y));
                    assert(false);
                }
            }
        };
        assert(b1[k].1@.to_multiset() =~= b2[k].1@.to_multiset());
        assert(b1[k].1@.to_multiset().len() == b1[k].1@.len());
        assert(b2[k].1@.to_multiset().len() == b2[k].1@.len());
    };
}

/// With the guarantees `project_tags` gives — entries valid, every note
/// bucketed, buckets non-empty — the bucket list is empty exactly when the
/// board has no notes.
pub proof fn lemma_buckets_shape(board: Board, bs: Seq<TagBucket>)
    requires
        buckets_entries_ok(board.notes@, bs),
        buckets_complete(board.notes@, bs, board.notes@.len() as int),
        forall|b: int| 0 <= b < bs.len() ==> (#[trigger] bs[b]).1@.len() > 0,
    ensures
        bs.len() == 0 <==> board.notes@.len() == 0,
{
    if board.notes@.len() == 0 {
        if bs.len() > 0 {
            assert(bs[0].1@.len() > 0);
            assert(bs[0].1@.contains(bs[0].1@[0]));
            assert(false);
        }
    } else {
        if board.notes@[0].tags@.len() == 0 {
            assert(buckets_have_note(bs, "(untagged)"@, 0));
            let b = choose|b: int|
                0 <= b < bs.len() && (#[trigger] bs[b]).0@ == "(untagged)"@ && bs[b].1@.contains(0);
            assert(bs.len() > 0);
        } else {
            assert(buckets_have_note(bs, board.notes@[0].tags@[0]@, 0));
            let b = choose|b: int|
                0 <= b < bs.len() && (#[trigger] bs[b]).0@ == board.notes@[0].tags@[0]@
                    && bs[b].1@.contains(0);
            assert(bs.len() > 0);
        }
    }
}

/// Growing the buckets (same names in place, entries kept, possibly more
/// buckets) keeps every note bucketed.
proof fn lemma_complete_grow(notes: Seq<Note>, bs0: Seq<TagBucket>, bs1: Seq<TagBucket>, upto: int)
    requires
        buckets_complete(notes, bs0, upto),
        bs1.len() >= bs0.len(),
        forall|b: int| 0 <= b < bs0.len() ==> (#[trigger] bs1[b]).0 == bs0[b].0,
        forall|b: int, y: usize|
            0 <= b < bs0.len() && (#[trigger] bs0[b].1@.contains(y)) ==> bs1[b].1@.contains(y),
    ensures
        buckets_complete(notes, bs1, upto),
{
    assert forall|x: int| 0 <= x < upto implies ((forall|ti: int|
        0 <= ti < (#[trigger] notes[x]).tags@.len() ==> buckets_have_note(
            bs1,
            (#[trigger] notes[x].tags@[ti])@,
            x as usize,
        )) && (notes[x].tags@.len() == 0 ==> buckets_have_note(bs1, "(untagged)"@, x as usize))) by {
        assert forall|ti: int|
            0 <= ti < notes[x].tags@.len() implies buckets_have_note(
            bs1,
            (#[trigger] notes[x].tags@[ti])@,
            x as usize,
        ) by {
            let t = notes[x].tags@[ti]@;
            assert(buckets_have_note(bs0, t, x as usize));
            let b = choose|b: int|
                0 <= b < bs0.len() && (#[trigger] bs0[b]).0@ == t && bs0[b].1@.contains(x as usize);
            assert(bs1[b].0@ == t && bs1[b].1@.contains(x as usize));
        };
        if notes[x].tags@.len() == 0 {
            let t = "(untagged)"@;
            assert(buckets_have_note(bs0, t, x as usize));
            let b = choose|b: int|
                0 <= b < bs0.len() && (#[trigger] bs0[b]).0@ == t && bs0[b].1@.contains(x as usize);
            assert(bs1[b].0@ == t && bs1[b].1@.contains(x as usize));
        }
    };
}

/// Files note `x` under the bucket named `name`, creating the bucket at the
/// end when no bucket carries that name yet.
fn add_to_bucket(buckets: &mut Vec<TagBucket>, name: String, x: usize)
    ensures
        final(buckets)@.len() >= old(buckets)@.len(),
        forall|b: int|
            0 <= b < old(buckets)@.len() ==> (#[trigger] final(buckets)@[b]).0 == old(buckets)@[b].0,
        forall|b: int, y: usize|
            0 <= b < old(buckets)@.len() && (#[trigger] old(buckets)@[b].1@.contains(y)) ==> final(buckets)@[b].1@.contains(y),
        buckets_have_note(final(buckets)@, name@, x),
        forall|b: int, y: usize|
            0 <= b < final(buckets)@.len() && (#[trigger] final(buckets)@[b].1@.contains(y)) ==> (b
                < old(buckets)@.len() && old(buckets)@[b].1@.contains(y)) || (y == x && final(buckets)@[b].0@ == name@),
        names_distinct(old(buckets)@) ==> names_distinct(final(buckets)@),
        forall|b: int|
            0 <= b < final(buckets)@.len() ==> (#[trigger] final(buckets)@[b]).1@.len() >= (if b
                < old(buckets)@.len() {
                old(buckets)@[b].1@.len() as int
            } else {
                1int
            }),
        names_distinct(old(buckets)@) ==> (forall|b: int, y: usize|
            0 <= b < final(buckets)@.len() ==> (#[trigger] final(buckets)@[b].1@.to_multiset().count(
                y,
            )) == (if b < old(buckets)@.len() {
                old(buckets)@[b].1@.to_multiset().count(y) as int
            } else {
                0int
            }) + (if final(buckets)@[b].0@ == name@ && y == x {
                1int
            } else {
                0int
            })),
    {
    broadcast use vstd::seq_lib::group_to_multiset_ensures;

    let n = buckets.len();
    let ghost bs0 = buckets@;
    let mut b: usize = 0;
    #[verifier::loop_isolation(false)]
    while b < n
        invariant
            0 <= b <= n,
            n == buckets@.len(),
            buckets@ == bs0,
            forall|j: int| 0 <= j < b ==> (#[trigger] buckets@[j]).0@ != name@,
        decreases n - b,
    {
        if str_eq(buckets[b].0.as_str(), name.as_str()) {
            let entry = &mut buckets[b];
            entry.1.push(x);
            proof {
                let bi = b as int;
                assert(buckets@.len() == bs0.len());
                assert(buckets@[bi].0 == bs0[bi].0);
                assert(forall|j: int| 0 <= j < bs0.len() && j != bi ==> #[trigger] buckets@[j] == bs0[j]);
                assert(buckets@[bi].1@ == bs0[bi].1@.push(x));
                assert(buckets@[bi].1@[bs0[bi].1@.len() as int] == x);
                assert(buckets@[bi].1@.contains(x));
                assert forall|j: int, y: usize|
                    0 <= j < bs0.len() && (#[trigger] bs0[j].1@.contains(y)) implies buckets@[j].1@.contains(y) by {
                    if j == bi {
                        let w = choose|w: int| 0 <= w < bs0[j].1@.len() && bs0[j].1@[w] == y;
                        assert(buckets@[j].1@[w] == y);
                    }
                };
                assert forall|j: int, y: usize|
                    0 <= j < buckets@.len() && (#[trigger] buckets@[j].1@.contains(y))
                    implies (j < bs0.len() && bs0[j].1@.contains(y)) || (y == x && buckets@[j].0@ == name@) by {
                    if j == bi {
                        let w = choose|w: int|
                            0 <= w < buckets@[j].1@.len() && buckets@[j].1@[w] == y;
                        if w < bs0[j].1@.len() {
                            assert(bs0[j].1@[w] == y);
                        } else {
                            assert(y == x);
                        }
                    }
                };
            }
            return;
        }
        b += 1;
    }
    let mut nv: Vec<usize> = Vec::new();
    nv.push(x);
    buckets.push((name, nv));
    proof {
        let bi = bs0.len() as int;
        assert(buckets@[bi].1@[0] == x);
        assert(buckets@[bi].1@.contains(x));
        assert(buckets@[bi].0@ == name@);
        assert forall|j: int, y: usize|
            0 <= j < buckets@.len() && (#[trigger] buckets@[j].1@.contains(y))
            implies (j < bs0.len() && bs0[j].1@.contains(y)) || (y == x && buckets@[j].0@
            == name@) by {
            if j == bi {
                let w = choose|w: int|
                    0 <= w < buckets@[j].1@.len() && buckets@[j].1@[w] == y;
                assert(y == x);
            }
        };
        if names_distinct(bs0) {
            assert forall|p: int, q: int|
                0 <= p < q < buckets@.len() implies (#[trigger] buckets@[p]).0@ != (
            #[trigger] buckets@[q]).0@ by {
                if q == bi {
                    assert(buckets@[p].0@ != name@);
                }
            };
        }
    }
}

/// Sorts the buckets by tag name.
fn sort_buckets(v: Vec<TagBucket>) -> (out: Vec<TagBucket>)
    ensures
        out@.to_multiset() == v@.to_multiset(),
        out@.len() == v@.len(),
        forall|p: int, q: int|
            0 <= p < q < out@.len() ==> chars_le((#[trigger] out@[p]).0@, (#[trigger] out@[q]).0@),
        names_distinct(v@) ==> names_distinct(out@),
        (forall|p: int| 0 <= p < v@.len() ==> (#[trigger] v@[p]).1@.len() > 0) ==> (forall|p: int|
            0 <= p < out@.len() ==> (#[trigger] out@[p]).1@.len() > 0),
{
    broadcast use group_to_multiset_ensures;

    let ghost orig = v@;
    let mut rest = v;
    let mut out: Vec<TagBucket> = Vec::new();
    while rest.len() > 0
        invariant
            out@.to_multiset().add(rest@.to_multiset()) == orig.to_multiset(),
            out@.len() + rest@.len() == orig.len(),
            forall|p: int, q: int|
                0 <= p < q < out@.len() ==> chars_le(
                    (#[trigger] out@[p]).0@,
                    (#[trigger] out@[q]).0@,
                ),
        decreases rest@.len(),
    {
        broadcast use group_to_multiset_ensures;

        let ghost rest0 = rest@;
        let ghost out0 = out@;
        let x = match rest.pop() {
            Some(x) => x,
            None => {
                return out;
            },
        };
        let nm = str_chars(x.0.as_str());
        let mut pos: usize = 0;
        while pos < out.len() && chars_vec_le(&str_chars(out[pos].0.as_str()), &nm)
            invariant
                0 <= pos <= out@.len(),
                out@ == out0,
                nm@ == x.0@,
                forall|p: int| 0 <= p < pos ==> chars_le((#[trigger] out@[p]).0@, x.0@),
            decreases out@.len() - pos,
        {
            pos += 1;
        }
        proof {
            if (pos as int) < out0.len() {
                lemma_chars_le_total(out0[pos as int].0@, x.0@);
            }
        }
        let ghost xg = x;
        out.insert(pos, x);
        proof {
            let t = out@;
            let pi = pos as int;
            assert(t[pi] == xg);
            assert(t.remove(pi) =~= out0);
            assert(t.remove(pi).to_multiset() == t.to_multiset().remove(t[pi]));
            assert(t.to_multiset().contains(xg));
            assert(t.to_multiset() =~= out0.to_multiset().insert(xg));
            assert(rest0 =~= rest@.push(xg));
            assert(rest0.to_multiset() =~= rest@.to_multiset().insert(xg));
            assert(t.to_multiset().add(rest@.to_multiset()) =~= orig.to_multiset());
            assert forall|p: int, q: int| 0 <= p < q < t.len() implies chars_le(
                (#[trigger] t[p]).0@,
                (#[trigger] t[q]).0@,
            ) by {
                if q < pi {
                } else if p < pi && q == pi {
                } else if p < pi && q > pi {
                    assert(t[q] == out0[q - 1]);
                } else if p == pi && q > pi {
                    assert(t[q] == out0[q - 1]);
                    if q - 1 > pi {
                        lemma_chars_le_trans(t[pi].0@, out0[pi].0@, out0[q - 1].0@);
                    }
                } else {
                    assert(t[p] == out0[p - 1] && t[q] == out0[q - 1]);
                }
            };
        }
    }
    proof {
        assert(rest@.to_multiset().len() == 0);
        assert(out@.to_multiset() =~= orig.to_multiset());
        if forall|p: int| 0 <= p < orig.len() ==> (#[trigger] orig[p]).1@.len() > 0 {
            assert forall|p: int| 0 <= p < out@.len() implies (#[trigger] out@[p]).1@.len() > 0 by {
                assert(out@.contains(out@[p]));
                assert(out@.to_multiset().count(out@[p]) > 0);
                assert(orig.to_multiset().count(out@[p]) > 0);
                assert(orig.contains(out@[p]));
                let w = choose|w: int| 0 <= w < orig.len() && orig[w] == out@[p];
            };
        }
        if names_distinct(orig) {
            assert forall|p: int, q: int| 0 <= p < q < out@.len() implies (#[trigger] out@[p]).0@
                != (#[trigger] out@[q]).0@ by {
                assert(out@.contains(out@[p]));
                assert(out@.to_multiset().count(out@[p]) > 0);
                assert(orig.to_multiset().count(out@[p]) > 0);
                assert(orig.contains(out@[p]));
                assert(out@.contains(out@[q]));
                assert(out@.to_multiset().count(out@[q]) > 0);
                assert(orig.to_multiset().count(out@[q]) > 0);
                assert(orig.contains(out@[q]));
                let wp = choose|w: int| 0 <= w < orig.len() && orig[w] == out@[p];
                let wq = choose|w: int| 0 <= w < orig.len() && orig[w] == out@[q];
                if wp == wq {
                    assert(out@[p] == out@[q]);
                    assert(out@.to_multiset().count(out@[p]) >= 2) by {
                        assert(out@.remove(q).to_multiset() == out@.to_multiset().remove(out@[q]));
                        assert(out@.remove(q)[p] == out@[p]);
                        assert(out@.remove(q).contains(out@[p]));
                        assert(out@.remove(q).to_multiset().count(out@[p]) > 0);
                    }
                    assert(orig.to_multiset().count(out@[p]) >= 2);
                    assert(orig.remove(wp).to_multiset() == orig.to_multiset().remove(orig[wp]));
                    assert(orig.remove(wp).to_multiset().count(out@[p]) >= 1);
                    assert(orig.remove(wp).contains(out@[p]));
                    let w2 = choose|w2: int|
                        0 <= w2 < orig.remove(wp).len() && orig.remove(wp)[w2] == out@[p];
                    let worig = if w2 < wp {
                        w2
                    } else {
                        w2 + 1
                    };
                    assert(orig[worig] == out@[p]);
                    assert(worig != wp);
                    assert(orig[worig].0@ == orig[wp].0@);
                    assert(false);
                } else {
                    assert(orig[wp].0@ != orig[wq].0@);
                }
            };
        }
    }
    out
}

/// The project view's buckets: notes grouped by tag (notes without tags in a
/// synthetic `(untagged)` bucket), bucket names sorted ascending and pairwise
/// distinct, and each bucket's notes sorted by last update then title.
pub fn project_tags(board: &Board) -> (r: Vec<TagBucket>)
    ensures
        forall|p: int, q: int|
            0 <= p < q < r@.len() ==> chars_le((#[trigger] r@[p]).0@, (#[trigger] r@[q]).0@) && r@[p].0@
                != r@[q].0@,
        buckets_entries_ok(board.notes@, r@),
        buckets_complete(board.notes@, r@, board.notes@.len() as int),
        forall|b: int|
            0 <= b < r@.len() ==> idx_sorted(NoteOrder::Updated, board.notes@, (#[trigger] r@[b]).1@),
        forall|b: int| 0 <= b < r@.len() ==> (#[trigger] r@[b]).1@.len() > 0,
        forall|b: int, x: usize|
            0 <= b < r@.len() && (x as int) < board.notes@.len() ==> (
            #[trigger] r@[b].1@.to_multiset().count(x)) as int == tag_occurrences(
                board.notes@[x as int],
                r@[b].0@,
            ),
        is_tag_buckets(board.notes@, r@),
{
    broadcast use group_to_multiset_ensures;

    let n = board.notes.len();
    let mut buckets: Vec<TagBucket> = Vec::new();
    let mut x: usize = 0;
    while x < n
        invariant
            0 <= x <= n,
            n == board.notes@.len(),
            names_distinct(buckets@),
            buckets_entries_ok(board.notes@, buckets@),
            buckets_complete(board.notes@, buckets@, x as int),
            forall|b: int| 0 <= b < buckets@.len() ==> (#[trigger] buckets@[b]).1@.len() > 0,
            forall|b: int, x2: usize|
                0 <= b < buckets@.len() && (x2 as int) < n ==> (
                #[trigger] buckets@[b].1@.to_multiset().count(x2)) as int == (if (x2 as int) < x {
                    tag_occurrences(board.notes@[x2 as int], buckets@[b].0@)
                } else {
                    0int
                }),
        decreases n - x,
    {
        let tcount = board.notes[x].tags.len();
        if tcount == 0 {
            let ghost bs0 = buckets@;
            add_to_bucket(&mut buckets, String::from_str("(untagged)"), x);
            proof {
                lemma_complete_grow(board.notes@, bs0, buckets@, x as int);
                assert forall|b: int, x2: usize|
                    0 <= b < buckets@.len() && (x2 as int) < n implies (
                #[trigger] buckets@[b].1@.to_multiset().count(x2)) as int == (if (x2 as int) < x
                    + 1 {
                    tag_occurrences(board.notes@[x2 as int], buckets@[b].0@)
                } else {
                    0int
                }) by {
                    if (x2 as int) < x as int && b >= bs0.len() {
                        if tag_occurrences(board.notes@[x2 as int], buckets@[b].0@) != 0 {
                            lemma_count_tag_pos(board.notes@[x2 as int].tags@, buckets@[b].0@);
                            if board.notes@[x2 as int].tags@.len() == 0 {
                                assert(buckets_have_note(bs0, "(untagged)"@, x2));
                                let ob = choose|ob: int|
                                    0 <= ob < bs0.len() && (#[trigger] bs0[ob]).0@ == "(untagged)"@
                                        && bs0[ob].1@.contains(x2);
                                assert(buckets@[ob].0@ == buckets@[b].0@);
                                assert(false);
                            } else {
                                let k = choose|k: int|
                                    0 <= k < board.notes@[x2 as int].tags@.len() && (
                                    #[trigger] board.notes@[x2 as int].tags@[k])@
                                        == buckets@[b].0@;
                                assert(buckets_have_note(bs0, buckets@[b].0@, x2));
                                let ob = choose|ob: int|
                                    0 <= ob < bs0.len() && (#[trigger] bs0[ob]).0@
                                        == buckets@[b].0@ && bs0[ob].1@.contains(x2);
                                assert(buckets@[ob].0@ == buckets@[b].0@);
                                assert(false);
                            }
                        }
                    }
                    if x2 as int == x as int && b < bs0.len() {
                        assert(bs0[b].1@.to_multiset().count(x2) == 0);
                    }
                };
                assert forall|b: int, y: usize|
                    0 <= b < buckets@.len() && (#[trigger] buckets@[b].1@.contains(y)) implies y
                    < board.notes@.len() && note_has_tag(board.notes@[y as int], buckets@[b].0@) by {
                    if !(b < bs0.len() && bs0[b].1@.contains(y)) {
                        assert(y == x && buckets@[b].0@ == "(untagged)"@);
                    } else {
                        assert(buckets@[b].0 == bs0[b].0);
                    }
                };
            }
        } else {
            let mut ti: usize = 0;
            while ti < tcount
                invariant
                    0 <= ti <= tcount,
                    x < n,
                    n == board.notes@.len(),
                    tcount == board.notes@[x as int].tags@.len(),
                    names_distinct(buckets@),
                    buckets_entries_ok(board.notes@, buckets@),
                    buckets_complete(board.notes@, buckets@, x as int),
                    forall|b: int| 0 <= b < buckets@.len() ==> (#[trigger] buckets@[b]).1@.len() > 0,
                    forall|t: int|
                        0 <= t < ti ==> buckets_have_note(
                            buckets@,
                            (#[trigger] board.notes@[x as int].tags@[t])@,
                            x,
                        ),
                    forall|b: int, x2: usize|
                        0 <= b < buckets@.len() && (x2 as int) < n ==> (
                        #[trigger] buckets@[b].1@.to_multiset().count(x2)) as int == (if (
                        x2 as int) < x {
                            tag_occurrences(board.notes@[x2 as int], buckets@[b].0@)
                        } else if x2 as int == x as int {
                            count_tag(
                                board.notes@[x as int].tags@.subrange(0, ti as int),
                                buckets@[b].0@,
                            )
                        } else {
                            0int
                        }),
                decreases tcount - ti,
            {
                let ghost bs0 = buckets@;
                let tag = board.notes[x].tags[ti].clone();
                add_to_bucket(&mut buckets, tag, x);
                proof {
                    lemma_complete_grow(board.notes@, bs0, buckets@, x as int);
                    assert forall|b: int, y: usize|
                        0 <= b < buckets@.len() && (#[trigger] buckets@[b].1@.contains(y)) implies y
                        < board.notes@.len() && note_has_tag(
                        board.notes@[y as int],
                        buckets@[b].0@,
                    ) by {
                        if !(b < bs0.len() && bs0[b].1@.contains(y)) {
                            assert(y == x && buckets@[b].0@ == board.notes@[x as int].tags@[ti as int]@);
                            assert(note_has_tag(board.notes@[x as int], buckets@[b].0@));
                        } else {
                            assert(buckets@[b].0 == bs0[b].0);
                        }
                    };
                    assert forall|t: int|
                        0 <= t < ti + 1 implies buckets_have_note(
                        buckets@,
                        (#[trigger] board.notes@[x as int].tags@[t])@,
                        x,
                    ) by {
                        if t < ti {
                            let tg = board.notes@[x as int].tags@[t]@;
                            assert(buckets_have_note(bs0, tg, x));
                            let b = choose|b: int|
                                0 <= b < bs0.len() && (#[trigger] bs0[b]).0@ == tg
                                    && bs0[b].1@.contains(x);
                            assert(buckets@[b].0@ == tg && buckets@[b].1@.contains(x));
                        }
                    };
                    let tgnow = board.notes@[x as int].tags@[ti as int]@;
                    assert(board.notes@[x as int].tags@.subrange(0, ti + 1).drop_last()
                        =~= board.notes@[x as int].tags@.subrange(0, ti as int));
                    assert(board.notes@[x as int].tags@.subrange(0, ti + 1).last()
                        == board.notes@[x as int].tags@[ti as int]);
                    assert forall|b: int, x2: usize|
                        0 <= b < buckets@.len() && (x2 as int) < n implies (
                    #[trigger] buckets@[b].1@.to_multiset().count(x2)) as int == (if (x2 as int)
                        < x {
                        tag_occurrences(board.notes@[x2 as int], buckets@[b].0@)
                    } else if x2 as int == x as int {
                        count_tag(
                            board.notes@[x as int].tags@.subrange(0, ti + 1),
                            buckets@[b].0@,
                        )
                    } else {
                        0int
                    }) by {
                        if (x2 as int) < x as int && b >= bs0.len() {
                            if tag_occurrences(board.notes@[x2 as int], buckets@[b].0@) != 0 {
                                lemma_count_tag_pos(board.notes@[x2 as int].tags@, buckets@[b].0@);
                                if board.notes@[x2 as int].tags@.len() == 0 {
                                    assert(buckets_have_note(bs0, "(untagged)"@, x2));
                                    let ob = choose|ob: int|
                                        0 <= ob < bs0.len() && (#[trigger] bs0[ob]).0@
                                            == "(untagged)"@ && bs0[ob].1@.contains(x2);
                                    assert(buckets@[ob].0@ == buckets@[b].0@);
                                    assert(false);
                                } else {
                                    let k = choose|k: int|
                                        0 <= k < board.notes@[x2 as int].tags@.len() && (
                                        #[trigger] board.notes@[x2 as int].tags@[k])@
                                            == buckets@[b].0@;
                                    assert(buckets_have_note(bs0, buckets@[b].0@, x2));
                                    let ob = choose|ob: int|
                                        0 <= ob < bs0.len() && (#[trigger] bs0[ob]).0@
                                            == buckets@[b].0@ && bs0[ob].1@.contains(x2);
                                    assert(buckets@[ob].0@ == buckets@[b].0@);
                                    assert(false);
                                }
                            }
                        }
                        if x2 as int == x as int && b >= bs0.len() {
                            if count_tag(
                                board.notes@[x as int].tags@.subrange(0, ti as int),
                                buckets@[b].0@,
                            ) != 0 {
                                lemma_count_tag_pos(
                                    board.notes@[x as int].tags@.subrange(0, ti as int),
                                    buckets@[b].0@,
                                );
                                let k = choose|k: int|
                                    0 <= k < board.notes@[x as int].tags@.subrange(
                                        0,
                                        ti as int,
                                    ).len() && (#[trigger] board.notes@[x as int].tags@.subrange(
                                        0,
                                        ti as int,
                                    )[k])@ == buckets@[b].0@;
                                assert(board.notes@[x as int].tags@[k]@ == buckets@[b].0@);
                                assert(buckets_have_note(bs0, board.notes@[x as int].tags@[k]@, x));
                                let ob = choose|ob: int|
                                    0 <= ob < bs0.len() && (#[trigger] bs0[ob]).0@
                                        == buckets@[b].0@ && bs0[ob].1@.contains(x);
                                assert(buckets@[ob].0@ == buckets@[b].0@);
                                assert(false);
                            }
                            lemma_count_tag_pos(
                                board.notes@[x as int].tags@.subrange(0, ti as int),
                                buckets@[b].0@,
                            );
                        }
                        if x2 as int == x as int && b < bs0.len() {
                            lemma_count_tag_pos(
                                board.notes@[x as int].tags@.subrange(0, ti as int),
                                buckets@[b].0@,
                            );
                        }
                    };
                }
                ti += 1;
            }
            proof {
                assert(board.notes@[x as int].tags@.subrange(0, tcount as int)
                    =~= board.notes@[x as int].tags@);
            }
        }
        x += 1;
    }
    let ghost built = buckets@;
    let mut sorted = sort_buckets(buckets);
    proof {
        assert forall|b: int, y: usize|
            0 <= b < sorted@.len() && (y as int) < board.notes@.len() implies (
        #[trigger] sorted@[b].1@.to_multiset().count(y)) as int == tag_occurrences(
            board.notes@[y as int],
            sorted@[b].0@,
        ) by {
            assert(sorted@.contains(sorted@[b]));
            assert(sorted@.to_multiset().count(sorted@[b]) > 0);
            assert(built.to_multiset().count(sorted@[b]) > 0);
            assert(built.contains(sorted@[b]));
            let w = choose|w: int| 0 <= w < built.len() && built[w] == sorted@[b];
            assert(built[w].1@.to_multiset().count(y) as int == tag_occurrences(
                board.notes@[y as int],
                built[w].0@,
            ));
        };
        assert forall|b: int, y: usize|
            0 <= b < sorted@.len() && (#[trigger] sorted@[b].1@.contains(y)) implies y
            < board.notes@.len() && note_has_tag(board.notes@[y as int], sorted@[b].0@) by {
            assert(sorted@.contains(sorted@[b]));
            assert(sorted@.to_multiset().count(sorted@[b]) > 0);
            assert(built.to_multiset().count(sorted@[b]) > 0);
            assert(built.contains(sorted@[b]));
            let w = choose|w: int| 0 <= w < built.len() && built[w] == sorted@[b];
            assert(built[w].1@.contains(y));
        };
        assert forall|x2: int| 0 <= x2 < board.notes@.len() implies ((forall|ti: int|
            0 <= ti < (#[trigger] board.notes@[x2]).tags@.len() ==> buckets_have_note(
                sorted@,
                (#[trigger] board.notes@[x2].tags@[ti])@,
                x2 as usize,
            )) && (board.notes@[x2].tags@.len() == 0 ==> buckets_have_note(
            sorted@,
            "(untagged)"@,
            x2 as usize,
        ))) by {
            assert forall|ti: int|
                0 <= ti < board.notes@[x2].tags@.len() implies buckets_have_note(
                sorted@,
                (#[trigger] board.notes@[x2].tags@[ti])@,
                x2 as usize,
            ) by {
                let tg = board.notes@[x2].tags@[ti]@;
                assert(buckets_have_note(built, tg, x2 as usize));
                let b = choose|b: int|
                    0 <= b < built.len() && (#[trigger] built[b]).0@ == tg && built[b].1@.contains(
                        x2 as usize,
                    );
                assert(built.contains(built[b]));
                assert(built.to_multiset().count(built[b]) > 0);
                assert(sorted@.to_multiset().count(built[b]) > 0);
                assert(sorted@.contains(built[b]));
                let w = choose|w: int| 0 <= w < sorted@.len() && sorted@[w] == built[b];
            };
            if board.notes@[x2].tags@.len() == 0 {
                let tg = "(untagged)"@;
                assert(buckets_have_note(built, tg, x2 as usize));
                let b = choose|b: int|
                    0 <= b < built.len() && (#[trigger] built[b]).0@ == tg && built[b].1@.contains(
                        x2 as usize,
                    );
                assert(built.contains(built[b]));
                assert(built.to_multiset().count(built[b]) > 0);
                assert(sorted@.to_multiset().count(built[b]) > 0);
                assert(sorted@.contains(built[b]));
                let w = choose|w: int| 0 <= w < sorted@.len() && sorted@[w] == built[b];
            }
        };
    }
    let m = sorted.len();
    let mut b: usize = 0;
    while b < m
        invariant
            0 <= b <= m,
            m == sorted@.len(),
            forall|p: int, q: int|
                0 <= p < q < sorted@.len() ==> chars_le(
                    (#[trigger] sorted@[p]).0@,
                    (#[trigger] sorted@[q]).0@,
                ) && sorted@[p].0@ != sorted@[q].0@,
            buckets_entries_ok(board.notes@, sorted@),
            buckets_complete(board.notes@, sorted@, board.notes@.len() as int),
            forall|j: int| 0 <= j < m ==> (#[trigger] sorted@[j]).1@.len() > 0,
            forall|j: int, y: usize|
                0 <= j < m && (y as int) < board.notes@.len() ==> (
                #[trigger] sorted@[j].1@.to_multiset().count(y)) as int == tag_occurrences(
                    board.notes@[y as int],
                    sorted@[j].0@,
                ),
            forall|j: int|
                0 <= j < b ==> idx_sorted(
                    NoteOrder::Updated,
                    board.notes@,
                    (#[trigger] sorted@[j]).1@,
                ),
        decreases m - b,
    {
        broadcast use group_to_multiset_ensures;

        let ghost bs0 = sorted@;
        let mut taken: Vec<usize> = Vec::new();
        let entry = &mut sorted[b];
        core::mem::swap(&mut taken, &mut entry.1);
        proof {
            assert forall|k: int| 0 <= k < taken@.len() implies (#[trigger] taken@[k])
                < board.notes@.len() by {
                assert(bs0[b as int].1@.contains(taken@[k]));
            };
        }
        let content = sort_indices(NoteOrder::Updated, &board.notes, taken);
        let entry2 = &mut sorted[b];
        entry2.1 = content;
        proof {
            let bi = b as int;
            assert(sorted@[bi].0 == bs0[bi].0);
            assert(forall|j: int| 0 <= j < m && j != bi ==> #[trigger] sorted@[j] == bs0[j]);
            assert forall|y: usize| #[trigger]
                sorted@[bi].1@.contains(y) == bs0[bi].1@.contains(y) by {
                assert(sorted@[bi].1@.contains(y) <==> sorted@[bi].1@.to_multiset().count(y) > 0);
                assert(bs0[bi].1@.contains(y) <==> bs0[bi].1@.to_multiset().count(y) > 0);
            };
            lemma_complete_grow(board.notes@, bs0, sorted@, board.notes@.len() as int);
            assert forall|b2: int, y: usize|
                0 <= b2 < sorted@.len() && (#[trigger] sorted@[b2].1@.contains(y)) implies y
                < board.notes@.len() && note_has_tag(board.notes@[y as int], sorted@[b2].0@) by {
                if b2 == bi {
                    assert(bs0[b2].1@.contains(y));
                    assert(sorted@[b2].0 == bs0[b2].0);
                }
            };
        }
        b += 1;
    }
    sorted
}

} // verus!
