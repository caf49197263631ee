//! The board data model: notes, columns and the board that owns them, with
//! the mutation primitives (`add_note`, `move_note`, `update_note`,
//! `delete_note`) that enforce WIP limits and keep the columns' id lists and
//! the note mapping consistent with each other.

use vstd::prelude::*;
use vstd::pervasive::unreached;
use vstd::string::StringExecFns;
use crate::text::str_eq;
use crate::time::DateTime;

verus! {

/// Copies `ids`, dropping every entry that reads `note_id`.
fn remove_id_entries(ids: &Vec<NoteId>, note_id: &str) -> (r: Vec<NoteId>)
    ensures
        id_views(r@) == ids_without(id_views(ids@), note_id@),
{
    let n = ids.len();
    let mut r: Vec<NoteId> = Vec::new();
    let mut k: usize = 0;
    while k < n
        invariant
            0 <= k <= n,
            n == ids@.len(),
            id_views(r@) == ids_without(id_views(ids@.subrange(0, k as int)), note_id@),
        decreases n - k,
    {
        let keep = !str_eq(ids[k].as_str(), note_id);
        if keep {
            r.push(ids[k].clone());
        }
        proof {
            let prefix1 = id_views(ids@.subrange(0, k + 1));
            assert(prefix1.drop_last() =~= id_views(ids@.subrange(0, k as int)));
            assert(prefix1.last() == ids@[k as int]@);
            assert(id_views(r@) =~= ids_without(prefix1, note_id@));
        }
        k += 1;
    }
    proof {
        assert(id_views(ids@.subrange(0, n as int)) =~= id_views(ids@));
    }
    r
}

/// Opaque note identity, assigned at creation and immutable thereafter.
pub type NoteId = String;

/// A single sticky note.
#[derive(Debug, Clone)]
pub struct Note {
    pub id: NoteId,
    pub title: String,
    pub body: Option<String>,
    pub tags: Vec<String>,
    pub created_at: u64,
    pub updated_at: u64,
    pub due: Option<DateTime>,
}

/// An ordered, optionally capacity-limited bucket of note ids.
#[derive(Debug, Clone)]
pub struct Column {
    pub id: String,
    pub name: String,
    pub wip_limit: Option<u32>,
    pub note_ids: Vec<NoteId>,
}

/// The whole board: ordered columns plus the note mapping, here a vector of
/// notes with pairwise distinct ids.
#[derive(Debug, Clone)]
pub struct Board {
    pub name: String,
    pub columns: Vec<Column>,
    pub notes: Vec<Note>,
}

/// What a board mutation can fail with.
#[derive(Debug, Clone)]
pub enum BoardError {
    ColumnNotFound(String),
    NoteNotFound(String),
    /// The note exists but sits in no column: an integrity fault surfaced to
    /// the caller rather than silently repaired.
    NoteLocationMissing(String),
    WipLimitReached(String),
}

impl BoardError {
    /// What this error says of `e`, as text.
    pub open spec fn text_spec(self) -> Seq<char> {
        match self {
            BoardError::ColumnNotFound(s) => "column not found: "@ + s@,
            BoardError::NoteNotFound(s) => "note not found: "@ + s@,
            BoardError::NoteLocationMissing(s) => "note "@ + s@ + " not present in any column"@,
            BoardError::WipLimitReached(s) => "wip limit reached for column "@ + s@,
        }
    }

    /// Renders the error for display.
    pub fn message(&self) -> (r: String)
        ensures
            r@ == self.text_spec(),
    {
        match self {
            BoardError::ColumnNotFound(s) => String::from_str("column not found: ").concat(
                s.as_str(),
            ),
            BoardError::NoteNotFound(s) => String::from_str("note not found: ").concat(s.as_str()),
            BoardError::NoteLocationMissing(s) => String::from_str("note ").concat(s.as_str())
                .concat(" not present in any column"),
            BoardError::WipLimitReached(s) => String::from_str(
                "wip limit reached for column ",
            ).concat(s.as_str()),
        }
    }
}

impl Note {
    /// A due date, when present, is a real calendar value.
    pub open spec fn due_valid(self) -> bool {
        match self.due {
            Some(d) => d.valid(),
            None => true,
        }
    }

    /// Builds a note stamped with the current instant.
    pub fn new(
        id: NoteId,
        title: String,
        body: Option<String>,
        tags: Vec<String>,
        due: Option<DateTime>,
        now: u64,
    ) -> (n: Note)
        ensures
            n == (Note { id, title, body, tags, created_at: now, updated_at: now, due }),
    {
        Note { id, title, body, tags, created_at: now, updated_at: now, due }
    }
}

impl Column {
    /// Whether some entry of this column's id list reads `id`.
    pub open spec fn contains_note(self, id: Seq<char>) -> bool {
        exists|k: int| 0 <= k < self.note_ids@.len() && #[trigger] self.note_ids@[k]@ == id
    }

    /// Whether the column is at (or beyond) its WIP limit, so that one more
    /// note would exceed it.
    pub open spec fn at_wip_limit(self) -> bool {
        match self.wip_limit {
            Some(l) => self.note_ids@.len() >= l,
            None => false,
        }
    }
}

/// `ids` with every entry reading `id` removed, order otherwise kept.
pub open spec fn ids_without(ids: Seq<Seq<char>>, id: Seq<char>) -> Seq<Seq<char>>
    decreases ids.len(),
{
    if ids.len() == 0 {
        Seq::empty()
    } else {
        let rest = ids_without(ids.drop_last(), id);
        if ids.last() == id {
            rest
        } else {
            rest.push(ids.last())
        }
    }
}

/// The texts of a sequence of ids.
pub open spec fn id_views(ids: Seq<NoteId>) -> Seq<Seq<char>> {
    ids.map_values(|s: NoteId| s@)
}

/// The id texts listed by a column, in display order.
pub open spec fn col_ids(c: Column) -> Seq<Seq<char>> {
    id_views(c.note_ids@)
}

/// Membership in `ids_without`, and that it keeps entries pairwise distinct.
proof fn lemma_ids_without_props(xs: Seq<Seq<char>>, id: Seq<char>)
    ensures
        forall|x: Seq<char>| #[trigger] ids_without(xs, id).contains(x) <==> (xs.contains(x) && x
            != id),
        (forall|p: int, q: int| 0 <= p < q < xs.len() ==> xs[p] != xs[q]) ==> (forall|
            p: int,
            q: int,
        |
            0 <= p < q < ids_without(xs, id).len() ==> ids_without(xs, id)[p] != ids_without(
                xs,
                id,
            )[q]),
    decreases xs.len(),
{
    let out = ids_without(xs, id);
    if xs.len() == 0 {
        assert(forall|x: Seq<char>| !(#[trigger] xs.contains(x)));
        assert(forall|x: Seq<char>| !(#[trigger] out.contains(x)));
    } else {
        let ys = xs.drop_last();
        let last = xs.last();
        lemma_ids_without_props(ys, id);
        let rest = ids_without(ys, id);
        assert forall|x: Seq<char>| #[trigger] out.contains(x) implies (xs.contains(x) && x != id) by {
            let w = choose|w: int| 0 <= w < out.len() && out[w] == x;
            if last == id {
                assert(rest.contains(x));
                let w2 = choose|w2: int| 0 <= w2 < ys.len() && ys[w2] == x;
                assert(xs[w2] == x);
            } else {
                if w < rest.len() {
                    assert(rest.contains(x));
                    let w2 = choose|w2: int| 0 <= w2 < ys.len() && ys[w2] == x;
                    assert(xs[w2] == x);
                } else {
                    assert(x == last);
                    assert(xs[xs.len() - 1] == x);
                }
            }
        };
        assert forall|x: Seq<char>| xs.contains(x) && x != id implies #[trigger] out.contains(x) by {
            let w = choose|w: int| 0 <= w < xs.len() && xs[w] == x;
            if w < xs.len() - 1 {
                assert(ys[w] == x);
                assert(ys.contains(x));
                assert(rest.contains(x));
                let w2 = choose|w2: int| 0 <= w2 < rest.len() && rest[w2] == x;
                if last == id {
                    assert(out[w2] == x);
                } else {
                    assert(out[w2] == x);
                }
            } else {
                assert(x == last);
                assert(out[out.len() - 1] == x);
            }
        };
        if forall|p: int, q: int| 0 <= p < q < xs.len() ==> xs[p] != xs[q] {
            assert(forall|p: int, q: int| 0 <= p < q < ys.len() ==> ys[p] != ys[q]) by {
                assert(forall|p: int| 0 <= p < ys.len() ==> ys[p] == xs[p]);
            }
            if last != id {
                assert forall|p: int, q: int| 0 <= p < q < out.len() implies out[p] != out[q] by {
                    if q == out.len() - 1 {
                        assert(out[q] == last);
                        assert(rest.contains(out[p]));
                        assert(ys.contains(out[p]));
                        let w = choose|w: int| 0 <= w < ys.len() && ys[w] == out[p];
                        assert(xs[w] == out[p]);
                        assert(xs[w] != xs[xs.len() - 1]);
                    }
                };
            }
        }
    }
}

impl Board {
    /// Whether a note with this id exists in the note mapping.
    pub open spec fn has_note(self, id: Seq<char>) -> bool {
        exists|i: int| 0 <= i < self.notes@.len() && (#[trigger] self.notes@[i]).id@ == id
    }

    /// Whether some column carries this id.
    pub open spec fn has_column(self, id: Seq<char>) -> bool {
        exists|i: int| 0 <= i < self.columns@.len() && (#[trigger] self.columns@[i]).id@ == id
    }

    /// Whether some column lists this note id.
    pub open spec fn note_in_some_column(self, id: Seq<char>) -> bool {
        exists|c: int|
            0 <= c < self.columns@.len() && (#[trigger] self.columns@[c]).contains_note(id)
    }

    /// `i` is the first column whose id reads `id` (lookup is first match by
    /// linear scan; duplicate column ids are tolerated, not repaired).
    pub open spec fn is_first_column(self, id: Seq<char>, i: int) -> bool {
        &&& 0 <= i < self.columns@.len()
        &&& self.columns@[i].id@ == id
        &&& forall|j: int| 0 <= j < i ==> (#[trigger] self.columns@[j]).id@ != id
    }

    /// `c` is the first column listing note `id`.
    pub open spec fn is_first_note_column(self, id: Seq<char>, c: int) -> bool {
        &&& 0 <= c < self.columns@.len()
        &&& self.columns@[c].contains_note(id)
        &&& forall|j: int| 0 <= j < c ==> !(#[trigger] self.columns@[j]).contains_note(id)
    }

    /// `n` is the position of note `id` in the note mapping.
    pub open spec fn is_note_at(self, id: Seq<char>, n: int) -> bool {
        0 <= n < self.notes@.len() && self.notes@[n].id@ == id
    }

    /// Note ids are pairwise distinct: the note vector is a mapping.
    pub open spec fn notes_unique(self) -> bool {
        forall|i: int, j: int|
            0 <= i < j < self.notes@.len() ==> (#[trigger] self.notes@[i]).id@ != (
            #[trigger] self.notes@[j]).id@
    }

    /// Referential integrity: every id a column lists exists in the mapping.
    pub open spec fn refs_exist(self) -> bool {
        forall|c: int, k: int|
            0 <= c < self.columns@.len() && 0 <= k < self.columns@[c].note_ids@.len()
                ==> self.has_note((#[trigger] self.columns@[c].note_ids@[k])@)
    }

    /// Every note's due date, when present, is a real calendar value.
    pub open spec fn dues_valid(self) -> bool {
        forall|i: int|
            0 <= i < self.notes@.len() ==> (#[trigger] self.notes@[i]).due_valid()
    }

    /// The board invariant every mutation preserves.
    pub open spec fn wf(self) -> bool {
        self.notes_unique() && self.refs_exist() && self.dues_valid()
    }

    /// Exclusive placement: a note id appears in at most one place across all
    /// columns. Holds of boards built through this model with fresh ids; an
    /// id collision on `add_note` is the accepted way to lose it.
    pub open spec fn exclusive_placement(self) -> bool {
        forall|c1: int, k1: int, c2: int, k2: int|
            0 <= c1 < self.columns@.len() && 0 <= k1 < self.columns@[c1].note_ids@.len() && 0 <= c2
                < self.columns@.len() && 0 <= k2 < self.columns@[c2].note_ids@.len() && (c1 != c2
                || k1 != k2) ==> (#[trigger] self.columns@[c1].note_ids@[k1])@ != (
            #[trigger] self.columns@[c2].note_ids@[k2])@
    }

    /// The columns' ids, names and limits (everything but their note lists).
    pub open spec fn same_column_frames(self, other: Board) -> bool {
        &&& self.columns@.len() == other.columns@.len()
        &&& forall|c: int|
            0 <= c < self.columns@.len() ==> (#[trigger] other.columns@[c]).id
                == self.columns@[c].id && other.columns@[c].name == self.columns@[c].name
                && other.columns@[c].wip_limit == self.columns@[c].wip_limit
    }

    /// Index of the first column whose id is `id`, by linear scan.
    pub fn find_column_index(&self, id: &str) -> (r: Option<usize>)
        ensures
            r matches Some(i) ==> self.is_first_column(id@, i as int),
            r is Some <==> self.has_column(id@),
    {
        let n = self.columns.len();
        let mut i: usize = 0;
        while i < n
            invariant
                0 <= i <= n,
                n == self.columns@.len(),
                forall|j: int| 0 <= j < i ==> (#[trigger] self.columns@[j]).id@ != id@,
            decreases n - i,
        {
            if str_eq(self.columns[i].id.as_str(), id) {
                return Some(i);
            }
            i += 1;
        }
        None
    }

    /// Whether the column at `c` lists `note_id`.
    fn column_lists(&self, c: usize, note_id: &str) -> (r: bool)
        requires
            c < self.columns@.len(),
        ensures
            r == self.columns@[c as int].contains_note(note_id@),
    {
        let ids = &self.columns[c].note_ids;
        let n = ids.len();
        let mut k: usize = 0;
        while k < n
            invariant
                0 <= k <= n,
                n == ids@.len(),
                ids@ == self.columns@[c as int].note_ids@,
                forall|j: int| 0 <= j < k ==> (#[trigger] ids@[j])@ != note_id@,
            decreases n - k,
        {
            if str_eq(ids[k].as_str(), note_id) {
                return true;
            }
            k += 1;
        }
        false
    }

    /// Index of the first column listing `note_id`.
    pub fn find_note_column_index(&self, note_id: &str) -> (r: Option<usize>)
        ensures
            r matches Some(c) ==> self.is_first_note_column(note_id@, c as int),
            r is Some <==> self.note_in_some_column(note_id@),
    {
        let n = self.columns.len();
        let mut c: usize = 0;
        while c < n
            invariant
                0 <= c <= n,
                n == self.columns@.len(),
                forall|j: int| 0 <= j < c ==> !(#[trigger] self.columns@[j]).contains_note(note_id@),
            decreases n - c,
        {
            if self.column_lists(c, note_id) {
                return Some(c);
            }
            c += 1;
        }
        None
    }

    /// Position of note `note_id` in the note mapping.
    pub(crate) fn find_note_index(&self, note_id: &str) -> (r: Option<usize>)
        ensures
            r matches Some(n) ==> self.is_note_at(note_id@, n as int),
            r is Some <==> self.has_note(note_id@),
    {
        let n = self.notes.len();
        let mut i: usize = 0;
        while i < n
            invariant
                0 <= i <= n,
                n == self.notes@.len(),
                forall|j: int| 0 <= j < i ==> (#[trigger] self.notes@[j]).id@ != note_id@,
            decreases n - i,
        {
            if str_eq(self.notes[i].id.as_str(), note_id) {
                return Some(i);
            }
            i += 1;
        }
        None
    }

    /// Adds a freshly built note to the column whose id is `column_id`:
    /// fails with `ColumnNotFound` if no column matches, with
    /// `WipLimitReached` if the column is full (leaving the board untouched
    /// either way); otherwise stores the note in the mapping (overwriting a
    /// note that already carried the same id, as a mapping does) and appends
    /// its id to the column.
    pub fn add_note(&mut self, note: Note, column_id: &str) -> (r: Result<(), BoardError>)
        requires
            old(self).wf(),
            note.due_valid(),
        ensures
            final(self).wf(),
            final(self).name == old(self).name,
            old(self).same_column_frames(*final(self)),
            !old(self).has_column(column_id@) ==> (r matches Err(e) && e matches
                BoardError::ColumnNotFound(s) && s@ == column_id@ && *final(self) == *old(self)),
            forall|i: int|
                old(self).is_first_column(column_id@, i) && old(self).columns@[i].at_wip_limit()
                    ==> (r matches Err(e) && e matches BoardError::WipLimitReached(s) && s@
                    == column_id@ && *final(self) == *old(self)),
            forall|i: int|
                old(self).is_first_column(column_id@, i) && !old(self).columns@[i].at_wip_limit()
                    ==> r is Ok && (if old(self).has_note(note.id@) {
                    forall|n: int|
                        old(self).is_note_at(note.id@, n) ==> final(self).notes@ == old(
                            self).notes@.update(n, note)
                } else {
                    final(self).notes@ == old(self).notes@.push(note)
                }) && (forall|j: int|
                    0 <= j < old(self).columns@.len() && j != i ==> final(self).columns@[j] == old(
                        self).columns@[j]) && col_ids(final(self).columns@[i]) == col_ids(
                    old(self).columns@[i],
                ).push(note.id@),
            old(self).exclusive_placement() && !old(self).note_in_some_column(note.id@) ==> final(
                self).exclusive_placement(),
            r is Err ==> *final(self) == *old(self),
            r is Ok ==> final(self).notes@.len() >= old(self).notes@.len(),
            r is Ok ==> (if old(self).has_note(note.id@) {
                forall|n: int|
                    old(self).is_note_at(note.id@, n) ==> final(self).notes@ == old(self).notes@.update(n, note)
            } else {
                final(self).notes@ == old(self).notes@.push(note)
            }),
    {
        let target_idx = match self.find_column_index(column_id) {
            Some(i) => i,
            None => {
                return Err(BoardError::ColumnNotFound(String::from_str(column_id)));
            },
        };
        match self.ensure_wip(target_idx) {
            Err(e) => {
                return Err(e);
            },
            Ok(_u) => {},
        }
        let ghost b0 = *self;
        let ghost note0 = note;
        let id_copy = note.id.clone();
        let found = self.find_note_index(note.id.as_str());
        match found {
            Some(n) => {
                self.notes.set(n, note);
            },
            None => {
                self.notes.push(note);
            },
        }
        let col = &mut self.columns[target_idx];
        col.note_ids.push(id_copy);
        proof {
            let i = target_idx as int;
            let oldlen = b0.columns@[i].note_ids@.len() as int;
            assert(col_ids(self.columns@[i]) =~= col_ids(b0.columns@[i]).push(note0.id@));
            assert forall|p: int, q: int|
                0 <= p < q < self.notes@.len() implies (#[trigger] self.notes@[p]).id@ != (
            #[trigger] self.notes@[q]).id@ by {
                match found {
                    Some(n) => {
                        assert(b0.notes@[p].id@ != b0.notes@[q].id@);
                        assert(self.notes@[p].id@ == b0.notes@[p].id@);
                        assert(self.notes@[q].id@ == b0.notes@[q].id@);
                    },
                    None => {
                        if q == b0.notes@.len() as int {
                            assert(!b0.has_note(note0.id@));
                            assert(b0.notes@[p].id@ != note0.id@);
                        }
                    },
                }
            };
            assert forall|c: int, k: int|
                0 <= c < self.columns@.len() && 0 <= k < self.columns@[c].note_ids@.len() implies
                self.has_note((#[trigger] self.columns@[c].note_ids@[k])@) by {
                let idtxt = self.columns@[c].note_ids@[k]@;
                if c == i && k == oldlen {
                    assert(idtxt == note0.id@);
                    match found {
                        Some(n) => {
                            assert(self.notes@[n as int].id@ == note0.id@);
                        },
                        None => {
                            assert(self.notes@[b0.notes@.len() as int].id@ == note0.id@);
                        },
                    }
                } else {
                    assert(self.columns@[c].note_ids@[k] == b0.columns@[c].note_ids@[k]);
                    assert(b0.has_note(idtxt));
                    let w = choose|w: int|
                        0 <= w < b0.notes@.len() && (#[trigger] b0.notes@[w]).id@ == idtxt;
                    assert(self.notes@[w].id@ == idtxt);
                }
            };
            assert forall|p: int|
                0 <= p < self.notes@.len() implies (#[trigger] self.notes@[p]).due_valid() by {
                if p < b0.notes@.len() as int {
                    assert(b0.notes@[p].due_valid());
                }
            };
            if b0.exclusive_placement() && !b0.note_in_some_column(note0.id@) {
                assert forall|c1: int, k1: int, c2: int, k2: int|
                    0 <= c1 < self.columns@.len() && 0 <= k1 < self.columns@[c1].note_ids@.len()
                        && 0 <= c2 < self.columns@.len() && 0 <= k2
                        < self.columns@[c2].note_ids@.len() && (c1 != c2 || k1 != k2) implies (
                #[trigger] self.columns@[c1].note_ids@[k1])@ != (
                #[trigger] self.columns@[c2].note_ids@[k2])@ by {
                    if c1 == i && k1 == oldlen {
                        assert(self.columns@[c2].note_ids@[k2] == b0.columns@[c2].note_ids@[k2]);
                        if b0.columns@[c2].note_ids@[k2]@ == note0.id@ {
                            assert(b0.columns@[c2].contains_note(note0.id@));
                            assert(false);
                        }
                    } else if c2 == i && k2 == oldlen {
                        assert(self.columns@[c1].note_ids@[k1] == b0.columns@[c1].note_ids@[k1]);
                        if b0.columns@[c1].note_ids@[k1]@ == note0.id@ {
                            assert(b0.columns@[c1].contains_note(note0.id@));
                            assert(false);
                        }
                    } else {
                        assert(self.columns@[c1].note_ids@[k1] == b0.columns@[c1].note_ids@[k1]);
                        assert(self.columns@[c2].note_ids@[k2] == b0.columns@[c2].note_ids@[k2]);
                    }
                };
            }
        }
        Ok(())
    }

    /// Checks the WIP limit of the column at `column_idx`: the limit, when
    /// set, caps how many notes the column may hold at once.
    fn ensure_wip(&self, column_idx: usize) -> (r: Result<(), BoardError>)
        requires
            column_idx < self.columns@.len(),
        ensures
            r is Ok <==> !self.columns@[column_idx as int].at_wip_limit(),
            r matches Err(e) ==> e matches BoardError::WipLimitReached(s) && s@
                == self.columns@[column_idx as int].id@,
    {
        match self.columns[column_idx].wip_limit {
            Some(limit) => {
                if self.columns[column_idx].note_ids.len() as u64 >= limit as u64 {
                    Err(BoardError::WipLimitReached(self.columns[column_idx].id.clone()))
                } else {
                    Ok(())
                }
            },
            None => Ok(()),
        }
    }

    /// Moves a note to the column whose id is `dest_column_id`, appending it
    /// at the end. Succeeds as a no-op, with no WIP check, when the note
    /// already sits in the destination; otherwise enforces the destination's
    /// WIP limit, removes the id from its source column, appends it to the
    /// destination and stamps the note's `updated_at` with `now`. Fails with
    /// `NoteNotFound`, `ColumnNotFound`, `NoteLocationMissing` or
    /// `WipLimitReached` exactly as stated below, leaving the board untouched.
    pub fn move_note(&mut self, note_id: &str, dest_column_id: &str, now: u64) -> (r: Result<
        (),
        BoardError,
    >)
        requires
            old(self).wf(),
        ensures
            final(self).wf(),
            final(self).name == old(self).name,
            old(self).same_column_frames(*final(self)),
            !old(self).has_note(note_id@) ==> (r matches Err(e) && e matches
                BoardError::NoteNotFound(s) && s@ == note_id@ && *final(self) == *old(self)),
            old(self).has_note(note_id@) && !old(self).has_column(dest_column_id@) ==> (r matches
                Err(e) && e matches BoardError::ColumnNotFound(s) && s@ == dest_column_id@ && *final(self) == *old(self)),
            old(self).has_note(note_id@) && old(self).has_column(dest_column_id@) && !old(self).note_in_some_column(note_id@) ==> (r matches Err(e) && e matches
                BoardError::NoteLocationMissing(s) && s@ == note_id@ && *final(self) == *old(self)),
            forall|s: int, d: int|
                (#[trigger] old(self).is_first_note_column(note_id@, s)) && (#[trigger] old(self).is_first_column(dest_column_id@, d)) && s == d ==> r is Ok && *final(self) == *old(self),
            forall|s: int, d: int|
                (#[trigger] old(self).is_first_note_column(note_id@, s)) && (#[trigger] old(self).is_first_column(dest_column_id@, d)) && s != d && old(self).columns@[d].at_wip_limit() ==> (r matches Err(e) && e matches
                    BoardError::WipLimitReached(sid) && sid@ == dest_column_id@ && *final(self)
                    == *old(self)),
            forall|s: int, d: int|
                (#[trigger] old(self).is_first_note_column(note_id@, s)) && (#[trigger] old(self).is_first_column(dest_column_id@, d)) && s != d && !old(self).columns@[d].at_wip_limit() ==> r is Ok && move_applied(*old(self), *final(self), note_id@, s, d, now),
            old(self).exclusive_placement() ==> final(self).exclusive_placement(),
            r is Err ==> *final(self) == *old(self),
    {
        if self.find_note_index(note_id).is_none() {
            return Err(BoardError::NoteNotFound(String::from_str(note_id)));
        }
        let dest_idx = match self.find_column_index(dest_column_id) {
            Some(i) => i,
            None => {
                return Err(BoardError::ColumnNotFound(String::from_str(dest_column_id)));
            },
        };
        let src_idx = match self.find_note_column_index(note_id) {
            Some(i) => i,
            None => {
                return Err(BoardError::NoteLocationMissing(String::from_str(note_id)));
            },
        };
        if src_idx == dest_idx {
            return Ok(());
        }
        match self.ensure_wip(dest_idx) {
            Err(e) => {
                return Err(e);
            },
            Ok(_u) => {},
        }
        let ghost b0 = *self;
        let ghost sidx = src_idx as int;
        let ghost didx = dest_idx as int;
        let kept = remove_id_entries(&self.columns[src_idx].note_ids, note_id);
        let src_col = &mut self.columns[src_idx];
        src_col.note_ids = kept;
        let dest_col = &mut self.columns[dest_idx];
        dest_col.note_ids.push(String::from_str(note_id));
        let n = match self.find_note_index(note_id) {
            Some(n) => n,
            None => {
                return unreached();
            },
        };
        let nt = &mut self.notes[n];
        nt.updated_at = now;
        proof {
            lemma_ids_without_props(col_ids(b0.columns@[sidx]), note_id@);
            assert(col_ids(self.columns@[sidx]) == ids_without(col_ids(b0.columns@[sidx]), note_id@));
            assert(col_ids(self.columns@[didx]) =~= col_ids(b0.columns@[didx]).push(note_id@));
            assert(self.notes@ =~= b0.notes@.update(
                n as int,
                (Note { updated_at: now, ..b0.notes@[n as int] }),
            ));
            assert(forall|p: int|
                0 <= p < self.notes@.len() ==> (#[trigger] self.notes@[p]).id@ == b0.notes@[p].id@
                    && self.notes@[p].due == b0.notes@[p].due);
            assert forall|c: int, k: int|
                0 <= c < self.columns@.len() && 0 <= k < self.columns@[c].note_ids@.len() implies
                self.has_note((#[trigger] self.columns@[c].note_ids@[k])@) by {
                let idtxt = self.columns@[c].note_ids@[k]@;
                if c == sidx {
                    assert(col_ids(self.columns@[c])[k] == idtxt);
                    assert(col_ids(self.columns@[c]).contains(idtxt));
                    assert(col_ids(b0.columns@[c]).contains(idtxt));
                    let w = choose|w: int|
                        0 <= w < col_ids(b0.columns@[c]).len() && col_ids(b0.columns@[c])[w]
                            == idtxt;
                    assert(b0.columns@[c].note_ids@[w]@ == idtxt);
                    assert(b0.has_note(idtxt));
                } else if c == didx && k == col_ids(b0.columns@[didx]).len() {
                    assert(idtxt == note_id@);
                    assert(b0.has_note(idtxt));
                } else {
                    assert(self.columns@[c].note_ids@[k] == b0.columns@[c].note_ids@[k]);
                    assert(b0.has_note(idtxt));
                }
                let w2 = choose|w2: int|
                    0 <= w2 < b0.notes@.len() && (#[trigger] b0.notes@[w2]).id@ == idtxt;
                assert(self.notes@[w2].id@ == idtxt);
            };
            if b0.exclusive_placement() {
                assert(forall|j: int|
                    0 <= j < b0.columns@.len() && j != sidx && j != didx ==> col_ids(
                        #[trigger] self.columns@[j],
                    ) == col_ids(b0.columns@[j]));
                lemma_move_exclusive(b0, *self, sidx, didx, note_id@);
            }
        }
        Ok(())
    }

    /// Rewrites fields of the note `note_id` as `up` says and always refreshes
    /// `updated_at` to `now`, even when `up` changes nothing. Fails with
    /// `NoteNotFound` exactly when the id is absent, leaving the board
    /// untouched.
    pub fn update_note(&mut self, note_id: &str, up: NoteUpdate, now: u64) -> (r: Result<
        (),
        BoardError,
    >)
        requires
            old(self).wf(),
            up.due_valid(),
        ensures
            final(self).wf(),
            final(self).name == old(self).name,
            final(self).columns@ == old(self).columns@,
            !old(self).has_note(note_id@) ==> (r matches Err(e) && e matches
                BoardError::NoteNotFound(s) && s@ == note_id@ && *final(self) == *old(self)),
            old(self).has_note(note_id@) ==> r is Ok && (forall|n: int|
                old(self).is_note_at(note_id@, n) ==> final(self).notes@ == old(self).notes@.update(n, up.applied(old(self).notes@[n], now))),
            old(self).exclusive_placement() ==> final(self).exclusive_placement(),
            r is Err ==> *final(self) == *old(self),
    {
        let n = match self.find_note_index(note_id) {
            Some(n) => n,
            None => {
                return Err(BoardError::NoteNotFound(String::from_str(note_id)));
            },
        };
        let ghost b0 = *self;
        let nt = &mut self.notes[n];
        match up.title {
            Some(t) => {
                nt.title = t;
            },
            None => {},
        }
        match up.body {
            Some(b) => {
                nt.body = b;
            },
            None => {},
        }
        match up.tags {
            Some(t) => {
                nt.tags = t;
            },
            None => {},
        }
        match up.due {
            Some(d) => {
                nt.due = d;
            },
            None => {},
        }
        nt.updated_at = now;
        proof {
            assert(self.notes@ =~= b0.notes@.update(n as int, up.applied(b0.notes@[n as int], now)));
            assert(forall|p: int|
                0 <= p < self.notes@.len() ==> (#[trigger] self.notes@[p]).id@ == b0.notes@[p].id@);
            assert forall|c: int, k: int|
                0 <= c < self.columns@.len() && 0 <= k < self.columns@[c].note_ids@.len() implies
                self.has_note((#[trigger] self.columns@[c].note_ids@[k])@) by {
                let idtxt = self.columns@[c].note_ids@[k]@;
                assert(b0.has_note(idtxt));
                let w = choose|w: int|
                    0 <= w < b0.notes@.len() && (#[trigger] b0.notes@[w]).id@ == idtxt;
                assert(self.notes@[w].id@ == idtxt);
            };
        }
        Ok(())
    }

    /// Deletes the note `note_id` in one operation: removes it from the note
    /// mapping and scrubs its id from the columns. Fails with `NoteNotFound`
    /// when the id is absent and with `NoteLocationMissing` when the note
    /// exists but no column lists it, leaving the board untouched either way.
    pub fn delete_note(&mut self, note_id: &str) -> (r: Result<(), BoardError>)
        requires
            old(self).wf(),
        ensures
            final(self).wf(),
            final(self).name == old(self).name,
            old(self).same_column_frames(*final(self)),
            !old(self).has_note(note_id@) ==> (r matches Err(e) && e matches
                BoardError::NoteNotFound(s) && s@ == note_id@ && *final(self) == *old(self)),
            old(self).has_note(note_id@) && !old(self).note_in_some_column(note_id@) ==> (r matches
                Err(e) && e matches BoardError::NoteLocationMissing(s) && s@ == note_id@ && *final(self) == *old(self)),
            old(self).has_note(note_id@) && old(self).note_in_some_column(note_id@) ==> r is Ok
                && board_after_delete(*old(self), note_id@, *final(self)),
            old(self).exclusive_placement() ==> final(self).exclusive_placement(),
            r is Err ==> *final(self) == *old(self),
            r is Ok ==> !final(self).has_note(note_id@),
    {
        let n = match self.find_note_index(note_id) {
            Some(n) => n,
            None => {
                return Err(BoardError::NoteNotFound(String::from_str(note_id)));
            },
        };
        if self.find_note_column_index(note_id).is_none() {
            return Err(BoardError::NoteLocationMissing(String::from_str(note_id)));
        }
        let ghost b0 = *self;
        let ncols = self.columns.len();
        let mut c: usize = 0;
        while c < ncols
            invariant
                0 <= c <= ncols,
                ncols == self.columns@.len(),
                self.columns@.len() == b0.columns@.len(),
                self.notes@ == b0.notes@,
                self.name == b0.name,
                forall|j: int|
                    0 <= j < c ==> col_ids(#[trigger] self.columns@[j]) == ids_without(
                        col_ids(b0.columns@[j]),
                        note_id@,
                    ) && self.columns@[j].id == b0.columns@[j].id && self.columns@[j].name
                        == b0.columns@[j].name && self.columns@[j].wip_limit
                        == b0.columns@[j].wip_limit,
                forall|j: int| c <= j < ncols ==> #[trigger] self.columns@[j] == b0.columns@[j],
            decreases ncols - c,
        {
            let kept = remove_id_entries(&self.columns[c].note_ids, note_id);
            let colref = &mut self.columns[c];
            colref.note_ids = kept;
            c += 1;
        }
        self.notes.remove(n);
        proof {
            assert(self.notes@ == b0.notes@.remove(n as int));
            assert forall|w: int|
                0 <= w < self.notes@.len() implies (#[trigger] self.notes@[w]).id@ != note_id@ by {
                let w0 = if w < n as int {
                    w
                } else {
                    w + 1
                };
                assert(self.notes@[w] == b0.notes@[w0]);
                assert(b0.notes@[n as int].id@ == note_id@);
            };
            assert forall|p: int, q: int|
                0 <= p < q < self.notes@.len() implies (#[trigger] self.notes@[p]).id@ != (
            #[trigger] self.notes@[q]).id@ by {
                let p0 = if p < n as int {
                    p
                } else {
                    p + 1
                };
                let q0 = if q < n as int {
                    q
                } else {
                    q + 1
                };
                assert(self.notes@[p] == b0.notes@[p0]);
                assert(self.notes@[q] == b0.notes@[q0]);
            };
            assert forall|c2: int, k: int|
                0 <= c2 < self.columns@.len() && 0 <= k < self.columns@[c2].note_ids@.len() implies
                self.has_note((#[trigger] self.columns@[c2].note_ids@[k])@) by {
                let idtxt = self.columns@[c2].note_ids@[k]@;
                lemma_ids_without_props(col_ids(b0.columns@[c2]), note_id@);
                assert(col_ids(self.columns@[c2])[k] == idtxt);
                assert(col_ids(self.columns@[c2]).contains(idtxt));
                assert(col_ids(b0.columns@[c2]).contains(idtxt) && idtxt != note_id@);
                let w = choose|w: int|
                    0 <= w < col_ids(b0.columns@[c2]).len() && col_ids(b0.columns@[c2])[w] == idtxt;
                assert(b0.columns@[c2].note_ids@[w]@ == idtxt);
                assert(b0.has_note(idtxt));
                let w2 = choose|w2: int|
                    0 <= w2 < b0.notes@.len() && (#[trigger] b0.notes@[w2]).id@ == idtxt;
                assert(w2 != n as int);
                let w3 = if w2 < n as int {
                    w2
                } else {
                    w2 - 1
                };
                assert(self.notes@[w3] == b0.notes@[w2]);
                assert(self.has_note(idtxt));
            };
            assert forall|p: int|
                0 <= p < self.notes@.len() implies (#[trigger] self.notes@[p]).due_valid() by {
                let p0 = if p < n as int {
                    p
                } else {
                    p + 1
                };
                assert(self.notes@[p] == b0.notes@[p0]);
                assert(b0.notes@[p0].due_valid());
            };
            if b0.exclusive_placement() {
                assert forall|c1: int, k1: int, c2: int, k2: int|
                    0 <= c1 < self.columns@.len() && 0 <= k1 < self.columns@[c1].note_ids@.len()
                        && 0 <= c2 < self.columns@.len() && 0 <= k2
                        < self.columns@[c2].note_ids@.len() && (c1 != c2 || k1 != k2) implies (
                #[trigger] self.columns@[c1].note_ids@[k1])@ != (
                #[trigger] self.columns@[c2].note_ids@[k2])@ by {
                    let x1 = self.columns@[c1].note_ids@[k1]@;
                    let x2 = self.columns@[c2].note_ids@[k2]@;
                    if x1 == x2 {
                        lemma_ids_without_props(col_ids(b0.columns@[c1]), note_id@);
                        lemma_ids_without_props(col_ids(b0.columns@[c2]), note_id@);
                        assert(forall|p: int, q: int|
                            0 <= p < q < col_ids(b0.columns@[c1]).len() ==> col_ids(
                                b0.columns@[c1],
                            )[p] != col_ids(b0.columns@[c1])[q]) by {
                            assert(forall|p: int|
                                0 <= p < b0.columns@[c1].note_ids@.len() ==> col_ids(
                                    b0.columns@[c1],
                                )[p] == (#[trigger] b0.columns@[c1].note_ids@[p])@);
                        }
                        if c1 == c2 {
                            assert(col_ids(self.columns@[c1])[k1] == x1);
                            assert(col_ids(self.columns@[c1])[k2] == x2);
                            assert(false);
                        } else {
                            assert(col_ids(self.columns@[c1])[k1] == x1);
                            assert(col_ids(self.columns@[c1]).contains(x1));
                            assert(col_ids(b0.columns@[c1]).contains(x1));
                            assert(col_ids(self.columns@[c2])[k2] == x2);
                            assert(col_ids(self.columns@[c2]).contains(x2));
                            assert(col_ids(b0.columns@[c2]).contains(x2));
                            let w1 = choose|w1: int|
                                0 <= w1 < col_ids(b0.columns@[c1]).len() && col_ids(
                                    b0.columns@[c1],
                                )[w1] == x1;
                            let w2 = choose|w2: int|
                                0 <= w2 < col_ids(b0.columns@[c2]).len() && col_ids(
                                    b0.columns@[c2],
                                )[w2] == x2;
                            assert(b0.columns@[c1].note_ids@[w1]@ == x1);
                            assert(b0.columns@[c2].note_ids@[w2]@ == x2);
                            assert(false);
                        }
                    }
                };
            }
        }
        Ok(())
    }

    /// The column a new note goes to: the requested one, or the board's
    /// first column when none was requested.
    pub fn target_column_id(&self, requested: Option<String>) -> (r: Option<String>)
        ensures
            requested matches Some(c) ==> r == Some(c),
            requested is None && self.columns@.len() > 0 ==> (r matches Some(c) && c@
                == self.columns@[0].id@),
            requested is None && self.columns@.len() == 0 ==> r is None,
    {
        match requested {
            Some(c) => Some(c),
            None => {
                if self.columns.len() > 0 {
                    Some(self.columns[0].id.clone())
                } else {
                    None
                }
            },
        }
    }

    /// A fresh board with the four standard columns and no notes.
    pub fn default_named(name: String) -> (b: Board)
        ensures
            b.wf(),
            b.exclusive_placement(),
            b.name == name,
            b.notes@.len() == 0,
            b.columns@.len() == 4,
            b.columns@[0].id@ == "todo"@ && b.columns@[0].name@ == "To Do"@,
            b.columns@[1].id@ == "doing"@ && b.columns@[1].name@ == "Doing"@,
            b.columns@[2].id@ == "waiting"@ && b.columns@[2].name@ == "Waiting"@,
            b.columns@[3].id@ == "done"@ && b.columns@[3].name@ == "Done"@,
            forall|c: int|
                0 <= c < 4 ==> (#[trigger] b.columns@[c]).wip_limit is None
                    && b.columns@[c].note_ids@.len() == 0,
    {
        let mut columns: Vec<Column> = Vec::new();
        columns.push(
            Column {
                id: String::from_str("todo"),
                name: String::from_str("To Do"),
                wip_limit: None,
                note_ids: Vec::new(),
            },
        );
        columns.push(
            Column {
                id: String::from_str("doing"),
                name: String::from_str("Doing"),
                wip_limit: None,
                note_ids: Vec::new(),
            },
        );
        columns.push(
            Column {
                id: String::from_str("waiting"),
                name: String::from_str("Waiting"),
                wip_limit: None,
                note_ids: Vec::new(),
            },
        );
        columns.push(
            Column {
                id: String::from_str("done"),
                name: String::from_str("Done"),
                wip_limit: None,
                note_ids: Vec::new(),
            },
        );
        Board { name, columns, notes: Vec::new() }
    }
}

/// A field-by-field patch applied to a note: `None` keeps the field, `Some`
/// replaces it (for `body` and `due`, with another optional value).
pub struct NoteUpdate {
    pub title: Option<String>,
    pub body: Option<Option<String>>,
    pub tags: Option<Vec<String>>,
    pub due: Option<Option<DateTime>>,
}

impl NoteUpdate {
    /// A patch that changes no field (the update path still refreshes
    /// `updated_at`).
    pub fn keep_all() -> (u: NoteUpdate)
        ensures
            u.title is None,
            u.body is None,
            u.tags is None,
            u.due is None,
    {
        NoteUpdate { title: None, body: None, tags: None, due: None }
    }

    /// A due date written into the note, when the patch sets one, is a real
    /// calendar value.
    pub open spec fn due_valid(self) -> bool {
        match self.due {
            Some(Some(d)) => d.valid(),
            _ => true,
        }
    }

    /// The patch a command-line edit asks for: a given title or body replaces
    /// the field; given tags replace the tag list, else clearing empties it;
    /// a given due date replaces the field, else clearing removes it.
    pub fn from_cli_edit(
        title: Option<String>,
        body: Option<String>,
        tags: Vec<String>,
        clear_tags: bool,
        due: Option<DateTime>,
        clear_due: bool,
    ) -> (u: NoteUpdate)
        ensures
            u.title == title,
            u.body == (match body {
                Some(b) => Some(Some(b)),
                None => None::<Option<String>>,
            }),
            tags@.len() > 0 ==> (u.tags matches Some(t) && t@ == tags@),
            tags@.len() == 0 && clear_tags ==> (u.tags matches Some(t) && t@.len() == 0),
            tags@.len() == 0 && !clear_tags ==> u.tags is None,
            u.due == (match due {
                Some(d) => Some(Some(d)),
                None => if clear_due {
                    Some(None::<DateTime>)
                } else {
                    None::<Option<DateTime>>
                },
            }),
    {
        let body_up = match body {
            Some(b) => Some(Some(b)),
            None => None,
        };
        let tags_up = if tags.len() > 0 {
            Some(tags)
        } else if clear_tags {
            let empty: Vec<String> = Vec::new();
            Some(empty)
        } else {
            None
        };
        let due_up = match due {
            Some(d) => Some(Some(d)),
            None => {
                if clear_due {
                    Some(None)
                } else {
                    None
                }
            },
        };
        NoteUpdate { title, body: body_up, tags: tags_up, due: due_up }
    }

    /// The note as it stands after this patch, stamped at `now`.
    pub open spec fn applied(self, n: Note, now: u64) -> Note {
        Note {
            id: n.id,
            title: match self.title {
                Some(t) => t,
                None => n.title,
            },
            body: match self.body {
                Some(b) => b,
                None => n.body,
            },
            tags: match self.tags {
                Some(t) => t,
                None => n.tags,
            },
            created_at: n.created_at,
            updated_at: now,
            due: match self.due {
                Some(d) => d,
                None => n.due,
            },
        }
    }
}

/// The board after a successful cross-column move of note `id` from the
/// column at `s` into the column at `d`: the source lost every entry reading
/// the id, the destination gained it at the end, no other column changed, and
/// the note was restamped with `now`.
pub open spec fn move_applied(b0: Board, b1: Board, id: Seq<char>, s: int, d: int, now: u64) -> bool {
    &&& col_ids(b1.columns@[s]) == ids_without(col_ids(b0.columns@[s]), id)
    &&& col_ids(b1.columns@[d]) == col_ids(b0.columns@[d]).push(id)
    &&& forall|j: int|
        0 <= j < b0.columns@.len() && j != s && j != d ==> #[trigger] b1.columns@[j]
            == b0.columns@[j]
    &&& forall|n: int|
        b0.is_note_at(id, n) ==> b1.notes@ == b0.notes@.update(
            n,
            (Note { updated_at: now, ..b0.notes@[n] }),
        )
}

/// The board after a delete of note `id`: the note left the mapping and its
/// id was scrubbed from every column, whose frames are kept.
pub open spec fn board_after_delete(b0: Board, id: Seq<char>, b1: Board) -> bool {
    &&& forall|n: int| b0.is_note_at(id, n) ==> b1.notes@ == b0.notes@.remove(n)
    &&& forall|c: int|
        0 <= c < b0.columns@.len() ==> col_ids(#[trigger] b1.columns@[c]) == ids_without(
            col_ids(b0.columns@[c]),
            id,
        )
    &&& b0.same_column_frames(b1)
}

/// A note id listed by any column is listed by a first such column.
pub proof fn lemma_first_note_column_exists(b: Board, id: Seq<char>)
    requires
        b.note_in_some_column(id),
    ensures
        exists|s: int| b.is_first_note_column(id, s),
{
    let w = choose|w: int| 0 <= w < b.columns@.len() && (#[trigger] b.columns@[w]).contains_note(id);
    lemma_first_note_column_below(b, id, w);
}

proof fn lemma_first_note_column_below(b: Board, id: Seq<char>, w: int)
    requires
        0 <= w < b.columns@.len(),
        b.columns@[w].contains_note(id),
    ensures
        exists|s: int| b.is_first_note_column(id, s),
    decreases w,
{
    if forall|j: int| 0 <= j < w ==> !(#[trigger] b.columns@[j]).contains_note(id) {
        assert(b.is_first_note_column(id, w));
    } else {
        let w2 = choose|w2: int| 0 <= w2 < w && (#[trigger] b.columns@[w2]).contains_note(id);
        lemma_first_note_column_below(b, id, w2);
    }
}

/// A column id with any match has a first match.
pub proof fn lemma_first_column_exists(b: Board, id: Seq<char>)
    requires
        b.has_column(id),
    ensures
        exists|i: int| b.is_first_column(id, i),
{
    let w = choose|w: int| 0 <= w < b.columns@.len() && (#[trigger] b.columns@[w]).id@ == id;
    lemma_first_column_below(b, id, w);
}

proof fn lemma_first_column_below(b: Board, id: Seq<char>, w: int)
    requires
        0 <= w < b.columns@.len(),
        b.columns@[w].id@ == id,
    ensures
        exists|i: int| b.is_first_column(id, i),
    decreases w,
{
    if forall|j: int| 0 <= j < w ==> (#[trigger] b.columns@[j]).id@ != id {
        assert(b.is_first_column(id, w));
    } else {
        let w2 = choose|w2: int| 0 <= w2 < w && (#[trigger] b.columns@[w2]).id@ == id;
        lemma_first_column_below(b, id, w2);
    }
}

/// Structural relation between a board and its state after a move.
spec fn move_shape(b0: Board, b1: Board, sidx: int, didx: int, id: Seq<char>) -> bool {
    &&& 0 <= sidx < b0.columns@.len()
    &&& 0 <= didx < b0.columns@.len()
    &&& sidx != didx
    &&& b1.columns@.len() == b0.columns@.len()
    &&& col_ids(b1.columns@[sidx]) == ids_without(col_ids(b0.columns@[sidx]), id)
    &&& col_ids(b1.columns@[didx]) == col_ids(b0.columns@[didx]).push(id)
    &&& forall|j: int|
        0 <= j < b0.columns@.len() && j != sidx && j != didx ==> col_ids(
            #[trigger] b1.columns@[j],
        ) == col_ids(b0.columns@[j])
}

/// Every entry of the moved-to board other than the appended one sits at a
/// position of the old board with the same text; entries of the source column
/// no longer read the moved id.
proof fn lemma_old_position(
    b0: Board,
    b1: Board,
    sidx: int,
    didx: int,
    id: Seq<char>,
    c: int,
    k: int,
) -> (o: int)
    requires
        move_shape(b0, b1, sidx, didx, id),
        0 <= c < b1.columns@.len(),
        0 <= k < b1.columns@[c].note_ids@.len(),
        !(c == didx && k == col_ids(b0.columns@[didx]).len()),
    ensures
        0 <= o < b0.columns@[c].note_ids@.len(),
        b0.columns@[c].note_ids@[o]@ == b1.columns@[c].note_ids@[k]@,
        c == sidx ==> b1.columns@[c].note_ids@[k]@ != id,
        c != sidx ==> o == k,
{
    let x = b1.columns@[c].note_ids@[k]@;
    assert(col_ids(b1.columns@[c])[k] == x);
    if c == sidx {
        lemma_ids_without_props(col_ids(b0.columns@[sidx]), id);
        assert(col_ids(b1.columns@[sidx]).contains(x));
        assert(col_ids(b0.columns@[sidx]).contains(x) && x != id);
        let wx = choose|wx: int|
            0 <= wx < col_ids(b0.columns@[sidx]).len() && col_ids(b0.columns@[sidx])[wx] == x;
        assert(b0.columns@[sidx].note_ids@[wx]@ == x);
        wx
    } else if c == didx {
        assert(col_ids(b1.columns@[didx]).len() == b1.columns@[didx].note_ids@.len());
        assert(col_ids(b0.columns@[didx]).len() == b0.columns@[didx].note_ids@.len());
        assert(col_ids(b1.columns@[didx])[k] == col_ids(b0.columns@[didx])[k]);
        assert(b0.columns@[didx].note_ids@[k]@ == x);
        k
    } else {
        assert(col_ids(b1.columns@[c]) == col_ids(b0.columns@[c]));
        assert(col_ids(b0.columns@[c]).len() == b0.columns@[c].note_ids@.len());
        assert(b0.columns@[c].note_ids@[k]@ == x);
        k
    }
}

/// Moving a note out of its column and straight back returns it to that
/// column — at the end of its id list, and listed nowhere else — with
/// `updated_at` freshly restamped and every other field kept. `b1` and `b2`
/// are the boards `move_note`'s contract yields for the two moves; the
/// strictly-later stamp rests on the two premises the model itself cannot
/// supply: the board placed each id at most once, and the instant of the
/// second move exceeds the note's stamp before the first.
pub proof fn lemma_move_round_trip(
    b0: Board,
    b1: Board,
    b2: Board,
    id: Seq<char>,
    src: int,
    dst: int,
    now1: u64,
    now2: u64,
    n: int,
)
    requires
        b0.wf(),
        b0.exclusive_placement(),
        b0.is_note_at(id, n),
        0 <= src < b0.columns@.len(),
        0 <= dst < b0.columns@.len(),
        src != dst,
        b0.columns@[src].contains_note(id),
        move_applied(b0, b1, id, src, dst, now1),
        b0.same_column_frames(b1),
        move_applied(b1, b2, id, dst, src, now2),
        b1.same_column_frames(b2),
        now2 > b0.notes@[n].updated_at,
    ensures
        col_ids(b2.columns@[src]).len() > 0,
        col_ids(b2.columns@[src]).last() == id,
        forall|c: int|
            0 <= c < b2.columns@.len() && c != src ==> !(#[trigger] b2.columns@[c]).contains_note(
                id,
            ),
        b2.notes@.len() == b0.notes@.len(),
        b2.notes@[n].updated_at == now2,
        b2.notes@[n].updated_at > b0.notes@[n].updated_at,
        b2.notes@[n].id == b0.notes@[n].id,
        b2.notes@[n].created_at == b0.notes@[n].created_at,
        b2.notes@[n].title == b0.notes@[n].title,
        b2.notes@[n].body == b0.notes@[n].body,
        b2.notes@[n].tags == b0.notes@[n].tags,
        b2.notes@[n].due == b0.notes@[n].due,
{
    assert(b1.notes@ == b0.notes@.update(n, (Note { updated_at: now1, ..b0.notes@[n] })));
    assert(b1.is_note_at(id, n));
    assert(b2.notes@ == b1.notes@.update(n, (Note { updated_at: now2, ..b1.notes@[n] })));
    assert(col_ids(b2.columns@[src]) == col_ids(b1.columns@[src]).push(id));
    assert(col_ids(b1.columns@[dst]) == col_ids(b0.columns@[dst]).push(id));
    assert(col_ids(b2.columns@[dst]) == ids_without(col_ids(b1.columns@[dst]), id));
    let k0 = choose|k0: int|
        0 <= k0 < b0.columns@[src].note_ids@.len() && (#[trigger] b0.columns@[src].note_ids@[k0])@
            == id;
    assert forall|c: int|
        0 <= c < b2.columns@.len() && c != src implies !(#[trigger] b2.columns@[c]).contains_note(
        id,
    ) by {
        if b2.columns@[c].contains_note(id) {
            let k = choose|k: int|
                0 <= k < b2.columns@[c].note_ids@.len() && (#[trigger] b2.columns@[c].note_ids@[k])@
                    == id;
            if c == dst {
                assert(col_ids(b2.columns@[dst])[k] == id);
                assert(col_ids(b2.columns@[dst]).contains(id));
                lemma_ids_without_props(col_ids(b1.columns@[dst]), id);
                assert(false);
            } else {
                assert(b2.columns@[c] == b1.columns@[c]);
                assert(b1.columns@[c] == b0.columns@[c]);
                assert(b0.columns@[c].note_ids@[k]@ == id);
                assert(b0.columns@[src].note_ids@[k0]@ == id);
                assert(false);
            }
        }
    };
}

/// A board that placed each note id at most once still does after a move:
/// the source column lost every entry reading the id, the destination gained
/// exactly one, and no other column changed.
proof fn lemma_move_exclusive(b0: Board, b1: Board, sidx: int, didx: int, id: Seq<char>)
    requires
        b0.exclusive_placement(),
        b0.columns@[sidx].contains_note(id),
        move_shape(b0, b1, sidx, didx, id),
    ensures
        b1.exclusive_placement(),
{
    lemma_ids_without_props(col_ids(b0.columns@[sidx]), id);
    assert(forall|p: int, q: int|
        0 <= p < q < col_ids(b0.columns@[sidx]).len() ==> col_ids(b0.columns@[sidx])[p] != col_ids(
            b0.columns@[sidx],
        )[q]) by {
        assert(forall|p: int|
            0 <= p < b0.columns@[sidx].note_ids@.len() ==> col_ids(b0.columns@[sidx])[p] == (
            #[trigger] b0.columns@[sidx].note_ids@[p])@);
    }
    let w0 = choose|w0: int|
        0 <= w0 < b0.columns@[sidx].note_ids@.len() && (#[trigger] b0.columns@[sidx].note_ids@[w0])@
            == id;
    let ld = col_ids(b0.columns@[didx]).len() as int;
    assert forall|c1: int, k1: int, c2: int, k2: int|
        0 <= c1 < b1.columns@.len() && 0 <= k1 < b1.columns@[c1].note_ids@.len() && 0 <= c2
            < b1.columns@.len() && 0 <= k2 < b1.columns@[c2].note_ids@.len() && (c1 != c2 || k1
            != k2) implies (#[trigger] b1.columns@[c1].note_ids@[k1])@ != (
    #[trigger] b1.columns@[c2].note_ids@[k2])@ by {
        let x1 = b1.columns@[c1].note_ids@[k1]@;
        let x2 = b1.columns@[c2].note_ids@[k2]@;
        if x1 == x2 {
            let x = x1;
            if c1 == sidx && c2 == sidx {
                assert(col_ids(b1.columns@[sidx])[k1] == x1);
                assert(col_ids(b1.columns@[sidx])[k2] == x2);
                assert(false);
            } else {
                let new1 = c1 == didx && k1 == ld;
                let new2 = c2 == didx && k2 == ld;
                if new1 && new2 {
                    assert(false);
                } else if new1 || new2 {
                    let oc = if new1 {
                        c2
                    } else {
                        c1
                    };
                    let ok = if new1 {
                        k2
                    } else {
                        k1
                    };
                    assert(col_ids(b1.columns@[didx])[ld] == id);
                    assert(x == id);
                    let o = lemma_old_position(b0, b1, sidx, didx, id, oc, ok);
                    if oc == sidx {
                        assert(false);
                    } else {
                        assert(b0.columns@[oc].note_ids@[o]@ == id);
                        assert(b0.columns@[sidx].note_ids@[w0]@ == id);
                        assert(false);
                    }
                } else {
                    let o1 = lemma_old_position(b0, b1, sidx, didx, id, c1, k1);
                    let o2 = lemma_old_position(b0, b1, sidx, didx, id, c2, k2);
                    assert(b0.columns@[c1].note_ids@[o1]@ == x);
                    assert(b0.columns@[c2].note_ids@[o2]@ == x);
                    assert(c1 != c2 || o1 != o2);
                    assert(false);
                }
            }
        }
    };
}


} // verus!
