//! The application core: one owned board plus all navigation and modal state,
//! and the routing of key input to model mutations, form editing and view
//! navigation. Input decoding, rendering and persistence live outside; a key
//! press comes in as a plain value together with the current instant, and the
//! outcome says whether to quit and whether the board must be saved.

use vstd::prelude::*;
use vstd::string::StringExecFns;
use crate::editor::FieldValue;
use crate::form::{FormError, NoteForm};
use crate::ids::generate_id;
use crate::location::BoardLocation;
use crate::model::{Board, BoardError, Note, NoteUpdate};
use crate::nav::{focus_next, focus_prev, view_label, ProjectFocus, ProjectState, TimelineFocus, TimelineState, ViewMode};
use crate::projections::{count_unassigned, due_on, first_due_on_cursor, is_assigned_list, is_tag_buckets, is_unassigned_list, lemma_buckets_shape, lemma_tag_buckets_unique_shape, project_tags, timeline_lists, TagBucket};
use crate::scroll::adjust_offset;
use crate::time::{date_text, format_date, shift_date, spec_shift_date, Date};

verus! {

/// A decoded key press: the key itself plus the control and alt modifiers.
#[derive(Clone, Copy, PartialEq, Eq, Structural, Debug)]
pub struct KeyInput {
    pub code: KeyCode,
    pub ctrl: bool,
    pub alt: bool,
}

/// The keys the core reacts to; everything else decodes to `Other`.
#[derive(Clone, Copy, PartialEq, Eq, Structural, Debug)]
pub enum KeyCode {
    Char(char),
    Left,
    Right,
    Up,
    Down,
    Enter,
    Esc,
    Tab,
    BackTab,
    Backspace,
    Other,
}

/// What the caller must do after a key was handled: end the session, and/or
/// persist the board.
#[derive(Clone, Copy, PartialEq, Eq, Structural, Debug)]
pub struct KeyOutcome {
    pub quit: bool,
    pub persist: bool,
}

/// The current interaction mode, orthogonal to the displayed view.
pub enum Mode {
    Normal,
    Creating(NoteForm),
    Editing { note_id: String, form: NoteForm },
    ConfirmDelete { note_id: String },
}

/// Why a create or edit submit was rejected.
pub enum ActionError {
    Form(FormError),
    NoColumns,
    Board(BoardError),
}

impl ActionError {
    /// What this error says, as text.
    pub open spec fn text_spec(self) -> Seq<char> {
        match self {
            ActionError::Form(FormError::TitleRequired) => "title is required"@,
            ActionError::Form(FormError::InvalidDue) => "invalid date format (use YYYY.MM.DD@hh:mm)"@,
            ActionError::NoColumns => "no columns available to place the note"@,
            ActionError::Board(e) => e.text_spec(),
        }
    }

    /// Renders the error for the status line.
    pub fn message(&self) -> (r: String)
        ensures
            r@ == self.text_spec(),
    {
        match self {
            ActionError::Form(FormError::TitleRequired) => String::from_str("title is required"),
            ActionError::Form(FormError::InvalidDue) => String::from_str(
                "invalid date format (use YYYY.MM.DD@hh:mm)",
            ),
            ActionError::NoColumns => String::from_str("no columns available to place the note"),
            ActionError::Board(e) => e.message(),
        }
    }
}

/// Which submit path a form feeds.
enum FormAction {
    Create,
    Edit(String),
}

/// The whole session state.
pub struct App {
    pub board: Board,
    pub location: BoardLocation,
    pub selected_column: usize,
    pub selected_note: usize,
    pub scroll_offsets: Vec<usize>,
    pub status: String,
    pub mode: Mode,
    pub view: ViewMode,
    pub timeline: TimelineState,
    pub project: ProjectState,
}

impl App {
    /// Board-view selection indices stay inside the board.
    pub open spec fn selection_ok(self) -> bool {
        if self.board.columns@.len() == 0 {
            self.selected_column == 0 && self.selected_note == 0
        } else {
            self.selected_column < self.board.columns@.len() && (self.selected_note == 0
                || self.selected_note
                < self.board.columns@[self.selected_column as int].note_ids@.len())
        }
    }

    /// A form held by the current mode is well formed.
    pub open spec fn mode_wf(self) -> bool {
        match self.mode {
            Mode::Creating(f) => f.wf(),
            Mode::Editing { note_id, form } => form.wf(),
            _ => true,
        }
    }

    /// The session invariant: the board invariant, one scroll offset per
    /// column, a valid board-view selection, a real calendar cursor, and a
    /// well-formed form when one is open.
    pub open spec fn wf(self) -> bool {
        &&& self.board.wf()
        &&& self.scroll_offsets@.len() == self.board.columns@.len()
        &&& self.selection_ok()
        &&& self.timeline.calendar_cursor.valid()
        &&& self.mode_wf()
    }

    /// Whether the board view currently selects a real cell.
    pub open spec fn has_board_selection(self) -> bool {
        self.selected_column < self.board.columns@.len() && self.selected_note
            < self.board.columns@[self.selected_column as int].note_ids@.len()
    }

    /// The note id the selected board cell names.
    pub open spec fn board_selected_id(self) -> Seq<char> {
        self.board.columns@[self.selected_column as int].note_ids@[self.selected_note as int]@
    }

    /// The id of the selected column.
    pub open spec fn selected_column_id(self) -> Seq<char> {
        self.board.columns@[self.selected_column as int].id@
    }

    /// Whether a create submitted from this state goes through: the form
    /// parses, a column is selected, and the first column matching its id is
    /// below its WIP limit.
    pub open spec fn create_accepted(self, form: NoteForm) -> bool {
        form.parses() && self.board.columns@.len() > 0 && (forall|i: int|
            self.board.is_first_column(self.selected_column_id(), i) ==> !(
            #[trigger] self.board.columns@[i]).at_wip_limit())
    }

    /// Whether an edit of note `id` submitted from this state goes through.
    pub open spec fn edit_accepted(self, form: NoteForm, id: Seq<char>) -> bool {
        form.parses() && self.board.has_note(id)
    }

    /// Whether note `id` can be deleted: it exists and sits in a column.
    pub open spec fn deletable(self, id: Seq<char>) -> bool {
        self.board.has_note(id) && self.board.note_in_some_column(id)
    }

    /// A fresh session over `board`, in normal mode on the board view, with
    /// the status line reporting where the board was loaded from.
    pub fn new(board: Board, location: BoardLocation, today: Date) -> (app: App)
        requires
            board.wf(),
            today.valid(),
        ensures
            app.wf(),
            app.board == board,
            app.location == location,
            app.mode is Normal,
            app.view == ViewMode::Board,
            app.selected_column == 0,
            app.selected_note == 0,
            app.status@ == "Loaded board from "@ + location.path@,
            forall|i: int| 0 <= i < app.scroll_offsets@.len() ==> (#[trigger] app.scroll_offsets@[i]) == 0,
    {
        let status = String::from_str("Loaded board from ").concat(location.path.as_str());
        let column_count = board.columns.len();
        let timeline = TimelineState::new(&board, today);
        let scroll_offsets: Vec<usize> = vec![0; column_count];
        App {
            board,
            location,
            selected_column: 0,
            selected_note: 0,
            scroll_offsets,
            status,
            mode: Mode::Normal,
            view: ViewMode::Board,
            timeline,
            project: ProjectState::new(),
        }
    }

    /// Sets the status line (the caller reports, for one, a failed save).
    pub fn set_status(&mut self, status: String)
        requires
            old(self).wf(),
        ensures
            final(self).wf(),
            final(self).status == status,
            final(self).board == old(self).board,
            final(self).mode is Normal <==> old(self).mode is Normal,
    {
        self.status = status;
    }

    /// Steps the board-view selection one column left, resetting the row.
    pub fn prev_column(&mut self)
        requires
            old(self).wf(),
        ensures
            final(self).wf(),
            *final(self) == (if old(self).selected_column > 0 {
                (App {
                    selected_column: (old(self).selected_column - 1) as usize,
                    selected_note: 0,
                    ..*old(self)
                })
            } else {
                *old(self)
            }),
    {
        if self.selected_column > 0 {
            self.selected_column -= 1;
            self.selected_note = 0;
        }
    }

    /// Steps the board-view selection one column right, resetting the row.
    pub fn next_column(&mut self)
        requires
            old(self).wf(),
        ensures
            final(self).wf(),
            *final(self) == (if old(self).selected_column + 1 < old(self).board.columns@.len() {
                (App {
                    selected_column: (old(self).selected_column + 1) as usize,
                    selected_note: 0,
                    ..*old(self)
                })
            } else {
                *old(self)
            }),
    {
        let n = self.board.columns.len();
        if self.selected_column < n && self.selected_column + 1 < n {
            self.selected_column += 1;
            self.selected_note = 0;
        }
    }

    /// Steps the board-view selection one row up.
    pub fn prev_note(&mut self)
        requires
            old(self).wf(),
        ensures
            final(self).wf(),
            *final(self) == (if old(self).selected_note > 0 {
                (App { selected_note: (old(self).selected_note - 1) as usize, ..*old(self) })
            } else {
                *old(self)
            }),
    {
        if self.selected_note > 0 {
            self.selected_note -= 1;
        }
    }

    /// Steps the board-view selection one row down, stopping at the column's
    /// last note.
    pub fn next_note(&mut self)
        requires
            old(self).wf(),
        ensures
            final(self).wf(),
            *final(self) == (if old(self).selected_column < old(self).board.columns@.len() && old(self).selected_note + 1 < old(self).board.columns@[old(self).selected_column as int].note_ids@.len() {
                (App { selected_note: (old(self).selected_note + 1) as usize, ..*old(self) })
            } else {
                *old(self)
            }),
    {
        if self.selected_column < self.board.columns.len() {
            let len = self.board.columns[self.selected_column].note_ids.len();
            if self.selected_note < len && self.selected_note + 1 < len {
                self.selected_note += 1;
            }
        }
    }

    /// Re-clamps the timeline's selections and offsets against the current
    /// list lengths: an index never points past the end of its list, and an
    /// empty list forces it back to 0.
    pub fn ensure_timeline_bounds(&mut self, unassigned_len: usize, assigned_len: usize)
        requires
            old(self).wf(),
        ensures
            final(self).wf(),
            final(self).board == old(self).board,
            *final(self) == (App {
                timeline: final(self).timeline,
                ..*old(self)
            }),
            final(self).timeline == (TimelineState {
                unassigned_idx: final(self).timeline.unassigned_idx,
                unassigned_offset: final(self).timeline.unassigned_offset,
                assigned_idx: final(self).timeline.assigned_idx,
                assigned_offset: final(self).timeline.assigned_offset,
                ..old(self).timeline
            }),
            final(self).timeline.unassigned_idx == clamp_index(
                old(self).timeline.unassigned_idx,
                unassigned_len as int,
            ),
            final(self).timeline.unassigned_offset == clamp_index(
                old(self).timeline.unassigned_offset,
                unassigned_len as int,
            ),
            final(self).timeline.assigned_idx == clamp_index(
                old(self).timeline.assigned_idx,
                assigned_len as int,
            ),
            final(self).timeline.assigned_offset == clamp_index(
                old(self).timeline.assigned_offset,
                assigned_len as int,
            ),
    {
        if unassigned_len == 0 {
            self.timeline.unassigned_idx = 0;
            self.timeline.unassigned_offset = 0;
        } else {
            if self.timeline.unassigned_idx > unassigned_len - 1 {
                self.timeline.unassigned_idx = unassigned_len - 1;
            }
            if self.timeline.unassigned_offset > unassigned_len - 1 {
                self.timeline.unassigned_offset = unassigned_len - 1;
            }
        }
        if assigned_len == 0 {
            self.timeline.assigned_idx = 0;
            self.timeline.assigned_offset = 0;
        } else {
            if self.timeline.assigned_idx > assigned_len - 1 {
                self.timeline.assigned_idx = assigned_len - 1;
            }
            if self.timeline.assigned_offset > assigned_len - 1 {
                self.timeline.assigned_offset = assigned_len - 1;
            }
        }
    }

    /// Re-clamps the project view's selections against the current buckets:
    /// the tag index stays inside the bucket list, the note index inside the
    /// selected bucket, and focus falls back to the tag list when the note
    /// list vanishes.
    pub fn ensure_project_bounds(&mut self, tags: &Vec<TagBucket>)
        requires
            old(self).wf(),
        ensures
            final(self).wf(),
            final(self).board == old(self).board,
            *final(self) == (App { project: final(self).project, ..*old(self) }),
            tags@.len() == 0 ==> final(self).project == (ProjectState {
                focus: ProjectFocus::Tags,
                tag_idx: 0,
                note_idx: 0,
            }),
            tags@.len() > 0 ==> {
                let ti = clamp_index(old(self).project.tag_idx, tags@.len() as int);
                let nlen = tags@[ti as int].1@.len() as int;
                &&& final(self).project.tag_idx == ti
                &&& final(self).project.note_idx == clamp_index(old(self).project.note_idx, nlen)
                &&& final(self).project.focus == (if nlen == 0 {
                    ProjectFocus::Tags
                } else {
                    old(self).project.focus
                })
            },
    {
        let tag_count = tags.len();
        if tag_count == 0 {
            self.project.tag_idx = 0;
            self.project.note_idx = 0;
            self.project.focus_tags();
            return;
        }
        if self.project.tag_idx > tag_count - 1 {
            self.project.tag_idx = tag_count - 1;
        }
        let note_len = tags[self.project.tag_idx].1.len();
        if note_len == 0 {
            self.project.note_idx = 0;
            match self.project.focus {
                ProjectFocus::Notes => {
                    self.project.focus_tags();
                },
                ProjectFocus::Tags => {},
            }
        } else {
            if self.project.note_idx > note_len - 1 {
                self.project.note_idx = note_len - 1;
            }
        }
    }

    /// Scroll offset for the board column at `idx` under the given viewport
    /// height: the selected column follows the selection and remembers the
    /// new offset; other columns only have their stored offset clamped.
    pub fn column_scroll(&mut self, idx: usize, viewport: usize) -> (offset: usize)
        requires
            old(self).wf(),
        ensures
            final(self).wf(),
            final(self).board == old(self).board,
            *final(self) == (App { scroll_offsets: final(self).scroll_offsets, ..*old(self) }),
            offset <= crate::scroll::max_scroll_offset(
                viewport as int,
                if (idx as int) < old(self).board.columns@.len() {
                    old(self).board.columns@[idx as int].note_ids@.len() as int
                } else {
                    0
                },
            ) || (idx as int) >= old(self).board.columns@.len(),
            (idx as int) >= old(self).board.columns@.len() ==> offset == 0 && *final(self) == *old(self),
            idx == old(self).selected_column && (idx as int) < old(self).board.columns@.len()
                ==> offset == crate::scroll::spec_adjust_offset(
                old(self).selected_note as int,
                old(self).scroll_offsets@[idx as int] as int,
                viewport as int,
                1,
                old(self).board.columns@[idx as int].note_ids@.len() as int,
            ) && final(self).scroll_offsets@ == old(self).scroll_offsets@.update(
                idx as int,
                offset,
            ),
            idx != old(self).selected_column && (idx as int) < old(self).board.columns@.len()
                ==> *final(self) == *old(self) && offset as int == {
                let cap = crate::scroll::max_scroll_offset(
                    viewport as int,
                    old(self).board.columns@[idx as int].note_ids@.len() as int,
                );
                if old(self).scroll_offsets@[idx as int] <= cap {
                    old(self).scroll_offsets@[idx as int] as int
                } else {
                    cap
                }
            },
            idx == old(self).selected_column && (idx as int) < old(self).board.columns@.len()
                && viewport > 0 && old(self).selected_note
                < old(self).board.columns@[idx as int].note_ids@.len() ==> offset <= old(self).selected_note < offset + viewport,
    {
        if idx >= self.scroll_offsets.len() {
            return 0;
        }
        let len = self.board.columns[idx].note_ids.len();
        if idx == self.selected_column {
            let off = adjust_offset(self.selected_note, self.scroll_offsets[idx], viewport, 1, len);
            self.scroll_offsets.set(idx, off);
            off
        } else {
            let stored = self.scroll_offsets[idx];
            let cap = if len >= viewport {
                len - viewport
            } else {
                0
            };
            if stored <= cap {
                stored
            } else {
                cap
            }
        }
    }

    /// Scroll offset for one timeline list, remembered for the next frame:
    /// follows the (clamped) selection within the given viewport.
    pub fn timeline_scroll(&mut self, assigned: bool, list_len: usize, viewport: usize) -> (offset:
        usize)
        requires
            old(self).wf(),
        ensures
            final(self).wf(),
            final(self).board == old(self).board,
            *final(self) == (App { timeline: final(self).timeline, ..*old(self) }),
            offset <= crate::scroll::max_scroll_offset(viewport as int, list_len as int),
            offset as int == crate::scroll::spec_adjust_offset(
                clamp_index(
                    if assigned {
                        old(self).timeline.assigned_idx
                    } else {
                        old(self).timeline.unassigned_idx
                    },
                    list_len as int,
                ),
                (if assigned {
                    old(self).timeline.assigned_offset
                } else {
                    old(self).timeline.unassigned_offset
                }) as int,
                viewport as int,
                1,
                list_len as int,
            ),
            assigned ==> final(self).timeline == (TimelineState {
                assigned_offset: offset,
                ..old(self).timeline
            }),
            !assigned ==> final(self).timeline == (TimelineState {
                unassigned_offset: offset,
                ..old(self).timeline
            }),
            viewport > 0 && list_len > 0 ==> offset <= clamp_index(
                if assigned {
                    old(self).timeline.assigned_idx
                } else {
                    old(self).timeline.unassigned_idx
                },
                list_len as int,
            ) < offset + viewport,
    {
        let idx = if assigned {
            self.timeline.assigned_idx
        } else {
            self.timeline.unassigned_idx
        };
        let effective = if list_len == 0 {
            0
        } else if idx > list_len - 1 {
            list_len - 1
        } else {
            idx
        };
        let stored = if assigned {
            self.timeline.assigned_offset
        } else {
            self.timeline.unassigned_offset
        };
        let off = adjust_offset(effective, stored, viewport, 1, list_len);
        if assigned {
            self.timeline.assigned_offset = off;
        } else {
            self.timeline.unassigned_offset = off;
        }
        off
    }

    /// The note selected on the board view: the note whose id the selected
    /// cell names.
    pub fn current_board_note(&self) -> (r: Option<usize>)
        requires
            self.wf(),
        ensures
            r matches Some(i) ==> i < self.board.notes@.len()
                && self.board.notes@[i as int].id@
                == self.board.columns@[self.selected_column as int].note_ids@[self.selected_note as int]@,
            r is Some <==> self.has_board_selection(),
    {
        if self.selected_column >= self.board.columns.len() {
            return None;
        }
        if self.selected_note >= self.board.columns[self.selected_column].note_ids.len() {
            return None;
        }
        let r = self.board.find_note_index(
            self.board.columns[self.selected_column].note_ids[self.selected_note].as_str(),
        );
        proof {
            assert(self.board.has_note(
                self.board.columns@[self.selected_column as int].note_ids@[self.selected_note as int]@,
            ));
        }
        r
    }

    /// The note selected on the timeline view, when a list pane has focus.
    pub fn current_timeline_note(&self) -> (r: Option<usize>)
        requires
            self.wf(),
        ensures
            r matches Some(i) ==> i < self.board.notes@.len() && (self.timeline.focus is Unassigned
                ==> self.board.notes@[i as int].due is None) && (self.timeline.focus is Assigned
                ==> self.board.notes@[i as int].due is Some),
            self.timeline.focus is Calendar ==> r is None,
            self.timeline.focus is Unassigned ==> (r is Some <==> self.timeline.unassigned_idx
                < crate::projections::count_unassigned(self.board.notes@)),
            self.timeline.focus is Assigned ==> (r is Some <==> self.timeline.assigned_idx
                < self.board.notes@.len() - crate::projections::count_unassigned(
                self.board.notes@,
            )),
            self.timeline.focus is Unassigned ==> (r matches Some(i) ==> (exists|un: Seq<usize>| #![auto]
                is_unassigned_list(self.board.notes@, un) && (self.timeline.unassigned_idx as int)
                    < un.len() && un[self.timeline.unassigned_idx as int] == i)),
            self.timeline.focus is Assigned ==> (r matches Some(i) ==> (exists|asg: Seq<usize>| #![auto]
                is_assigned_list(self.board.notes@, asg) && (self.timeline.assigned_idx as int)
                    < asg.len() && asg[self.timeline.assigned_idx as int] == i)),
    {
        let (un, asg) = timeline_lists(&self.board);
        match self.timeline.focus {
            TimelineFocus::Unassigned => {
                if self.timeline.unassigned_idx < un.len() {
                    Some(un[self.timeline.unassigned_idx])
                } else {
                    None
                }
            },
            TimelineFocus::Assigned => {
                if self.timeline.assigned_idx < asg.len() {
                    Some(asg[self.timeline.assigned_idx])
                } else {
                    None
                }
            },
            TimelineFocus::Calendar => None,
        }
    }

    /// The note selected on the project view, when the note pane has focus.
    pub fn current_project_note(&self) -> (r: Option<usize>)
        requires
            self.wf(),
        ensures
            r matches Some(i) ==> i < self.board.notes@.len(),
            self.project.focus is Tags ==> r is None,
            self.board.notes@.len() == 0 ==> r is None,
            r is Some <==> (self.project.focus is Notes && project_selection_in_range(
                self.board,
                self.project,
            )),
    {
        match self.project.focus {
            ProjectFocus::Tags => {
                return None;
            },
            ProjectFocus::Notes => {},
        }
        let tags = project_tags(&self.board);
        proof {
            if tags@.len() > 0 {
                assert(tags@[0].1@.len() > 0);
                assert(tags@[0].1@.contains(tags@[0].1@[0]));
            }
        }
        if self.project.tag_idx >= tags.len() {
            proof {
                if project_selection_in_range(self.board, self.project) {
                    let bs = choose|bs: Seq<TagBucket>| #![auto]
                        is_tag_buckets(self.board.notes@, bs) && (self.project.tag_idx as int)
                            < bs.len() && (self.project.note_idx as int) < bs[self.project.tag_idx as int].1@.len();
                    lemma_tag_buckets_unique_shape(self.board.notes@, bs, tags@);
                    assert(false);
                }
            }
            return None;
        }
        let bucket = &tags[self.project.tag_idx].1;
        if self.project.note_idx >= bucket.len() {
            proof {
                if project_selection_in_range(self.board, self.project) {
                    let bs = choose|bs: Seq<TagBucket>| #![auto]
                        is_tag_buckets(self.board.notes@, bs) && (self.project.tag_idx as int)
                            < bs.len() && (self.project.note_idx as int) < bs[self.project.tag_idx as int].1@.len();
                    lemma_tag_buckets_unique_shape(self.board.notes@, bs, tags@);
                    assert(false);
                }
            }
            return None;
        }
        let i = bucket[self.project.note_idx];
        proof {
            assert(tags@[self.project.tag_idx as int].1@.contains(i));
            assert(project_selection_in_range(self.board, self.project)) by {
                assert(is_tag_buckets(self.board.notes@, tags@) && (self.project.tag_idx as int)
                    < tags@.len() && (self.project.note_idx as int) < tags@[self.project.tag_idx as int].1@.len());
            }
        }
        Some(i)
    }

    /// The note currently selected under the active view's selection rules.
    pub fn current_note(&self) -> (r: Option<usize>)
        requires
            self.wf(),
        ensures
            r matches Some(i) ==> i < self.board.notes@.len(),
            self.view is Board ==> (r is Some <==> self.has_board_selection()) && (r matches Some(i)
                ==> self.board.notes@[i as int].id@ == self.board_selected_id()),
            self.view is Timeline ==> (self.timeline.focus is Calendar ==> r is None) && (r matches
                Some(i) ==> (self.timeline.focus is Unassigned ==> self.board.notes@[i as int].due
                is None) && (self.timeline.focus is Assigned ==> self.board.notes@[i as int].due
                is Some)) && (self.timeline.focus is Unassigned ==> (r is Some
                <==> self.timeline.unassigned_idx < count_unassigned(self.board.notes@))) && (
            self.timeline.focus is Assigned ==> (r is Some <==> self.timeline.assigned_idx
                < self.board.notes@.len() - count_unassigned(self.board.notes@))),
            self.view is Project ==> (r is Some <==> (self.project.focus is Notes
                && project_selection_in_range(self.board, self.project))),
    {
        match self.view {
            ViewMode::Board => self.current_board_note(),
            ViewMode::Timeline => self.current_timeline_note(),
            ViewMode::Project => self.current_project_note(),
        }
    }

    /// The id of the selected board column, when the board has columns.
    pub fn current_column_id(&self) -> (r: Option<String>)
        requires
            self.wf(),
        ensures
            self.board.columns@.len() > 0 ==> (r matches Some(id) && id@
                == self.board.columns@[self.selected_column as int].id@),
            self.board.columns@.len() == 0 ==> r is None,
    {
        if self.selected_column < self.board.columns.len() {
            Some(self.board.columns[self.selected_column].id.clone())
        } else {
            None
        }
    }

    /// Deletes a note through the model (one operation: out of the mapping
    /// and scrubbed from the columns) and keeps the board-view selection
    /// inside its (possibly shortened) column. Fails exactly when the note is
    /// absent or, the integrity fault surfaced rather than repaired, when it
    /// sits in no column; the whole session is untouched then.
    pub fn delete_note(&mut self, note_id: &str) -> (r: Result<(), BoardError>)
        requires
            old(self).wf(),
        ensures
            final(self).wf(),
            r is Err ==> *final(self) == *old(self),
            r is Ok <==> old(self).deletable(note_id@),
            (r matches Err(e) && e matches BoardError::NoteNotFound(sid) && sid@ == note_id@)
                <==> !old(self).board.has_note(note_id@),
            (r matches Err(e) && e matches BoardError::NoteLocationMissing(sid) && sid@
                == note_id@) <==> (old(self).board.has_note(note_id@) && !old(
                self).board.note_in_some_column(note_id@)),
            r matches Err(e) ==> e.text_spec() == (if !old(self).board.has_note(note_id@) {
                "note not found: "@ + note_id@
            } else {
                "note "@ + note_id@ + " not present in any column"@
            }),
            r is Ok ==> crate::model::board_after_delete(
                old(self).board,
                note_id@,
                final(self).board,
            ) && !final(self).board.has_note(note_id@) && *final(self) == (App {
                board: final(self).board,
                selected_note: final(self).selected_note,
                ..*old(self)
            }) && final(self).selected_note as int == clamp_int(
                old(self).selected_note as int,
                final(self).board.columns@[old(self).selected_column as int].note_ids@.len() as int,
            ),
    {
        match self.board.delete_note(note_id) {
            Err(e) => {
                return Err(e);
            },
            Ok(_u) => {},
        }
        if self.selected_column < self.board.columns.len() {
            let len = self.board.columns[self.selected_column].note_ids.len();
            if len == 0 {
                self.selected_note = 0;
            } else if self.selected_note > len - 1 {
                self.selected_note = len - 1;
            }
        }
        Ok(())
    }

    /// Moves the selected note into the column at `target_idx` through the
    /// model, following it with the selection (the moved note sits at the end
    /// of its new column); succeeds as a no-op when nothing is selected.
    pub fn move_to_column(&mut self, target_idx: usize, now: u64) -> (r: Result<(), BoardError>)
        requires
            old(self).wf(),
            target_idx < old(self).board.columns@.len(),
        ensures
            final(self).wf(),
            r is Err ==> *final(self) == *old(self),
            final(self).board.columns@.len() == old(self).board.columns@.len(),
            !old(self).has_board_selection() ==> r is Ok && *final(self) == *old(self),
            old(self).board.same_column_frames(final(self).board),
            old(self).has_board_selection() ==> (forall|s: int, d: int|
                (#[trigger] old(self).board.is_first_note_column(old(self).board_selected_id(), s))
                    && (#[trigger] old(self).board.is_first_column(
                    old(self).board.columns@[target_idx as int].id@,
                    d,
                )) ==> {
                    &&& (s == d ==> r is Ok && final(self).board == old(self).board)
                    &&& (s != d && old(self).board.columns@[d].at_wip_limit() ==> (r matches Err(e)
                        && e matches BoardError::WipLimitReached(sid) && sid@
                        == old(self).board.columns@[target_idx as int].id@))
                    &&& (s != d && !old(self).board.columns@[d].at_wip_limit() ==> r is Ok
                        && crate::model::move_applied(
                        old(self).board,
                        final(self).board,
                        old(self).board_selected_id(),
                        s,
                        d,
                        now,
                    ))
                    &&& (r is Ok ==> final(self).selected_column == target_idx && final(
                        self).selected_note as int == (
                    if final(self).board.columns@[target_idx as int].note_ids@.len() == 0 {
                        0int
                    } else {
                        final(self).board.columns@[target_idx as int].note_ids@.len() - 1
                    }) && *final(self) == (App {
                        board: final(self).board,
                        selected_column: final(self).selected_column,
                        selected_note: final(self).selected_note,
                        ..*old(self)
                    }))
                }),
    {
        if self.selected_column >= self.board.columns.len() {
            return Ok(());
        }
        if self.selected_note >= self.board.columns[self.selected_column].note_ids.len() {
            return Ok(());
        }
        let note_id = self.board.columns[self.selected_column].note_ids[self.selected_note].clone();
        let dest_id = self.board.columns[target_idx].id.clone();
        match self.board.move_note(note_id.as_str(), dest_id.as_str(), now) {
            Err(e) => {
                return Err(e);
            },
            Ok(_u) => {},
        }
        self.selected_column = target_idx;
        let len = self.board.columns[target_idx].note_ids.len();
        self.selected_note = if len == 0 {
            0
        } else {
            len - 1
        };
        Ok(())
    }

    /// Moves the selected note to the adjacent column (`delta` of 1 or -1,
    /// clamped at the board's edges) and reports whether the board changed.
    pub fn move_selected(&mut self, delta: i32, now: u64) -> (persist: bool)
        requires
            old(self).wf(),
        ensures
            final(self).wf(),
            move_selected_spec(*old(self), delta as int, now, *final(self), persist),
    {
        let ncols = self.board.columns.len();
        if ncols == 0 {
            self.status = String::from_str("No columns to move between");
            return false;
        }
        if !(self.selected_column < ncols && self.selected_note
            < self.board.columns[self.selected_column].note_ids.len()) {
            self.status = String::from_str("No note selected to move");
            return false;
        }
        let current = self.selected_column;
        let max = ncols - 1;
        let target = if delta >= 0 {
            let d = delta as usize;
            if d > max - current {
                max
            } else {
                current + d
            }
        } else {
            let neg = -(delta as i64);
            proof {
                assert(neg == -(delta as int));
                assert(0 < neg <= 0x8000_0000);
            }
            let d = neg as usize;
            if d > current {
                0
            } else {
                current - d
            }
        };
        proof {
            assert(target as int == shifted_column(current as int, ncols as int, delta as int));
        }
        if target == self.selected_column {
            self.status = String::from_str("Already at the edge of the board");
            return false;
        }
        let ghost a0 = *self;
        match self.move_to_column(target, now) {
            Err(e) => {
                let m = e.message();
                self.status = String::from_str("Move failed: ").concat(m.as_str());
                proof {
                    assert forall|s: int, d: int|
                        (#[trigger] a0.board.is_first_note_column(a0.board_selected_id(), s)) && (
                    #[trigger] a0.board.is_first_column(
                        a0.board.columns@[target as int].id@,
                        d,
                    )) && s != d && a0.board.columns@[d].at_wip_limit() implies self.status@
                        == "Move failed: "@ + "wip limit reached for column "@
                        + a0.board.columns@[target as int].id@ by {
                        assert(self.status@ =~= "Move failed: "@
                            + "wip limit reached for column "@
                            + a0.board.columns@[target as int].id@);
                    };
                }
                false
            },
            Ok(_u) => {
                let name = self.board.columns[target].name.clone();
                self.status = String::from_str("Moved to ").concat(name.as_str());
                proof {
                    assert(self.board.columns@[target as int].name@
                        == a0.board.columns@[target as int].name@);
                }
                true
            },
        }
    }

    /// Shifts the timeline's calendar cursor by a number of days.
    pub fn shift_calendar(&mut self, days: i32)
        requires
            old(self).wf(),
        ensures
            final(self).wf(),
            *final(self) == (App { timeline: final(self).timeline, ..*old(self) }),
            final(self).timeline == (TimelineState {
                calendar_cursor: spec_shift_date(old(self).timeline.calendar_cursor, days as int),
                ..old(self).timeline
            }),
    {
        self.timeline.calendar_cursor = shift_date(self.timeline.calendar_cursor, days);
    }

    /// Switches the displayed view and re-clamps every view's selection
    /// against the current lists.
    pub fn set_view(&mut self, view: ViewMode)
        requires
            old(self).wf(),
        ensures
            final(self).wf(),
            final(self).board == old(self).board,
            view_set_spec(*old(self), view, *final(self)),
    {
        if self.view != view {
            self.view = view;
            self.status = String::from_str("Switched to ").concat(view.label()).concat(" view");
            proof {
                assert(self.status@ =~= "Switched to "@ + view_label(view) + " view"@);
            }
        }
        let (un, asg) = timeline_lists(&self.board);
        let ghost tmid = self.timeline;
        self.ensure_timeline_bounds(un.len(), asg.len());
        proof {
            assert(self.timeline == tl_clamped(
                tmid,
                count_unassigned(self.board.notes@),
                self.board.notes@.len() - count_unassigned(self.board.notes@),
            ));
        }
        let tags = project_tags(&self.board);
        proof {
            lemma_buckets_shape(self.board, tags@);
        }
        self.ensure_project_bounds(&tags);
    }

    /// Builds a note from the form and adds it to the selected column,
    /// following it with the selection. Rejected when the title is blank, the
    /// due field is unreadable, the board has no columns, or the column is at
    /// its WIP limit; the board is untouched on every rejection.
    pub fn create_note_from_form(&mut self, form: &NoteForm, now: u64) -> (r: Result<
        (),
        ActionError,
    >)
        requires
            old(self).wf(),
            form.wf(),
        ensures
            final(self).wf(),
            r is Err ==> final(self).board == old(self).board,
            r is Ok <==> old(self).create_accepted(*form),
            r is Ok ==> board_after_create(
                old(self).board,
                old(self).selected_column as int,
                *form,
                now,
                final(self).board,
            ) && *final(self) == (App {
                board: final(self).board,
                selected_note: final(self).selected_note,
                status: final(self).status,
                ..*old(self)
            }) && final(self).selected_note as int == (
            if final(self).board.columns@[old(self).selected_column as int].note_ids@.len() == 0 {
                0int
            } else {
                final(self).board.columns@[old(self).selected_column as int].note_ids@.len() - 1
            }),
            r == Err::<(), ActionError>(ActionError::Form(FormError::TitleRequired))
                <==> crate::text::spec_trim(form.title.text()).len() == 0,
            crate::text::spec_trim(form.title.text()).len() > 0 ==> (r == Err::<(), ActionError>(
                ActionError::Form(FormError::InvalidDue),
            ) <==> (crate::text::spec_trim(form.due.text()).len() > 0 && !crate::time::is_due_text(
                crate::text::spec_trim(form.due.text()),
            ))),
            form.parses() ==> (r == Err::<(), ActionError>(ActionError::NoColumns) <==> old(self).board.columns@.len() == 0),
            form.parses() && old(self).board.columns@.len() > 0 ==> (forall|i: int|
                old(self).board.is_first_column(
                    old(self).board.columns@[old(self).selected_column as int].id@,
                    i,
                ) ==> (if old(self).board.columns@[i].at_wip_limit() {
                    (r matches Err(ActionError::Board(BoardError::WipLimitReached(sid))) && sid@
                        == old(self).board.columns@[old(self).selected_column as int].id@)
                } else {
                    r is Ok
                })),
    {
        let inp = match form.parse_input() {
            Ok(i) => i,
            Err(e) => {
                return Err(ActionError::Form(e));
            },
        };
        if self.board.columns.len() == 0 {
            return Err(ActionError::NoColumns);
        }
        let column_id = self.board.columns[self.selected_column].id.clone();
        let id = generate_id();
        let note = Note::new(id.clone(), inp.title, inp.body, inp.tags, inp.due, now);
        let ghost b0 = self.board;
        let ghost note0 = note;
        match self.board.add_note(note, column_id.as_str()) {
            Err(e) => {
                proof {
                    assert(b0.has_column(column_id@));
                    crate::model::lemma_first_column_exists(b0, column_id@);
                    let i = choose|i: int| b0.is_first_column(column_id@, i);
                    assert(b0.columns@[i].at_wip_limit());
                }
                return Err(ActionError::Board(e));
            },
            Ok(_u) => {},
        }
        proof {
            assert forall|i: int|
                b0.is_first_column(column_id@, i) implies !(
            #[trigger] b0.columns@[i]).at_wip_limit() by {
                if b0.columns@[i].at_wip_limit() {
                    assert(false);
                }
            };
            assert(created_note_matches(*form, now, note0));
            if b0.has_note(note0.id@) {
                let n = choose|w: int|
                    0 <= w < b0.notes@.len() && (#[trigger] b0.notes@[w]).id@ == note0.id@;
                assert(b0.is_note_at(note0.id@, n));
                assert(self.board.notes@ == b0.notes@.update(n, note0));
                assert(self.board.notes@[n] == note0);
                assert(board_after_create(b0, old(self).selected_column as int, *form, now, self.board)) by {
                    assert(0 <= n < self.board.notes@.len() && created_note_matches(
                        *form,
                        now,
                        self.board.notes@[n],
                    ) && (self.board.notes@ == b0.notes@.push(self.board.notes@[n]) || (0 <= n
                        < b0.notes@.len() && self.board.notes@ == b0.notes@.update(
                        n,
                        self.board.notes@[n],
                    ))) && (forall|i: int|
                        b0.is_first_column(b0.columns@[old(self).selected_column as int].id@, i)
                            ==> crate::model::col_ids(#[trigger] self.board.columns@[i])
                            == crate::model::col_ids(b0.columns@[i]).push(
                            self.board.notes@[n].id@,
                        ) && (forall|j: int|
                            0 <= j < b0.columns@.len() && j != i ==> self.board.columns@[j]
                                == b0.columns@[j])));
                }
            } else {
                let n = b0.notes@.len() as int;
                assert(self.board.notes@ == b0.notes@.push(note0));
                assert(self.board.notes@[n] == note0);
                assert(board_after_create(b0, old(self).selected_column as int, *form, now, self.board)) by {
                    assert(0 <= n < self.board.notes@.len() && created_note_matches(
                        *form,
                        now,
                        self.board.notes@[n],
                    ) && (self.board.notes@ == b0.notes@.push(self.board.notes@[n]) || (0 <= n
                        < b0.notes@.len() && self.board.notes@ == b0.notes@.update(
                        n,
                        self.board.notes@[n],
                    ))) && (forall|i: int|
                        b0.is_first_column(b0.columns@[old(self).selected_column as int].id@, i)
                            ==> crate::model::col_ids(#[trigger] self.board.columns@[i])
                            == crate::model::col_ids(b0.columns@[i]).push(
                            self.board.notes@[n].id@,
                        ) && (forall|j: int|
                            0 <= j < b0.columns@.len() && j != i ==> self.board.columns@[j]
                                == b0.columns@[j])));
                }
            }
        }
        if self.selected_column < self.board.columns.len() {
            let len = self.board.columns[self.selected_column].note_ids.len();
            self.selected_note = if len == 0 {
                0
            } else {
                len - 1
            };
        }
        self.status = String::from_str("Created note ").concat(id.as_str());
        Ok(())
    }

    /// Rewrites all four fields of an existing note from the form (title,
    /// body, tags and due are replaced wholesale) and stamps it. Rejected on
    /// a blank title, an unreadable due field, or an unknown note id; the
    /// board is untouched on every rejection.
    pub fn edit_note_from_form(&mut self, note_id: &str, form: &NoteForm, now: u64) -> (r: Result<
        (),
        ActionError,
    >)
        requires
            old(self).wf(),
            form.wf(),
        ensures
            final(self).wf(),
            r is Err ==> final(self).board == old(self).board,
            r == Err::<(), ActionError>(ActionError::Form(FormError::TitleRequired))
                <==> crate::text::spec_trim(form.title.text()).len() == 0,
            crate::text::spec_trim(form.title.text()).len() > 0 ==> (r == Err::<(), ActionError>(
                ActionError::Form(FormError::InvalidDue),
            ) <==> (crate::text::spec_trim(form.due.text()).len() > 0 && !crate::time::is_due_text(
                crate::text::spec_trim(form.due.text()),
            ))),
            form.parses() ==> ((r matches Err(ActionError::Board(BoardError::NoteNotFound(s)))
                && s@ == note_id@) <==> !old(self).board.has_note(note_id@)),
            r is Ok <==> old(self).edit_accepted(*form, note_id@),
            r is Ok ==> board_after_edit(old(self).board, note_id@, *form, now, final(self).board)
                && *final(self) == (App {
                board: final(self).board,
                status: final(self).status,
                ..*old(self)
            }) && final(self).status@ == "Updated "@ + note_id@,
    {
        let inp = match form.parse_input() {
            Ok(i) => i,
            Err(e) => {
                return Err(ActionError::Form(e));
            },
        };
        let up = NoteUpdate {
            title: Some(inp.title),
            body: Some(inp.body),
            tags: Some(inp.tags),
            due: Some(inp.due),
        };
        let ghost b0 = self.board;
        match self.board.update_note(note_id, up, now) {
            Err(e) => {
                return Err(ActionError::Board(e));
            },
            Ok(_u) => {},
        }
        proof {
            assert forall|n: int| b0.is_note_at(note_id@, n) implies {
                let nt = self.board.notes@[n];
                &&& self.board.notes@ == b0.notes@.update(n, nt)
                &&& nt.id == b0.notes@[n].id
                &&& nt.created_at == b0.notes@[n].created_at
                &&& nt.updated_at == now
                &&& nt.title@ == crate::text::spec_trim(form.title.text())
                &&& crate::model::id_views(nt.tags@) == crate::form::tags_of(form.tags.text())
                &&& (crate::text::spec_trim(form.body.text()).len() == 0 ==> nt.body is None)
                &&& (crate::text::spec_trim(form.body.text()).len() > 0 ==> (nt.body matches Some(
                    b,
                ) && b@ == form.body.text()))
                &&& (crate::text::spec_trim(form.due.text()).len() == 0 ==> nt.due is None)
                &&& (crate::text::spec_trim(form.due.text()).len() > 0 ==> nt.due == Some(
                    crate::time::dt_of_text(crate::text::spec_trim(form.due.text())),
                ))
            } by {
                assert(self.board.notes@ == b0.notes@.update(n, self.board.notes@[n]));
            };
        }
        self.status = String::from_str("Updated ").concat(note_id);
        Ok(())
    }

    /// Attempts to submit the form: commits a create or an edit, closing the
    /// form on success; on failure the form stays open and the status line
    /// reports why.
    fn try_submit(&mut self, action: FormAction, form: &NoteForm, now: u64) -> (r: (bool, bool))
        requires
            old(self).wf(),
            form.wf(),
        ensures
            final(self).wf(),
            !r.1 ==> final(self).board == old(self).board,
            r.0 == r.1,
            action matches FormAction::Create ==> ((r.1 <==> old(self).create_accepted(*form)) && (
            r.1 ==> board_after_create(
                old(self).board,
                old(self).selected_column as int,
                *form,
                now,
                final(self).board,
            ))),
            (action matches FormAction::Edit(id) ==> ((r.1 <==> old(self).edit_accepted(
                *form,
                id@,
            )) && (r.1 ==> board_after_edit(old(self).board, id@, *form, now, final(self).board)))),
    {
        match action {
            FormAction::Create => {
                match self.create_note_from_form(form, now) {
                    Err(e) => {
                        let m = e.message();
                        self.status = String::from_str("Could not create: ").concat(m.as_str());
                        (false, false)
                    },
                    Ok(_u) => (true, true),
                }
            },
            FormAction::Edit(note_id) => {
                match self.edit_note_from_form(note_id.as_str(), form, now) {
                    Err(e) => {
                        let m = e.message();
                        self.status = String::from_str("Could not edit: ").concat(m.as_str());
                        (false, false)
                    },
                    Ok(_u) => (true, true),
                }
            },
        }
    }

    /// Routes one key press to the open form: Esc cancels, Tab and Shift-Tab
    /// cycle fields, arrows move the cursor, Enter inserts a newline in the
    /// body unless Control is held (then, and in every other field, the form
    /// submits), Backspace deletes, and plain characters are typed in.
    fn process_form_key(
        &mut self,
        action: FormAction,
        form: &mut NoteForm,
        key: KeyInput,
        now: u64,
    ) -> (r: (bool, bool))
        requires
            old(self).wf(),
            old(form).wf(),
        ensures
            final(self).wf(),
            final(form).wf(),
            !r.1 ==> final(self).board == old(self).board,
            r.0 == (r.1 || key.code == KeyCode::Esc),
            key.code == KeyCode::Esc ==> r == (true, false) && *final(form) == *old(form) && *final(self) == (App { status: final(self).status, ..*old(self) }) && final(self).status@
                == "Canceled"@,
            key.code == KeyCode::Tab ==> r == (false, false) && *final(self) == *old(self)
                && *final(form) == (NoteForm {
                field: crate::form::next_field_of(old(form).field),
                ..*old(form)
            }),
            key.code == KeyCode::BackTab ==> r == (false, false) && *final(self) == *old(self)
                && *final(form) == (NoteForm {
                field: crate::form::prev_field_of(old(form).field),
                ..*old(form)
            }),
            key.code == KeyCode::Left ==> r == (false, false) && *final(self) == *old(self)
                && *final(form) == old(form).with_active(
                (FieldValue {
                    chars: old(form).active().chars,
                    cursor: (if old(form).active().cursor == 0 {
                        0int
                    } else {
                        old(form).active().cursor - 1
                    }) as usize,
                }),
            ),
            key.code == KeyCode::Right ==> r == (false, false) && *final(self) == *old(self)
                && *final(form) == old(form).with_active(
                (FieldValue {
                    chars: old(form).active().chars,
                    cursor: (if old(form).active().cursor >= old(form).active().chars@.len() {
                        old(form).active().cursor as int
                    } else {
                        old(form).active().cursor + 1
                    }) as usize,
                }),
            ),
            key.code == KeyCode::Up ==> r == (false, false) && *final(self) == *old(self) && *final(form) == old(form).with_active(
                (FieldValue {
                    chars: old(form).active().chars,
                    cursor: crate::editor::cursor_up(
                        old(form).active().chars@,
                        old(form).active().cursor as int,
                    ) as usize,
                }),
            ),
            key.code == KeyCode::Down ==> r == (false, false) && *final(self) == *old(self)
                && *final(form) == old(form).with_active(
                (FieldValue {
                    chars: old(form).active().chars,
                    cursor: crate::editor::cursor_down(
                        old(form).active().chars@,
                        old(form).active().cursor as int,
                    ) as usize,
                }),
            ),
            key.code == KeyCode::Backspace ==> r == (false, false) && *final(self) == *old(self)
                && (if old(form).active().cursor == 0 {
                *final(form) == *old(form)
            } else {
                final(form).field == old(form).field && *final(form) == old(form).with_active(
                    final(form).active(),
                ) && final(form).active().chars@ == old(form).active().chars@.remove(
                    old(form).active().cursor - 1,
                ) && final(form).active().cursor == old(form).active().cursor - 1
            }),
            key.code matches KeyCode::Char(c) ==> ((!key.ctrl && !key.alt) ==> (r == (false, false)
                && *final(self) == *old(self) && (if old(form).active().chars@.len() < usize::MAX {
                final(form).field == old(form).field && *final(form) == old(form).with_active(
                    final(form).active(),
                ) && final(form).active().chars@ == old(form).active().chars@.insert(
                    old(form).active().cursor as int,
                    c,
                ) && final(form).active().cursor == old(form).active().cursor + 1
            } else {
                *final(form) == *old(form)
            }))) && ((key.ctrl || key.alt) ==> (r == (false, false) && *final(self) == *old(self)
                && *final(form) == *old(form))),
            key.code == KeyCode::Enter && old(form).field is Body && !key.ctrl ==> r == (
                false,
                false,
            ) && *final(self) == *old(self) && (if old(form).active().chars@.len() < usize::MAX {
                final(form).field == old(form).field && *final(form) == old(form).with_active(
                    final(form).active(),
                ) && final(form).active().chars@ == old(form).active().chars@.insert(
                    old(form).active().cursor as int,
                    '\n',
                ) && final(form).active().cursor == old(form).active().cursor + 1
            } else {
                *final(form) == *old(form)
            }),
            key.code == KeyCode::Enter && (!(old(form).field is Body) || key.ctrl) ==> *final(form)
                == *old(form) && (action matches FormAction::Create ==> ((r.1 <==> old(self).create_accepted(*old(form))) && (r.1 ==> board_after_create(
                old(self).board,
                old(self).selected_column as int,
                *old(form),
                now,
                final(self).board,
            )))) && (action matches FormAction::Edit(id) ==> ((r.1 <==> old(self).edit_accepted(
                *old(form),
                id@,
            )) && (r.1 ==> board_after_edit(
                old(self).board,
                id@,
                *old(form),
                now,
                final(self).board,
            )))),
            key.code == KeyCode::Other ==> r == (false, false) && *final(self) == *old(self)
                && *final(form) == *old(form),
    {
        if key.code == KeyCode::Esc {
            self.status = String::from_str("Canceled");
            return (true, false);
        }
        if key.code == KeyCode::Tab {
            form.next_field();
            return (false, false);
        }
        if key.code == KeyCode::BackTab {
            form.prev_field();
            return (false, false);
        }
        if key.code == KeyCode::Left {
            form.active_field_mut().move_left();
            return (false, false);
        }
        if key.code == KeyCode::Right {
            form.active_field_mut().move_right();
            return (false, false);
        }
        if key.code == KeyCode::Up {
            form.active_field_mut().move_up();
            return (false, false);
        }
        if key.code == KeyCode::Down {
            form.active_field_mut().move_down();
            return (false, false);
        }
        if key.code == KeyCode::Backspace {
            form.active_field_mut().backspace();
            return (false, false);
        }
        if key.code == KeyCode::Enter {
            let in_body = form.field == crate::form::FormField::Body;
            if in_body && !key.ctrl {
                let f = form.active_field_mut();
                if f.chars.len() < usize::MAX {
                    f.insert_char('\n');
                }
                return (false, false);
            }
            return self.try_submit(action, form, now);
        }
        match key.code {
            KeyCode::Char(c) => {
                if !key.ctrl && !key.alt {
                    let f = form.active_field_mut();
                    if f.chars.len() < usize::MAX {
                        f.insert_char(c);
                    }
                }
            },
            _ => {},
        }
        (false, false)
    }

    /// Handles a key press while a form is open.
    fn handle_form_key(&mut self, key: KeyInput, now: u64) -> (out: KeyOutcome)
        requires
            old(self).wf(),
        ensures
            final(self).wf(),
            form_mode_key_spec(*old(self), key, now, *final(self), out),
    {
        let mut mode = Mode::Normal;
        core::mem::swap(&mut mode, &mut self.mode);
        let mut close = false;
        let mut persist = false;
        match &mut mode {
            Mode::Creating(form) => {
                let r = self.process_form_key(FormAction::Create, form, key, now);
                close = r.0;
                persist = r.1;
            },
            Mode::Editing { note_id, form } => {
                let id = note_id.clone();
                let r = self.process_form_key(FormAction::Edit(id), form, key, now);
                close = r.0;
                persist = r.1;
            },
            Mode::ConfirmDelete { .. } => {},
            Mode::Normal => {},
        }
        if close {
            self.mode = Mode::Normal;
        } else {
            self.mode = mode;
        }
        KeyOutcome { quit: false, persist }
    }

    /// Handles a key press while a delete confirmation is pending: 'y' or
    /// Enter confirms the delete, 'n' or Esc cancels it.
    fn handle_confirm_key(&mut self, key: KeyInput) -> (out: KeyOutcome)
        requires
            old(self).wf(),
        ensures
            final(self).wf(),
            confirm_key_spec(*old(self), key, *final(self), out),
    {
        let note_id = match &self.mode {
            Mode::ConfirmDelete { note_id } => note_id.clone(),
            _ => {
                return KeyOutcome { quit: false, persist: false };
            },
        };
        let mut persist = false;
        if key.code == KeyCode::Char('y') || key.code == KeyCode::Enter {
            match self.delete_note(note_id.as_str()) {
                Err(e) => {
                    let m = e.message();
                    self.status = String::from_str("Delete failed: ").concat(m.as_str());
                },
                Ok(_u) => {
                    self.status = String::from_str("Deleted ").concat(note_id.as_str());
                    persist = true;
                },
            }
            self.mode = Mode::Normal;
        } else if key.code == KeyCode::Char('n') || key.code == KeyCode::Esc {
            self.status = String::from_str("Delete canceled");
            self.mode = Mode::Normal;
        }
        KeyOutcome { quit: false, persist }
    }

    /// Handles a key press on the board view: arrows or h/j/k/l move the
    /// selection, m or > and b or < move the selected note between columns.
    fn handle_board_key(&mut self, key: KeyInput, now: u64) -> (out: KeyOutcome)
        requires
            old(self).wf(),
        ensures
            final(self).wf(),
            board_key_spec(*old(self), key, now, *final(self), out),
    {
        let mut persist = false;
        if key.code == KeyCode::Left || key.code == KeyCode::Char('h') {
            self.prev_column();
        } else if key.code == KeyCode::Right || key.code == KeyCode::Char('l') {
            self.next_column();
        } else if key.code == KeyCode::Up || key.code == KeyCode::Char('k') {
            self.prev_note();
        } else if key.code == KeyCode::Down || key.code == KeyCode::Char('j') {
            self.next_note();
        } else if key.code == KeyCode::Char('m') || key.code == KeyCode::Char('>') {
            persist = self.move_selected(1, now);
        } else if key.code == KeyCode::Char('b') || key.code == KeyCode::Char('<') {
            persist = self.move_selected(-1, now);
        }
        KeyOutcome { quit: false, persist }
    }

    /// Handles a key press on the timeline view: Tab cycles pane focus,
    /// arrows browse the lists or move the calendar cursor by day and week,
    /// and Enter on the calendar jumps to the first note due on that day.
    fn handle_timeline_key(&mut self, key: KeyInput) -> (out: KeyOutcome)
        requires
            old(self).wf(),
        ensures
            final(self).wf(),
            timeline_key_spec(*old(self), key, *final(self), out),
    {
        let (un, asg) = timeline_lists(&self.board);
        if key.code == KeyCode::Tab {
            self.timeline.next_focus();
        } else if key.code == KeyCode::BackTab {
            self.timeline.prev_focus();
        } else if key.code == KeyCode::Left || key.code == KeyCode::Char('h') {
            match self.timeline.focus {
                TimelineFocus::Calendar => self.shift_calendar(-1),
                TimelineFocus::Assigned => self.timeline.prev_focus(),
                TimelineFocus::Unassigned => {},
            }
        } else if key.code == KeyCode::Right || key.code == KeyCode::Char('l') {
            match self.timeline.focus {
                TimelineFocus::Calendar => self.shift_calendar(1),
                TimelineFocus::Unassigned => self.timeline.next_focus(),
                TimelineFocus::Assigned => self.timeline.next_focus(),
            }
        } else if key.code == KeyCode::Up || key.code == KeyCode::Char('k') {
            match self.timeline.focus {
                TimelineFocus::Unassigned => {
                    if self.timeline.unassigned_idx > 0 {
                        self.timeline.unassigned_idx -= 1;
                    }
                },
                TimelineFocus::Assigned => {
                    if self.timeline.assigned_idx > 0 {
                        self.timeline.assigned_idx -= 1;
                    }
                },
                TimelineFocus::Calendar => self.shift_calendar(-7),
            }
        } else if key.code == KeyCode::Down || key.code == KeyCode::Char('j') {
            match self.timeline.focus {
                TimelineFocus::Unassigned => {
                    let l = un.len();
                    if self.timeline.unassigned_idx < l {
                        self.timeline.unassigned_idx += 1;
                    }
                },
                TimelineFocus::Assigned => {
                    let l = asg.len();
                    if self.timeline.assigned_idx < l {
                        self.timeline.assigned_idx += 1;
                    }
                },
                TimelineFocus::Calendar => self.shift_calendar(7),
            }
        } else if key.code == KeyCode::Enter {
            match self.timeline.focus {
                TimelineFocus::Calendar => {
                    match first_due_on_cursor(&self.board, &asg, self.timeline.calendar_cursor) {
                        Some(idx) => {
                            self.timeline.assigned_idx = idx;
                            self.timeline.focus = TimelineFocus::Assigned;
                            let d = format_date(&self.timeline.calendar_cursor);
                            self.status = String::from_str("Viewing tasks due ").concat(d.as_str());
                            proof {
                                assert(is_assigned_list(self.board.notes@, asg@) && (idx as int)
                                    < asg@.len() && due_on(
                                    self.board.notes@[asg@[idx as int] as int],
                                    self.timeline.calendar_cursor,
                                ));
                            }
                        },
                        None => {
                            self.status = String::from_str("No tasks due on that day");
                            let total = self.board.notes.len();
                            proof {
                                assert(self.board.notes@.len() == total);
                                if exists|i: int|
                                    0 <= i < self.board.notes@.len() && due_on(
                                        #[trigger] self.board.notes@[i],
                                        self.timeline.calendar_cursor,
                                    ) {
                                    let i = choose|i: int|
                                        0 <= i < self.board.notes@.len() && due_on(
                                            #[trigger] self.board.notes@[i],
                                            self.timeline.calendar_cursor,
                                        );
                                    assert(self.board.notes@[i].due is Some);
                                    assert(asg@.contains(i as usize));
                                    let q = choose|q: int| 0 <= q < asg@.len() && asg@[q] == i as usize;
                                    assert(due_on(
                                        self.board.notes@[asg@[q] as int],
                                        self.timeline.calendar_cursor,
                                    ));
                                    assert(false);
                                }
                            }
                        },
                    }
                },
                _ => {},
            }
        }
        let ghost tmid = self.timeline;
        self.ensure_timeline_bounds(un.len(), asg.len());
        proof {
            let u = count_unassigned(self.board.notes@);
            let a = self.board.notes@.len() - u;
            assert(self.timeline == tl_clamped(tmid, u, a));
        }
        KeyOutcome { quit: false, persist: false }
    }

    /// Handles a key press on the project view: Tab or the horizontal keys
    /// switch between the tag pane and the note pane, the vertical keys
    /// browse (changing tag resets the note selection).
    fn handle_project_key(&mut self, key: KeyInput) -> (out: KeyOutcome)
        requires
            old(self).wf(),
        ensures
            final(self).wf(),
            project_key_spec(*old(self), key, *final(self), out),
    {
        let tags = project_tags(&self.board);
        proof {
            lemma_buckets_shape(self.board, tags@);
        }
        if key.code == KeyCode::Tab {
            match self.project.focus {
                ProjectFocus::Tags => self.project.focus_notes(),
                ProjectFocus::Notes => self.project.focus_tags(),
            }
        } else if key.code == KeyCode::Left || key.code == KeyCode::Char('h') {
            self.project.focus_tags();
        } else if key.code == KeyCode::Right || key.code == KeyCode::Char('l') {
            self.project.focus_notes();
        } else if key.code == KeyCode::Up || key.code == KeyCode::Char('k') {
            match self.project.focus {
                ProjectFocus::Tags => {
                    if self.project.tag_idx > 0 {
                        self.project.tag_idx -= 1;
                        self.project.note_idx = 0;
                    }
                },
                ProjectFocus::Notes => {
                    if self.project.note_idx > 0 {
                        self.project.note_idx -= 1;
                    }
                },
            }
        } else if key.code == KeyCode::Down || key.code == KeyCode::Char('j') {
            match self.project.focus {
                ProjectFocus::Tags => {
                    let l = tags.len();
                    if self.project.tag_idx < l {
                        self.project.tag_idx += 1;
                    }
                    self.project.note_idx = 0;
                },
                ProjectFocus::Notes => {
                    if self.project.tag_idx < tags.len() {
                        let l = tags[self.project.tag_idx].1.len();
                        if self.project.note_idx < l {
                            self.project.note_idx += 1;
                        }
                    }
                },
            }
        }
        self.ensure_project_bounds(&tags);
        KeyOutcome { quit: false, persist: false }
    }

    /// Handles a key press in normal mode: q quits, 1/2/3 switch views, n
    /// opens the create form, e edits and d deletes the selected note (a
    /// status message reports when nothing is selected), anything else goes
    /// to the active view.
    fn handle_normal_key(&mut self, key: KeyInput, now: u64) -> (out: KeyOutcome)
        requires
            old(self).wf(),
            old(self).mode is Normal,
        ensures
            final(self).wf(),
            normal_key_spec(*old(self), key, now, *final(self), out),
    {
        if key.code == KeyCode::Char('q') {
            return KeyOutcome { quit: true, persist: false };
        }
        if key.code == KeyCode::Char('1') {
            self.set_view(ViewMode::Board);
            return KeyOutcome { quit: false, persist: false };
        }
        if key.code == KeyCode::Char('2') {
            self.set_view(ViewMode::Timeline);
            return KeyOutcome { quit: false, persist: false };
        }
        if key.code == KeyCode::Char('3') {
            self.set_view(ViewMode::Project);
            return KeyOutcome { quit: false, persist: false };
        }
        if key.code == KeyCode::Char('n') {
            self.mode = Mode::Creating(NoteForm::new());
            self.status = String::from_str(
                "Creating new task (Tab/Shift-Tab move, Ctrl+Enter save, Esc cancel)",
            );
            return KeyOutcome { quit: false, persist: false };
        }
        if key.code == KeyCode::Char('e') {
            match self.current_note() {
                Some(i) => {
                    let id = self.board.notes[i].id.clone();
                    proof {
                        assert(self.board.notes@[i as int].due_valid());
                    }
                    let form = NoteForm::from_note(&self.board.notes[i]);
                    proof {
                        assert(self.board.has_note(id@));
                        assert forall|n: int| self.board.is_note_at(id@, n) implies n == i as int by {
                            if n != i as int {
                                assert(self.board.notes@[n].id@ != self.board.notes@[i as int].id@);
                            }
                        };
                    }
                    self.mode = Mode::Editing { note_id: id.clone(), form };
                    self.status = String::from_str("Editing ").concat(id.as_str());
                },
                None => {
                    self.status = String::from_str("No note selected to edit");
                },
            }
            return KeyOutcome { quit: false, persist: false };
        }
        if key.code == KeyCode::Char('d') {
            match self.current_note() {
                Some(i) => {
                    let id = self.board.notes[i].id.clone();
                    proof {
                        assert(self.board.has_note(id@));
                        assert forall|n: int| self.board.is_note_at(id@, n) implies n == i as int by {
                            if n != i as int {
                                assert(self.board.notes@[n].id@ != self.board.notes@[i as int].id@);
                            }
                        };
                    }
                    self.mode = Mode::ConfirmDelete { note_id: id.clone() };
                    self.status = String::from_str("Delete ").concat(id.as_str()).concat(
                        "? (y to confirm, n/Esc to cancel)",
                    );
                },
                None => {
                    self.status = String::from_str("No note selected to delete");
                },
            }
            return KeyOutcome { quit: false, persist: false };
        }
        match self.view {
            ViewMode::Board => self.handle_board_key(key, now),
            ViewMode::Timeline => self.handle_timeline_key(key),
            ViewMode::Project => self.handle_project_key(key),
        }
    }

    /// Routes one key press by the current mode. The outcome says whether the
    /// session ends (only q in normal mode) and whether the board changed and
    /// must be persisted; a board that did not change needs no save.
    pub fn handle_key(&mut self, key: KeyInput, now: u64) -> (out: KeyOutcome)
        requires
            old(self).wf(),
        ensures
            final(self).wf(),
            out.quit ==> old(self).mode is Normal && key.code == KeyCode::Char('q'),
            !out.persist ==> final(self).board == old(self).board,
            old(self).mode is Normal ==> normal_key_spec(*old(self), key, now, *final(self), out),
            old(self).mode is Creating || old(self).mode is Editing ==> form_mode_key_spec(
                *old(self),
                key,
                now,
                *final(self),
                out,
            ),
            old(self).mode is ConfirmDelete ==> confirm_key_spec(*old(self), key, *final(self), out),
    {
        let is_normal = matches!(self.mode, Mode::Normal);
        let is_confirm = matches!(self.mode, Mode::ConfirmDelete { .. });
        if is_normal {
            self.handle_normal_key(key, now)
        } else if is_confirm {
            self.handle_confirm_key(key)
        } else {
            self.handle_form_key(key, now)
        }
    }
}

/// `i` clamped to a list of `len` entries: 0 for an empty list, at most
/// `len - 1` otherwise.
pub open spec fn clamp_int(i: int, len: int) -> int {
    if len == 0 {
        0
    } else if i > len - 1 {
        len - 1
    } else {
        i
    }
}

/// [`clamp_int`] on a stored index.
pub open spec fn clamp_index(i: usize, len: int) -> int {
    clamp_int(i as int, len)
}

/// The column index `delta` steps from `cur`, clamped to the board's edges.
pub open spec fn shifted_column(cur: int, ncols: int, delta: int) -> int {
    if cur + delta < 0 {
        0
    } else if cur + delta > ncols - 1 {
        ncols - 1
    } else {
        cur + delta
    }
}

/// The note id a pending delete confirmation names.
pub open spec fn pending_delete_id(m: Mode) -> Seq<char> {
    match m {
        Mode::ConfirmDelete { note_id } => note_id@,
        _ => Seq::empty(),
    }
}

/// The keys normal mode handles itself, before the active view sees them.
pub open spec fn is_universal_key(key: KeyInput) -> bool {
    key.code == KeyCode::Char('q') || key.code == KeyCode::Char('1') || key.code == KeyCode::Char(
        '2',
    ) || key.code == KeyCode::Char('3') || key.code == KeyCode::Char('n') || key.code
        == KeyCode::Char('e') || key.code == KeyCode::Char('d')
}

/// The fields a note created from the form at instant `now` carries. Its id
/// is freshly drawn, so only the id's shape is known.
pub open spec fn created_note_matches(form: NoteForm, now: u64, nt: Note) -> bool {
    &&& nt.title@ == crate::text::spec_trim(form.title.text())
    &&& crate::model::id_views(nt.tags@) == crate::form::tags_of(form.tags.text())
    &&& (crate::text::spec_trim(form.body.text()).len() == 0 ==> nt.body is None)
    &&& (crate::text::spec_trim(form.body.text()).len() > 0 ==> (nt.body matches Some(b) && b@
        == form.body.text()))
    &&& (crate::text::spec_trim(form.due.text()).len() == 0 ==> nt.due is None)
    &&& (crate::text::spec_trim(form.due.text()).len() > 0 ==> nt.due == Some(
        crate::time::dt_of_text(crate::text::spec_trim(form.due.text())),
    ))
    &&& nt.created_at == now
    &&& nt.updated_at == now
    &&& nt.id@.len() == 6
    &&& (forall|i: int| 0 <= i < nt.id@.len() ==> crate::text::is_alnum(#[trigger] nt.id@[i]))
}

/// The board after an accepted create from `b0` with column `selcol`
/// selected: a note with the form's content stands at position `k` of the new
/// mapping — appended when its fresh id was unused, overwriting the
/// like-named note otherwise — and its id was appended to the first column
/// matching the selected column's id, every other column untouched.
pub open spec fn board_after_create(
    b0: Board,
    selcol: int,
    form: NoteForm,
    now: u64,
    b1: Board,
) -> bool {
    exists|k: int| #![auto]
        0 <= k < b1.notes@.len() && created_note_matches(form, now, b1.notes@[k]) && (b1.notes@
            == b0.notes@.push(b1.notes@[k]) || (0 <= k < b0.notes@.len() && b1.notes@
            == b0.notes@.update(k, b1.notes@[k]))) && (forall|i: int|
            b0.is_first_column(b0.columns@[selcol].id@, i) ==> crate::model::col_ids(
                #[trigger] b1.columns@[i],
            ) == crate::model::col_ids(b0.columns@[i]).push(b1.notes@[k].id@) && (forall|j: int|
                0 <= j < b0.columns@.len() && j != i ==> b1.columns@[j] == b0.columns@[j]))
}

/// The board after an accepted edit of note `id`: all four content fields
/// rewritten wholesale from the form, `updated_at` refreshed, identity and
/// creation time kept, and nothing else in the board touched.
pub open spec fn board_after_edit(
    b0: Board,
    id: Seq<char>,
    form: NoteForm,
    now: u64,
    b1: Board,
) -> bool {
    &&& b1.columns@ == b0.columns@
    &&& forall|n: int|
        b0.is_note_at(id, n) ==> {
            let nt = b1.notes@[n];
            &&& b1.notes@ == b0.notes@.update(n, nt)
            &&& nt.id == b0.notes@[n].id
            &&& nt.created_at == b0.notes@[n].created_at
            &&& nt.updated_at == now
            &&& nt.title@ == crate::text::spec_trim(form.title.text())
            &&& crate::model::id_views(nt.tags@) == crate::form::tags_of(form.tags.text())
            &&& (crate::text::spec_trim(form.body.text()).len() == 0 ==> nt.body is None)
            &&& (crate::text::spec_trim(form.body.text()).len() > 0 ==> (nt.body matches Some(b)
                && b@ == form.body.text()))
            &&& (crate::text::spec_trim(form.due.text()).len() == 0 ==> nt.due is None)
            &&& (crate::text::spec_trim(form.due.text()).len() > 0 ==> nt.due == Some(
                crate::time::dt_of_text(crate::text::spec_trim(form.due.text())),
            ))
        }
}

/// Everything `move_selected` promises, by case: a status message and no
/// change on an empty board, a missing selection or a move clamped at the
/// board's edge; otherwise the outcome of the model move on the selected
/// note, with the selection following it on success and the status reporting
/// the move or the full destination.
pub open spec fn move_selected_spec(a0: App, delta: int, now: u64, a1: App, persist: bool) -> bool {
    let ncols = a0.board.columns@.len() as int;
    let target = shifted_column(a0.selected_column as int, ncols, delta);
    &&& a1.board.columns@.len() == a0.board.columns@.len()
    &&& (!persist ==> a1.board == a0.board)
    &&& (ncols == 0 ==> !persist && a1 == (App { status: a1.status, ..a0 }) && a1.status@
        == "No columns to move between"@)
    &&& (ncols > 0 && !a0.has_board_selection() ==> !persist && a1 == (App {
        status: a1.status,
        ..a0
    }) && a1.status@ == "No note selected to move"@)
    &&& (ncols > 0 && a0.has_board_selection() && target == a0.selected_column ==> !persist && a1
        == (App { status: a1.status, ..a0 }) && a1.status@ == "Already at the edge of the board"@)
    &&& (ncols > 0 && a0.has_board_selection() && target != a0.selected_column ==> (forall|
        s: int,
        d: int,
    |
        (#[trigger] a0.board.is_first_note_column(a0.board_selected_id(), s)) && (
        #[trigger] a0.board.is_first_column(a0.board.columns@[target].id@, d)) ==> {
            &&& (s != d && a0.board.columns@[d].at_wip_limit() ==> !persist && a1 == (App {
                status: a1.status,
                ..a0
            }) && a1.status@ == "Move failed: "@ + "wip limit reached for column "@
                + a0.board.columns@[target].id@)
            &&& (s == d || !a0.board.columns@[d].at_wip_limit() ==> persist && a1 == (App {
                board: a1.board,
                selected_column: a1.selected_column,
                selected_note: a1.selected_note,
                status: a1.status,
                ..a0
            }) && a1.selected_column as int == target && a1.selected_note as int == (
            if a1.board.columns@[target].note_ids@.len() == 0 {
                0int
            } else {
                a1.board.columns@[target].note_ids@.len() - 1
            }) && a1.status@ == "Moved to "@ + a0.board.columns@[target].name@ && (s == d
                ==> a1.board == a0.board) && (s != d ==> crate::model::move_applied(
                a0.board,
                a1.board,
                a0.board_selected_id(),
                s,
                d,
                now,
            )))
        }))
}


/// The project view's selection points into the tag buckets: the bucket list
/// is a function of the board (any list of the right shape has the same
/// dimensions), so this binds one existentially.
pub open spec fn project_selection_in_range(board: Board, p: ProjectState) -> bool {
    exists|bs: Seq<TagBucket>| #![auto]
        is_tag_buckets(board.notes@, bs) && (p.tag_idx as int) < bs.len() && (p.note_idx as int)
            < bs[p.tag_idx as int].1@.len()
}

/// A project state re-clamped against the bucket list `bs`, exactly as the
/// bounds check leaves it.
pub open spec fn project_clamped(p: ProjectState, bs: Seq<TagBucket>) -> ProjectState {
    if bs.len() == 0 {
        ProjectState { focus: ProjectFocus::Tags, tag_idx: 0, note_idx: 0 }
    } else {
        let ti = clamp_int(p.tag_idx as int, bs.len() as int);
        let nlen = bs[ti].1@.len() as int;
        ProjectState {
            focus: if nlen == 0 {
                ProjectFocus::Tags
            } else {
                p.focus
            },
            tag_idx: ti as usize,
            note_idx: if nlen == 0 {
                0
            } else {
                clamp_int(p.note_idx as int, nlen) as usize
            },
        }
    }
}

/// The project state a key press asks for, before the final re-clamp.
pub open spec fn project_key_mid(p: ProjectState, key: KeyInput, bs: Seq<TagBucket>) -> ProjectState {
    if key.code == KeyCode::Tab {
        ProjectState {
            focus: match p.focus {
                ProjectFocus::Tags => ProjectFocus::Notes,
                ProjectFocus::Notes => ProjectFocus::Tags,
            },
            ..p
        }
    } else if key.code == KeyCode::Left || key.code == KeyCode::Char('h') {
        ProjectState { focus: ProjectFocus::Tags, ..p }
    } else if key.code == KeyCode::Right || key.code == KeyCode::Char('l') {
        ProjectState { focus: ProjectFocus::Notes, ..p }
    } else if key.code == KeyCode::Up || key.code == KeyCode::Char('k') {
        match p.focus {
            ProjectFocus::Tags => if p.tag_idx > 0 {
                ProjectState { tag_idx: (p.tag_idx - 1) as usize, note_idx: 0, ..p }
            } else {
                p
            },
            ProjectFocus::Notes => if p.note_idx > 0 {
                ProjectState { note_idx: (p.note_idx - 1) as usize, ..p }
            } else {
                p
            },
        }
    } else if key.code == KeyCode::Down || key.code == KeyCode::Char('j') {
        match p.focus {
            ProjectFocus::Tags => ProjectState {
                tag_idx: (if (p.tag_idx as int) < bs.len() {
                    p.tag_idx + 1
                } else {
                    p.tag_idx as int
                }) as usize,
                note_idx: 0,
                ..p
            },
            ProjectFocus::Notes => if (p.tag_idx as int) < bs.len() && (p.note_idx as int) < bs[p.tag_idx as int].1@.len() {
                ProjectState { note_idx: (p.note_idx + 1) as usize, ..p }
            } else {
                p
            },
        }
    } else {
        p
    }
}

/// A timeline state with both lists' selections and offsets re-clamped
/// against list lengths `u` (unassigned) and `a` (assigned).
pub open spec fn tl_clamped(t: TimelineState, u: int, a: int) -> TimelineState {
    TimelineState {
        unassigned_idx: clamp_int(t.unassigned_idx as int, u) as usize,
        unassigned_offset: clamp_int(t.unassigned_offset as int, u) as usize,
        assigned_idx: clamp_int(t.assigned_idx as int, a) as usize,
        assigned_offset: clamp_int(t.assigned_offset as int, a) as usize,
        ..t
    }
}

/// Everything a board-view key press does: arrows and h/j/k/l move the
/// selection exactly as the movement operations say, m or > and b or < run
/// the adjacent-column move, and any other key changes nothing.
pub open spec fn board_key_spec(a0: App, key: KeyInput, now: u64, a1: App, out: KeyOutcome) -> bool {
    &&& !out.quit
    &&& (!out.persist ==> a1.board == a0.board)
    &&& (key.code == KeyCode::Left || key.code == KeyCode::Char('h') ==> !out.persist && a1 == (
    if a0.selected_column > 0 {
        (App { selected_column: (a0.selected_column - 1) as usize, selected_note: 0, ..a0 })
    } else {
        a0
    }))
    &&& (key.code == KeyCode::Right || key.code == KeyCode::Char('l') ==> !out.persist && a1 == (
    if a0.selected_column + 1 < a0.board.columns@.len() {
        (App { selected_column: (a0.selected_column + 1) as usize, selected_note: 0, ..a0 })
    } else {
        a0
    }))
    &&& (key.code == KeyCode::Up || key.code == KeyCode::Char('k') ==> !out.persist && a1 == (
    if a0.selected_note > 0 {
        (App { selected_note: (a0.selected_note - 1) as usize, ..a0 })
    } else {
        a0
    }))
    &&& (key.code == KeyCode::Down || key.code == KeyCode::Char('j') ==> !out.persist && a1 == (
    if a0.selected_column < a0.board.columns@.len() && a0.selected_note + 1 < a0.board.columns@[a0.selected_column as int].note_ids@.len() {
        (App { selected_note: (a0.selected_note + 1) as usize, ..a0 })
    } else {
        a0
    }))
    &&& (key.code == KeyCode::Char('m') || key.code == KeyCode::Char('>') ==> move_selected_spec(
        a0,
        1,
        now,
        a1,
        out.persist,
    ))
    &&& (key.code == KeyCode::Char('b') || key.code == KeyCode::Char('<') ==> move_selected_spec(
        a0,
        -1,
        now,
        a1,
        out.persist,
    ))
    &&& (!(key.code == KeyCode::Left || key.code == KeyCode::Right || key.code == KeyCode::Up
        || key.code == KeyCode::Down || key.code == KeyCode::Char('h') || key.code
        == KeyCode::Char('l') || key.code == KeyCode::Char('k') || key.code == KeyCode::Char('j')
        || key.code == KeyCode::Char('m') || key.code == KeyCode::Char('>') || key.code
        == KeyCode::Char('b') || key.code == KeyCode::Char('<')) ==> a1 == a0 && out == (KeyOutcome {
        quit: false,
        persist: false,
    }))
}

/// Everything a timeline-view key press does, stated against the list
/// lengths `u` (notes without a due date) and the assigned remainder: Tab and
/// Shift-Tab cycle pane focus, the horizontal keys move focus or the calendar
/// cursor by a day, the vertical keys browse the focused list or move the
/// cursor by a week, Enter on the calendar jumps to the first note due on
/// that day (or only reports), and both lists' bounds are re-clamped.
pub open spec fn timeline_key_spec(a0: App, key: KeyInput, a1: App, out: KeyOutcome) -> bool {
    let u = count_unassigned(a0.board.notes@);
    let a = a0.board.notes@.len() - u;
    let t0 = a0.timeline;
    &&& out == (KeyOutcome { quit: false, persist: false })
    &&& a1 == (App { timeline: a1.timeline, status: a1.status, ..a0 })
    &&& (key.code == KeyCode::Tab ==> a1.status == a0.status && a1.timeline == tl_clamped(
        (TimelineState { focus: focus_next(t0.focus), ..t0 }),
        u,
        a,
    ))
    &&& (key.code == KeyCode::BackTab ==> a1.status == a0.status && a1.timeline == tl_clamped(
        (TimelineState { focus: focus_prev(t0.focus), ..t0 }),
        u,
        a,
    ))
    &&& (key.code == KeyCode::Left || key.code == KeyCode::Char('h') ==> a1.status == a0.status
        && a1.timeline == tl_clamped(
        (match t0.focus {
            TimelineFocus::Calendar => TimelineState {
                calendar_cursor: spec_shift_date(t0.calendar_cursor, -1),
                ..t0
            },
            TimelineFocus::Assigned => TimelineState { focus: TimelineFocus::Unassigned, ..t0 },
            TimelineFocus::Unassigned => t0,
        }),
        u,
        a,
    ))
    &&& (key.code == KeyCode::Right || key.code == KeyCode::Char('l') ==> a1.status == a0.status
        && a1.timeline == tl_clamped(
        (match t0.focus {
            TimelineFocus::Calendar => TimelineState {
                calendar_cursor: spec_shift_date(t0.calendar_cursor, 1),
                ..t0
            },
            TimelineFocus::Unassigned => TimelineState { focus: TimelineFocus::Assigned, ..t0 },
            TimelineFocus::Assigned => TimelineState { focus: TimelineFocus::Calendar, ..t0 },
        }),
        u,
        a,
    ))
    &&& (key.code == KeyCode::Up || key.code == KeyCode::Char('k') ==> a1.status == a0.status
        && a1.timeline == tl_clamped(
        (match t0.focus {
            TimelineFocus::Unassigned => TimelineState {
                unassigned_idx: (if t0.unassigned_idx > 0 {
                    t0.unassigned_idx - 1
                } else {
                    0int
                }) as usize,
                ..t0
            },
            TimelineFocus::Assigned => TimelineState {
                assigned_idx: (if t0.assigned_idx > 0 {
                    t0.assigned_idx - 1
                } else {
                    0int
                }) as usize,
                ..t0
            },
            TimelineFocus::Calendar => TimelineState {
                calendar_cursor: spec_shift_date(t0.calendar_cursor, -7),
                ..t0
            },
        }),
        u,
        a,
    ))
    &&& (key.code == KeyCode::Down || key.code == KeyCode::Char('j') ==> a1.status == a0.status
        && a1.timeline == tl_clamped(
        (match t0.focus {
            TimelineFocus::Unassigned => TimelineState {
                unassigned_idx: (if (t0.unassigned_idx as int) < u {
                    t0.unassigned_idx + 1
                } else {
                    t0.unassigned_idx as int
                }) as usize,
                ..t0
            },
            TimelineFocus::Assigned => TimelineState {
                assigned_idx: (if (t0.assigned_idx as int) < a {
                    t0.assigned_idx + 1
                } else {
                    t0.assigned_idx as int
                }) as usize,
                ..t0
            },
            TimelineFocus::Calendar => TimelineState {
                calendar_cursor: spec_shift_date(t0.calendar_cursor, 7),
                ..t0
            },
        }),
        u,
        a,
    ))
    &&& (key.code == KeyCode::Enter && t0.focus is Calendar ==> ((exists|i: int|
        0 <= i < a0.board.notes@.len() && due_on(
            #[trigger] a0.board.notes@[i],
            t0.calendar_cursor,
        )) ==> a1.timeline.focus is Assigned && a1.status@ == "Viewing tasks due "@ + date_text(
        t0.calendar_cursor,
    ) && (a > 0 ==> (a1.timeline.assigned_idx as int) < a) && a1.timeline.calendar_cursor
        == t0.calendar_cursor && (exists|asg: Seq<usize>| #![auto]
        is_assigned_list(a0.board.notes@, asg) && (a1.timeline.assigned_idx as int) < asg.len()
            && due_on(
            a0.board.notes@[asg[a1.timeline.assigned_idx as int] as int],
            t0.calendar_cursor,
        ) && (forall|q: int|
            0 <= q < a1.timeline.assigned_idx ==> !due_on(
                a0.board.notes@[(#[trigger] asg[q]) as int],
                t0.calendar_cursor,
            )))) && (!(exists|i: int|
        0 <= i < a0.board.notes@.len() && due_on(
            #[trigger] a0.board.notes@[i],
            t0.calendar_cursor,
        )) ==> a1.status@ == "No tasks due on that day"@ && a1.timeline == tl_clamped(t0, u, a)))
    &&& (key.code == KeyCode::Enter && !(t0.focus is Calendar) ==> a1.status == a0.status
        && a1.timeline == tl_clamped(t0, u, a))
    &&& (!(key.code == KeyCode::Tab || key.code == KeyCode::BackTab || key.code == KeyCode::Left
        || key.code == KeyCode::Right || key.code == KeyCode::Up || key.code == KeyCode::Down
        || key.code == KeyCode::Enter || key.code == KeyCode::Char('h') || key.code
        == KeyCode::Char('l') || key.code == KeyCode::Char('k') || key.code == KeyCode::Char('j'))
        ==> a1.status == a0.status && a1.timeline == tl_clamped(t0, u, a))
}

/// Everything a project-view key press does: Tab toggles panes (unless the
/// board is empty, which forces the default state), the horizontal keys pick
/// a pane, the vertical keys browse — a tag change resets the note selection
/// — and the selections only ever shrink back into bounds.
pub open spec fn project_key_spec(a0: App, key: KeyInput, a1: App, out: KeyOutcome) -> bool {
    let p0 = a0.project;
    &&& out == (KeyOutcome { quit: false, persist: false })
    &&& a1 == (App { project: a1.project, ..a0 })
    &&& (exists|bs: Seq<TagBucket>| #![auto]
        is_tag_buckets(a0.board.notes@, bs) && a1.project == project_clamped(
            project_key_mid(p0, key, bs),
            bs,
        ))
    &&& (a0.board.notes@.len() == 0 ==> a1.project == (ProjectState {
        focus: ProjectFocus::Tags,
        tag_idx: 0,
        note_idx: 0,
    }))
    &&& (a0.board.notes@.len() > 0 ==> {
        &&& (key.code == KeyCode::Tab ==> a1.project.focus == (match p0.focus {
            ProjectFocus::Tags => ProjectFocus::Notes,
            ProjectFocus::Notes => ProjectFocus::Tags,
        }) && a1.project.tag_idx <= p0.tag_idx && a1.project.note_idx <= p0.note_idx)
        &&& (key.code == KeyCode::Left || key.code == KeyCode::Char('h')
            ==> a1.project.focus is Tags)
        &&& (key.code == KeyCode::Right || key.code == KeyCode::Char('l')
            ==> a1.project.focus is Notes)
        &&& (key.code == KeyCode::Up || key.code == KeyCode::Char('k') ==> a1.project.focus
            == p0.focus && (p0.focus is Tags ==> (p0.tag_idx > 0 ==> a1.project.tag_idx
            <= p0.tag_idx - 1 && a1.project.note_idx == 0) && (p0.tag_idx == 0
            ==> a1.project.tag_idx == 0 && a1.project.note_idx <= p0.note_idx)) && (p0.focus
            is Notes ==> a1.project.tag_idx <= p0.tag_idx && a1.project.note_idx as int <= (
        if p0.note_idx > 0 {
            p0.note_idx - 1
        } else {
            0int
        })))
        &&& (key.code == KeyCode::Down || key.code == KeyCode::Char('j') ==> a1.project.focus
            == p0.focus && (p0.focus is Tags ==> a1.project.note_idx == 0 && a1.project.tag_idx
            <= p0.tag_idx + 1) && (p0.focus is Notes ==> a1.project.tag_idx <= p0.tag_idx
            && a1.project.note_idx <= p0.note_idx + 1))
        &&& (!(key.code == KeyCode::Tab || key.code == KeyCode::Left || key.code == KeyCode::Right
            || key.code == KeyCode::Up || key.code == KeyCode::Down || key.code == KeyCode::Char(
            'h',
        ) || key.code == KeyCode::Char('l') || key.code == KeyCode::Char('k') || key.code
            == KeyCode::Char('j')) ==> a1.project.focus == p0.focus && a1.project.tag_idx
            <= p0.tag_idx && a1.project.note_idx <= p0.note_idx)
    })
}

/// Everything a key press does while a delete confirmation is pending: 'y' or
/// Enter delete the note when it exists and sits in a column (asking for a
/// save), else only report; 'n' or Esc cancel; any other key changes nothing.
pub open spec fn confirm_key_spec(a0: App, key: KeyInput, a1: App, out: KeyOutcome) -> bool {
    let id = pending_delete_id(a0.mode);
    &&& !out.quit
    &&& (!out.persist ==> a1.board == a0.board)
    &&& (!(a0.mode is ConfirmDelete) ==> a1 == a0 && out == (KeyOutcome {
        quit: false,
        persist: false,
    }))
    &&& (a0.mode is ConfirmDelete ==> {
        &&& ((key.code == KeyCode::Char('y') || key.code == KeyCode::Enter) ==> a1.mode is Normal
            && a1 == (App {
            board: a1.board,
            mode: a1.mode,
            status: a1.status,
            selected_note: a1.selected_note,
            ..a0
        }) && (out.persist <==> a0.deletable(id)) && (out.persist ==> crate::model::board_after_delete(
            a0.board,
            id,
            a1.board,
        ) && !a1.board.has_note(id) && a1.status@ == "Deleted "@ + id) && (!out.persist
            ==> a1.board == a0.board && a1.selected_note == a0.selected_note && a1.status@
            == "Delete failed: "@ + (if !a0.board.has_note(id) {
            "note not found: "@ + id
        } else {
            "note "@ + id + " not present in any column"@
        })))
        &&& ((key.code == KeyCode::Char('n') || key.code == KeyCode::Esc) ==> !out.persist
            && a1.mode is Normal && a1 == (App { mode: a1.mode, status: a1.status, ..a0 })
            && a1.status@ == "Delete canceled"@)
        &&& (!(key.code == KeyCode::Char('y') || key.code == KeyCode::Enter || key.code
            == KeyCode::Char('n') || key.code == KeyCode::Esc) ==> a1 == a0 && out == (KeyOutcome {
            quit: false,
            persist: false,
        }))
    })
}

/// Everything a key press does while a form is open: Esc cancels back to
/// normal mode discarding nothing but the form, a submit persists exactly
/// when the form is accepted (committing a create to the selected column or
/// an edit in place), and no other key touches the board.
pub open spec fn form_mode_key_spec(a0: App, key: KeyInput, now: u64, a1: App, out: KeyOutcome) -> bool {
    &&& !out.quit
    &&& (!out.persist ==> a1.board == a0.board)
    &&& (out.persist ==> a1.mode is Normal)
    &&& (!(a0.mode is Creating || a0.mode is Editing) ==> a1 == a0 && out == (KeyOutcome {
        quit: false,
        persist: false,
    }))
    &&& ((a0.mode is Creating || a0.mode is Editing) && key.code == KeyCode::Esc ==> a1.mode
        is Normal && !out.persist && a1.status@ == "Canceled"@)
    &&& (a0.mode matches Mode::Creating(f) ==> ((out.persist <==> (key.code == KeyCode::Enter && (
    !(f.field is Body) || key.ctrl) && a0.create_accepted(f))) && (out.persist
        ==> board_after_create(a0.board, a0.selected_column as int, f, now, a1.board))))
    &&& (a0.mode matches Mode::Editing { note_id, form } ==> ((out.persist <==> (key.code
        == KeyCode::Enter && (!(form.field is Body) || key.ctrl) && a0.edit_accepted(
        form,
        note_id@,
    ))) && (out.persist ==> board_after_edit(a0.board, note_id@, form, now, a1.board))))
}

/// Everything `set_view` does: the view set, the status reporting a switch,
/// the timeline re-clamped exactly, and the project selections clamped back
/// into the recomputed buckets (the default state when the board is empty).
pub open spec fn view_set_spec(a0: App, v: ViewMode, a1: App) -> bool {
    let u = count_unassigned(a0.board.notes@);
    let a = a0.board.notes@.len() - u;
    &&& a1.view == v
    &&& a1 == (App {
        view: v,
        status: a1.status,
        timeline: a1.timeline,
        project: a1.project,
        ..a0
    })
    &&& (a0.view == v ==> a1.status == a0.status)
    &&& (a0.view != v ==> a1.status@ == "Switched to "@ + view_label(v) + " view"@)
    &&& a1.timeline == tl_clamped(a0.timeline, u, a)
    &&& (a0.board.notes@.len() == 0 ==> a1.project == (ProjectState {
        focus: ProjectFocus::Tags,
        tag_idx: 0,
        note_idx: 0,
    }))
    &&& (a0.board.notes@.len() > 0 ==> a1.project.focus == a0.project.focus && a1.project.tag_idx
        <= a0.project.tag_idx && a1.project.note_idx <= a0.project.note_idx)
}

/// On the timeline view, 'e' and 'd' act on the focused list's selection:
/// the mode opens exactly when that index is in range, and the note the new
/// mode names comes from the focused pane (so it has, or lacks, a due date
/// accordingly). `opened` says whether the mode in question was entered.
pub open spec fn selected_note_mode_spec(a0: App, opened: bool, m: Mode) -> bool {
    let u = count_unassigned(a0.board.notes@);
    let a = a0.board.notes@.len() - u;
    &&& (a0.timeline.focus is Calendar ==> !opened)
    &&& (a0.timeline.focus is Unassigned ==> ((((a0.timeline.unassigned_idx as int) < u)
        <==> opened) && (forall|n: int|
        a0.board.is_note_at(mode_note_id(m), n) && opened ==> (#[trigger] a0.board.notes@[n]).due
            is None)))
    &&& (a0.timeline.focus is Assigned ==> ((((a0.timeline.assigned_idx as int) < a) <==> opened)
        && (forall|n: int|
        a0.board.is_note_at(mode_note_id(m), n) && opened ==> (#[trigger] a0.board.notes@[n]).due
            is Some)))
}

/// The note id the mode names, when it names one.
pub open spec fn mode_note_id(m: Mode) -> Seq<char> {
    match m {
        Mode::Editing { note_id, .. } => note_id@,
        Mode::ConfirmDelete { note_id } => note_id@,
        _ => Seq::empty(),
    }
}

/// Everything a key press does in normal mode: q quits, 1/2/3 switch views,
/// n opens an empty create form, e opens an edit form seeded from the
/// selected note and d a delete confirmation (a status message when nothing
/// is selected), and every other key goes to the active view.
pub open spec fn normal_key_spec(a0: App, key: KeyInput, now: u64, a1: App, out: KeyOutcome) -> bool {
    &&& (out.quit <==> key.code == KeyCode::Char('q'))
    &&& (is_universal_key(key) ==> !out.persist && a1.board == a0.board)
    &&& (!out.persist ==> a1.board == a0.board)
    &&& (key.code == KeyCode::Char('q') ==> a1 == a0)
    &&& (key.code == KeyCode::Char('1') ==> view_set_spec(a0, ViewMode::Board, a1))
    &&& (key.code == KeyCode::Char('2') ==> view_set_spec(a0, ViewMode::Timeline, a1))
    &&& (key.code == KeyCode::Char('3') ==> view_set_spec(a0, ViewMode::Project, a1))
    &&& (key.code == KeyCode::Char('n') ==> a1 == (App { mode: a1.mode, status: a1.status, ..a0 })
        && (a1.mode matches Mode::Creating(f) && f.field is Title && f.title.text().len() == 0
        && f.body.text().len() == 0 && f.tags.text().len() == 0 && f.due.text().len() == 0)
        && a1.status@ == "Creating new task (Tab/Shift-Tab move, Ctrl+Enter save, Esc cancel)"@)
    &&& (key.code == KeyCode::Char('e') ==> a1 == (App { mode: a1.mode, status: a1.status, ..a0 })
        && ((a1.mode matches Mode::Editing { note_id, form } && a0.board.has_note(note_id@) && (
        forall|n: int|
            a0.board.is_note_at(note_id@, n) ==> form.seeded_from(#[trigger] a0.board.notes@[n]))
            && a1.status@ == "Editing "@ + note_id@) || (a1.mode is Normal && a1.status@
            == "No note selected to edit"@)) && (a0.view is Board ==> ((a0.has_board_selection()
            ==> (a1.mode matches Mode::Editing { note_id, form } && note_id@
            == a0.board_selected_id())) && (!a0.has_board_selection() ==> a1.mode is Normal))) && (
        a0.view is Timeline ==> selected_note_mode_spec(a0, a1.mode is Editing, a1.mode)) && (
        a0.view is Project ==> (((a0.project.focus is Notes && project_selection_in_range(
            a0.board,
            a0.project,
        )) <==> a1.mode is Editing))))
    &&& (key.code == KeyCode::Char('d') ==> a1 == (App { mode: a1.mode, status: a1.status, ..a0 })
        && ((a1.mode matches Mode::ConfirmDelete { note_id } && a0.board.has_note(note_id@)
        && a1.status@ == "Delete "@ + note_id@ + "? (y to confirm, n/Esc to cancel)"@) || (a1.mode
        is Normal && a1.status@ == "No note selected to delete"@)) && (a0.view is Board ==> ((
        a0.has_board_selection() ==> (a1.mode matches Mode::ConfirmDelete { note_id } && note_id@
            == a0.board_selected_id())) && (!a0.has_board_selection() ==> a1.mode is Normal))) && (
        a0.view is Timeline ==> selected_note_mode_spec(a0, a1.mode is ConfirmDelete, a1.mode)) && (
        a0.view is Project ==> (((a0.project.focus is Notes && project_selection_in_range(
            a0.board,
            a0.project,
        )) <==> a1.mode is ConfirmDelete))))
    &&& (!is_universal_key(key) ==> (a0.view is Board ==> board_key_spec(a0, key, now, a1, out)) && (
    a0.view is Timeline ==> timeline_key_spec(a0, key, a1, out)) && (a0.view is Project
        ==> project_key_spec(a0, key, a1, out)))
}

} // verus!