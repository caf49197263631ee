//! View-level navigation state: which of the three views is shown, and the
//! timeline's and project view's own focus and selection state.

use vstd::prelude::*;
use crate::model::Board;
use crate::time::Date;

verus! {

/// The three display perspectives over one board.
#[derive(Clone, Copy, PartialEq, Eq, Structural, Debug)]
pub enum ViewMode {
    Board,
    Timeline,
    Project,
}

/// The text of a view's display name.
pub open spec fn view_label(v: ViewMode) -> Seq<char> {
    match v {
        ViewMode::Board => "Board"@,
        ViewMode::Timeline => "Timeline"@,
        ViewMode::Project => "Project"@,
    }
}

impl ViewMode {
    /// The view's display name.
    pub fn label(&self) -> (r: &'static str)
        ensures
            r@ == view_label(*self),
    {
        match self {
            ViewMode::Board => "Board",
            ViewMode::Timeline => "Timeline",
            ViewMode::Project => "Project",
        }
    }
}

/// Which pane of the timeline view has focus.
#[derive(Clone, Copy, PartialEq, Eq, Structural, Debug)]
pub enum TimelineFocus {
    Unassigned,
    Assigned,
    Calendar,
}

/// The pane after the timeline's focus cycles forward.
pub open spec fn focus_next(f: TimelineFocus) -> TimelineFocus {
    match f {
        TimelineFocus::Unassigned => TimelineFocus::Assigned,
        TimelineFocus::Assigned => TimelineFocus::Calendar,
        TimelineFocus::Calendar => TimelineFocus::Unassigned,
    }
}

/// The pane after the timeline's focus cycles backward.
pub open spec fn focus_prev(f: TimelineFocus) -> TimelineFocus {
    match f {
        TimelineFocus::Unassigned => TimelineFocus::Calendar,
        TimelineFocus::Assigned => TimelineFocus::Unassigned,
        TimelineFocus::Calendar => TimelineFocus::Assigned,
    }
}

/// The timeline view's own state: pane focus, a selection and scroll offset
/// per list, and the calendar cursor.
#[derive(Clone, Copy, PartialEq, Eq, Structural, Debug)]
pub struct TimelineState {
    pub focus: TimelineFocus,
    pub unassigned_idx: usize,
    pub assigned_idx: usize,
    pub calendar_cursor: Date,
    pub unassigned_offset: usize,
    pub assigned_offset: usize,
}

impl TimelineState {
    /// Fresh timeline state: focus on the assigned list, selections at the
    /// top, and the calendar cursor on the earliest due date, or on `today`
    /// when no note has one.
    pub fn new(board: &Board, today: Date) -> (t: TimelineState)
        requires
            board.wf(),
            today.valid(),
        ensures
            t.focus == TimelineFocus::Assigned,
            t.unassigned_idx == 0,
            t.assigned_idx == 0,
            t.unassigned_offset == 0,
            t.assigned_offset == 0,
            t.calendar_cursor.valid(),
            (forall|i: int|
                0 <= i < board.notes@.len() ==> (#[trigger] board.notes@[i]).due is None)
                ==> t.calendar_cursor == today,
            (exists|i: int|
                0 <= i < board.notes@.len() && (#[trigger] board.notes@[i]).due is Some) ==> (
            exists|i: int|
                0 <= i < board.notes@.len() && ((#[trigger] board.notes@[i]).due matches Some(d)
                    && d.date_spec() == t.calendar_cursor)) && (forall|i: int|
                0 <= i < board.notes@.len() ==> ((#[trigger] board.notes@[i]).due matches Some(d)
                    ==> t.calendar_cursor.key_spec() <= d.date_spec().key_spec())),
    {
        let n = board.notes.len();
        let mut cursor = today;
        let mut found = false;
        let mut i: usize = 0;
        while i < n
            invariant
                0 <= i <= n,
                n == board.notes@.len(),
                board.wf(),
                today.valid(),
                cursor.valid(),
                !found ==> cursor == today,
                !found ==> forall|j: int|
                    0 <= j < i ==> (#[trigger] board.notes@[j]).due is None,
                found ==> exists|j: int|
                    0 <= j < i && ((#[trigger] board.notes@[j]).due matches Some(d) && d.date_spec()
                        == cursor),
                found ==> forall|j: int|
                    0 <= j < i ==> ((#[trigger] board.notes@[j]).due matches Some(d)
                        ==> cursor.key_spec() <= d.date_spec().key_spec()),
            decreases n - i,
        {
            match &board.notes[i].due {
                Some(d) => {
                    let dd = d.date();
                    proof {
                        assert(board.notes@[i as int].due_valid());
                    }
                    if !found || dd.key() < cursor.key() {
                        cursor = dd;
                    }
                    found = true;
                },
                None => {},
            }
            i += 1;
        }
        TimelineState {
            focus: TimelineFocus::Assigned,
            unassigned_idx: 0,
            assigned_idx: 0,
            calendar_cursor: cursor,
            unassigned_offset: 0,
            assigned_offset: 0,
        }
    }

    /// Cycles focus forward: unassigned, assigned, calendar, and around.
    pub fn next_focus(&mut self)
        ensures
            *final(self) == (TimelineState {
                focus: match old(self).focus {
                    TimelineFocus::Unassigned => TimelineFocus::Assigned,
                    TimelineFocus::Assigned => TimelineFocus::Calendar,
                    TimelineFocus::Calendar => TimelineFocus::Unassigned,
                },
                ..*old(self)
            }),
    {
        self.focus = match self.focus {
            TimelineFocus::Unassigned => TimelineFocus::Assigned,
            TimelineFocus::Assigned => TimelineFocus::Calendar,
            TimelineFocus::Calendar => TimelineFocus::Unassigned,
        };
    }

    /// Cycles focus backward.
    pub fn prev_focus(&mut self)
        ensures
            *final(self) == (TimelineState {
                focus: match old(self).focus {
                    TimelineFocus::Unassigned => TimelineFocus::Calendar,
                    TimelineFocus::Assigned => TimelineFocus::Unassigned,
                    TimelineFocus::Calendar => TimelineFocus::Assigned,
                },
                ..*old(self)
            }),
    {
        self.focus = match self.focus {
            TimelineFocus::Unassigned => TimelineFocus::Calendar,
            TimelineFocus::Assigned => TimelineFocus::Unassigned,
            TimelineFocus::Calendar => TimelineFocus::Assigned,
        };
    }
}

/// Which pane of the project view has focus.
#[derive(Clone, Copy, PartialEq, Eq, Structural, Debug)]
pub enum ProjectFocus {
    Tags,
    Notes,
}

/// The project view's own state: pane focus plus the selected tag and note.
#[derive(Clone, Copy, PartialEq, Eq, Structural, Debug)]
pub struct ProjectState {
    pub focus: ProjectFocus,
    pub tag_idx: usize,
    pub note_idx: usize,
}

impl ProjectState {
    /// Fresh project state: focus on the tag list, selections at the top.
    pub fn new() -> (p: ProjectState)
        ensures
            p == (ProjectState { focus: ProjectFocus::Tags, tag_idx: 0, note_idx: 0 }),
    {
        ProjectState { focus: ProjectFocus::Tags, tag_idx: 0, note_idx: 0 }
    }

    /// Moves focus to the note list.
    pub fn focus_notes(&mut self)
        ensures
            *final(self) == (ProjectState { focus: ProjectFocus::Notes, ..*old(self) }),
    {
        self.focus = ProjectFocus::Notes;
    }

    /// Moves focus to the tag list.
    pub fn focus_tags(&mut self)
        ensures
            *final(self) == (ProjectState { focus: ProjectFocus::Tags, ..*old(self) }),
    {
        self.focus = ProjectFocus::Tags;
    }
}

} // verus!
