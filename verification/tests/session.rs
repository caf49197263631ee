use postit::app::{App, KeyCode, KeyInput, Mode};
use postit::location::{locate_board, BoardLocation, BoardScope};
use postit::model::{Board, Note};
use postit::nav::{TimelineFocus, ViewMode};
use postit::time::{parse_due, Date};

fn key(code: KeyCode) -> KeyInput {
    KeyInput { code, ctrl: false, alt: false }
}

fn ctrl(code: KeyCode) -> KeyInput {
    KeyInput { code, ctrl: true, alt: false }
}

fn today() -> Date {
    Date { year: 2024, month: 6, day: 1 }
}

fn fresh_app(board: Board) -> App {
    let location = BoardLocation { path: "/tmp/board.yml".to_string(), scope: BoardScope::Project };
    App::new(board, location, today())
}

fn type_text(app: &mut App, text: &str, now: u64) {
    for c in text.chars() {
        app.handle_key(key(KeyCode::Char(c)), now);
    }
}

#[test]
fn session_add_note_defaults_to_first_column() {
    // scenario: an empty default board, a note added with no column given
    let mut board = Board::default_named("demo".to_string());
    let column_id = board.target_column_id(None).expect("the board has columns");
    assert_eq!(column_id, "todo");
    let note = Note::new("n1".to_string(), "Buy milk".to_string(), None, vec![], None, 1);
    board.add_note(note, &column_id).unwrap();
    assert_eq!(board.columns[0].note_ids, ["n1"]);
    let listed = board.notes.iter().find(|n| n.id == "n1").unwrap();
    assert_eq!(listed.title, "Buy milk");
    assert_eq!(listed.due, None);
}

#[test]
fn session_wip_limited_column_rejects_second_note() {
    let mut board = Board::default_named("demo".to_string());
    board.columns[1].wip_limit = Some(1);
    let first = Note::new("n1".to_string(), "busy".to_string(), None, vec![], None, 1);
    board.add_note(first, "doing").unwrap();
    let second = Note::new("n2".to_string(), "more".to_string(), None, vec![], None, 2);
    let err = board.add_note(second, "doing").unwrap_err();
    assert_eq!(err.message(), "wip limit reached for column doing");
    assert_eq!(board.columns[1].note_ids.len(), 1, "the column still holds exactly one note");
}

#[test]
fn session_move_there_and_back_restamps_strictly_later() {
    let mut board = Board::default_named("demo".to_string());
    let note = Note::new("n1".to_string(), "task".to_string(), None, vec![], None, 10);
    board.add_note(note, "todo").unwrap();
    let before = board.notes[0].updated_at;
    board.move_note("n1", "done", 20).unwrap();
    board.move_note("n1", "todo", 30).unwrap();
    assert_eq!(board.columns[0].note_ids, ["n1"], "the note is back under todo");
    assert!(board.columns[3].note_ids.is_empty());
    assert!(board.notes[0].updated_at > before);
}

#[test]
fn session_create_note_through_the_form() {
    let board = Board::default_named("demo".to_string());
    let mut app = fresh_app(board);
    let out = app.handle_key(key(KeyCode::Char('n')), 1);
    assert!(!out.quit && !out.persist);
    assert!(matches!(app.mode, Mode::Creating(_)));
    type_text(&mut app, "Buy milk", 1);
    // move to the due field and type a date
    app.handle_key(key(KeyCode::Tab), 1);
    app.handle_key(key(KeyCode::Tab), 1);
    app.handle_key(key(KeyCode::Tab), 1);
    type_text(&mut app, "2024.01.03@10:00", 1);
    let out = app.handle_key(ctrl(KeyCode::Enter), 5);
    assert!(out.persist, "a successful submit asks for a save");
    assert!(matches!(app.mode, Mode::Normal));
    assert_eq!(app.board.notes.len(), 1);
    assert_eq!(app.board.notes[0].title, "Buy milk");
    assert_eq!(app.board.notes[0].created_at, 5);
    assert_eq!(app.board.notes[0].due, parse_due("2024.01.03@10:00").unwrap());
    assert_eq!(app.board.columns[0].note_ids.len(), 1);
}

#[test]
fn session_blank_title_keeps_form_open_and_board_unchanged() {
    let board = Board::default_named("demo".to_string());
    let mut app = fresh_app(board);
    app.handle_key(key(KeyCode::Char('n')), 1);
    let out = app.handle_key(ctrl(KeyCode::Enter), 2);
    assert!(!out.persist);
    assert!(matches!(app.mode, Mode::Creating(_)), "the form stays open");
    assert_eq!(app.status, "Could not create: title is required");
    assert!(app.board.notes.is_empty());
}

#[test]
fn session_enter_in_body_inserts_newline() {
    let board = Board::default_named("demo".to_string());
    let mut app = fresh_app(board);
    app.handle_key(key(KeyCode::Char('n')), 1);
    type_text(&mut app, "t", 1);
    app.handle_key(key(KeyCode::Tab), 1);
    type_text(&mut app, "one", 1);
    app.handle_key(key(KeyCode::Enter), 1);
    type_text(&mut app, "two", 1);
    let out = app.handle_key(ctrl(KeyCode::Enter), 2);
    assert!(out.persist);
    assert_eq!(app.board.notes[0].body.as_deref(), Some("one\ntwo"));
}

#[test]
fn session_edit_rewrites_all_fields() {
    let mut board = Board::default_named("demo".to_string());
    let note = Note::new(
        "n1".to_string(),
        "old".to_string(),
        Some("body".to_string()),
        vec!["tag".to_string()],
        None,
        1,
    );
    board.add_note(note, "todo").unwrap();
    let mut app = fresh_app(board);
    app.handle_key(key(KeyCode::Char('e')), 2);
    assert!(matches!(app.mode, Mode::Editing { .. }));
    assert_eq!(app.status, "Editing n1");
    // clear the pre-seeded title and replace it
    app.handle_key(key(KeyCode::Backspace), 2);
    app.handle_key(key(KeyCode::Backspace), 2);
    app.handle_key(key(KeyCode::Backspace), 2);
    type_text(&mut app, "new", 2);
    let out = app.handle_key(ctrl(KeyCode::Enter), 9);
    assert!(out.persist);
    assert_eq!(app.board.notes[0].title, "new");
    assert_eq!(app.board.notes[0].body.as_deref(), Some("body"));
    assert_eq!(app.board.notes[0].tags, ["tag"]);
    assert_eq!(app.board.notes[0].updated_at, 9);
}

#[test]
fn session_escape_cancels_form_without_losing_board() {
    let board = Board::default_named("demo".to_string());
    let mut app = fresh_app(board);
    app.handle_key(key(KeyCode::Char('n')), 1);
    type_text(&mut app, "draft", 1);
    let out = app.handle_key(key(KeyCode::Esc), 1);
    assert!(!out.persist);
    assert!(matches!(app.mode, Mode::Normal));
    assert_eq!(app.status, "Canceled");
    assert!(app.board.notes.is_empty());
}

#[test]
fn session_delete_asks_for_confirmation() {
    let mut board = Board::default_named("demo".to_string());
    let note = Note::new("n1".to_string(), "gone".to_string(), None, vec![], None, 1);
    board.add_note(note, "todo").unwrap();
    let mut app = fresh_app(board);
    app.handle_key(key(KeyCode::Char('d')), 2);
    assert!(matches!(app.mode, Mode::ConfirmDelete { .. }));
    // cancel first
    let out = app.handle_key(key(KeyCode::Char('n')), 2);
    assert!(!out.persist);
    assert_eq!(app.board.notes.len(), 1);
    assert_eq!(app.status, "Delete canceled");
    // then confirm
    app.handle_key(key(KeyCode::Char('d')), 3);
    let out = app.handle_key(key(KeyCode::Char('y')), 3);
    assert!(out.persist);
    assert!(app.board.notes.is_empty());
    assert!(app.board.columns[0].note_ids.is_empty());
    assert_eq!(app.status, "Deleted n1");
}

#[test]
fn session_board_navigation_and_move_follow_the_note() {
    let mut board = Board::default_named("demo".to_string());
    for (i, t) in ["a", "b"].iter().enumerate() {
        let n = Note::new(format!("n{}", i), t.to_string(), None, vec![], None, i as u64);
        board.add_note(n, "todo").unwrap();
    }
    let mut app = fresh_app(board);
    app.handle_key(key(KeyCode::Down), 1);
    assert_eq!(app.selected_note, 1);
    let out = app.handle_key(key(KeyCode::Char('m')), 5);
    assert!(out.persist);
    assert_eq!(app.selected_column, 1, "the selection follows the moved note");
    assert_eq!(app.selected_note, 0);
    assert_eq!(app.board.columns[1].note_ids, ["n1"]);
    assert_eq!(app.status, "Moved to Doing");
    // moving left from the first column is clamped: nothing happens
    app.handle_key(key(KeyCode::Char('h')), 6);
    assert_eq!(app.selected_column, 0);
    let out = app.handle_key(key(KeyCode::Char('b')), 6);
    assert!(!out.persist);
    assert_eq!(app.status, "Already at the edge of the board");
}

#[test]
fn session_quit_only_from_normal_mode() {
    let board = Board::default_named("demo".to_string());
    let mut app = fresh_app(board);
    app.handle_key(key(KeyCode::Char('n')), 1);
    let out = app.handle_key(key(KeyCode::Char('q')), 1);
    assert!(!out.quit, "q types into the form instead of quitting");
    app.handle_key(key(KeyCode::Esc), 1);
    let out = app.handle_key(key(KeyCode::Char('q')), 1);
    assert!(out.quit);
}

#[test]
fn session_timeline_calendar_jump() {
    let mut board = Board::default_named("demo".to_string());
    for (id, title, due, now) in [
        ("n1", "second", "2024.01.03@10:00", 1),
        ("n2", "first", "2024.01.01@09:00", 2),
    ] {
        let n = Note::new(
            id.to_string(),
            title.to_string(),
            None,
            vec![],
            parse_due(due).unwrap(),
            now,
        );
        board.add_note(n, "todo").unwrap();
    }
    let mut app = fresh_app(board);
    app.handle_key(key(KeyCode::Char('2')), 3);
    assert_eq!(app.view, ViewMode::Timeline);
    // the calendar cursor starts on the earliest due date
    assert_eq!(app.timeline.calendar_cursor, Date { year: 2024, month: 1, day: 1 });
    // focus the calendar, step two days right, and jump
    app.handle_key(key(KeyCode::Tab), 3);
    assert_eq!(app.timeline.focus, TimelineFocus::Calendar);
    app.handle_key(key(KeyCode::Right), 3);
    app.handle_key(key(KeyCode::Right), 3);
    app.handle_key(key(KeyCode::Enter), 3);
    assert_eq!(app.timeline.focus, TimelineFocus::Assigned);
    assert_eq!(app.timeline.assigned_idx, 1, "selects the first note due that day");
    assert_eq!(app.status, "Viewing tasks due 2024-01-03");
    // a week down from Jan 3rd, then Enter finds nothing
    app.handle_key(key(KeyCode::Tab), 3);
    assert_eq!(app.timeline.focus, TimelineFocus::Calendar);
    app.handle_key(key(KeyCode::Down), 3);
    assert_eq!(app.timeline.calendar_cursor, Date { year: 2024, month: 1, day: 10 });
    app.handle_key(key(KeyCode::Enter), 3);
    assert_eq!(app.status, "No tasks due on that day");
}

#[test]
fn session_generated_ids_are_short_alphanumerics() {
    // ids are allocated when a note is created through the form
    for _ in 0..8 {
        let board = Board::default_named("demo".to_string());
        let mut app = fresh_app(board);
        app.handle_key(key(KeyCode::Char('n')), 1);
        type_text(&mut app, "task", 1);
        let out = app.handle_key(ctrl(KeyCode::Enter), 2);
        assert!(out.persist);
        let id = &app.board.notes[0].id;
        assert_eq!(id.chars().count(), 6);
        assert!(id.chars().all(|c| c.is_ascii_alphanumeric()));
    }
}

#[test]
fn session_locate_board_prefers_project_over_global() {
    let r = locate_board(Some("/work/.postit/board.yml".to_string()), "/home/global.yml".to_string());
    assert_eq!(r.path, "/work/.postit/board.yml");
    assert_eq!(r.scope, BoardScope::Project);
    let r = locate_board(None, "/home/global.yml".to_string());
    assert_eq!(r.path, "/home/global.yml");
    assert_eq!(r.scope, BoardScope::Global);
}

#[test]
fn session_invalid_due_keeps_form_open() {
    let board = Board::default_named("demo".to_string());
    let mut app = fresh_app(board);
    app.handle_key(key(KeyCode::Char('n')), 1);
    type_text(&mut app, "task", 1);
    app.handle_key(key(KeyCode::Tab), 1);
    app.handle_key(key(KeyCode::Tab), 1);
    app.handle_key(key(KeyCode::Tab), 1);
    type_text(&mut app, "soon", 1);
    let out = app.handle_key(ctrl(KeyCode::Enter), 2);
    assert!(!out.persist);
    assert!(matches!(app.mode, Mode::Creating(_)));
    assert_eq!(app.status, "Could not create: invalid date format (use YYYY.MM.DD@hh:mm)");
    assert!(app.board.notes.is_empty());
}

#[test]
fn session_create_into_full_column_reports_wip_limit() {
    let mut board = Board::default_named("demo".to_string());
    board.columns[0].wip_limit = Some(0);
    let mut app = fresh_app(board);
    app.handle_key(key(KeyCode::Char('n')), 1);
    type_text(&mut app, "task", 1);
    let out = app.handle_key(ctrl(KeyCode::Enter), 2);
    assert!(!out.persist);
    assert_eq!(app.status, "Could not create: wip limit reached for column todo");
    assert!(app.board.notes.is_empty());
}

#[test]
fn session_project_view_navigation() {
    let mut board = Board::default_named("demo".to_string());
    for (id, title, tags, now) in [
        ("n1", "a", vec!["work"], 1u64),
        ("n2", "b", vec!["home"], 2),
        ("n3", "c", vec!["home"], 3),
    ] {
        let n = Note::new(
            id.to_string(),
            title.to_string(),
            None,
            tags.into_iter().map(|t| t.to_string()).collect(),
            None,
            now,
        );
        board.add_note(n, "todo").unwrap();
    }
    let mut app = fresh_app(board);
    app.handle_key(key(KeyCode::Char('3')), 4);
    assert_eq!(app.view, ViewMode::Project);
    // tags sorted: home, work; focus starts on the tag list
    app.handle_key(key(KeyCode::Tab), 4);
    assert_eq!(app.project.focus, postit::nav::ProjectFocus::Notes);
    app.handle_key(key(KeyCode::Down), 4);
    assert_eq!(app.project.note_idx, 1);
    app.handle_key(key(KeyCode::Left), 4);
    assert_eq!(app.project.focus, postit::nav::ProjectFocus::Tags);
    app.handle_key(key(KeyCode::Down), 4);
    assert_eq!(app.project.tag_idx, 1);
    assert_eq!(app.project.note_idx, 0, "changing the tag resets the note selection");
}

#[test]
fn session_edit_from_timeline_selection() {
    let mut board = Board::default_named("demo".to_string());
    for (id, title, due, now) in [
        ("n1", "later", "2024.02.01@12:00", 1u64),
        ("n2", "sooner", "2024.01.01@12:00", 2),
        ("n3", "loose", "", 3),
    ] {
        let n = Note::new(
            id.to_string(),
            title.to_string(),
            None,
            vec![],
            parse_due(due).unwrap(),
            now,
        );
        board.add_note(n, "todo").unwrap();
    }
    let mut app = fresh_app(board);
    app.handle_key(key(KeyCode::Char('2')), 4);
    // focus starts on the assigned list; its first entry is the earliest due
    app.handle_key(key(KeyCode::Char('e')), 4);
    match &app.mode {
        Mode::Editing { note_id, .. } => assert_eq!(note_id, "n2"),
        _ => panic!("expected an edit of the selected assigned note"),
    }
    app.handle_key(key(KeyCode::Esc), 4);
    // the unassigned pane selects the undated note
    app.handle_key(key(KeyCode::BackTab), 4);
    assert_eq!(app.timeline.focus, TimelineFocus::Unassigned);
    app.handle_key(key(KeyCode::Char('d')), 4);
    match &app.mode {
        Mode::ConfirmDelete { note_id } => assert_eq!(note_id, "n3"),
        _ => panic!("expected a delete confirmation for the selected unassigned note"),
    }
    app.handle_key(key(KeyCode::Esc), 4);
    // on the calendar pane nothing is selected
    app.handle_key(key(KeyCode::BackTab), 4);
    assert_eq!(app.timeline.focus, TimelineFocus::Calendar);
    app.handle_key(key(KeyCode::Char('e')), 4);
    assert!(matches!(app.mode, Mode::Normal));
    assert_eq!(app.status, "No note selected to edit");
}

#[test]
fn session_edit_from_project_selection() {
    let mut board = Board::default_named("demo".to_string());
    let n = Note::new("n1".to_string(), "tagged".to_string(), None, vec!["work".to_string()], None, 1);
    board.add_note(n, "todo").unwrap();
    let mut app = fresh_app(board);
    app.handle_key(key(KeyCode::Char('3')), 2);
    // tag pane focused: nothing selected for editing
    app.handle_key(key(KeyCode::Char('e')), 2);
    assert!(matches!(app.mode, Mode::Normal));
    assert_eq!(app.status, "No note selected to edit");
    // note pane focused: the selected note opens
    app.handle_key(key(KeyCode::Tab), 2);
    app.handle_key(key(KeyCode::Char('e')), 2);
    match &app.mode {
        Mode::Editing { note_id, .. } => assert_eq!(note_id, "n1"),
        _ => panic!("expected an edit of the selected project note"),
    }
}
