use postit::model::{Board, BoardError, Column, Note, NoteUpdate};
use postit::time::DateTime;

fn note(id: &str, title: &str, now: u64) -> Note {
    Note::new(id.to_string(), title.to_string(), None, Vec::new(), None, now)
}

fn column(id: &str, wip_limit: Option<u32>) -> Column {
    Column { id: id.to_string(), name: id.to_string(), wip_limit, note_ids: Vec::new() }
}

/// Referential integrity: every id listed by a column resolves in the
/// note mapping.
fn check_refs(board: &Board) {
    for col in &board.columns {
        for id in &col.note_ids {
            assert!(
                board.notes.iter().any(|n| &n.id == id),
                "column {} lists unknown note {}",
                col.id,
                id
            );
        }
    }
}

#[test]
fn model_default_board_shape() {
    let b = Board::default_named("work".to_string());
    assert_eq!(b.name, "work");
    let ids: Vec<&str> = b.columns.iter().map(|c| c.id.as_str()).collect();
    assert_eq!(ids, ["todo", "doing", "waiting", "done"]);
    let names: Vec<&str> = b.columns.iter().map(|c| c.name.as_str()).collect();
    assert_eq!(names, ["To Do", "Doing", "Waiting", "Done"]);
    assert!(b.columns.iter().all(|c| c.wip_limit.is_none() && c.note_ids.is_empty()));
    assert!(b.notes.is_empty());
}

#[test]
fn model_add_note_appends_to_matching_column() {
    let mut b = Board::default_named("t".to_string());
    assert!(b.add_note(note("n1", "first", 1), "doing").is_ok());
    assert!(b.add_note(note("n2", "second", 2), "doing").is_ok());
    assert_eq!(b.columns[1].note_ids, ["n1", "n2"]);
    assert_eq!(b.notes.len(), 2);
    check_refs(&b);
}

#[test]
fn model_add_note_unknown_column() {
    let mut b = Board::default_named("t".to_string());
    match b.add_note(note("n1", "x", 1), "nowhere") {
        Err(BoardError::ColumnNotFound(c)) => assert_eq!(c, "nowhere"),
        other => panic!("expected ColumnNotFound, got {:?}", other),
    }
    assert!(b.notes.is_empty());
    check_refs(&b);
}

#[test]
fn model_add_note_at_wip_limit_fails_and_leaves_column_unchanged() {
    let mut b = Board { name: "t".to_string(), columns: vec![column("doing", Some(1))], notes: vec![] };
    assert!(b.add_note(note("n1", "one", 1), "doing").is_ok());
    let before = b.columns[0].note_ids.clone();
    match b.add_note(note("n2", "two", 2), "doing") {
        Err(BoardError::WipLimitReached(c)) => assert_eq!(c, "doing"),
        other => panic!("expected WipLimitReached, got {:?}", other),
    }
    assert_eq!(b.columns[0].note_ids, before, "failed WIP check never mutates");
    assert_eq!(b.columns[0].note_ids.len(), 1);
    assert_eq!(b.notes.len(), 1);
    check_refs(&b);
}

#[test]
fn model_move_note_between_columns_stamps_update() {
    let mut b = Board::default_named("t".to_string());
    b.add_note(note("n1", "x", 1), "todo").unwrap();
    assert!(b.move_note("n1", "done", 9).is_ok());
    assert!(b.columns[0].note_ids.is_empty());
    assert_eq!(b.columns[3].note_ids, ["n1"]);
    assert_eq!(b.notes[0].updated_at, 9);
    assert_eq!(b.notes[0].created_at, 1);
    check_refs(&b);
}

#[test]
fn model_move_note_same_column_is_idempotent_and_skips_wip_check() {
    let mut b = Board {
        name: "t".to_string(),
        columns: vec![column("doing", Some(1))],
        notes: vec![],
    };
    b.add_note(note("n1", "x", 1), "doing").unwrap();
    // the column is at its limit, yet moving the note onto itself succeeds
    let snapshot = b.columns[0].note_ids.clone();
    assert!(b.move_note("n1", "doing", 5).is_ok());
    assert!(b.move_note("n1", "doing", 6).is_ok());
    assert_eq!(b.columns[0].note_ids, snapshot);
    assert_eq!(b.notes[0].updated_at, 1, "the no-op path does not restamp");
    check_refs(&b);
}

#[test]
fn model_move_note_errors() {
    let mut b = Board::default_named("t".to_string());
    b.add_note(note("n1", "x", 1), "todo").unwrap();
    match b.move_note("ghost", "done", 2) {
        Err(BoardError::NoteNotFound(s)) => assert_eq!(s, "ghost"),
        other => panic!("expected NoteNotFound, got {:?}", other),
    }
    match b.move_note("n1", "nowhere", 2) {
        Err(BoardError::ColumnNotFound(s)) => assert_eq!(s, "nowhere"),
        other => panic!("expected ColumnNotFound, got {:?}", other),
    }
    // a note known to the mapping but listed by no column
    b.notes.push(note("stray", "s", 1));
    match b.move_note("stray", "done", 2) {
        Err(BoardError::NoteLocationMissing(s)) => assert_eq!(s, "stray"),
        other => panic!("expected NoteLocationMissing, got {:?}", other),
    }
    // a full destination
    let mut full = Board {
        name: "t".to_string(),
        columns: vec![column("a", None), column("b", Some(1))],
        notes: vec![],
    };
    full.add_note(note("n1", "x", 1), "a").unwrap();
    full.add_note(note("n2", "y", 1), "b").unwrap();
    match full.move_note("n1", "b", 2) {
        Err(BoardError::WipLimitReached(s)) => assert_eq!(s, "b"),
        other => panic!("expected WipLimitReached, got {:?}", other),
    }
    assert_eq!(full.columns[0].note_ids, ["n1"], "failed move leaves the board untouched");
}

#[test]
fn model_update_note_applies_patch_and_always_restamps() {
    let mut b = Board::default_named("t".to_string());
    b.add_note(note("n1", "x", 1), "todo").unwrap();
    // an empty patch still refreshes updated_at
    assert!(b.update_note("n1", NoteUpdate::keep_all(), 7).is_ok());
    assert_eq!(b.notes[0].updated_at, 7);
    assert_eq!(b.notes[0].title, "x");
    let up = NoteUpdate {
        title: Some("new title".to_string()),
        body: Some(Some("body".to_string())),
        tags: Some(vec!["a".to_string(), "b".to_string()]),
        due: Some(Some(DateTime { year: 2024, month: 1, day: 1, hour: 9, minute: 0 })),
    };
    assert!(b.update_note("n1", up, 8).is_ok());
    assert_eq!(b.notes[0].title, "new title");
    assert_eq!(b.notes[0].body.as_deref(), Some("body"));
    assert_eq!(b.notes[0].tags, ["a", "b"]);
    assert_eq!(b.notes[0].updated_at, 8);
    assert!(matches!(
        b.update_note("ghost", NoteUpdate::keep_all(), 9),
        Err(BoardError::NoteNotFound(_))
    ));
}

#[test]
fn model_delete_note_scrubs_column_and_mapping_in_one_operation() {
    let mut b = Board::default_named("t".to_string());
    b.add_note(note("n1", "x", 1), "todo").unwrap();
    b.add_note(note("n2", "y", 1), "todo").unwrap();
    assert!(b.delete_note("n1").is_ok());
    assert_eq!(b.columns[0].note_ids, ["n2"]);
    assert_eq!(b.notes.len(), 1);
    assert_eq!(b.notes[0].id, "n2");
    check_refs(&b);
    assert!(matches!(b.delete_note("n1"), Err(BoardError::NoteNotFound(_))));
    b.notes.push(note("stray", "s", 1));
    assert!(matches!(b.delete_note("stray"), Err(BoardError::NoteLocationMissing(_))));
}

#[test]
fn model_lookup_is_first_match() {
    let mut b = Board {
        name: "t".to_string(),
        columns: vec![column("dup", None), column("dup", Some(0))],
        notes: vec![],
    };
    // duplicate column ids are tolerated: the first match wins
    assert_eq!(b.find_column_index("dup"), Some(0));
    assert!(b.add_note(note("n1", "x", 1), "dup").is_ok());
    assert_eq!(b.columns[0].note_ids, ["n1"]);
    assert!(b.columns[1].note_ids.is_empty());
    assert_eq!(b.find_note_column_index("n1"), Some(0));
    assert_eq!(b.find_note_column_index("ghost"), None);
}

#[test]
fn model_error_messages() {
    assert_eq!(
        BoardError::ColumnNotFound("x".to_string()).message(),
        "column not found: x"
    );
    assert_eq!(BoardError::NoteNotFound("y".to_string()).message(), "note not found: y");
    assert_eq!(
        BoardError::NoteLocationMissing("z".to_string()).message(),
        "note z not present in any column"
    );
    assert_eq!(
        BoardError::WipLimitReached("doing".to_string()).message(),
        "wip limit reached for column doing"
    );
}

#[test]
fn model_integrity_holds_after_mixed_sequence() {
    let mut b = Board::default_named("t".to_string());
    b.add_note(note("a", "1", 1), "todo").unwrap();
    b.add_note(note("b", "2", 2), "doing").unwrap();
    b.add_note(note("c", "3", 3), "todo").unwrap();
    b.move_note("a", "done", 4).unwrap();
    b.delete_note("b").unwrap();
    b.move_note("c", "doing", 5).unwrap();
    check_refs(&b);
    let listed: usize = b.columns.iter().map(|c| c.note_ids.len()).sum();
    assert_eq!(listed, 2);
    assert_eq!(b.notes.len(), 2);
}

#[test]
fn model_target_column_defaults_to_first() {
    let b = Board::default_named("t".to_string());
    assert_eq!(b.target_column_id(None).as_deref(), Some("todo"));
    assert_eq!(b.target_column_id(Some("done".to_string())).as_deref(), Some("done"));
    let empty = Board { name: "e".to_string(), columns: vec![], notes: vec![] };
    assert_eq!(empty.target_column_id(None), None);
}

#[test]
fn model_cli_edit_patch_mapping() {
    let up = NoteUpdate::from_cli_edit(None, None, vec![], true, None, true);
    assert!(up.title.is_none() && up.body.is_none());
    assert_eq!(up.tags, Some(vec![]));
    assert_eq!(up.due, Some(None));
    let up2 = NoteUpdate::from_cli_edit(
        Some("t".to_string()),
        Some("b".to_string()),
        vec!["x".to_string()],
        true,
        Some(DateTime { year: 2024, month: 1, day: 1, hour: 0, minute: 0 }),
        true,
    );
    assert_eq!(up2.title.as_deref(), Some("t"));
    assert_eq!(up2.body, Some(Some("b".to_string())));
    assert_eq!(up2.tags, Some(vec!["x".to_string()]));
    assert!(matches!(up2.due, Some(Some(_))));
    let up3 = NoteUpdate::from_cli_edit(None, None, vec![], false, None, false);
    assert!(up3.tags.is_none() && up3.due.is_none());
}
