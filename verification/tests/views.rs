use postit::model::{Board, Note};
use postit::projections::{notes_due_on, project_tags, timeline_lists};
use postit::time::{parse_due, Date};

fn add(board: &mut Board, id: &str, title: &str, tags: &[&str], due: &str, now: u64) {
    let due = parse_due(due).unwrap();
    let note = Note::new(
        id.to_string(),
        title.to_string(),
        None,
        tags.iter().map(|t| t.to_string()).collect(),
        due,
        now,
    );
    board.add_note(note, "todo").unwrap();
}

fn titles(board: &Board, idxs: &[usize]) -> Vec<String> {
    idxs.iter().map(|&i| board.notes[i].title.clone()).collect()
}

#[test]
fn views_timeline_partitions_and_sorts_by_due() {
    // scenario: two dated notes and one undated note
    let mut b = Board::default_named("t".to_string());
    add(&mut b, "n1", "second", &[], "2024.01.03@10:00", 30);
    add(&mut b, "n2", "first", &[], "2024.01.01@09:00", 20);
    add(&mut b, "n3", "loose", &[], "", 10);
    let (unassigned, assigned) = timeline_lists(&b);
    assert_eq!(titles(&b, &assigned), ["first", "second"], "assigned ascending by due");
    assert_eq!(titles(&b, &unassigned), ["loose"], "exactly the undated note");
}

#[test]
fn views_unassigned_sorts_by_creation_then_title_case_insensitive() {
    let mut b = Board::default_named("t".to_string());
    add(&mut b, "n1", "Banana", &[], "", 5);
    add(&mut b, "n2", "apple", &[], "", 5);
    add(&mut b, "n3", "zebra", &[], "", 1);
    let (unassigned, _) = timeline_lists(&b);
    // earliest creation first; ties broken by lowercased title, so "apple"
    // sorts before "Banana" even though 'B' < 'a' by code point
    assert_eq!(titles(&b, &unassigned), ["zebra", "apple", "Banana"]);
}

#[test]
fn views_notes_due_on_filters_by_day() {
    let mut b = Board::default_named("t".to_string());
    add(&mut b, "n1", "morning", &[], "2024.01.03@09:00", 1);
    add(&mut b, "n2", "evening", &[], "2024.01.03@21:00", 2);
    add(&mut b, "n3", "other day", &[], "2024.01.04@09:00", 3);
    add(&mut b, "n4", "loose", &[], "", 4);
    let day = Date { year: 2024, month: 1, day: 3 };
    let due = notes_due_on(&b, day);
    assert_eq!(titles(&b, &due), ["morning", "evening"]);
}

#[test]
fn views_project_groups_by_tag_with_untagged_bucket() {
    let mut b = Board::default_named("t".to_string());
    add(&mut b, "n1", "a", &["work", "urgent"], "", 1);
    add(&mut b, "n2", "b", &["work"], "", 2);
    add(&mut b, "n3", "c", &[], "", 3);
    let tags = project_tags(&b);
    let names: Vec<&str> = tags.iter().map(|(name, _)| name.as_str()).collect();
    // alphabetical: "(untagged)" sorts first by its opening parenthesis
    assert_eq!(names, ["(untagged)", "urgent", "work"]);
    assert_eq!(titles(&b, &tags[0].1), ["c"]);
    assert_eq!(titles(&b, &tags[1].1), ["a"]);
    assert_eq!(titles(&b, &tags[2].1), ["a", "b"]);
}

#[test]
fn views_project_bucket_sorts_by_update_time() {
    let mut b = Board::default_named("t".to_string());
    add(&mut b, "n1", "older", &["x"], "", 10);
    add(&mut b, "n2", "newer", &["x"], "", 20);
    b.move_note("n1", "done", 30).unwrap();
    let tags = project_tags(&b);
    assert_eq!(tags.len(), 1);
    // the moved note was restamped and now sorts after the other
    assert_eq!(titles(&b, &tags[0].1), ["newer", "older"]);
}

#[test]
fn views_project_counts_one_entry_per_tag_occurrence() {
    let mut b = Board::default_named("t".to_string());
    add(&mut b, "n1", "twice", &["dup", "dup"], "", 1);
    add(&mut b, "n2", "once", &["dup"], "", 2);
    add(&mut b, "n3", "plain", &[], "", 3);
    let tags = project_tags(&b);
    let names: Vec<&str> = tags.iter().map(|(name, _)| name.as_str()).collect();
    assert_eq!(names, ["(untagged)", "dup"]);
    // a duplicated tag lists its note once per occurrence
    assert_eq!(titles(&b, &tags[1].1), ["twice", "twice", "once"]);
    // a tagless note appears exactly once, under the synthetic bucket
    assert_eq!(titles(&b, &tags[0].1), ["plain"]);
}
