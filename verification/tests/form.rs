use postit::form::{parse_tags, FormError, FormField, NoteForm};
use postit::model::Note;
use postit::text::{format_elapsed, truncate_text};
use postit::time::DateTime;

#[test]
fn form_parse_tags_splits_on_whitespace_and_commas() {
    assert_eq!(parse_tags("a b,c"), ["a", "b", "c"]);
    assert_eq!(parse_tags("  a ,,  b\tc\n"), ["a", "b", "c"]);
    assert_eq!(parse_tags(""), Vec::<String>::new());
    assert_eq!(parse_tags(" ,, \t"), Vec::<String>::new());
    assert_eq!(parse_tags("dup dup"), ["dup", "dup"], "duplicates are permitted");
}

fn type_str(f: &mut NoteForm, text: &str) {
    for c in text.chars() {
        f.active_field_mut().insert_char(c);
    }
}

#[test]
fn form_focus_cycles_both_ways() {
    let mut f = NoteForm::new();
    assert_eq!(f.field, FormField::Title);
    f.next_field();
    assert_eq!(f.field, FormField::Body);
    f.next_field();
    f.next_field();
    assert_eq!(f.field, FormField::Due);
    f.next_field();
    assert_eq!(f.field, FormField::Title, "focus wraps forward");
    f.prev_field();
    assert_eq!(f.field, FormField::Due, "focus wraps backward");
}

#[test]
fn form_submit_requires_title() {
    let mut f = NoteForm::new();
    assert_eq!(f.parse_input().err(), Some(FormError::TitleRequired));
    type_str(&mut f, "   ");
    assert_eq!(f.parse_input().err(), Some(FormError::TitleRequired));
}

#[test]
fn form_submit_rejects_unparsable_due() {
    let mut f = NoteForm::new();
    type_str(&mut f, "task");
    f.next_field();
    f.next_field();
    f.next_field();
    type_str(&mut f, "soon");
    assert_eq!(f.parse_input().err(), Some(FormError::InvalidDue));
}

#[test]
fn form_submit_parses_all_fields() {
    let mut f = NoteForm::new();
    type_str(&mut f, "  Buy milk  ");
    f.next_field();
    type_str(&mut f, "two\nlines");
    f.next_field();
    type_str(&mut f, "home, errands");
    f.next_field();
    type_str(&mut f, "2024.01.03@10:00");
    let inp = f.parse_input().unwrap();
    assert_eq!(inp.title, "Buy milk", "title is trimmed");
    assert_eq!(inp.body.as_deref(), Some("two\nlines"));
    assert_eq!(inp.tags, ["home", "errands"]);
    assert_eq!(inp.due, Some(DateTime { year: 2024, month: 1, day: 3, hour: 10, minute: 0 }));
}

#[test]
fn form_blank_body_and_due_mean_none() {
    let mut f = NoteForm::new();
    type_str(&mut f, "t");
    f.next_field();
    type_str(&mut f, "  \n ");
    let inp = f.parse_input().unwrap();
    assert_eq!(inp.body, None);
    assert_eq!(inp.due, None);
    assert!(inp.tags.is_empty());
}

#[test]
fn form_from_note_preseeds_every_field() {
    let n = Note::new(
        "id1".to_string(),
        "Title".to_string(),
        Some("Body".to_string()),
        vec!["a".to_string(), "b".to_string()],
        Some(DateTime { year: 2024, month: 2, day: 29, hour: 8, minute: 5 }),
        1,
    );
    let f = NoteForm::from_note(&n);
    assert_eq!(f.title.chars.iter().collect::<String>(), "Title");
    assert_eq!(f.body.chars.iter().collect::<String>(), "Body");
    assert_eq!(f.tags.chars.iter().collect::<String>(), "a b");
    assert_eq!(f.due.chars.iter().collect::<String>(), "2024.02.29@08:05");
    assert_eq!(f.field, FormField::Title);
}

#[test]
fn text_truncate_appends_ellipsis() {
    assert_eq!(truncate_text("hello world", 8), "hello...");
    assert_eq!(truncate_text("hi", 8), "hi");
    assert_eq!(truncate_text("hello", 2), "..");
    assert_eq!(truncate_text("hello", 0), "");
    assert_eq!(truncate_text("héllo wörld", 9), "héllo ...");
}

#[test]
fn text_format_elapsed_buckets() {
    assert_eq!(format_elapsed(0), "0s ago");
    assert_eq!(format_elapsed(59), "59s ago");
    assert_eq!(format_elapsed(60), "1m ago");
    assert_eq!(format_elapsed(3599), "59m ago");
    assert_eq!(format_elapsed(3600), "1h ago");
    assert_eq!(format_elapsed(7322), "2h ago");
}
