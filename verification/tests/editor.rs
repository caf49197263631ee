use postit::editor::FieldValue;

#[test]
fn editor_new_puts_cursor_at_end() {
    let f = FieldValue::new("héllo");
    assert_eq!(f.chars.iter().collect::<String>(), "héllo");
    assert_eq!(f.cursor, 5);
}

#[test]
fn editor_insert_then_backspace_restores_buffer_and_cursor() {
    // the round trip holds at any cursor position and for multi-byte
    // characters
    for start in ["", "ab", "a\nb", "héllo wörld", "日本語"] {
        let base = FieldValue::new(start);
        for cursor in 0..=base.chars.len() {
            for ch in ['x', 'é', '日', '\n'] {
                let mut f = base.clone();
                f.cursor = cursor;
                f.insert_char(ch);
                f.backspace();
                assert_eq!(f.chars, base.chars);
                assert_eq!(f.cursor, cursor);
            }
        }
    }
}

#[test]
fn editor_left_right_step_by_character() {
    let mut f = FieldValue::new("aé");
    assert_eq!(f.cursor, 2);
    f.move_left();
    assert_eq!(f.cursor, 1);
    f.move_left();
    assert_eq!(f.cursor, 0);
    f.move_left();
    assert_eq!(f.cursor, 0, "left is a no-op at the start");
    f.move_right();
    assert_eq!(f.cursor, 1);
    f.move_right();
    f.move_right();
    assert_eq!(f.cursor, 2, "right is a no-op at the end");
}

#[test]
fn editor_backspace_at_start_is_noop() {
    let mut f = FieldValue::new("ab");
    f.cursor = 0;
    f.backspace();
    assert_eq!(f.chars.iter().collect::<String>(), "ab");
    assert_eq!(f.cursor, 0);
}

#[test]
fn editor_up_down_keep_column_and_clamp_to_short_lines() {
    // lines: "alpha" (5), "be" (2), "gamma" (5)
    let mut f = FieldValue::new("alpha\nbe\ngamma");
    // cursor on 'm' of gamma: line 2, column 3
    f.cursor = 12;
    f.move_up();
    // previous line "be" is shorter: clamped to its end (after 'e')
    assert_eq!(f.cursor, 8);
    f.move_up();
    // column is now 2 on line 1; same column on line 0
    assert_eq!(f.cursor, 2);
    f.move_up();
    assert_eq!(f.cursor, 2, "up is a no-op on the first line");
    f.move_down();
    assert_eq!(f.cursor, 8, "column 2 clamped to end of 'be'");
    f.move_down();
    assert_eq!(f.cursor, 11, "column restored from the position in line");
    f.move_down();
    assert_eq!(f.cursor, 11, "down is a no-op on the last line");
}

#[test]
fn editor_insert_mid_buffer() {
    let mut f = FieldValue::new("ad");
    f.cursor = 1;
    f.insert_char('b');
    f.insert_char('c');
    assert_eq!(f.chars.iter().collect::<String>(), "abcd");
    assert_eq!(f.cursor, 3);
}

#[test]
fn editor_caret_marker_is_display_only() {
    let mut f = FieldValue::new("ab");
    f.cursor = 1;
    assert_eq!(f.with_caret(), "a\u{258c}b");
    assert_eq!(f.chars.iter().collect::<String>(), "ab");
}
