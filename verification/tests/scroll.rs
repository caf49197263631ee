use postit::scroll::adjust_offset;

#[test]
fn scroll_zero_viewport_or_empty_list_is_zero() {
    assert_eq!(adjust_offset(5, 3, 0, 1, 10), 0);
    assert_eq!(adjust_offset(5, 3, 4, 1, 0), 0);
}

#[test]
fn scroll_selection_always_visible() {
    for len in 0usize..12 {
        for viewport in 1usize..8 {
            for selected in 0..len {
                for offset in 0usize..12 {
                    let r = adjust_offset(selected, offset, viewport, 1, len);
                    assert!(r <= selected, "selection above window");
                    assert!(selected < r + viewport, "selection below window");
                    assert!(r <= len.saturating_sub(viewport), "offset past end");
                }
            }
        }
    }
}

#[test]
fn scroll_keeps_margin_from_top() {
    // selection two rows under a window starting at 4: pulled up to keep one
    // row of margin
    assert_eq!(adjust_offset(4, 4, 5, 1, 20), 3);
}

#[test]
fn scroll_pushes_window_down_at_bottom() {
    // window [0,5), selection at 4 is within the bottom margin: push down
    assert_eq!(adjust_offset(4, 0, 5, 1, 20), 1);
}

#[test]
fn scroll_stays_put_when_selection_comfortably_visible() {
    assert_eq!(adjust_offset(5, 3, 6, 1, 20), 3);
}

#[test]
fn scroll_clamps_stale_offset() {
    // a stored offset past the end of a shortened list is clamped first
    assert_eq!(adjust_offset(2, 9, 3, 1, 4), 1);
}
