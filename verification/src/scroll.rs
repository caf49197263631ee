//! Viewport scrolling policy shared by every scrollable list: given the
//! selected row, the previous scroll offset, the viewport height, a scroll
//! margin and the list length, compute the new offset so that the selection
//! stays visible and the offset stays within the list.

use vstd::prelude::*;

verus! {

/// Largest offset that still fills the viewport: `len - viewport`, floored at 0.
pub open spec fn max_scroll_offset(viewport: int, len: int) -> int {
    if len >= viewport {
        len - viewport
    } else {
        0
    }
}

/// The scrolling policy itself: clamp the incoming offset to the list, pull
/// the window up when the selection is within the margin of its top, push it
/// down symmetrically at the bottom, and re-clamp.
pub open spec fn spec_adjust_offset(
    selected: int,
    current_offset: int,
    viewport: int,
    scrolloff: int,
    len: int,
) -> int {
    if viewport <= 0 || len <= 0 {
        0
    } else {
        let maxo = max_scroll_offset(viewport, len);
        let margin = if scrolloff <= viewport - 1 {
            scrolloff
        } else {
            viewport - 1
        };
        let clamped = if current_offset <= maxo {
            current_offset
        } else {
            maxo
        };
        let target = if selected < clamped + margin {
            if selected >= margin {
                selected - margin
            } else {
                0
            }
        } else if selected > clamped + (viewport - 1) - margin {
            selected - ((viewport - 1) - margin)
        } else {
            clamped
        };
        if target <= maxo {
            target
        } else {
            maxo
        }
    }
}

/// New scroll offset for a list of `len` rows shown through a window of
/// `viewport` rows, keeping `selected` at least `scrolloff` rows away from the
/// window's edges where possible.
///
/// For `viewport > 0` and `selected < len` the selection is always visible:
/// `offset <= selected < offset + viewport`, and the offset stays in
/// `[0, max(0, len - viewport)]`.
pub fn adjust_offset(
    selected: usize,
    current_offset: usize,
    viewport: usize,
    scrolloff: usize,
    len: usize,
) -> (offset: usize)
    ensures
        offset == spec_adjust_offset(
            selected as int,
            current_offset as int,
            viewport as int,
            scrolloff as int,
            len as int,
        ),
        viewport == 0 || len == 0 ==> offset == 0,
        offset <= max_scroll_offset(viewport as int, len as int),
        viewport > 0 && selected < len ==> offset <= selected < offset + viewport,
{
    if viewport == 0 || len == 0 {
        return 0;
    }
    let max_offset = if len >= viewport {
        len - viewport
    } else {
        0
    };
    let margin = if scrolloff <= viewport - 1 {
        scrolloff
    } else {
        viewport - 1
    };
    let mut offset = if current_offset <= max_offset {
        current_offset
    } else {
        max_offset
    };
    if selected < offset + margin {
        offset = if selected >= margin {
            selected - margin
        } else {
            0
        };
    } else {
        let headroom = (viewport - 1) - margin;
        let upper = offset + headroom;
        if selected > upper {
            offset = selected - headroom;
        }
    }
    if offset <= max_offset {
        offset
    } else {
        max_offset
    }
}

} // verus!
