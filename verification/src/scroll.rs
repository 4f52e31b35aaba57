//! Which lines of a log view are on screen. Scroll 0 shows the newest lines;
//! a larger scroll walks back toward older ones.

use vstd::prelude::*;

verus! {

/// How many lines a page key scrolls by.
pub const PAGE_STEP: usize = 10;

/// How many rows of a panel its border takes.
pub const BORDER_ROWS: u16 = 2;

/// The largest scroll that still changes what is shown.
pub open spec fn max_scroll(total: nat, inner_height: nat) -> nat {
    if total > inner_height {
        (total - inner_height) as nat
    } else {
        0
    }
}

/// The scroll that takes effect: the user's, held at `max_scroll`.
pub open spec fn effective_scroll(total: nat, inner_height: nat, scroll: nat) -> nat {
    if scroll < max_scroll(total, inner_height) {
        scroll
    } else {
        max_scroll(total, inner_height)
    }
}

/// The index of the first line on screen.
pub open spec fn window_start(total: nat, inner_height: nat, scroll: nat) -> nat {
    if total <= inner_height {
        0
    } else {
        (max_scroll(total, inner_height) - effective_scroll(total, inner_height, scroll)) as nat
    }
}

/// The index after the last line on screen.
pub open spec fn window_end(total: nat, inner_height: nat, scroll: nat) -> nat {
    if window_start(total, inner_height, scroll) + inner_height < total {
        window_start(total, inner_height, scroll) + inner_height
    } else {
        total
    }
}

/// The lines `[start, end)` that are on screen when `total` lines are shown
/// in `inner_height` rows at the scroll offset `scroll`.
pub fn scroll_window(total: usize, inner_height: usize, scroll: usize) -> (w: (usize, usize))
    ensures
        w.0 == window_start(total as nat, inner_height as nat, scroll as nat),
        w.1 == window_end(total as nat, inner_height as nat, scroll as nat),
        w.0 <= w.1 <= total,
        w.1 - w.0 <= inner_height,
{
    let max: usize = if total > inner_height {
        total - inner_height
    } else {
        0
    };
    let effective: usize = if scroll < max {
        scroll
    } else {
        max
    };
    let start: usize = if total > inner_height {
        max - effective
    } else {
        0
    };
    let end: usize = if inner_height < total - start {
        start + inner_height
    } else {
        total
    };
    (start, end)
}

/// The window is anchored to the bottom. At scroll 0 it ends with the newest
/// line. It is as large as the rows allow. A larger scroll never shows newer
/// lines, and any scroll of `max_scroll` or more shows the oldest lines.
pub proof fn lemma_scroll_anchoring(total: nat, inner_height: nat, scroll: nat, further: nat)
    requires
        scroll <= further,
    ensures
        window_end(total, inner_height, 0) == total,
        window_end(total, inner_height, scroll) - window_start(total, inner_height, scroll) == (
        if total < inner_height {
            total
        } else {
            inner_height
        }),
        window_start(total, inner_height, further) <= window_start(total, inner_height, scroll),
        scroll < max_scroll(total, inner_height) ==> window_start(total, inner_height, scroll)
            == total - inner_height - scroll,
        scroll >= max_scroll(total, inner_height) ==> window_start(total, inner_height, scroll)
            == 0,
{
}

/// The rows of a panel that can hold lines: its height without the border.
pub fn inner_rows(height: u16) -> (r: usize)
    ensures
        r == if height >= BORDER_ROWS {
            height - BORDER_ROWS
        } else {
            0
        },
{
    if height >= BORDER_ROWS {
        (height - BORDER_ROWS) as usize
    } else {
        0
    }
}

/// The scroll offset after a page-up key: `PAGE_STEP` more, held at the
/// largest value.
pub fn page_up(scroll: usize) -> (r: usize)
    ensures
        r == if scroll + PAGE_STEP <= usize::MAX {
            scroll + PAGE_STEP
        } else {
            usize::MAX as int
        },
{
    if scroll <= usize::MAX - PAGE_STEP {
        scroll + PAGE_STEP
    } else {
        usize::MAX
    }
}

/// The scroll offset after a page-down key: `PAGE_STEP` less, held at 0.
pub fn page_down(scroll: usize) -> (r: usize)
    ensures
        r == if scroll >= PAGE_STEP {
            scroll - PAGE_STEP
        } else {
            0
        },
{
    if scroll >= PAGE_STEP {
        scroll - PAGE_STEP
    } else {
        0
    }
}

} // verus!
