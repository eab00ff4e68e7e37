//! List navigation shared by the tabs: moving a selection within a list and
//! keeping it inside the visible window; the tab bar and the diff mode.

use vstd::prelude::*;

verus! {

/// The index of the last item of a list of `len` items, or 0 for an empty list.
pub open spec fn last_index(len: nat) -> nat {
    if len == 0 {
        0
    } else {
        (len - 1) as nat
    }
}

pub open spec fn min_nat(a: nat, b: nat) -> nat {
    if a <= b {
        a
    } else {
        b
    }
}

/// `a - b`, or 0 where `b` exceeds `a`.
pub open spec fn sat_sub(a: nat, b: nat) -> nat {
    if a >= b {
        (a - b) as nat
    } else {
        0
    }
}

/// The first visible row after scrolling just enough to show `selected` in a
/// window of `height` rows that started at `scroll`. A window of no rows is
/// left where it is.
pub open spec fn spec_visible_scroll(selected: nat, scroll: nat, height: nat) -> nat {
    if height == 0 {
        scroll
    } else if selected < scroll {
        selected
    } else if selected >= scroll + height {
        (selected + 1 - height) as nat
    } else {
        scroll
    }
}

/// The window arithmetic of `spec_visible_scroll` stays within `usize`.
pub open spec fn visible_fits(selected: nat, scroll: nat, height: nat) -> bool {
    ||| height == 0
    ||| selected < scroll
    ||| scroll + height <= usize::MAX && (selected >= scroll + height ==> selected + 1 <= usize::MAX)
}

/// Moving the selection `step` rows down within a list of `len` items and
/// then scrolling to it stays within `usize`.
pub open spec fn step_fits(selected: nat, step: nat, scroll: nat, height: nat, len: nat) -> bool {
    &&& selected + step <= usize::MAX
    &&& visible_fits(min_nat(selected + step, last_index(len)), scroll, height)
}

/// The scroll position that shows `selected` (see `spec_visible_scroll`).
pub fn visible_scroll(selected: usize, scroll: usize, height: usize) -> (r: usize)
    requires
        visible_fits(selected as nat, scroll as nat, height as nat),
    ensures
        r == spec_visible_scroll(selected as nat, scroll as nat, height as nat),
{
    if height == 0 {
        return scroll;
    }
    if selected < scroll {
        selected
    } else if selected >= scroll + height {
        selected + 1 - height
    } else {
        scroll
    }
}

/// After scrolling to it, the selection lies in the visible window.
pub proof fn lemma_visible_scroll_shows_selection(selected: nat, scroll: nat, height: nat)
    requires
        height > 0,
    ensures
        spec_visible_scroll(selected, scroll, height) <= selected < spec_visible_scroll(
            selected,
            scroll,
            height,
        ) + height,
{
}

/// Scrolling to a selection that is already visible changes nothing.
pub proof fn lemma_visible_scroll_idempotent(selected: nat, scroll: nat, height: nat)
    ensures
        spec_visible_scroll(selected, spec_visible_scroll(selected, scroll, height), height)
            == spec_visible_scroll(selected, scroll, height),
{
}

/// One row down and one row up again returns to the same row, unless the
/// selection was already on the last item.
pub proof fn lemma_down_then_up(selected: nat, len: nat)
    requires
        selected < last_index(len),
    ensures
        sat_sub(min_nat(selected + 1, last_index(len)), 1) == selected,
{
}

/// The tabs of the browser.
#[derive(Clone, Copy, Debug, PartialEq, Eq, Structural)]
pub enum Tab {
    Status,
    Log,
    Stashes,
}

impl Tab {
    pub open spec fn spec_next(self) -> Tab {
        match self {
            Tab::Status => Tab::Log,
            Tab::Log => Tab::Stashes,
            Tab::Stashes => Tab::Status,
        }
    }

    pub open spec fn spec_prev(self) -> Tab {
        match self {
            Tab::Status => Tab::Stashes,
            Tab::Log => Tab::Status,
            Tab::Stashes => Tab::Log,
        }
    }

    /// The tab to the right, wrapping around to the first.
    pub fn next(self) -> (r: Tab)
        ensures
            r == self.spec_next(),
    {
        match self {
            Tab::Status => Tab::Log,
            Tab::Log => Tab::Stashes,
            Tab::Stashes => Tab::Status,
        }
    }

    /// The tab to the left, wrapping around to the last.
    pub fn prev(self) -> (r: Tab)
        ensures
            r == self.spec_prev(),
    {
        match self {
            Tab::Status => Tab::Stashes,
            Tab::Log => Tab::Status,
            Tab::Stashes => Tab::Log,
        }
    }

    /// The position of the tab in the tab bar.
    pub fn index(self) -> (r: usize)
        ensures
            r == match self {
                Tab::Status => 0usize,
                Tab::Log => 1usize,
                Tab::Stashes => 2usize,
            },
    {
        match self {
            Tab::Status => 0,
            Tab::Log => 1,
            Tab::Stashes => 2,
        }
    }
}

/// Switching to the next tab and back to the previous one returns to the
/// same tab, in either order, and three steps go all the way round.
pub proof fn lemma_tab_cycle(t: Tab)
    ensures
        t.spec_next().spec_prev() == t,
        t.spec_prev().spec_next() == t,
        t.spec_next().spec_next().spec_next() == t,
{
}

/// How a file diff is laid out.
#[derive(Clone, Copy, Debug, PartialEq, Eq, Structural)]
pub enum DiffViewMode {
    Inline,
    SideBySide,
}

impl DiffViewMode {
    pub open spec fn spec_toggled(self) -> DiffViewMode {
        match self {
            DiffViewMode::Inline => DiffViewMode::SideBySide,
            DiffViewMode::SideBySide => DiffViewMode::Inline,
        }
    }

    /// The other mode.
    pub fn toggled(self) -> (r: DiffViewMode)
        ensures
            r == self.spec_toggled(),
    {
        match self {
            DiffViewMode::Inline => DiffViewMode::SideBySide,
            DiffViewMode::SideBySide => DiffViewMode::Inline,
        }
    }

    /// The name the status line shows for the mode.
    pub fn label(self) -> (r: &'static str)
        ensures
            r@ == match self {
                DiffViewMode::Inline => "inline"@,
                DiffViewMode::SideBySide => "side-by-side"@,
            },
    {
        match self {
            DiffViewMode::Inline => "inline",
            DiffViewMode::SideBySide => "side-by-side",
        }
    }
}

/// Toggling the mode twice restores it.
pub proof fn lemma_toggle_twice(m: DiffViewMode)
    ensures
        m.spec_toggled().spec_toggled() == m,
        m.spec_toggled() != m,
{
}


/// A window is at least one row high for paging.
pub open spec fn page_size(visible_height: nat) -> nat {
    if visible_height > 0 {
        visible_height
    } else {
        1
    }
}

/// The last scroll position of a diff of `total` rendered lines in a window
/// of `visible_height` rows.
pub open spec fn spec_max_scroll(total: nat, visible_height: nat) -> nat {
    sat_sub(total, page_size(visible_height))
}

/// The scroll position after moving `step` lines down, clamped to the end.
pub fn scroll_down_by(scroll: usize, step: usize, visible_height: usize, total: usize) -> (r: usize)
    requires
        scroll + step <= usize::MAX,
    ensures
        r == min_nat((scroll + step) as nat, spec_max_scroll(total as nat, visible_height as nat)),
{
    let page = if visible_height > 1 { visible_height } else { 1 };
    let max = total.saturating_sub(page);
    if scroll + step < max {
        scroll + step
    } else {
        max
    }
}

/// The scroll position after moving `step` lines up, stopping at the top.
pub fn scroll_up_by(scroll: usize, step: usize) -> (r: usize)
    ensures
        r == sat_sub(scroll as nat, step as nat),
{
    scroll.saturating_sub(step)
}

/// The scroll position one window further down, clamped to the end.
pub fn page_down_scroll(scroll: usize, visible_height: usize, total: usize) -> (r: usize)
    requires
        scroll + page_size(visible_height as nat) <= usize::MAX,
    ensures
        r == min_nat(
            (scroll + page_size(visible_height as nat)) as nat,
            spec_max_scroll(total as nat, visible_height as nat),
        ),
{
    let page = if visible_height > 1 { visible_height } else { 1 };
    scroll_down_by(scroll, page, visible_height, total)
}

/// The scroll position one window further up, stopping at the top.
pub fn page_up_scroll(scroll: usize, visible_height: usize) -> (r: usize)
    ensures
        r == sat_sub(scroll as nat, page_size(visible_height as nat)),
{
    let page = if visible_height > 1 { visible_height } else { 1 };
    scroll.saturating_sub(page)
}

/// The scroll position that shows the end of the diff.
pub fn end_scroll(visible_height: usize, total: usize) -> (r: usize)
    ensures
        r == spec_max_scroll(total as nat, visible_height as nat),
{
    let page = if visible_height > 1 { visible_height } else { 1 };
    total.saturating_sub(page)
}

/// Paging down never passes the end, and paging back up from a position
/// that paging down reached without hitting the end returns to the start.
pub proof fn lemma_page_down_then_up(scroll: nat, visible_height: nat, total: nat)
    requires
        scroll + page_size(visible_height) <= spec_max_scroll(total, visible_height),
    ensures
        sat_sub(
            min_nat(scroll + page_size(visible_height), spec_max_scroll(total, visible_height)),
            page_size(visible_height),
        ) == scroll,
{
}

} // verus!
