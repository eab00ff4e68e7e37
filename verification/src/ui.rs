//! The decisions of the browser's main loop: what a key press does to the
//! view state, and which work on the repository and the diff view follows.

use crate::log_nav::LogDepth;
use crate::nav::{DiffViewMode, Tab};
use crate::stashes_tab::StashDepth;
use crate::theme::{bold_fg_style, fg_style, Style, Theme};
use crate::wrap::{piece_views, row_views};
use vstd::prelude::*;

verus! {

/// A key press as the main loop sees it.
#[derive(Clone, Copy, Debug, PartialEq, Eq, Structural)]
pub enum Key {
    Char(char),
    Up,
    Down,
    PageUp,
    PageDown,
    Home,
    End,
    Tab,
    BackTab,
    Left,
    Right,
    Enter,
    Esc,
    Other,
}

/// Where the status tab's keys go: the staged entries, the unstaged
/// entries, or the diff beside them.
#[derive(Clone, Copy, Debug, PartialEq, Eq, Structural)]
pub enum StatusFocus {
    Staged,
    Unstaged,
    Diff,
}

impl StatusFocus {
    pub open spec fn spec_right(self) -> StatusFocus {
        match self {
            StatusFocus::Staged => StatusFocus::Unstaged,
            StatusFocus::Unstaged => StatusFocus::Diff,
            StatusFocus::Diff => StatusFocus::Diff,
        }
    }

    pub open spec fn spec_left(self) -> StatusFocus {
        match self {
            StatusFocus::Staged => StatusFocus::Unstaged,
            StatusFocus::Unstaged => StatusFocus::Staged,
            StatusFocus::Diff => StatusFocus::Unstaged,
        }
    }

    /// Moving right: from the staged to the unstaged entries, and from there
    /// to the diff.
    pub fn focus_right(self) -> (r: StatusFocus)
        ensures
            r == self.spec_right(),
    {
        match self {
            StatusFocus::Staged => StatusFocus::Unstaged,
            StatusFocus::Unstaged => StatusFocus::Diff,
            StatusFocus::Diff => StatusFocus::Diff,
        }
    }

    /// Moving left: between the staged and the unstaged entries; from the
    /// diff back to the unstaged entries.
    pub fn focus_left(self) -> (r: StatusFocus)
        ensures
            r == self.spec_left(),
    {
        match self {
            StatusFocus::Staged => StatusFocus::Unstaged,
            StatusFocus::Unstaged => StatusFocus::Staged,
            StatusFocus::Diff => StatusFocus::Unstaged,
        }
    }
}

/// The view state that key presses change directly.
#[derive(Clone, Copy, Debug, PartialEq, Eq, Structural)]
pub struct UiState {
    pub current_tab: Tab,
    pub status_focus: StatusFocus,
    pub log_depth: LogDepth,
    pub stash_depth: StashDepth,
    pub show_diff: bool,
    pub diff_fullscreen: bool,
    pub show_help: bool,
    pub diff_mode: DiffViewMode,
}

/// The work that follows a key press, beyond the change of view state.
#[derive(Clone, Copy, Debug, PartialEq, Eq, Structural)]
pub enum Action {
    /// Leave the browser.
    Quit,
    /// Nothing beyond the new view state.
    Nothing,
    /// Reload the current tab from the repository.
    RefreshTab,
    LogEnter,
    LogBack,
    StashEnter,
    StashBack,
    MoveUp,
    MoveDown,
    PageUp,
    PageDown,
    GoHome,
    GoEnd,
    /// Show or hide the diff beside the list, loading it when shown.
    ToggleDiff,
}

impl UiState {
    /// The state the browser starts in.
    pub fn new() -> (s: UiState)
        ensures
            s == (UiState {
                current_tab: Tab::Status,
                status_focus: StatusFocus::Unstaged,
                log_depth: LogDepth::Commits,
                stash_depth: StashDepth::List,
                show_diff: false,
                diff_fullscreen: false,
                show_help: false,
                diff_mode: DiffViewMode::SideBySide,
            }),
    {
        UiState {
            current_tab: Tab::Status,
            status_focus: StatusFocus::Unstaged,
            log_depth: LogDepth::Commits,
            stash_depth: StashDepth::List,
            show_diff: false,
            diff_fullscreen: false,
            show_help: false,
            diff_mode: DiffViewMode::SideBySide,
        }
    }
}

pub open spec fn log_shows_file_diff(d: LogDepth) -> bool {
    d == LogDepth::FilesDiff || d == LogDepth::Diff
}

pub open spec fn stash_shows_file_diff(d: StashDepth) -> bool {
    d == StashDepth::FilesDiff || d == StashDepth::Diff
}

/// The scroll keys move the diff rather than a list: when the diff is shown
/// beside the list, when the status tab's focus is on the diff, and when the
/// log or stash tab is at its full-screen diff.
pub open spec fn spec_diff_scrolls(ui: UiState) -> bool {
    ||| ui.show_diff
    ||| (ui.current_tab == Tab::Status && ui.status_focus == StatusFocus::Diff)
    ||| (ui.current_tab == Tab::Log && ui.log_depth == LogDepth::Diff)
    ||| (ui.current_tab == Tab::Stashes && ui.stash_depth == StashDepth::Diff)
}

/// A diff is on screen: shown beside the list, focused in the status tab,
/// or open at the file-diff levels of the log and stash tabs.
pub open spec fn spec_any_diff_active(ui: UiState) -> bool {
    ||| ui.show_diff
    ||| (ui.current_tab == Tab::Status && ui.status_focus == StatusFocus::Diff)
    ||| (ui.current_tab == Tab::Log && log_shows_file_diff(ui.log_depth))
    ||| (ui.current_tab == Tab::Stashes && stash_shows_file_diff(ui.stash_depth))
}

pub fn diff_scrolls(ui: &UiState) -> (r: bool)
    ensures
        r == spec_diff_scrolls(*ui),
{
    ui.show_diff || (ui.current_tab == Tab::Status && ui.status_focus == StatusFocus::Diff) || (
    ui.current_tab == Tab::Log && ui.log_depth == LogDepth::Diff) || (ui.current_tab == Tab::Stashes
        && ui.stash_depth == StashDepth::Diff)
}

pub fn is_any_diff_active(ui: &UiState) -> (r: bool)
    ensures
        r == spec_any_diff_active(*ui),
{
    let log_diff = ui.log_depth == LogDepth::FilesDiff || ui.log_depth == LogDepth::Diff;
    let stash_diff = ui.stash_depth == StashDepth::FilesDiff || ui.stash_depth == StashDepth::Diff;
    ui.show_diff || (ui.current_tab == Tab::Status && ui.status_focus == StatusFocus::Diff) || (
    ui.current_tab == Tab::Log && log_diff) || (ui.current_tab == Tab::Stashes && stash_diff)
}

/// Switching to `tab` by its number hides the side diff and leaves full
/// screen.
pub open spec fn goto_tab(ui: UiState, tab: Tab) -> UiState {
    UiState { current_tab: tab, show_diff: false, diff_fullscreen: false, ..ui }
}

/// The status tab's open-or-close of the diff: from the diff back to the
/// unstaged entries, or, when a file is selected, into the diff in full
/// screen.
pub open spec fn status_toggle_diff(ui: UiState, has_status_file: bool) -> UiState {
    if ui.status_focus == StatusFocus::Diff {
        UiState { status_focus: StatusFocus::Unstaged, diff_fullscreen: false, ..ui }
    } else if has_status_file {
        UiState { status_focus: StatusFocus::Diff, diff_fullscreen: true, ..ui }
    } else {
        ui
    }
}

pub open spec fn toggled_help(ui: UiState) -> UiState {
    UiState { show_help: !ui.show_help, ..ui }
}

/// What a key press does: the new view state and the work that follows.
/// `has_status_file` tells whether the status tab has a file selected.
pub open spec fn spec_handle_key(ui: UiState, key: Key, has_status_file: bool) -> (UiState, Action) {
    match key {
        Key::Char('q') => (ui, Action::Quit),
        Key::Char('h') => (toggled_help(ui), Action::Nothing),
        Key::Char('d') => match ui.current_tab {
            Tab::Status => (status_toggle_diff(ui, has_status_file), Action::Nothing),
            Tab::Log => (ui, if log_shows_file_diff(ui.log_depth) {
                Action::LogBack
            } else {
                Action::LogEnter
            }),
            Tab::Stashes => (ui, if stash_shows_file_diff(ui.stash_depth) {
                Action::StashBack
            } else {
                Action::StashEnter
            }),
        },
        Key::Char('f') => (UiState { diff_fullscreen: !ui.diff_fullscreen, ..ui }, Action::Nothing),
        Key::Char('m') => (UiState { diff_mode: ui.diff_mode.spec_toggled(), ..ui }, Action::Nothing),
        Key::Char('1') => (goto_tab(ui, Tab::Status), Action::RefreshTab),
        Key::Char('2') => (goto_tab(ui, Tab::Log), Action::RefreshTab),
        Key::Char('3') => (goto_tab(ui, Tab::Stashes), Action::RefreshTab),
        Key::Up | Key::Char('k') => (ui, Action::MoveUp),
        Key::Down | Key::Char('j') => (ui, Action::MoveDown),
        Key::PageUp => (ui, Action::PageUp),
        Key::PageDown => (ui, Action::PageDown),
        Key::Home => (ui, Action::GoHome),
        Key::End => (ui, Action::GoEnd),
        Key::Tab => (
            UiState { current_tab: ui.current_tab.spec_next(), show_diff: false, ..ui },
            Action::RefreshTab,
        ),
        Key::BackTab => (
            UiState { current_tab: ui.current_tab.spec_prev(), show_diff: false, ..ui },
            Action::RefreshTab,
        ),
        Key::Right => match ui.current_tab {
            Tab::Status => {
                let focus = ui.status_focus.spec_right();
                (UiState {
                    status_focus: focus,
                    diff_fullscreen: if focus == StatusFocus::Diff {
                        true
                    } else {
                        ui.diff_fullscreen
                    },
                    ..ui
                }, Action::Nothing)
            },
            Tab::Log => (ui, Action::LogEnter),
            Tab::Stashes => (ui, Action::StashEnter),
        },
        Key::Left => if ui.current_tab == Tab::Status {
            if ui.status_focus == StatusFocus::Diff {
                (UiState { status_focus: StatusFocus::Unstaged, diff_fullscreen: false, ..ui }, Action::Nothing)
            } else {
                (UiState { status_focus: ui.status_focus.spec_left(), ..ui }, Action::Nothing)
            }
        } else {
            (ui, Action::Nothing)
        },
        Key::Esc => if ui.show_help {
            (toggled_help(ui), Action::Nothing)
        } else if ui.current_tab == Tab::Status && ui.status_focus == StatusFocus::Diff {
            (UiState { status_focus: StatusFocus::Unstaged, diff_fullscreen: false, ..ui }, Action::Nothing)
        } else if ui.current_tab == Tab::Log && ui.log_depth != LogDepth::Commits {
            (ui, Action::LogBack)
        } else if ui.show_diff {
            (ui, Action::ToggleDiff)
        } else if ui.current_tab == Tab::Stashes && ui.stash_depth != StashDepth::List {
            (ui, Action::StashBack)
        } else {
            (ui, Action::Nothing)
        },
        Key::Enter => match ui.current_tab {
            Tab::Status => (status_toggle_diff(ui, has_status_file), Action::Nothing),
            Tab::Log => (ui, Action::LogEnter),
            Tab::Stashes => (ui, Action::StashEnter),
        },
        _ => if ui.show_help {
            (toggled_help(ui), Action::Nothing)
        } else {
            (ui, Action::Nothing)
        },
    }
}

fn status_toggle_diff_exec(ui: UiState, has_status_file: bool) -> (r: UiState)
    ensures
        r == status_toggle_diff(ui, has_status_file),
{
    if ui.status_focus == StatusFocus::Diff {
        UiState { status_focus: StatusFocus::Unstaged, diff_fullscreen: false, ..ui }
    } else if has_status_file {
        UiState { status_focus: StatusFocus::Diff, diff_fullscreen: true, ..ui }
    } else {
        ui
    }
}

/// Decides what a key press does.
pub fn handle_key(ui: UiState, key: Key, has_status_file: bool) -> (r: (UiState, Action))
    ensures
        r == spec_handle_key(ui, key, has_status_file),
{
    match key {
        Key::Char('q') => (ui, Action::Quit),
        Key::Char('h') => (UiState { show_help: !ui.show_help, ..ui }, Action::Nothing),
        Key::Char('d') => match ui.current_tab {
            Tab::Status => (status_toggle_diff_exec(ui, has_status_file), Action::Nothing),
            Tab::Log => {
                let files_diff = ui.log_depth == LogDepth::FilesDiff || ui.log_depth == LogDepth::Diff;
                (ui, if files_diff {
                    Action::LogBack
                } else {
                    Action::LogEnter
                })
            },
            Tab::Stashes => {
                let files_diff = ui.stash_depth == StashDepth::FilesDiff || ui.stash_depth
                    == StashDepth::Diff;
                (ui, if files_diff {
                    Action::StashBack
                } else {
                    Action::StashEnter
                })
            },
        },
        Key::Char('f') => (UiState { diff_fullscreen: !ui.diff_fullscreen, ..ui }, Action::Nothing),
        Key::Char('m') => (UiState { diff_mode: ui.diff_mode.toggled(), ..ui }, Action::Nothing),
        Key::Char('1') => (
            UiState { current_tab: Tab::Status, show_diff: false, diff_fullscreen: false, ..ui },
            Action::RefreshTab,
        ),
        Key::Char('2') => (
            UiState { current_tab: Tab::Log, show_diff: false, diff_fullscreen: false, ..ui },
            Action::RefreshTab,
        ),
        Key::Char('3') => (
            UiState { current_tab: Tab::Stashes, show_diff: false, diff_fullscreen: false, ..ui },
            Action::RefreshTab,
        ),
        Key::Up | Key::Char('k') => (ui, Action::MoveUp),
        Key::Down | Key::Char('j') => (ui, Action::MoveDown),
        Key::PageUp => (ui, Action::PageUp),
        Key::PageDown => (ui, Action::PageDown),
        Key::Home => (ui, Action::GoHome),
        Key::End => (ui, Action::GoEnd),
        Key::Tab => (
            UiState { current_tab: ui.current_tab.next(), show_diff: false, ..ui },
            Action::RefreshTab,
        ),
        Key::BackTab => (
            UiState { current_tab: ui.current_tab.prev(), show_diff: false, ..ui },
            Action::RefreshTab,
        ),
        Key::Right => match ui.current_tab {
            Tab::Status => {
                let focus = ui.status_focus.focus_right();
                let fullscreen = if focus == StatusFocus::Diff {
                    true
                } else {
                    ui.diff_fullscreen
                };
                (UiState { status_focus: focus, diff_fullscreen: fullscreen, ..ui }, Action::Nothing)
            },
            Tab::Log => (ui, Action::LogEnter),
            Tab::Stashes => (ui, Action::StashEnter),
        },
        Key::Left => if ui.current_tab == Tab::Status {
            if ui.status_focus == StatusFocus::Diff {
                (UiState { status_focus: StatusFocus::Unstaged, diff_fullscreen: false, ..ui }, Action::Nothing)
            } else {
                (UiState { status_focus: ui.status_focus.focus_left(), ..ui }, Action::Nothing)
            }
        } else {
            (ui, Action::Nothing)
        },
        Key::Esc => if ui.show_help {
            (UiState { show_help: false, ..ui }, Action::Nothing)
        } else if ui.current_tab == Tab::Status && ui.status_focus == StatusFocus::Diff {
            (UiState { status_focus: StatusFocus::Unstaged, diff_fullscreen: false, ..ui }, Action::Nothing)
        } else if ui.current_tab == Tab::Log && ui.log_depth != LogDepth::Commits {
            (ui, Action::LogBack)
        } else if ui.show_diff {
            (ui, Action::ToggleDiff)
        } else if ui.current_tab == Tab::Stashes && ui.stash_depth != StashDepth::List {
            (ui, Action::StashBack)
        } else {
            (ui, Action::Nothing)
        },
        Key::Enter => match ui.current_tab {
            Tab::Status => (status_toggle_diff_exec(ui, has_status_file), Action::Nothing),
            Tab::Log => (ui, Action::LogEnter),
            Tab::Stashes => (ui, Action::StashEnter),
        },
        _ => if ui.show_help {
            (UiState { show_help: false, ..ui }, Action::Nothing)
        } else {
            (ui, Action::Nothing)
        },
    }
}


/// Which data to load after the view moved.
#[derive(Clone, Copy, Debug, PartialEq, Eq, Structural)]
pub enum Reload {
    /// The diff of the status tab's selected file.
    StatusDiff,
    /// The file list of the selected commit or stash.
    Files,
    /// The diff of the selected file of the commit or stash.
    FileDiff,
    Nothing,
}

/// After a list moved by a row (`paging` false) or a page: the status tab
/// reloads the selected file's diff on a row move only; the log and stash
/// tabs reload the file list at the details level and the file's diff at the
/// file-diff level.
pub open spec fn spec_reload_after_move(ui: UiState, paging: bool) -> Reload {
    match ui.current_tab {
        Tab::Status => if paging {
            Reload::Nothing
        } else {
            Reload::StatusDiff
        },
        Tab::Log => match ui.log_depth {
            LogDepth::Details => Reload::Files,
            LogDepth::FilesDiff => Reload::FileDiff,
            _ => Reload::Nothing,
        },
        Tab::Stashes => match ui.stash_depth {
            StashDepth::Details => Reload::Files,
            StashDepth::FilesDiff => Reload::FileDiff,
            _ => Reload::Nothing,
        },
    }
}

pub fn reload_after_move(ui: &UiState, paging: bool) -> (r: Reload)
    ensures
        r == spec_reload_after_move(*ui, paging),
{
    match ui.current_tab {
        Tab::Status => if paging {
            Reload::Nothing
        } else {
            Reload::StatusDiff
        },
        Tab::Log => match ui.log_depth {
            LogDepth::Details => Reload::Files,
            LogDepth::FilesDiff => Reload::FileDiff,
            _ => Reload::Nothing,
        },
        Tab::Stashes => match ui.stash_depth {
            StashDepth::Details => Reload::Files,
            StashDepth::FilesDiff => Reload::FileDiff,
            _ => Reload::Nothing,
        },
    }
}

/// After entering a level of the log tab: the file list when the commit
/// list opened its details, the file's diff when the file diff opened, and
/// nothing when the level did not change.
pub open spec fn spec_reload_after_log_enter(changed: bool, prev: LogDepth, now: LogDepth) -> Reload {
    if !changed {
        Reload::Nothing
    } else if prev == LogDepth::Commits && now == LogDepth::Details {
        Reload::Files
    } else if now == LogDepth::FilesDiff {
        Reload::FileDiff
    } else {
        Reload::Nothing
    }
}

pub fn reload_after_log_enter(changed: bool, prev: LogDepth, now: LogDepth) -> (r: Reload)
    ensures
        r == spec_reload_after_log_enter(changed, prev, now),
{
    if !changed {
        Reload::Nothing
    } else if prev == LogDepth::Commits && now == LogDepth::Details {
        Reload::Files
    } else if now == LogDepth::FilesDiff {
        Reload::FileDiff
    } else {
        Reload::Nothing
    }
}

/// The same for the stash tab.
pub open spec fn spec_reload_after_stash_enter(changed: bool, prev: StashDepth, now: StashDepth) -> Reload {
    if !changed {
        Reload::Nothing
    } else if prev == StashDepth::List && now == StashDepth::Details {
        Reload::Files
    } else if now == StashDepth::FilesDiff {
        Reload::FileDiff
    } else {
        Reload::Nothing
    }
}

pub fn reload_after_stash_enter(changed: bool, prev: StashDepth, now: StashDepth) -> (r: Reload)
    ensures
        r == spec_reload_after_stash_enter(changed, prev, now),
{
    if !changed {
        Reload::Nothing
    } else if prev == StashDepth::List && now == StashDepth::Details {
        Reload::Files
    } else if now == StashDepth::FilesDiff {
        Reload::FileDiff
    } else {
        Reload::Nothing
    }
}

pub open spec fn is_up_key(k: Key) -> bool {
    k == Key::Up || k == Key::Char('k')
}

pub open spec fn is_down_key(k: Key) -> bool {
    k == Key::Down || k == Key::Char('j')
}

/// A key that scrolls by one row.
pub fn is_scroll_key(k: Key) -> (r: bool)
    ensures
        r == (is_up_key(k) || is_down_key(k)),
{
    k == Key::Up || k == Key::Char('k') || k == Key::Down || k == Key::Char('j')
}

/// Queued scroll keys that go the same way as `first` are dropped, so that
/// a held key does not run ahead of the screen.
pub fn same_scroll_direction(first: Key, next: Key) -> (r: bool)
    ensures
        r == ((is_up_key(first) && is_up_key(next)) || (is_down_key(first) && is_down_key(next))),
{
    let first_up = first == Key::Up || first == Key::Char('k');
    let next_up = next == Key::Up || next == Key::Char('k');
    let first_down = first == Key::Down || first == Key::Char('j');
    let next_down = next == Key::Down || next == Key::Char('j');
    (first_up && next_up) || (first_down && next_down)
}

/// `q` leaves the browser from any state and changes nothing on the way.
pub proof fn lemma_quit_from_anywhere(ui: UiState, has_status_file: bool)
    ensures
        spec_handle_key(ui, Key::Char('q'), has_status_file) == (ui, Action::Quit),
{
}

/// Pressing `h` twice leaves the view as it was.
pub proof fn lemma_help_twice(ui: UiState, has_status_file: bool)
    ensures
        spec_handle_key(spec_handle_key(ui, Key::Char('h'), has_status_file).0, Key::Char('h'), has_status_file).0
            == ui,
{
}

/// While the help is shown, Esc hides it and does nothing else.
pub proof fn lemma_esc_hides_help(ui: UiState, has_status_file: bool)
    requires
        ui.show_help,
    ensures
        spec_handle_key(ui, Key::Esc, has_status_file) == (UiState { show_help: false, ..ui }, Action::Nothing),
{
}

/// Three presses of Tab come back to the same tab.
pub proof fn lemma_tab_key_cycles(ui: UiState, has_status_file: bool)
    ensures
        ({
            let s1 = spec_handle_key(ui, Key::Tab, has_status_file).0;
            let s2 = spec_handle_key(s1, Key::Tab, has_status_file).0;
            spec_handle_key(s2, Key::Tab, has_status_file).0.current_tab == ui.current_tab
        }),
{
}

/// In the status tab with a file selected and the focus on the entries,
/// Enter opens the diff in full screen, and Esc then returns the focus to
/// the unstaged entries and leaves full screen.
pub proof fn lemma_status_enter_then_esc(ui: UiState)
    requires
        ui.current_tab == Tab::Status,
        ui.status_focus != StatusFocus::Diff,
        !ui.show_help,
    ensures
        ({
            let opened = spec_handle_key(ui, Key::Enter, true).0;
            &&& opened.status_focus == StatusFocus::Diff
            &&& opened.diff_fullscreen
            &&& spec_diff_scrolls(opened)
            &&& spec_handle_key(opened, Key::Esc, true).0 == UiState {
                status_focus: StatusFocus::Unstaged,
                diff_fullscreen: false,
                ..ui
            }
        }),
{
}

/// A diff that takes the scroll keys is on screen.
pub proof fn lemma_scrolling_diff_is_active(ui: UiState)
    ensures
        spec_diff_scrolls(ui) ==> spec_any_diff_active(ui),
{
}

/// The paging and moving keys change no view state and ask for the motion
/// they name, in every state: page down pages down, page up pages up, Home
/// goes to the top, End to the bottom, and the arrows move by one.
pub proof fn lemma_motion_keys_ask_for_their_motion(ui: UiState, has_status_file: bool)
    ensures
        spec_handle_key(ui, Key::PageDown, has_status_file) == (ui, Action::PageDown),
        spec_handle_key(ui, Key::PageUp, has_status_file) == (ui, Action::PageUp),
        spec_handle_key(ui, Key::Home, has_status_file) == (ui, Action::GoHome),
        spec_handle_key(ui, Key::End, has_status_file) == (ui, Action::GoEnd),
        spec_handle_key(ui, Key::Down, has_status_file) == (ui, Action::MoveDown),
        spec_handle_key(ui, Key::Up, has_status_file) == (ui, Action::MoveUp),
{
}

/// Tab and Shift-Tab move to another tab, in opposite directions, and hide
/// the side diff; `m` switches to the other diff layout and `f` in or out
/// of full screen, and pressing either twice leaves the view as it was.
pub proof fn lemma_switch_keys(ui: UiState, has_status_file: bool)
    ensures
        spec_handle_key(ui, Key::Tab, has_status_file).0.current_tab != ui.current_tab,
        spec_handle_key(ui, Key::BackTab, has_status_file).0.current_tab != ui.current_tab,
        spec_handle_key(spec_handle_key(ui, Key::Tab, has_status_file).0, Key::BackTab, has_status_file).0.current_tab
            == ui.current_tab,
        !spec_handle_key(ui, Key::Tab, has_status_file).0.show_diff,
        spec_handle_key(ui, Key::Char('m'), has_status_file).0.diff_mode != ui.diff_mode,
        spec_handle_key(spec_handle_key(ui, Key::Char('m'), has_status_file).0, Key::Char('m'), has_status_file).0
            == ui,
        spec_handle_key(ui, Key::Char('f'), has_status_file).0.diff_fullscreen != ui.diff_fullscreen,
        spec_handle_key(spec_handle_key(ui, Key::Char('f'), has_status_file).0, Key::Char('f'), has_status_file).0
            == ui,
{
}

/// `j` and `k` do what the down and up arrows do, in every state.
pub proof fn lemma_vim_keys_match_arrows(ui: UiState, has_status_file: bool)
    ensures
        spec_handle_key(ui, Key::Char('j'), has_status_file) == spec_handle_key(ui, Key::Down, has_status_file),
        spec_handle_key(ui, Key::Char('k'), has_status_file) == spec_handle_key(ui, Key::Up, has_status_file),
{
}

/// In the log and stash tabs the right arrow enters the next level as
/// Enter does.
pub proof fn lemma_right_enters_like_enter(ui: UiState, has_status_file: bool)
    requires
        ui.current_tab != Tab::Status,
    ensures
        spec_handle_key(ui, Key::Right, has_status_file) == spec_handle_key(ui, Key::Enter, has_status_file),
{
}

/// The number keys go to their tab, whatever the state.
pub proof fn lemma_number_keys_go_to_their_tab(ui: UiState, has_status_file: bool)
    ensures
        spec_handle_key(ui, Key::Char('1'), has_status_file).0.current_tab == Tab::Status,
        spec_handle_key(ui, Key::Char('2'), has_status_file).0.current_tab == Tab::Log,
        spec_handle_key(ui, Key::Char('3'), has_status_file).0.current_tab == Tab::Stashes,
{
}

/// The name of a diff layout as the status line shows it.
pub open spec fn mode_name(m: DiffViewMode) -> Seq<char> {
    match m {
        DiffViewMode::Inline => "inline"@,
        DiffViewMode::SideBySide => "side-by-side"@,
    }
}

/// The keys a diff answers to, after the layout and the full-screen mark.
pub open spec fn diff_keys_text(ui: UiState, keys: Seq<char>) -> Seq<char> {
    " ["@ + mode_name(ui.diff_mode) + "]"@ + (if ui.diff_fullscreen {
        " [F]"@
    } else {
        ""@
    }) + keys + mode_name(ui.diff_mode) + ") | \u{2191}\u{2193}:scroll "@
}

/// The status line: the keys of the diff where one is in use (with its
/// layout), else the keys of the status tab's lists or of the other tabs.
pub open spec fn spec_status_bar(ui: UiState) -> Seq<char> {
    if ui.current_tab == Tab::Status {
        if ui.status_focus == StatusFocus::Diff {
            diff_keys_text(ui, " | q:quit | h:help | f:fullscreen | m:toggle mode("@)
        } else {
            " q:quit | h:help | \u{2191}\u{2193}:navigate | PgUp/PgDn:page | \u{2190}\u{2192}:switch panel | Enter:open diff | 1-3:goto tab "@
        }
    } else if spec_any_diff_active(ui) {
        diff_keys_text(ui, " | q:quit | h:help | d:toggle diff | f:fullscreen | m:toggle mode("@)
    } else {
        " q:quit | h:help | d:show diff | \u{2191}\u{2193}:navigate | PgUp/PgDn:page | Tab:next | 1-3:goto tab "@
    }
}

fn diff_keys(ui: &UiState, keys: &str) -> (r: String)
    ensures
        r@ == diff_keys_text(*ui, keys@),
{
    let mode = match ui.diff_mode {
        DiffViewMode::Inline => "inline",
        DiffViewMode::SideBySide => "side-by-side",
    };
    let mut t = String::from_str(" [");
    t.append(mode);
    t.append("]");
    t.append(if ui.diff_fullscreen {
        " [F]"
    } else {
        ""
    });
    t.append(keys);
    t.append(mode);
    t.append(") | \u{2191}\u{2193}:scroll ");
    t
}

/// The text of the status line.
pub fn status_bar_text(ui: &UiState) -> (r: String)
    ensures
        r@ == spec_status_bar(*ui),
{
    if ui.current_tab == Tab::Status {
        if ui.status_focus == StatusFocus::Diff {
            diff_keys(ui, " | q:quit | h:help | f:fullscreen | m:toggle mode(")
        } else {
            String::from_str(
                " q:quit | h:help | \u{2191}\u{2193}:navigate | PgUp/PgDn:page | \u{2190}\u{2192}:switch panel | Enter:open diff | 1-3:goto tab ",
            )
        }
    } else if is_any_diff_active(ui) {
        diff_keys(ui, " | q:quit | h:help | d:toggle diff | f:fullscreen | m:toggle mode(")
    } else {
        String::from_str(
            " q:quit | h:help | d:show diff | \u{2191}\u{2193}:navigate | PgUp/PgDn:page | Tab:next | 1-3:goto tab ",
        )
    }
}

/// The repository's path for a field `width` characters wide: its last
/// characters after `...` where it is longer than the field.
pub open spec fn spec_shorten_path(path: Seq<char>, width: nat) -> Seq<char> {
    if path.len() > width {
        let keep = if width >= 3 {
            (width - 3) as nat
        } else {
            0nat
        };
        "..."@ + path.skip(path.len() - keep)
    } else {
        path
    }
}

pub fn shorten_path(path: &str, width: usize) -> (r: String)
    ensures
        r@ == spec_shorten_path(path@, width as nat),
{
    let len = path.unicode_len();
    if len > width {
        let keep = width.saturating_sub(3);
        let mut r = String::from_str("...");
        r.append(path.substring_char(len - keep, len));
        proof {
            assert(path@.subrange((len - keep) as int, len as int) =~= path@.skip(len - keep));
        }
        r
    } else {
        String::from_str(path)
    }
}

/// The titles of the tabs, the current one in the active look.
pub open spec fn spec_tab_titles(current: Tab, theme: Theme) -> Seq<(Seq<char>, Style)> {
    let look = |t: Tab|
        if t == current {
            bold_fg_style(theme.tab_active)
        } else {
            fg_style(theme.tab_inactive)
        };
    seq![
        (" Status [1] "@, look(Tab::Status)),
        (" Log [2] "@, look(Tab::Log)),
        (" Stashes [3] "@, look(Tab::Stashes)),
    ]
}

pub fn tab_titles(current: Tab, theme: &Theme) -> (titles: Vec<(String, Style)>)
    ensures
        piece_views(titles@) == spec_tab_titles(current, *theme),
{
    let active = theme.tab_active_style();
    let inactive = theme.tab_inactive_style();
    let titles = vec![
        (String::from_str(" Status [1] "), if current == Tab::Status {
            active
        } else {
            inactive
        }),
        (String::from_str(" Log [2] "), if current == Tab::Log {
            active
        } else {
            inactive
        }),
        (String::from_str(" Stashes [3] "), if current == Tab::Stashes {
            active
        } else {
            inactive
        }),
    ];
    proof {
        assert(piece_views(titles@) =~= spec_tab_titles(current, *theme));
    }
    titles
}

/// The rows of the help window: a title, the keys with what they do, and
/// how to close it.
pub open spec fn spec_help_lines(theme: Theme) -> Seq<Seq<(Seq<char>, Style)>> {
    let key = bold_fg_style(theme.help_key);
    let desc = fg_style(theme.help_desc);
    let normal = Style { fg: None, bg: None, bold: false };
    seq![seq![(" Help "@, bold_fg_style(theme.title_fg))], seq![(""@, normal)]] + seq![
        seq![("  q          "@, key), ("Quit"@, desc)],
        seq![("  h          "@, key), ("Toggle this help"@, desc)],
        seq![("  Tab / \u{2190} \u{2192}  "@, key), ("Switch tabs"@, desc)],
        seq![("  1-3        "@, key), ("Go to tab by number"@, desc)],
        seq![("  ↑/↓        "@, key), ("Navigate / scroll"@, desc)],
        seq![("  PgUp/PgDn  "@, key), ("Page up / page down"@, desc)],
        seq![("  d          "@, key), ("Toggle diff view"@, desc)],
        seq![("  m          "@, key), ("Toggle inline/side-by-side"@, desc)],
    ] + seq![seq![(""@, normal)], seq![(" Press any key to close "@, fg_style(theme.dim_text))]]
}

pub fn help_lines(theme: &Theme) -> (lines: Vec<Vec<(String, Style)>>)
    ensures
        row_views(lines@) == spec_help_lines(*theme),
{
    let key = theme.help_key();
    let desc = theme.help_desc();
    let normal = theme.normal();
    let mut lines: Vec<Vec<(String, Style)>> = Vec::new();
    lines.push(vec![(String::from_str(" Help "), theme.title())]);
    lines.push(vec![(String::from_str(""), normal)]);
    lines.push(vec![(String::from_str("  q          "), key), (String::from_str("Quit"), desc)]);
    lines.push(vec![(String::from_str("  h          "), key), (String::from_str("Toggle this help"), desc)]);
    lines.push(vec![(String::from_str("  Tab / \u{2190} \u{2192}  "), key), (String::from_str("Switch tabs"), desc)]);
    lines.push(vec![(String::from_str("  1-3        "), key), (String::from_str("Go to tab by number"), desc)]);
    lines.push(vec![(String::from_str("  ↑/↓        "), key), (String::from_str("Navigate / scroll"), desc)]);
    lines.push(vec![(String::from_str("  PgUp/PgDn  "), key), (String::from_str("Page up / page down"), desc)]);
    lines.push(vec![(String::from_str("  d          "), key), (String::from_str("Toggle diff view"), desc)]);
    lines.push(vec![(String::from_str("  m          "), key), (String::from_str("Toggle inline/side-by-side"), desc)]);
    lines.push(vec![(String::from_str(""), normal)]);
    lines.push(vec![(String::from_str(" Press any key to close "), theme.dim_text())]);
    proof {
        let spec = spec_help_lines(*theme);
        assert forall|i: int| 0 <= i < 12 implies piece_views(#[trigger] lines@[i]@) =~= spec[i] by {}
        assert(row_views(lines@) =~= spec);
    }
    lines
}

/// Where the help window stands on a screen `width` by `height`: fifty
/// columns by nineteen rows (or the whole screen where it is smaller),
/// centred.
pub fn help_area(width: u16, height: u16) -> (r: (u16, u16, u16, u16))
    ensures
        r.0 == (if width >= 50 { (width - 50) / 2 } else { 0 }),
        r.1 == (if height >= 19 { (height - 19) / 2 } else { 0 }),
        r.2 == (if width < 50 { width } else { 50 }),
        r.3 == (if height < 19 { height } else { 19 }),
{
    (
        width.saturating_sub(50) / 2,
        height.saturating_sub(19) / 2,
        if width < 50 {
            width
        } else {
            50
        },
        if height < 19 {
            height
        } else {
            19
        },
    )
}

} // verus!
