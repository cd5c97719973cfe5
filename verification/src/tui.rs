//! State of the full-screen view that does not touch the terminal: the tab
//! cursor, the FD-leak banner and the view's limits.

use vstd::prelude::*;
use crate::peekd::tunables::{bounded_setting, opt_view, setting_value};

pub mod view;

verus! {

/// How many tabs the view has.
pub const TAB_COUNT: usize = 7;

/// The titles of the tabs, in order.
pub open spec fn tab_titles() -> Seq<Seq<char>> {
    seq!["Overview"@, "Kernel"@, "Network"@, "Files"@, "Env"@, "Tree"@, "GPU"@]
}

/// The title of tab `i`.
pub fn tab_title(i: usize) -> (r: &'static str)
    requires
        i < TAB_COUNT,
    ensures
        r@ == tab_titles()[i as int],
{
    if i == 0 {
        "Overview"
    } else if i == 1 {
        "Kernel"
    } else if i == 2 {
        "Network"
    } else if i == 3 {
        "Files"
    } else if i == 4 {
        "Env"
    } else if i == 5 {
        "Tree"
    } else {
        "GPU"
    }
}

pub open spec fn tab_after(active: int) -> int {
    (active + 1) % (TAB_COUNT as int)
}

pub open spec fn tab_before(active: int) -> int {
    if active == 0 {
        TAB_COUNT - 1
    } else {
        active - 1
    }
}

/// The tab after `active`, wrapping from the last to the first.
pub fn next_tab(active: usize) -> (r: usize)
    requires
        active < usize::MAX,
    ensures
        r == tab_after(active as int),
{
    (active + 1) % TAB_COUNT
}

/// The tab before `active`, wrapping from the first to the last.
pub fn prev_tab(active: usize) -> (r: usize)
    ensures
        r == tab_before(active as int),
{
    if active == 0 {
        TAB_COUNT - 1
    } else {
        active - 1
    }
}

/// Stepping forward then back, or back then forward, returns to the same
/// tab, and both steps stay on a tab.
pub proof fn lemma_tab_steps_undo(active: int)
    requires
        0 <= active < TAB_COUNT,
    ensures
        0 <= tab_after(active) < TAB_COUNT,
        0 <= tab_before(active) < TAB_COUNT,
        tab_before(tab_after(active)) == active,
        tab_after(tab_before(active)) == active,
{
}

/// The FD-leak banner.
#[derive(Debug, Clone, Copy, PartialEq, Eq, Structural)]
pub enum FdLeakStatus {
    NoLeak,
    Warning { start: usize, end: usize, n: usize },
}

/// The banner for the result of a leak check: the window's first and last
/// FD counts and its length when a leak was found.
pub fn fd_leak_status(found: Option<(usize, usize, usize)>) -> (r: FdLeakStatus)
    ensures
        match found {
            Some((start, end, n)) => r == (FdLeakStatus::Warning { start, end, n }),
            None => r == FdLeakStatus::NoLeak,
        },
{
    match found {
        Some((start, end, n)) => FdLeakStatus::Warning { start, end, n },
        None => FdLeakStatus::NoLeak,
    }
}

/// Whether a refresh with tick counter `tick` (already advanced) runs the
/// leak check: every tenth tick.
pub fn leak_check_due(tick: u64) -> (r: bool)
    ensures
        r == (tick % 10 == 0),
{
    tick % 10 == 0
}

/// `PEEK_HISTORY_LEN`: samples kept for the sparklines, 1..=3600, default 120.
pub fn history_len(raw: Option<&str>) -> (r: usize)
    ensures
        r as nat == setting_value(opt_view(raw), 1, 3600, 120),
        1 <= r <= 3600,
{
    bounded_setting(raw, 1, 3600, 120) as usize
}

/// `PEEK_TUI_MAX_CONNECTIONS`: rows of the connection table, 1..=1000, default 50.
pub fn max_connections(raw: Option<&str>) -> (r: usize)
    ensures
        r as nat == setting_value(opt_view(raw), 1, 1000, 50),
        1 <= r <= 1000,
{
    bounded_setting(raw, 1, 1000, 50) as usize
}

/// `PEEK_TUI_MAX_FILES`: rows of the open-file table, 1..=5000, default 200.
pub fn max_open_files(raw: Option<&str>) -> (r: usize)
    ensures
        r as nat == setting_value(opt_view(raw), 1, 5000, 200),
        1 <= r <= 5000,
{
    bounded_setting(raw, 1, 5000, 200) as usize
}

} // verus!
