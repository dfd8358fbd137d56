//! Keyboard surface and loop decisions: key-press events become discrete
//! actions applied to the navigation and scroll state owned by the loop;
//! every other event kind is ignored.

use vstd::prelude::*;
use crate::nav::{ClientStatsState, QmDevicesTabState, spec_focus_next, spec_focus_previous,
    spec_tab_next, spec_tab_previous};
use crate::scroll::ScrollState;

verus! {

/// A key press, already decoded from the terminal event stream.
#[derive(Clone, Copy, PartialEq, Eq, Structural, Debug)]
pub enum UiKey {
    Quit,
    NextDevice,
    PreviousDevice,
    ScrollLeft,
    ScrollRight,
    ScrollUp,
    ScrollDown,
    NextCategory,
    PreviousCategory,
    Other,
}

/// Applies one key press to the device-overview state: tab cycling,
/// client-list scrolling (bounded by the pane's current maximum offsets),
/// and the quit flag; any other key changes nothing.
pub fn handle_overview_key(
    tabs: &mut QmDevicesTabState,
    clis_scroll: &mut ScrollState,
    exit: &mut bool,
    key: UiKey,
    max_x: u16,
    max_y: u16,
)
    requires
        old(tabs).wf(),
    ensures
        final(tabs).wf(),
        final(tabs).devs_spec() == old(tabs).devs_spec(),
        *final(exit) == (*old(exit) || key == UiKey::Quit),
        final(tabs).sel_spec() == match key {
            UiKey::NextDevice => spec_tab_next(old(tabs).sel_spec(), old(tabs).devs_spec().len()),
            UiKey::PreviousDevice => spec_tab_previous(
                old(tabs).sel_spec(),
                old(tabs).devs_spec().len(),
            ),
            _ => old(tabs).sel_spec(),
        },
        key == UiKey::ScrollRight ==> final(clis_scroll).x == if old(clis_scroll).x + 1 <= max_x {
            (old(clis_scroll).x + 1) as u16
        } else {
            max_x
        },
        key == UiKey::ScrollLeft && old(clis_scroll).x >= 1 ==> final(clis_scroll).x <= max_x
            && final(clis_scroll).x <= old(clis_scroll).x - 1,
        key == UiKey::ScrollDown ==> final(clis_scroll).y == if old(clis_scroll).y + 1 <= max_y {
            (old(clis_scroll).y + 1) as u16
        } else {
            max_y
        },
        key == UiKey::ScrollUp && old(clis_scroll).y >= 1 ==> final(clis_scroll).y <= max_y
            && final(clis_scroll).y <= old(clis_scroll).y - 1,
        !(key == UiKey::ScrollLeft || key == UiKey::ScrollRight || key == UiKey::ScrollUp || key
            == UiKey::ScrollDown) ==> *final(clis_scroll) == *old(clis_scroll),
{
    match key {
        UiKey::Quit => {
            *exit = true;
        },
        UiKey::NextDevice => {
            tabs.next();
        },
        UiKey::PreviousDevice => {
            tabs.previous();
        },
        UiKey::ScrollRight => {
            clis_scroll.scroll_right(max_x);
        },
        UiKey::ScrollLeft => {
            clis_scroll.scroll_left(max_x);
        },
        UiKey::ScrollUp => {
            clis_scroll.scroll_up(max_y);
        },
        UiKey::ScrollDown => {
            clis_scroll.scroll_down(max_y);
        },
        _ => {},
    }
}

/// Applies one key press to the client-detail state: command-pane
/// horizontal scrolling and chart-category cycling; any other key changes
/// nothing.
pub fn handle_client_key(
    cmd_scroll: &mut ScrollState,
    stats: &mut ClientStatsState,
    key: UiKey,
    max_x: u16,
)
    ensures
        key == UiKey::NextCategory ==> final(stats).sel == spec_focus_next(old(stats).sel),
        key == UiKey::PreviousCategory ==> final(stats).sel == spec_focus_previous(
            old(stats).sel,
        ),
        !(key == UiKey::NextCategory || key == UiKey::PreviousCategory) ==> *final(stats) == *old(
            stats,
        ),
        key == UiKey::ScrollRight ==> final(cmd_scroll).x == if old(cmd_scroll).x + 1 <= max_x {
            (old(cmd_scroll).x + 1) as u16
        } else {
            max_x
        },
        key == UiKey::ScrollLeft && old(cmd_scroll).x >= 1 ==> final(cmd_scroll).x <= max_x
            && final(cmd_scroll).x <= old(cmd_scroll).x - 1,
        !(key == UiKey::ScrollLeft || key == UiKey::ScrollRight) ==> *final(cmd_scroll) == *old(
            cmd_scroll,
        ),
{
    match key {
        UiKey::ScrollRight => {
            cmd_scroll.scroll_right(max_x);
        },
        UiKey::ScrollLeft => {
            cmd_scroll.scroll_left(max_x);
        },
        UiKey::NextCategory => {
            stats.next();
        },
        UiKey::PreviousCategory => {
            stats.previous();
        },
        _ => {},
    }
}

/// Whether the loop stops at the top of this iteration: a quit key was
/// pressed, or the optional iteration budget is exhausted (a negative
/// budget means unbounded).
pub fn should_stop(exit: bool, iterations_done: i64, max_iterations: i64) -> (r: bool)
    ensures
        r == (exit || (max_iterations >= 0 && iterations_done == max_iterations)),
{
    exit || (max_iterations >= 0 && iterations_done == max_iterations)
}

} // verus!
