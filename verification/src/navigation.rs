//! Moving through the list of choices with the keyboard, as every frontend
//! does: the arrows (or Ctrl with J, N, K, P) move the selection, Enter
//! launches the selected choice and Escape quits.

use vstd::prelude::*;

verus! {

/// The keys that act on the list of choices.
#[derive(Debug, Clone, Copy, PartialEq, Eq, Structural)]
pub enum NavKey {
    Escape,
    Enter,
    Down,
    Up,
    J,
    N,
    K,
    P,
    Other,
}

/// What a key does to the list.
#[derive(Debug, Clone, Copy, PartialEq, Eq, Structural)]
pub enum NavStep {
    /// Close the launcher.
    Quit,
    /// Launch the choice at this position, if one is selected.
    Launch(Option<usize>),
    /// Select the choice at this position.
    Select(usize),
    /// Nothing.
    Stay,
}

/// The selection one step down: the next choice, at most the last one (0
/// for an empty list).
pub open spec fn next_selected(selected: usize, len: usize) -> usize {
    let last = if len == 0 { 0 } else { (len - 1) as usize };
    if selected + 1 <= last { (selected + 1) as usize } else { last }
}

/// The selection one step up: the previous choice, at least the first.
pub open spec fn previous_selected(selected: usize) -> usize {
    if selected == 0 { 0 } else { (selected - 1) as usize }
}

/// Moves the selection one choice down, stopping at the last one.
pub fn select_next(selected: usize, len: usize) -> (r: usize)
    requires
        selected < usize::MAX,
    ensures
        r == next_selected(selected, len),
{
    let last = if len == 0 { 0 } else { len - 1 };
    let next = selected + 1;
    if next <= last { next } else { last }
}

/// Moves the selection one choice up, stopping at the first one.
pub fn select_previous(selected: usize) -> (r: usize)
    ensures
        r == previous_selected(selected),
{
    if selected == 0 { 0 } else { selected - 1 }
}

/// What a key does to a list of `len` choices whose selected position is
/// `selected`: Escape quits; Enter launches the selected choice (none when
/// the selection is past the list); Down, or Ctrl with J or N, selects the
/// next choice; Up, or Ctrl with K or P, the previous one.
pub fn navigation_step(key: NavKey, ctrl: bool, selected: usize, len: usize) -> (r: NavStep)
    requires
        selected < usize::MAX,
    ensures
        r == match key {
            NavKey::Escape => NavStep::Quit,
            NavKey::Enter => NavStep::Launch(if selected < len { Some(selected) } else { None }),
            NavKey::Down => NavStep::Select(next_selected(selected, len)),
            NavKey::Up => NavStep::Select(previous_selected(selected)),
            NavKey::J | NavKey::N => if ctrl { NavStep::Select(next_selected(selected, len)) } else { NavStep::Stay },
            NavKey::K | NavKey::P => if ctrl { NavStep::Select(previous_selected(selected)) } else { NavStep::Stay },
            NavKey::Other => NavStep::Stay,
        },
{
    match key {
        NavKey::Escape => NavStep::Quit,
        NavKey::Enter => NavStep::Launch(if selected < len { Some(selected) } else { None }),
        NavKey::Down => NavStep::Select(select_next(selected, len)),
        NavKey::Up => NavStep::Select(select_previous(selected)),
        NavKey::J | NavKey::N => if ctrl { NavStep::Select(select_next(selected, len)) } else { NavStep::Stay },
        NavKey::K | NavKey::P => if ctrl { NavStep::Select(select_previous(selected)) } else { NavStep::Stay },
        NavKey::Other => NavStep::Stay,
    }
}

/// The selection stays in the list: moving down or up from a choice of a
/// non-empty list selects a choice of the list.
pub proof fn lemma_selection_stays_in_list(selected: usize, len: usize)
    requires
        selected < len,
    ensures
        next_selected(selected, len) < len,
        previous_selected(selected) < len,
        next_selected(selected, len) >= selected,
        previous_selected(selected) <= selected,
{
}

} // verus!
