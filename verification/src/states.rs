//! The interactive client's modes, intents, and the pure decisions of
//! the event loop: what each intent does to the mode, when a refresh
//! request is honoured, and how a selection cycles through a list. The
//! loop itself (key events, channels, rendering) is the caller's; every
//! rule it applies comes from here.
use vstd::prelude::*;

verus! {

/// Which part of the client owns the keyboard.
#[derive(Debug, Clone, Copy, PartialEq, Eq, Structural)]
pub enum AppMode {
    Normal,
    Editing,
}

/// A user intent, as the presentation client reports it.
#[derive(Debug, Clone, Copy, PartialEq, Eq, Structural)]
pub enum AppAction {
    StartRefresh,
    StartFilter,
    ExitFilter,
    SelectNext,
    SelectPervious,
    SelectEnter,
    SelectCopyPath,
    ComplectionFinish,
    Quit,
}

/// What one intent decides: the next mode, whether a reconciliation
/// cycle is in flight, whether to start one now, and whether to quit.
#[derive(Debug, Clone, Copy, PartialEq, Eq, Structural)]
pub struct ActionEffect {
    pub mode: AppMode,
    pub refreshing: bool,
    pub start_refresh: bool,
    pub quit: bool,
}

/// Apply one intent to the loop's state. A refresh request while a
/// cycle is already in flight is ignored, not queued, so cycles never
/// overlap on the cache; the filter can only be entered when the list
/// is stable; leaving the filter always returns to the normal mode.
pub fn apply_action(mode: AppMode, refreshing: bool, action: AppAction) -> (e: ActionEffect)
    ensures
        e.quit == (action is Quit),
        e.start_refresh == (action is StartRefresh && !refreshing),
        e.refreshing == (refreshing || action is StartRefresh),
        e.mode == (match action {
            AppAction::StartFilter => if !refreshing {
                AppMode::Editing
            } else {
                mode
            },
            AppAction::ExitFilter => AppMode::Normal,
            _ => mode,
        }),
{
    match action {
        AppAction::Quit => ActionEffect { mode, refreshing, start_refresh: false, quit: true },
        AppAction::StartRefresh => {
            if !refreshing {
                ActionEffect { mode, refreshing: true, start_refresh: true, quit: false }
            } else {
                ActionEffect { mode, refreshing, start_refresh: false, quit: false }
            }
        },
        AppAction::StartFilter => {
            let new_mode = if !refreshing {
                AppMode::Editing
            } else {
                mode
            };
            ActionEffect { mode: new_mode, refreshing, start_refresh: false, quit: false }
        },
        AppAction::ExitFilter => ActionEffect {
            mode: AppMode::Normal,
            refreshing,
            start_refresh: false,
            quit: false,
        },
        _ => ActionEffect { mode, refreshing, start_refresh: false, quit: false },
    }
}

/// Move a selection one row down, wrapping at the end; an empty list
/// keeps the selection as it is, and an unset selection lands on the
/// first row.
pub fn cycle_next(selected: Option<usize>, len: usize) -> (r: Option<usize>)
    ensures
        len == 0 ==> r == selected,
        len > 0 ==> r == Some(
            match selected {
                Some(i) => if i >= len - 1 {
                    0usize
                } else {
                    (i + 1) as usize
                },
                None => 0usize,
            },
        ),
{
    if len == 0 {
        return selected;
    }
    match selected {
        Some(i) => {
            if i >= len - 1 {
                Some(0)
            } else {
                Some(i + 1)
            }
        },
        None => Some(0),
    }
}

/// Move a selection one row up, wrapping at the start; an empty list
/// keeps the selection as it is, and an unset selection lands on the
/// first row.
pub fn cycle_previous(selected: Option<usize>, len: usize) -> (r: Option<usize>)
    ensures
        len == 0 ==> r == selected,
        len > 0 ==> r == Some(
            match selected {
                Some(i) => if i == 0 {
                    (len - 1) as usize
                } else {
                    (i - 1) as usize
                },
                None => 0usize,
            },
        ),
{
    if len == 0 {
        return selected;
    }
    match selected {
        Some(i) => {
            if i == 0 {
                Some(len - 1)
            } else {
                Some(i - 1)
            }
        },
        None => Some(0),
    }
}

} // verus!
