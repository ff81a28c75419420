//! Decisions the canvas takes on mouse, hotkey and timer events, from the
//! state they depend on to what is to be done.

use vstd::prelude::*;
use crate::selection::{key_effect, KeyCommand, VK_1};

verus! {

/// Hotkey id of Ctrl+Space, which shows or hides the canvas.
pub const HOTKEY_TOGGLE: i32 = 1;
/// Hotkey id of F1 while a window is pinned.
pub const HOTKEY_PIN_F1: i32 = 2;
/// Hotkey id of Escape while a window is pinned.
pub const HOTKEY_PIN_ESCAPE: i32 = 3;

/// How a cell's border is drawn.
#[derive(Clone, Copy, Debug, PartialEq, Eq, Structural)]
pub enum CellStyle {
    /// The cell of the pinned window, in pin mode.
    PinFocus,
    /// The selected cell.
    Selected,
    /// The cell under the pointer.
    Hovered,
    /// Any other cell.
    Plain,
}

/// The border of cell `cell`: the pinned window's cell in pin mode first,
/// then the selected cell, then the hovered one.
pub fn cell_style(
    cell: usize,
    pin_mode: bool,
    pinned: Option<usize>,
    selected: Option<usize>,
    hovered: Option<usize>,
) -> (r: CellStyle)
    ensures
        r == (if pin_mode && pinned == Some(cell) {
            CellStyle::PinFocus
        } else if selected == Some(cell) {
            CellStyle::Selected
        } else if hovered == Some(cell) {
            CellStyle::Hovered
        } else {
            CellStyle::Plain
        }),
{
    if pin_mode && pinned == Some(cell) {
        CellStyle::PinFocus
    } else if selected == Some(cell) {
        CellStyle::Selected
    } else if hovered == Some(cell) {
        CellStyle::Hovered
    } else {
        CellStyle::Plain
    }
}

/// The badge number of a cell: its position counted from 1, for the first
/// nine cells only.
pub open spec fn badge_of(cell: nat) -> Option<nat> {
    if cell < 9 {
        Some(cell + 1)
    } else {
        None
    }
}

/// The number shown on the badge of cell `cell`: the digit key that
/// switches to it, for the first nine cells only.
pub fn badge_number(cell: usize) -> (r: Option<usize>)
    ensures
        match badge_of(cell as nat) {
            Some(n) => r == Some(n as usize),
            None => r is None,
        },
{
    if cell < 9 {
        Some(cell + 1)
    } else {
        None
    }
}

/// What pressing the left button does.
#[derive(Clone, Copy, Debug, PartialEq, Eq, Structural)]
pub enum LeftPress {
    /// Leave any pinned window and switch pin mode on or off.
    TogglePinMode,
    /// Pin the window of this cell.
    Pin(usize),
    /// Leave the pinned window.
    Unpin,
    /// Select this cell and get ready to drag it.
    StartDrag(usize),
    /// Switch to the window of this cell and hide the canvas.
    Activate(usize),
    /// Nothing to do.
    Ignore,
}

/// What pressing the left button does, given whether it was on the pin
/// button, whether pin mode is on, the cell under the pointer, the cell
/// of the pinned window and whether Ctrl is held.
pub open spec fn left_press_effect(
    on_pin_button: bool,
    pin_mode: bool,
    hit: Option<usize>,
    pinned: Option<usize>,
    ctrl: bool,
) -> LeftPress {
    if on_pin_button {
        LeftPress::TogglePinMode
    } else if pin_mode {
        match hit {
            Some(c) => if pinned == Some(c) {
                LeftPress::Ignore
            } else {
                LeftPress::Pin(c)
            },
            None => LeftPress::Unpin,
        }
    } else {
        match hit {
            Some(c) => if ctrl {
                LeftPress::StartDrag(c)
            } else {
                LeftPress::Activate(c)
            },
            None => LeftPress::Ignore,
        }
    }
}

/// Decides what pressing the left button does.
pub fn left_press(on_pin_button: bool, pin_mode: bool, hit: Option<usize>, pinned: Option<usize>, ctrl: bool) -> (r: LeftPress)
    ensures
        r == left_press_effect(on_pin_button, pin_mode, hit, pinned, ctrl),
{
    if on_pin_button {
        return LeftPress::TogglePinMode;
    }
    if pin_mode {
        match hit {
            Some(c) => if pinned == Some(c) {
                LeftPress::Ignore
            } else {
                LeftPress::Pin(c)
            },
            None => LeftPress::Unpin,
        }
    } else {
        match hit {
            Some(c) => if ctrl {
                LeftPress::StartDrag(c)
            } else {
                LeftPress::Activate(c)
            },
            None => LeftPress::Ignore,
        }
    }
}

/// What releasing the right button does.
#[derive(Clone, Copy, Debug, PartialEq, Eq, Structural)]
pub enum RightRelease {
    /// Open the context menu of the cell under the pointer, if any, and
    /// stop coasting.
    ContextMenu,
    /// Start coasting with the panning speed.
    Coast,
    /// Nothing to do.
    Ignore,
}

/// Decides what releasing the right button does: a click without panning,
/// outside pin mode, opens the context menu; a pan with no pinned window
/// coasts on.
pub fn right_release(did_pan: bool, pin_mode: bool, pin_focused: bool) -> (r: RightRelease)
    ensures
        r == (if !did_pan && !pin_mode && !pin_focused {
            RightRelease::ContextMenu
        } else if did_pan && !pin_focused {
            RightRelease::Coast
        } else {
            RightRelease::Ignore
        }),
{
    if !did_pan && !pin_mode && !pin_focused {
        RightRelease::ContextMenu
    } else if did_pan && !pin_focused {
        RightRelease::Coast
    } else {
        RightRelease::Ignore
    }
}

/// What a global hotkey does.
#[derive(Clone, Copy, Debug, PartialEq, Eq, Structural)]
pub enum HotkeyAction {
    /// Leave any pinned window and hide the canvas.
    Hide,
    /// Show the canvas afresh: no selection, no hover, pin mode off, empty
    /// query, windows listed again.
    Show,
    /// Leave the pinned window, keeping pin mode.
    Unpin,
    /// Leave the pinned window and pin mode.
    UnpinAndLeavePinMode,
    /// Nothing to do.
    Ignore,
}

/// Decides what the hotkey `id` does, given whether the canvas is shown.
pub fn hotkey_action(id: i32, visible: bool) -> (r: HotkeyAction)
    ensures
        r == (if id == HOTKEY_TOGGLE {
            if visible {
                HotkeyAction::Hide
            } else {
                HotkeyAction::Show
            }
        } else if id == HOTKEY_PIN_F1 {
            HotkeyAction::Unpin
        } else if id == HOTKEY_PIN_ESCAPE {
            HotkeyAction::UnpinAndLeavePinMode
        } else {
            HotkeyAction::Ignore
        }),
{
    if id == HOTKEY_TOGGLE {
        if visible {
            HotkeyAction::Hide
        } else {
            HotkeyAction::Show
        }
    } else if id == HOTKEY_PIN_F1 {
        HotkeyAction::Unpin
    } else if id == HOTKEY_PIN_ESCAPE {
        HotkeyAction::UnpinAndLeavePinMode
    } else {
        HotkeyAction::Ignore
    }
}

/// What the periodic refresh timer does.
#[derive(Clone, Copy, Debug, PartialEq, Eq, Structural)]
pub enum RefreshAction {
    /// Leave the pinned window, which was closed.
    Unpin,
    /// List the windows again.
    Refresh,
    /// Nothing to do.
    Ignore,
}

/// Decides what the refresh timer does: with a pinned window, only check
/// that it still exists; otherwise list the windows again while shown.
pub fn refresh_action(pin_focused: bool, pinned_alive: bool, visible: bool) -> (r: RefreshAction)
    ensures
        r == (if pin_focused {
            if pinned_alive {
                RefreshAction::Ignore
            } else {
                RefreshAction::Unpin
            }
        } else if visible {
            RefreshAction::Refresh
        } else {
            RefreshAction::Ignore
        }),
{
    if pin_focused {
        if pinned_alive {
            RefreshAction::Ignore
        } else {
            RefreshAction::Unpin
        }
    } else if visible {
        RefreshAction::Refresh
    } else {
        RefreshAction::Ignore
    }
}

/// After an animation frame: whether to open the hole for the pinned
/// window (its zoom-in just ended) and whether to stop the frame timer
/// (nothing moves any more).
pub fn after_frame(anim_going: bool, inertia_going: bool, pin_zoom_pending: bool) -> (r: (bool, bool))
    ensures
        r.0 == (!anim_going && pin_zoom_pending),
        r.1 == (!anim_going && !inertia_going),
{
    (!anim_going && pin_zoom_pending, !anim_going && !inertia_going)
}

/// Whether the scroll wheel zooms: not while a window is pinned or being
/// zoomed in on.
pub fn wheel_zooms(pin_focused: bool, pin_zoom_pending: bool) -> (r: bool)
    ensures
        r == (!pin_focused && !pin_zoom_pending),
{
    !pin_focused && !pin_zoom_pending
}

/// The window shown in cell `cell` while it is pinned, when the cell still
/// exists and still shows the pinned window (id `pinned_id`): the window's
/// index; `None` when the cell or the window moved on.
pub fn pinned_window(
    cell: usize,
    layout_len: usize,
    shown: &[usize],
    ids: &[isize],
    pinned_id: isize,
) -> (r: Option<usize>)
    ensures
        r == (if cell >= layout_len || cell >= shown@.len() {
            None
        } else if shown@[cell as int] >= ids@.len() || ids@[shown@[cell as int] as int] != pinned_id {
            None
        } else {
            Some(shown@[cell as int])
        }),
{
    if cell >= layout_len || cell >= shown.len() {
        return None;
    }
    let w = shown[cell];
    if w >= ids.len() || ids[w] != pinned_id {
        return None;
    }
    Some(w)
}


/// The digit on a cell's badge is the key that switches to that cell:
/// pressing it, with no query typed and no window pinned, activates the
/// cell whenever it is shown.
pub proof fn badge_digit_activates_its_cell(cell: nat, pin_mode: bool, selected: Option<usize>, count: nat)
    requires
        badge_of(cell) is Some,
        cell < count,
    ensures
        key_effect(
            (VK_1 + badge_of(cell)->0 - 1) as u16,
            false,
            pin_mode,
            false,
            selected,
            count,
        ) == KeyCommand::Activate(cell as usize),
{
}


/// What a left click does: the pin button always toggles pin mode; in pin
/// mode a click on a cell other than the pinned one pins that cell, a
/// click on the pinned cell does nothing and a click off the cells unpins;
/// outside pin mode a click on a cell switches to its window, or starts a
/// drag with Ctrl held, and a click off the cells does nothing.
pub proof fn left_click_outcomes(
    on_pin_button: bool,
    pin_mode: bool,
    hit: Option<usize>,
    pinned: Option<usize>,
    ctrl: bool,
)
    ensures
        on_pin_button ==> left_press_effect(on_pin_button, pin_mode, hit, pinned, ctrl)
            == LeftPress::TogglePinMode,
        !on_pin_button && pin_mode ==> match hit {
            Some(c) => left_press_effect(on_pin_button, pin_mode, hit, pinned, ctrl) == (if pinned
                == Some(c) {
                LeftPress::Ignore
            } else {
                LeftPress::Pin(c)
            }),
            None => left_press_effect(on_pin_button, pin_mode, hit, pinned, ctrl) == LeftPress::Unpin,
        },
        !on_pin_button && !pin_mode ==> match hit {
            Some(c) => left_press_effect(on_pin_button, pin_mode, hit, pinned, ctrl) == (if ctrl {
                LeftPress::StartDrag(c)
            } else {
                LeftPress::Activate(c)
            }),
            None => left_press_effect(on_pin_button, pin_mode, hit, pinned, ctrl) == LeftPress::Ignore,
        },
{
}

/// A click only ever pins, activates or starts dragging the cell under the
/// pointer, and in pin mode never re-pins the cell already pinned.
pub proof fn click_acts_on_the_clicked_cell(
    on_pin_button: bool,
    pin_mode: bool,
    hit: Option<usize>,
    pinned: Option<usize>,
    ctrl: bool,
)
    ensures
        left_press_effect(on_pin_button, pin_mode, hit, pinned, ctrl) matches LeftPress::Pin(c) ==> hit
            == Some(c) && pinned != Some(c) && pin_mode,
        left_press_effect(on_pin_button, pin_mode, hit, pinned, ctrl) matches LeftPress::Activate(c)
            ==> hit == Some(c) && !pin_mode && !ctrl,
        left_press_effect(on_pin_button, pin_mode, hit, pinned, ctrl) matches LeftPress::StartDrag(c)
            ==> hit == Some(c) && !pin_mode && ctrl,
{
}

} // verus!
