//! Keyboard selection: moving the selection between cells, keeping it in
//! range, and deciding what a key press does.

use vstd::prelude::*;

verus! {

/// Virtual-key code of Backspace.
pub const VK_BACK: u16 = 0x08;
/// Virtual-key code of Tab.
pub const VK_TAB: u16 = 0x09;
/// Virtual-key code of Enter.
pub const VK_RETURN: u16 = 0x0D;
/// Virtual-key code of Escape.
pub const VK_ESCAPE: u16 = 0x1B;
/// Virtual-key code of the left arrow.
pub const VK_LEFT: u16 = 0x25;
/// Virtual-key code of the up arrow.
pub const VK_UP: u16 = 0x26;
/// Virtual-key code of the right arrow.
pub const VK_RIGHT: u16 = 0x27;
/// Virtual-key code of the down arrow.
pub const VK_DOWN: u16 = 0x28;
/// Virtual-key code of the digit 1; the digits 1 to 9 follow it.
pub const VK_1: u16 = 0x31;
/// Virtual-key code of the digit 9.
pub const VK_9: u16 = 0x39;
/// Virtual-key code of F1.
pub const VK_F1: u16 = 0x70;

/// The selection kept within `count` cells: none when there are no cells,
/// the last cell when it lies beyond them, else unchanged.
pub open spec fn clamped(sel: Option<usize>, count: nat) -> Option<usize> {
    match sel {
        Some(s) => if count == 0 {
            None
        } else if s >= count {
            Some((count - 1) as usize)
        } else {
            Some(s)
        },
        None => None,
    }
}

/// Keeps a selection within the `count` cells that are shown.
pub fn clamp_selection(sel: Option<usize>, count: usize) -> (r: Option<usize>)
    ensures
        r == clamped(sel, count as nat),
{
    match sel {
        Some(_) if count == 0 => None,
        Some(s) if s >= count => Some(count - 1),
        other => other,
    }
}

/// The cell after the selection, wrapping to the first; the first cell
/// when nothing is selected.
pub open spec fn next_index(sel: Option<usize>, count: nat) -> nat {
    match sel {
        Some(s) => if s + 1 < count {
            (s + 1) as nat
        } else {
            0
        },
        None => 0,
    }
}

/// The cell before the selection, wrapping to the last; the first cell
/// when nothing is selected.
pub open spec fn prev_index(sel: Option<usize>, count: nat) -> int {
    match sel {
        Some(s) => if s == 0 {
            count - 1
        } else {
            s - 1
        },
        None => 0,
    }
}

/// The cell that Tab or the right arrow selects among `count` cells.
pub fn next_selection(sel: Option<usize>, count: usize) -> (r: usize)
    requires
        sel matches Some(s) ==> s < usize::MAX,
    ensures
        r == next_index(sel, count as nat),
{
    match sel {
        Some(s) if s + 1 < count => s + 1,
        Some(_) => 0,
        None => 0,
    }
}

/// The cell that the left arrow selects among `count` cells.
pub fn prev_selection(sel: Option<usize>, count: usize) -> (r: usize)
    requires
        count > 0,
    ensures
        r == prev_index(sel, count as nat),
{
    match sel {
        Some(0) => count - 1,
        Some(s) => s - 1,
        None => 0,
    }
}

/// Stepping forward then back returns to the same cell.
pub proof fn next_then_prev_returns(s: usize, count: nat)
    requires
        s < count,
        count <= usize::MAX,
    ensures
        prev_index(Some(next_index(Some(s), count) as usize), count) == s,
{
}

/// Stepping back then forward returns to the same cell.
pub proof fn prev_then_next_returns(s: usize, count: nat)
    requires
        s < count,
        count <= usize::MAX,
    ensures
        next_index(Some(prev_index(Some(s), count) as usize), count) == s,
{
}

/// Stepping from a cell in range stays in range, and clamping keeps a
/// selection in range and is idempotent.
pub proof fn selection_stays_in_range(sel: Option<usize>, count: nat)
    requires
        count > 0,
        count <= usize::MAX,
        sel matches Some(s) ==> s < count,
    ensures
        next_index(sel, count) < count,
        0 <= prev_index(sel, count) < count,
        clamped(sel, count) == sel,
        clamped(clamped(sel, count), count) == clamped(sel, count),
{
}

/// Clamping leaves the selection, if any, within the cells.
pub proof fn clamped_is_in_range(sel: Option<usize>, count: nat)
    requires
        count <= usize::MAX,
    ensures
        clamped(sel, count) matches Some(s) ==> s < count,
        clamped(clamped(sel, count), count) == clamped(sel, count),
{
}


/// What a key press on the canvas asks for.
#[derive(Clone, Copy, Debug, PartialEq, Eq, Structural)]
pub enum KeyCommand {
    /// Leave any pinned window and switch pin mode on or off.
    TogglePinMode,
    /// Leave the pinned window and pin mode.
    ExitPinMode,
    /// Empty the search query.
    ClearSearch,
    /// Hide the canvas.
    Hide,
    /// Delete the last character of the search query.
    PopSearch,
    /// Switch to the window shown in this cell and hide the canvas.
    Activate(usize),
    /// Select this cell and bring it into view.
    Select(usize),
    /// Select the cell nearest below this one.
    NavDown(usize),
    /// Select the cell nearest above this one.
    NavUp(usize),
    /// Nothing to do.
    Ignore,
}

/// What pressing the key `vk` does, given whether a window is pinned,
/// whether pin mode is on, whether a query is typed, the selection and the
/// number of shown cells.
pub open spec fn key_effect(
    vk: u16,
    pin_focused: bool,
    pin_mode: bool,
    search_active: bool,
    selected: Option<usize>,
    count: nat,
) -> KeyCommand {
    if vk == VK_F1 {
        KeyCommand::TogglePinMode
    } else if vk == VK_ESCAPE {
        if pin_mode {
            KeyCommand::ExitPinMode
        } else if search_active {
            KeyCommand::ClearSearch
        } else {
            KeyCommand::Hide
        }
    } else if vk == VK_BACK {
        if pin_focused {
            KeyCommand::Ignore
        } else {
            KeyCommand::PopSearch
        }
    } else if pin_focused {
        KeyCommand::Ignore
    } else if vk == VK_RETURN {
        match selected {
            Some(s) => if s < count {
                KeyCommand::Activate(s)
            } else {
                KeyCommand::Ignore
            },
            None => KeyCommand::Ignore,
        }
    } else if vk == VK_TAB || vk == VK_RIGHT {
        if count > 0 {
            KeyCommand::Select(next_index(selected, count) as usize)
        } else {
            KeyCommand::Ignore
        }
    } else if vk == VK_LEFT {
        if count > 0 {
            KeyCommand::Select(prev_index(selected, count) as usize)
        } else {
            KeyCommand::Ignore
        }
    } else if vk == VK_DOWN || vk == VK_UP {
        if count > 0 {
            match selected {
                Some(s) => if vk == VK_DOWN {
                    KeyCommand::NavDown(s)
                } else {
                    KeyCommand::NavUp(s)
                },
                None => KeyCommand::Select(0),
            }
        } else {
            KeyCommand::Ignore
        }
    } else if VK_1 <= vk <= VK_9 && !search_active {
        if (vk - VK_1) < count {
            KeyCommand::Activate((vk - VK_1) as usize)
        } else {
            KeyCommand::Ignore
        }
    } else {
        KeyCommand::Ignore
    }
}

/// Decides what pressing the key `vk` does on the canvas.
pub fn key_command(
    vk: u16,
    pin_focused: bool,
    pin_mode: bool,
    search_active: bool,
    selected: Option<usize>,
    count: usize,
) -> (r: KeyCommand)
    requires
        (vk == VK_TAB || vk == VK_RIGHT) && !pin_focused && count > 0 ==> (selected matches Some(s)
            ==> s < usize::MAX),
    ensures
        r == key_effect(vk, pin_focused, pin_mode, search_active, selected, count as nat),
{
    if vk == VK_F1 {
        KeyCommand::TogglePinMode
    } else if vk == VK_ESCAPE {
        if pin_mode {
            KeyCommand::ExitPinMode
        } else if search_active {
            KeyCommand::ClearSearch
        } else {
            KeyCommand::Hide
        }
    } else if vk == VK_BACK {
        if pin_focused {
            KeyCommand::Ignore
        } else {
            KeyCommand::PopSearch
        }
    } else if pin_focused {
        KeyCommand::Ignore
    } else if vk == VK_RETURN {
        match selected {
            Some(s) => if s < count {
                KeyCommand::Activate(s)
            } else {
                KeyCommand::Ignore
            },
            None => KeyCommand::Ignore,
        }
    } else if vk == VK_TAB || vk == VK_RIGHT {
        if count > 0 {
            KeyCommand::Select(next_selection(selected, count))
        } else {
            KeyCommand::Ignore
        }
    } else if vk == VK_LEFT {
        if count > 0 {
            KeyCommand::Select(prev_selection(selected, count))
        } else {
            KeyCommand::Ignore
        }
    } else if vk == VK_DOWN || vk == VK_UP {
        if count > 0 {
            match selected {
                Some(s) => if vk == VK_DOWN {
                    KeyCommand::NavDown(s)
                } else {
                    KeyCommand::NavUp(s)
                },
                None => KeyCommand::Select(0),
            }
        } else {
            KeyCommand::Ignore
        }
    } else if vk >= VK_1 && vk <= VK_9 && !search_active {
        let idx = (vk - VK_1) as usize;
        if idx < count {
            KeyCommand::Activate(idx)
        } else {
            KeyCommand::Ignore
        }
    } else {
        KeyCommand::Ignore
    }
}

/// Whether a typed character goes into the search query: printable
/// characters do, control characters and DEL do not.
pub fn accepts_search_char(c: char) -> (r: bool)
    ensures
        r == (c >= ' ' && c != '\x7f'),
{
    c >= ' ' && c != '\x7f'
}

/// Cell `i` is the nearest cell of row `row`: the first of those with the
/// smallest distance key.
pub open spec fn is_nearest(rows: Seq<usize>, keys: Seq<u64>, row: usize, i: int) -> bool {
    &&& 0 <= i < rows.len()
    &&& rows[i] == row
    &&& forall|j: int| 0 <= j < i && rows[j] == row ==> keys[j] > keys[i]
    &&& forall|j: int| i < j < rows.len() && rows[j] == row ==> keys[j] >= keys[i]
}

/// Some cell lies in row `row`.
pub open spec fn row_occupied(rows: Seq<usize>, row: usize) -> bool {
    exists|j: int| 0 <= j < rows.len() && rows[j] == row
}

/// The nearest cell of row `row`: the first of those whose distance key
/// is smallest, or `None` when no cell lies in that row. `rows[i]` is the
/// row of cell `i` and `keys[i]` ranks its distance from the cell moved
/// from (a smaller key is nearer).
pub fn nearest_in_row(rows: &[usize], keys: &[u64], row: usize) -> (r: Option<usize>)
    requires
        rows@.len() == keys@.len(),
    ensures
        r matches Some(i) ==> is_nearest(rows@, keys@, row, i as int),
        r is None ==> !row_occupied(rows@, row),
{
    let n = rows.len();
    let mut best: Option<usize> = None;
    let mut i: usize = 0;
    while i < n
        invariant
            n == rows@.len(),
            n == keys@.len(),
            i <= n,
            match best {
                Some(b) => {
                    &&& b < i
                    &&& rows@[b as int] == row
                    &&& forall|j: int| 0 <= j < b && rows@[j] == row ==> keys@[j] > keys@[b as int]
                    &&& forall|j: int| b < j < i && rows@[j] == row ==> keys@[j] >= keys@[b as int]
                },
                None => forall|j: int| 0 <= j < i ==> rows@[j] != row,
            },
        decreases n - i,
    {
        if rows[i] == row {
            match best {
                None => {
                    best = Some(i);
                },
                Some(b) => {
                    if keys[i] < keys[b] {
                        best = Some(i);
                    }
                },
            }
        }
        i += 1;
    }
    best
}

/// The cell the down arrow selects from `sel`: the nearest in the next
/// row, or when there is none the nearest in the first row, or else the
/// first cell.
pub open spec fn nav_down_choice(rows: Seq<usize>, keys: Seq<u64>, sel: int, r: int) -> bool {
    if rows.len() == 0 {
        r == 0
    } else {
        let below = (rows[sel] + 1) as usize;
        if row_occupied(rows, below) {
            is_nearest(rows, keys, below, r)
        } else if row_occupied(rows, 0) {
            is_nearest(rows, keys, 0, r)
        } else {
            r == 0
        }
    }
}

/// The cell the up arrow selects from `sel`: the nearest in the row above;
/// from the first row, the nearest in the row of the last cell; the first
/// cell when no cell qualifies.
pub open spec fn nav_up_choice(rows: Seq<usize>, keys: Seq<u64>, sel: int, r: int) -> bool {
    if rows.len() == 0 {
        r == 0
    } else {
        let above = if rows[sel] == 0 {
            rows.last()
        } else {
            (rows[sel] - 1) as usize
        };
        if row_occupied(rows, above) {
            is_nearest(rows, keys, above, r)
        } else {
            r == 0
        }
    }
}

/// The cell that the down arrow selects from cell `sel`.
pub fn nav_down(rows: &[usize], keys: &[u64], sel: usize) -> (r: usize)
    requires
        rows@.len() == keys@.len(),
        rows@.len() > 0 ==> sel < rows@.len() && rows@[sel as int] < usize::MAX,
    ensures
        nav_down_choice(rows@, keys@, sel as int, r as int),
{
    if rows.len() == 0 {
        return 0;
    }
    let target = rows[sel] + 1;
    match nearest_in_row(rows, keys, target) {
        Some(i) => i,
        None => match nearest_in_row(rows, keys, 0) {
            Some(i) => i,
            None => 0,
        },
    }
}

/// The cell that the up arrow selects from cell `sel`.
pub fn nav_up(rows: &[usize], keys: &[u64], sel: usize) -> (r: usize)
    requires
        rows@.len() == keys@.len(),
        rows@.len() > 0 ==> sel < rows@.len(),
    ensures
        nav_up_choice(rows@, keys@, sel as int, r as int),
{
    if rows.len() == 0 {
        return 0;
    }
    let current = rows[sel];
    let target = if current == 0 {
        rows[rows.len() - 1]
    } else {
        current - 1
    };
    match nearest_in_row(rows, keys, target) {
        Some(i) => i,
        None => 0,
    }
}

/// The nearest cell of a row is unique.
pub proof fn nearest_is_unique(rows: Seq<usize>, keys: Seq<u64>, row: usize, i: int, j: int)
    requires
        is_nearest(rows, keys, row, i),
        is_nearest(rows, keys, row, j),
    ensures
        i == j,
{
}


/// Arrow navigation always lands on an existing cell when there are cells,
/// and in the row it aimed for when that row has cells.
pub proof fn nav_lands_on_a_cell(rows: Seq<usize>, keys: Seq<u64>, sel: int, r: int)
    requires
        rows.len() > 0,
        0 <= sel < rows.len(),
        rows[sel] < usize::MAX,
        nav_down_choice(rows, keys, sel, r) || nav_up_choice(rows, keys, sel, r),
    ensures
        0 <= r < rows.len(),
        nav_down_choice(rows, keys, sel, r) && row_occupied(rows, (rows[sel] + 1) as usize) ==> rows[r]
            == rows[sel] + 1,
        nav_up_choice(rows, keys, sel, r) && rows[sel] > 0 && row_occupied(rows, (rows[sel] - 1) as usize)
            ==> rows[r] == rows[sel] - 1,
{
}


/// Cell `r` lies in `row` and no cell of that row has a smaller distance
/// key, and every earlier cell of the row has a strictly larger one.
pub open spec fn closest_in(rows: Seq<usize>, keys: Seq<u64>, row: int, r: int) -> bool {
    &&& 0 <= r < rows.len()
    &&& rows[r] == row
    &&& forall|j: int| 0 <= j < rows.len() && rows[j] == row ==> keys[r] <= #[trigger] keys[j]
    &&& forall|j: int| 0 <= j < r && rows[j] == row ==> keys[j] > #[trigger] keys[r]
}

/// The up arrow from a cell of the first row wraps to the row of the last
/// cell and lands on the cell of that row closest to where it started
/// (the first of them on ties); from a lower row it lands on the closest
/// cell of the row just above, when that row has cells.
pub proof fn up_arrow_lands_on_closest_cell(rows: Seq<usize>, keys: Seq<u64>, sel: int, r: int)
    requires
        rows.len() > 0,
        0 <= sel < rows.len(),
        nav_up_choice(rows, keys, sel, r),
    ensures
        rows[sel] == 0 ==> closest_in(rows, keys, rows[rows.len() - 1] as int, r),
        rows[sel] > 0 && (exists|j: int| 0 <= j < rows.len() && rows[j] == rows[sel] - 1) ==> closest_in(
            rows,
            keys,
            rows[sel] - 1,
            r,
        ),
        rows[sel] > 0 && !(exists|j: int| 0 <= j < rows.len() && rows[j] == rows[sel] - 1) ==> r == 0,
{
    if rows[sel] == 0 {
        assert(rows[rows.len() - 1] == rows.last());
        assert(row_occupied(rows, rows.last()));
    } else if exists|j: int| 0 <= j < rows.len() && rows[j] == rows[sel] - 1 {
        let j = choose|j: int| 0 <= j < rows.len() && rows[j] == rows[sel] - 1;
        assert(rows[j] == (rows[sel] - 1) as usize);
        assert(row_occupied(rows, (rows[sel] - 1) as usize));
    }
}

/// The down arrow lands on the closest cell of the next row (the first of
/// them on ties); when no cell lies below, it wraps to the closest cell of
/// the first row, or to the first cell when that row is empty too.
pub proof fn down_arrow_lands_on_closest_cell(rows: Seq<usize>, keys: Seq<u64>, sel: int, r: int)
    requires
        rows.len() > 0,
        0 <= sel < rows.len(),
        rows[sel] < usize::MAX,
        nav_down_choice(rows, keys, sel, r),
    ensures
        (exists|j: int| 0 <= j < rows.len() && rows[j] == rows[sel] + 1) ==> closest_in(
            rows,
            keys,
            rows[sel] + 1,
            r,
        ),
        !(exists|j: int| 0 <= j < rows.len() && rows[j] == rows[sel] + 1) && (exists|j: int|
            0 <= j < rows.len() && rows[j] == 0) ==> closest_in(rows, keys, 0, r),
        !(exists|j: int| 0 <= j < rows.len() && rows[j] == rows[sel] + 1) && !(exists|j: int|
            0 <= j < rows.len() && rows[j] == 0) ==> r == 0,
{
    if exists|j: int| 0 <= j < rows.len() && rows[j] == rows[sel] + 1 {
        let j = choose|j: int| 0 <= j < rows.len() && rows[j] == rows[sel] + 1;
        assert(rows[j] == (rows[sel] + 1) as usize);
        assert(row_occupied(rows, (rows[sel] + 1) as usize));
    } else {
        assert(!row_occupied(rows, (rows[sel] + 1) as usize));
        if exists|j: int| 0 <= j < rows.len() && rows[j] == 0 {
            let j = choose|j: int| 0 <= j < rows.len() && rows[j] == 0;
            assert(rows[j] == 0usize);
            assert(row_occupied(rows, 0));
        }
    }
}

/// Backspace, with no window pinned, always deletes from the query, whatever
/// else holds; with a window pinned it is left to that window.
pub proof fn backspace_edits_the_query(
    pin_mode: bool,
    search_active: bool,
    selected: Option<usize>,
    count: nat,
)
    ensures
        key_effect(VK_BACK, false, pin_mode, search_active, selected, count) == KeyCommand::PopSearch,
        key_effect(VK_BACK, true, pin_mode, search_active, selected, count) == KeyCommand::Ignore,
{
}

/// Escape leaves pin mode first, then clears a typed query, and only hides
/// the canvas when neither applies; F1 always toggles pin mode.
pub proof fn escape_and_f1_keys(
    pin_focused: bool,
    pin_mode: bool,
    search_active: bool,
    selected: Option<usize>,
    count: nat,
)
    ensures
        pin_mode ==> key_effect(VK_ESCAPE, pin_focused, pin_mode, search_active, selected, count)
            == KeyCommand::ExitPinMode,
        !pin_mode && search_active ==> key_effect(
            VK_ESCAPE,
            pin_focused,
            pin_mode,
            search_active,
            selected,
            count,
        ) == KeyCommand::ClearSearch,
        !pin_mode && !search_active ==> key_effect(
            VK_ESCAPE,
            pin_focused,
            pin_mode,
            search_active,
            selected,
            count,
        ) == KeyCommand::Hide,
        key_effect(VK_F1, pin_focused, pin_mode, search_active, selected, count)
            == KeyCommand::TogglePinMode,
{
}

/// Only Escape hides the canvas, and with a window pinned every key other
/// than F1, Escape and Backspace is left to that window.
pub proof fn only_escape_hides(
    vk: u16,
    pin_focused: bool,
    pin_mode: bool,
    search_active: bool,
    selected: Option<usize>,
    count: nat,
)
    ensures
        key_effect(vk, pin_focused, pin_mode, search_active, selected, count) == KeyCommand::Hide
            ==> vk == VK_ESCAPE,
        pin_focused && vk != VK_F1 && vk != VK_ESCAPE ==> key_effect(
            vk,
            pin_focused,
            pin_mode,
            search_active,
            selected,
            count,
        ) == KeyCommand::Ignore,
{
}

/// Enter activates the selected cell when it is shown; the digit keys 1 to
/// 9 activate the cell they number when nothing is typed; Tab, the arrows
/// and digits never point at a cell that is not shown.
pub proof fn activation_keys(
    vk: u16,
    pin_mode: bool,
    search_active: bool,
    selected: Option<usize>,
    count: nat,
)
    requires
        count <= usize::MAX,
        selected matches Some(s) ==> s < count,
    ensures
        selected matches Some(s) ==> key_effect(VK_RETURN, false, pin_mode, search_active, selected, count)
            == KeyCommand::Activate(s),
        VK_1 <= vk <= VK_9 && !search_active && vk - VK_1 < count ==> key_effect(
            vk,
            false,
            pin_mode,
            search_active,
            selected,
            count,
        ) == KeyCommand::Activate((vk - VK_1) as usize),
        key_effect(vk, false, pin_mode, search_active, selected, count) matches KeyCommand::Activate(c)
            ==> c < count,
        key_effect(vk, false, pin_mode, search_active, selected, count) matches KeyCommand::Select(c)
            ==> c < count,
        key_effect(vk, false, pin_mode, search_active, selected, count) matches KeyCommand::NavDown(c)
            ==> c < count,
        key_effect(vk, false, pin_mode, search_active, selected, count) matches KeyCommand::NavUp(c)
            ==> c < count,
{
}

} // verus!
