//! Decoding the parameters of window messages and the small decisions
//! about pointer movement and menu commands.

use vstd::prelude::*;

verus! {

/// A 16-bit word (0 to 0xFFFF) read as a signed, two's complement number.
pub open spec fn signed_word(w: int) -> int {
    if w >= 0x8000 {
        w - 0x10000
    } else {
        w
    }
}

/// The signed number in a 16-bit word held in an `isize`.
fn word_as_signed(w: isize) -> (r: i32)
    requires
        0 <= w <= 0xFFFF,
    ensures
        r == signed_word(w as int),
{
    assert(0 <= w <= 0xFFFF ==> (#[verifier::truncate] (w as i16)) as i32 == (if w >= 0x8000 {
        w - 0x10000
    } else {
        w as int
    })) by (bit_vector);
    (#[verifier::truncate] (w as i16)) as i32
}

/// The signed x coordinate packed in the low word of a message parameter.
pub fn x_from_lparam(lparam: isize) -> (r: i32)
    ensures
        r == signed_word((lparam & 0xFFFF) as int),
{
    let w = lparam & 0xFFFF;
    assert(0 <= lparam & 0xFFFF <= 0xFFFF) by (bit_vector);
    word_as_signed(w)
}

/// The signed y coordinate packed in the high word of a message parameter.
pub fn y_from_lparam(lparam: isize) -> (r: i32)
    ensures
        r == signed_word(((lparam >> 16) & 0xFFFF) as int),
{
    let w = (lparam >> 16) & 0xFFFF;
    assert(0 <= (lparam >> 16) & 0xFFFF <= 0xFFFF) by (bit_vector);
    word_as_signed(w)
}


/// The signed wheel rotation packed in the high word of a wheel message's
/// first parameter.
pub fn wheel_delta(wparam: usize) -> (r: i16)
    ensures
        r == signed_word(((wparam >> 16) & 0xFFFF) as int),
{
    let w = (wparam >> 16) & 0xFFFF;
    assert(w <= 0xFFFF) by (bit_vector)
        requires
            w == (wparam >> 16) & 0xFFFF,
    ;
    assert(w <= 0xFFFF ==> (#[verifier::truncate] (w as i16)) == (if w >= 0x8000 {
        w - 0x10000
    } else {
        w as int
    })) by (bit_vector);
    #[verifier::truncate]
    (w as i16)
}

/// The new client width and height packed in the low and high words of a
/// resize message's second parameter.
pub fn size_from_lparam(lparam: isize) -> (r: (u32, u32))
    ensures
        r.0 == (lparam & 0xFFFF) as int,
        r.1 == ((lparam >> 16) & 0xFFFF) as int,
{
    let w = lparam & 0xFFFF;
    let h = (lparam >> 16) & 0xFFFF;
    assert(0 <= lparam & 0xFFFF <= 0xFFFF) by (bit_vector);
    assert(0 <= (lparam >> 16) & 0xFFFF <= 0xFFFF) by (bit_vector);
    (w as u32, h as u32)
}

/// The command id packed in the low word of a command message's first
/// parameter.
pub fn command_id(wparam: usize) -> (r: u32)
    ensures
        r == (wparam & 0xFFFF) as int,
{
    let w = wparam & 0xFFFF;
    assert(w <= 0xFFFF) by (bit_vector)
        requires
            w == wparam & 0xFFFF,
    ;
    w as u32
}

/// Whether a pointer moved by `(dx, dy)` has gone further than
/// `threshold` along either axis.
pub fn moved_beyond(dx: i32, dy: i32, threshold: i32) -> (r: bool)
    requires
        dx > i32::MIN,
        dy > i32::MIN,
    ensures
        r == (abs(dx as int) > threshold || abs(dy as int) > threshold),
{
    let ax = if dx < 0 {
        -dx
    } else {
        dx
    };
    let ay = if dy < 0 {
        -dy
    } else {
        dy
    };
    ax > threshold || ay > threshold
}

/// The absolute value.
pub open spec fn abs(x: int) -> int {
    if x < 0 {
        -x
    } else {
        x
    }
}

/// Menu command id: restore the window.
pub const CMD_RESTORE: u32 = 1004;
/// Menu command id: minimize the window.
pub const CMD_MINIMIZE: u32 = 1002;
/// Menu command id: maximize the window.
pub const CMD_MAXIMIZE: u32 = 1003;
/// Menu command id: close the window.
pub const CMD_CLOSE: u32 = 1001;

/// What the context menu of a cell does to its window.
#[derive(Clone, Copy, Debug, PartialEq, Eq, Structural)]
pub enum WindowCommand {
    Close,
    Minimize,
    Maximize,
    Restore,
}

/// The window command chosen in the context menu, or `None` for any other
/// command id.
pub fn menu_command(cmd: u32) -> (r: Option<WindowCommand>)
    ensures
        r == (if cmd == CMD_CLOSE {
            Some(WindowCommand::Close)
        } else if cmd == CMD_MINIMIZE {
            Some(WindowCommand::Minimize)
        } else if cmd == CMD_MAXIMIZE {
            Some(WindowCommand::Maximize)
        } else if cmd == CMD_RESTORE {
            Some(WindowCommand::Restore)
        } else {
            None
        }),
{
    if cmd == CMD_CLOSE {
        Some(WindowCommand::Close)
    } else if cmd == CMD_MINIMIZE {
        Some(WindowCommand::Minimize)
    } else if cmd == CMD_MAXIMIZE {
        Some(WindowCommand::Maximize)
    } else if cmd == CMD_RESTORE {
        Some(WindowCommand::Restore)
    } else {
        None
    }
}

/// Decoding a coordinate gives back any signed 16-bit value packed into
/// the low word.
pub proof fn coordinate_roundtrip(w: int)
    requires
        -0x8000 <= w < 0x8000,
    ensures
        signed_word(if w < 0 {
            w + 0x10000
        } else {
            w
        }) == w,
{
}

} // verus!
