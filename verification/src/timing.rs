//! Tick arithmetic of the canvas animations, on the performance counter.

use vstd::prelude::*;

verus! {

/// How long a scroll-wheel zoom animates, in milliseconds.
pub const ZOOM_MS: i64 = 150;
/// How long panning to a cell animates, in milliseconds.
pub const PAN_MS: i64 = 280;
/// How long zooming in on or out of a pinned window animates, in
/// milliseconds.
pub const ZOOM_PAN_MS: i64 = 350;

/// Integer division by a positive divisor, rounding toward zero as `/`
/// does on Rust integers.
pub open spec fn div_toward_zero(x: int, d: int) -> int {
    if x >= 0 {
        x / d
    } else {
        -((-x) / d)
    }
}

/// How many counter ticks `millis` milliseconds last, for a counter that
/// ticks `freq` times a second.
pub fn duration_ticks(freq: i64, millis: i64) -> (r: i64)
    requires
        i64::MIN <= freq * millis <= i64::MAX,
    ensures
        r == div_toward_zero(freq * millis, 1000),
{
    let p = freq * millis;
    p / 1000
}

/// Whether an animation that started at `start` and lasts `duration`
/// ticks is over at `now`.
pub fn animation_finished(now: i64, start: i64, duration: i64) -> (r: bool)
    requires
        i64::MIN <= now - start <= i64::MAX,
    ensures
        r == (now - start >= duration),
{
    let elapsed = now - start;
    elapsed >= duration
}

} // verus!
