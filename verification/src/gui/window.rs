//! Where the editing window goes.

use vstd::prelude::*;

verus! {

/// A rectangle on the screen. The right and the lower edge lie outside of it.
#[derive(Clone, Copy, Debug, PartialEq, Eq, Structural)]
pub struct Rect {
    pub left: i32,
    pub top: i32,
    pub right: i32,
    pub bottom: i32,
}

/// A point on the screen. On a second monitor it may be negative.
#[derive(Clone, Copy, Debug, PartialEq, Eq, Structural)]
pub struct Point {
    pub x: i32,
    pub y: i32,
}

/// The margin before a window of the length `window` in the middle of a length `area`. There is none
/// for a window that is longer.
pub open spec fn margin(area: int, window: int) -> int {
    if area > window {
        (area - window) / 2
    } else {
        0
    }
}

/// The edge that a window of the length `window` gets on one axis: its middle on the middle of what
/// lies from `from` to `to`, but pushed into the length from `low` to `high`. A window that is longer
/// than that starts at `low`.
pub open spec fn placed(from: int, to: int, window: int, low: int, high: int) -> int {
    let wanted = from + margin(to, from) - window / 2;
    if window > high - low || wanted < low {
        low
    } else if wanted > high - window {
        high - window
    } else {
        wanted
    }
}

/// Where a window goes that is to lie over `target`, inside of `work`.
pub open spec fn over(target: Rect, window: (u32, u32), work: Rect) -> (int, int) {
    (
        placed(
            target.left as int,
            target.right as int,
            window.0 as int,
            work.left as int,
            work.right as int,
        ),
        placed(
            target.top as int,
            target.bottom as int,
            window.1 as int,
            work.top as int,
            work.bottom as int,
        ),
    )
}

/// The margin before a window of the length `window` in the middle of a monitor of the length `area`.
pub fn offset(area: u32, window: u32) -> (at: i32)
    ensures
        at == margin(area as int, window as int),
{
    if area > window {
        let half: u32 = (area - window) / 2;
        half as i32
    } else {
        0
    }
}

/// The middle of a monitor. A window that is larger than the monitor goes to its upper left corner.
pub fn centered_position(origin: Point, area: (u32, u32), window: (u32, u32)) -> (at: Point)
    requires
        origin.x + margin(area.0 as int, window.0 as int) <= i32::MAX,
        origin.y + margin(area.1 as int, window.1 as int) <= i32::MAX,
    ensures
        at.x == origin.x + margin(area.0 as int, window.0 as int),
        at.y == origin.y + margin(area.1 as int, window.1 as int),
{
    Point { x: origin.x + offset(area.0, window.0), y: origin.y + offset(area.1, window.1) }
}

fn place_along(from: i32, to: i32, window: u32, low: i32, high: i32) -> (at: i32)
    ensures
        at == placed(from as int, to as int, window as int, low as int, high as int),
{
    let room: i64 = high as i64 - low as i64;
    if window as i64 > room {
        return low;
    }
    let length: i64 = if to > from {
        to as i64 - from as i64
    } else {
        0
    };
    let wanted: i64 = from as i64 + length / 2 - (window / 2) as i64;
    if wanted < low as i64 {
        low
    } else if wanted > high as i64 - window as i64 {
        (high as i64 - window as i64) as i32
    } else {
        wanted as i32
    }
}

/// Where a window of the size `window` goes that is to lie over `target`: its middle on the middle of
/// the target, but inside of `work`, the part of the monitor that is not taken. Whatever is larger
/// than that sticks out at the right and at the bottom.
pub fn place_over(target: Rect, window: (u32, u32), work: Rect) -> (at: Point)
    ensures
        (at.x as int, at.y as int) == over(target, window, work),
{
    Point {
        x: place_along(target.left, target.right, window.0, work.left, work.right),
        y: place_along(target.top, target.bottom, window.1, work.top, work.bottom),
    }
}

/// A window that fits lies inside; one that does not starts where the room starts.
pub proof fn law_placed_inside(from: int, to: int, window: int, low: int, high: int)
    requires
        window >= 0,
    ensures
        window <= high - low ==> low <= placed(from, to, window, low, high) && placed(
            from,
            to,
            window,
            low,
            high,
        ) + window <= high,
        window > high - low ==> placed(from, to, window, low, high) == low,
{
}

/// A window that fits over its target without being pushed has its middle on the middle of the
/// target, but for the half pixel that each of the two may lose.
pub proof fn law_placed_over_the_middle(from: int, to: int, window: int, low: int, high: int)
    requires
        0 <= window,
        from <= to,
        low + window / 2 <= from + (to - from) / 2,
        from + (to - from) / 2 <= high - window + window / 2,
    ensures
        -1 <= 2 * placed(from, to, window, low, high) + window - (from + to) <= 1,
{
}

/// A centred window has as much room before it as after it, but for one pixel, and never starts
/// before the monitor does.
pub proof fn law_centered(area: int, window: int)
    ensures
        0 <= margin(area, window),
        area >= window ==> 0 <= (area - margin(area, window) - window) - margin(area, window) <= 1,
{
}

/// A window that has room lies as near to the middle of its target as the room allows: it is pushed
/// only where it would stick out, and then to the edge that it would have crossed.
pub proof fn law_pushed_no_further_than_needed(from: int, to: int, window: int, low: int, high: int)
    requires
        0 <= window <= high - low,
        from <= to,
    ensures
        ({
            let wanted = from + (to - from) / 2 - window / 2;
            let at = placed(from, to, window, low, high);
            &&& low <= wanted && wanted + window <= high ==> at == wanted
            &&& wanted < low ==> at == low
            &&& wanted + window > high ==> at + window == high
        }),
{
}

/// A target that has no length counts as a point.
pub proof fn law_target_without_length(from: int, to: int, window: int, low: int, high: int)
    requires
        to < from,
    ensures
        placed(from, to, window, low, high) == placed(from, from, window, low, high),
{
}

/// Width and height are placed apart from each other: a window with room for its middle on the middle
/// of the target has it there, across and down.
pub proof fn law_over(target: Rect, window: (u32, u32), work: Rect)
    requires
        target.left <= target.right,
        target.top <= target.bottom,
    ensures
        ({
            let x = target.left + (target.right - target.left) / 2 - window.0 / 2;
            let y = target.top + (target.bottom - target.top) / 2 - window.1 / 2;
            let at = over(target, window, work);
            &&& work.left <= x && x + window.0 <= work.right ==> at.0 == x
            &&& work.top <= y && y + window.1 <= work.bottom ==> at.1 == y
            &&& window.0 > work.right - work.left ==> at.0 == work.left
            &&& window.1 > work.bottom - work.top ==> at.1 == work.top
            &&& window.0 <= work.right - work.left ==> work.left <= at.0 && at.0 + window.0
                <= work.right
            &&& window.1 <= work.bottom - work.top ==> work.top <= at.1 && at.1 + window.1
                <= work.bottom
        }),
{
}

} // verus!
