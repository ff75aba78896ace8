//! The two handles drawn from the next anchor: one to the cursor, and its ghost, the
//! cursor mirrored through the anchor.
use vstd::prelude::*;

use crate::extender::COORD_LIMIT;
use crate::geometry::Point2;

verus! {

/// Marks the handle that follows the cursor.
#[derive(Clone, Copy, Debug, PartialEq, Eq, Structural)]
pub struct CursorHandle;

/// Marks the mirrored handle.
#[derive(Clone, Copy, Debug, PartialEq, Eq, Structural)]
pub struct GhostHandle;

/// A handle: a line from `base` to a knob at `head`.
#[derive(Clone, Copy, Debug, PartialEq, Eq, Structural)]
pub struct HandleLine {
    pub base: Point2,
    pub head: Point2,
}

/// Where the cursor handle and the ghost handle stand.
#[derive(Clone, Copy, Debug, PartialEq, Eq, Structural)]
pub struct HandlePositions {
    pub cursor: HandleLine,
    pub mirrored: HandleLine,
}

/// One coordinate of the ghost handle: the cursor's when it is held, else the cursor's
/// mirrored through the anchor.
pub open spec fn ghost_coord(anchor: int, cursor: int, held: bool) -> int {
    if held {
        cursor
    } else {
        2 * anchor - cursor
    }
}

/// Both handles collapsed at the origin, as at start-up.
pub fn setup_handles() -> (h: HandlePositions)
    ensures
        h.cursor.base == (Point2 { x: 0, y: 0 }),
        h.cursor.head == (Point2 { x: 0, y: 0 }),
        h.mirrored.base == (Point2 { x: 0, y: 0 }),
        h.mirrored.head == (Point2 { x: 0, y: 0 }),
{
    let origin = Point2 { x: 0, y: 0 };
    HandlePositions {
        cursor: HandleLine { base: origin, head: origin },
        mirrored: HandleLine { base: origin, head: origin },
    }
}

/// The handles for the anchor `next_point` and the cursor: the cursor handle runs from the
/// anchor to the cursor, the ghost handle from the anchor to the cursor mirrored through
/// it, except along an axis that is held, where it follows the cursor.
pub fn place_handle_at_cursor(next_point: Point2, cursor: Point2, hold_x: bool, hold_y: bool) -> (h:
    HandlePositions)
    requires
        -COORD_LIMIT <= next_point.x <= COORD_LIMIT,
        -COORD_LIMIT <= next_point.y <= COORD_LIMIT,
        -COORD_LIMIT <= cursor.x <= COORD_LIMIT,
        -COORD_LIMIT <= cursor.y <= COORD_LIMIT,
    ensures
        h.cursor == (HandleLine { base: next_point, head: cursor }),
        h.mirrored.base == next_point,
        h.mirrored.head.x == ghost_coord(next_point.x as int, cursor.x as int, hold_x),
        h.mirrored.head.y == ghost_coord(next_point.y as int, cursor.y as int, hold_y),
{
    let gx = if hold_x {
        cursor.x
    } else {
        2 * next_point.x - cursor.x
    };
    let gy = if hold_y {
        cursor.y
    } else {
        2 * next_point.y - cursor.y
    };
    HandlePositions {
        cursor: HandleLine { base: next_point, head: cursor },
        mirrored: HandleLine { base: next_point, head: Point2 { x: gx, y: gy } },
    }
}

} // verus!
