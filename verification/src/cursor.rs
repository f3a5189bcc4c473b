//! Cursor movement over the room grid.
//!
//! The view lets the cursor run off the 50 by 50 room; the position wraps
//! around and the movement counts as crossing into a neighbouring room.
//! This module decides the wrapped position and the room offset; moving the
//! cursor and sending the room-change command stay with the caller.

use vstd::prelude::*;

verus! {

/// One cursor coordinate split at the room edge: the room-grid quotient and
/// the in-room remainder, with `v == 50 * quotient + remainder`.
pub open spec fn spec_wrap50(v: int) -> (int, int) {
    (v / 50, v % 50)
}

/// Wraps one cursor coordinate into the room.
pub fn wrap50(v: i32) -> (r: (i32, u32))
    ensures
        r.0 as int == spec_wrap50(v as int).0,
        r.1 as int == spec_wrap50(v as int).1,
        r.1 < 50,
{
    proof {
        let vi = v as int;
        assert(50 * (vi / 50) + (vi % 50) == vi && 0 <= vi % 50 < 50);
        assert(i32::MIN <= vi / 50 <= i32::MAX);
    }
    let q = v.checked_div_euclid(50).unwrap();
    let m = v.checked_rem_euclid(50).unwrap();
    (q, m as u32)
}

/// The cursor after one movement: its position wrapped into the room, and
/// the offset of the neighbouring room the movement crossed into, if any.
/// The offset's row sign flips: the view's rows grow downward while room
/// rows grow northward.
pub fn cursor_step(x: i32, y: i32) -> (r: ((u32, u32), Option<(i32, i32)>))
    ensures
        r.0.0 as int == spec_wrap50(x as int).1,
        r.0.1 as int == spec_wrap50(y as int).1,
        r.0.0 < 50,
        r.0.1 < 50,
        r.1 == (if spec_wrap50(x as int).0 == 0 && spec_wrap50(y as int).0 == 0 {
            None::<(i32, i32)>
        } else {
            Some(((spec_wrap50(x as int).0) as i32, (0 - spec_wrap50(y as int).0) as i32))
        }),
{
    let (qx, mx) = wrap50(x);
    let (qy, my) = wrap50(y);
    if qx == 0 && qy == 0 {
        ((mx, my), None)
    } else {
        proof {
            let yi = y as int;
            assert(50 * (yi / 50) + (yi % 50) == yi && 0 <= yi % 50 < 50);
            assert(-42949673 <= yi / 50 <= 42949672);
        }
        ((mx, my), Some((qx, -qy)))
    }
}

} // verus!
