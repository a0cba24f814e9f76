//! Semantic input mapping: the four direction keys reduced to a unit
//! vector. The host's input layer reads the keyboard; the core only ever
//! sees the resulting direction.

use vstd::prelude::*;

use crate::fixed::SCALE;
use crate::vec2::{v_ok, v_unit, v_unit_spec, Vec2};

verus! {

/// The raw direction the pressed keys add up to, one unit per axis:
/// opposite keys cancel.
pub open spec fn key_dir_spec(up: bool, down: bool, left: bool, right: bool) -> Vec2 {
    Vec2 {
        x: ((if right {
            SCALE
        } else {
            0
        }) - (if left {
            SCALE
        } else {
            0
        })) as i64,
        y: ((if up {
            SCALE
        } else {
            0
        }) - (if down {
            SCALE
        } else {
            0
        })) as i64,
    }
}

/// Maps the held direction keys to a unit direction vector (scaled by
/// `SCALE`), or zero when the keys cancel out.
pub fn get_input_dir(up: bool, down: bool, left: bool, right: bool) -> (r: Vec2)
    ensures
        r == v_unit_spec(key_dir_spec(up, down, left, right)),
        v_ok(r),
{
    let x: i64 = (if right {
        SCALE
    } else {
        0
    }) - (if left {
        SCALE
    } else {
        0
    });
    let y: i64 = (if up {
        SCALE
    } else {
        0
    }) - (if down {
        SCALE
    } else {
        0
    });
    v_unit(Vec2 { x, y })
}

} // verus!
