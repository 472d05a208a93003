//! The finite-difference stencil used to estimate surface normals.
use vstd::prelude::*;

verus! {

/// The cells that the finite difference at `pos` reads along an axis of
/// `len` cells: `(lo, hi, doubled)`. Inside the axis it is the central
/// difference `(pos - 1, pos + 1)`; at either end it is the one-sided
/// difference with its only neighbour, to be doubled.
pub open spec fn stencil_of(pos: int, len: int) -> (int, int, bool) {
    if pos == 0 {
        (0, 1, true)
    } else if pos == len - 1 {
        (pos - 1, pos, true)
    } else {
        (pos - 1, pos + 1, false)
    }
}

/// The finite-difference stencil at `pos` along an axis of `len` cells.
pub fn difference_stencil(pos: u32, len: u32) -> (r: (u32, u32, bool))
    requires
        2 <= len,
        pos < len,
    ensures
        (r.0 as int, r.1 as int, r.2) == stencil_of(pos as int, len as int),
        r.0 < r.1 < len,
{
    if pos == 0 {
        (0, 1, true)
    } else if pos == len - 1 {
        (pos - 1, pos, true)
    } else {
        (pos - 1, pos + 1, false)
    }
}

} // verus!
