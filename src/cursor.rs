//! The cursor movement that compensates a given sensitivity.
use vstd::prelude::*;

verus! {

/// `24 / n` rounded to the nearest integer, halves away from zero; a zero
/// sensitivity gives the largest `i32`.
pub open spec fn cursor_movement(n: int) -> int {
    if n == 0 {
        i32::MAX as int
    } else if n > 0 {
        (48 + n) / (2 * n)
    } else {
        -((48 - n) / (-2 * n))
    }
}

/// Computes cursor movements from sensitivities.
#[derive(Clone, Copy, PartialEq, Eq, Debug)]
pub struct CursorMovementCalculator;

impl CursorMovementCalculator {
    /// The movement for `new_sensitivity`: eight times three (24) divided
    /// by it, rounded to the nearest integer with halves away from zero.
    pub fn calculate_cursor_movement(new_sensitivity: i32) -> (r: i32)
        ensures
            r as int == cursor_movement(new_sensitivity as int),
    {
        if new_sensitivity == 0 {
            return i32::MAX;
        }
        let n = new_sensitivity as i64;
        if n > 0 {
            let q = (48 + n) / (2 * n);
            assert(q <= 24) by (nonlinear_arith)
                requires
                    n >= 1,
                    q == (48 + n) / (2 * n),
            ;
            assert(q >= 0) by (nonlinear_arith)
                requires
                    n >= 1,
                    q == (48 + n) / (2 * n),
            ;
            q as i32
        } else {
            let m = -n;
            let q = (48 + m) / (2 * m);
            assert(q <= 24) by (nonlinear_arith)
                requires
                    m >= 1,
                    q == (48 + m) / (2 * m),
            ;
            assert(q >= 0) by (nonlinear_arith)
                requires
                    m >= 1,
                    q == (48 + m) / (2 * m),
            ;
            -(q as i32)
        }
    }
}

} // verus!
