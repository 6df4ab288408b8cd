//! The numeric absolute-value capability used by the controller.
//!
//! The controller needs exactly one math primitive: absolute value. It is
//! kept behind a small trait so the numeric backend stays pluggable; the
//! two fixed-point widths the controller computes with each carry one
//! implementation.

use vstd::prelude::*;

verus! {

/// The single math primitive the controller relies on: absolute value.
///
/// `abs_ok` names the inputs whose absolute value is representable (for
/// two's-complement integers, everything but the minimum), and `as_math_int`
/// maps a value to the mathematical integer it stands for.
pub trait Math: Sized {
    /// Whether `abs` may be called on this value.
    spec fn abs_ok(self) -> bool;

    /// The mathematical integer this value stands for.
    spec fn as_math_int(self) -> int;

    /// The absolute value.
    fn abs(self) -> (r: Self)
        requires
            self.abs_ok(),
        ensures
            r.as_math_int() == vstd::math::abs(self.as_math_int()),
    ;
}

impl Math for i64 {
    open spec fn abs_ok(self) -> bool {
        self != i64::MIN
    }

    open spec fn as_math_int(self) -> int {
        self as int
    }

    fn abs(self) -> (r: Self) {
        if self < 0 {
            -self
        } else {
            self
        }
    }
}

impl Math for i128 {
    open spec fn abs_ok(self) -> bool {
        self != i128::MIN
    }

    open spec fn as_math_int(self) -> int {
        self as int
    }

    fn abs(self) -> (r: Self) {
        if self < 0 {
            -self
        } else {
            self
        }
    }
}

} // verus!
