//! Integer range interpolation for the steering servo.
//!
//! A servo angle in degrees has to become a PWM duty value inside the
//! timer's duty range; the hardware that consumes the duty value lives
//! outside this crate.

use vstd::prelude::*;

verus! {

/// Maps `s` from `from_range` into `to_range` by linear interpolation,
/// rounding the quotient toward zero.
pub fn map_range(from_range: (u16, u16), to_range: (u16, u16), s: u16) -> (r: u16)
    requires
        from_range.0 < from_range.1,
        from_range.0 <= s,
        to_range.0 <= to_range.1,
        (s - from_range.0) * (to_range.1 - to_range.0) <= u16::MAX,
        to_range.0 + (s - from_range.0) * (to_range.1 - to_range.0) / (from_range.1
            - from_range.0) <= u16::MAX,
    ensures
        r == to_range.0 + (s - from_range.0) * (to_range.1 - to_range.0) / (from_range.1
            - from_range.0),
{
    to_range.0 + (s - from_range.0) * (to_range.1 - to_range.0) / (from_range.1 - from_range.0)
}

} // verus!
