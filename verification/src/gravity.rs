//! A position under constant acceleration.
//!
//! With acceleration `a`, start `x0` and initial velocity `v`, the position at
//! time `t` is `x0 + v * t + a * t * t / 2` and the velocity is `v + a * t`.
use vstd::prelude::*;
use crate::scalar::Scalar;

verus! {

/// The pattern of `32000.0`, the distance from zero at which a fall is cut
/// off.
pub const STOP_BITS: u32 = 0x46fa_0000;

/// The state of a motion under constant acceleration.
#[derive(Clone, Copy, Debug)]
pub struct Gravity {
    /// The position at time zero.
    pub x: Scalar,
    /// The velocity at time zero.
    pub v: Scalar,
    /// The acceleration.
    pub a: Scalar,
    /// The distance from zero at which the motion counts as over.
    pub stop: Scalar,
}

impl Gravity {
    /// Is the motion over at a position? It is once the position is at least
    /// `stop` away from zero.
    pub open spec fn spec_is_done(self, position: Scalar) -> bool {
        position.spec_abs().spec_ge(self.stop)
    }

    /// A motion at rest at position zero under the acceleration `a`.
    pub fn new(a: Scalar) -> (r: Gravity)
        ensures
            r == (Gravity {
                x: Scalar::spec_zero(),
                v: Scalar::spec_zero(),
                a,
                stop: Scalar { bits: STOP_BITS },
            }),
    {
        Gravity { x: Scalar::zero(), v: Scalar::zero(), a, stop: Scalar::from_bits(STOP_BITS) }
    }

    /// Restarts the motion at position `x` with velocity `v`.
    pub fn set(&mut self, x: Scalar, v: Scalar)
        ensures
            *final(self) == (Gravity { x, v, ..*old(self) }),
    {
        self.x = x;
        self.v = v;
    }

    /// Decides whether the motion is over at a time at which it is at the
    /// given position.
    #[verifier::when_used_as_spec(spec_is_done)]
    pub fn is_done(self, position: Scalar) -> (r: bool)
        ensures
            r == self.spec_is_done(position),
    {
        position.abs().ge(self.stop)
    }
}

} // verus!
