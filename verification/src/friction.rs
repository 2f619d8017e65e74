//! A position whose velocity decays under drag.
//!
//! With drag `d` in (0, 1), start `x0` and initial velocity `v`, the position
//! at time `t` is `x0 + v * d^t / ln d - v / ln d` and the velocity is
//! `v * d^t`. The state is kept here, with the two decisions that surround the
//! formulas: when the motion counts as over, and when a position counts as the
//! start itself.
use vstd::prelude::*;
use crate::scalar::Scalar;

verus! {

/// The pattern of the machine epsilon of single precision, `2^-23`.
pub const EPSILON_BITS: u32 = 0x3400_0000;

/// The pattern of `0.01`, the drag of a scrolling surface.
pub const SCROLL_DRAG_BITS: u32 = 0x3c23_d70a;

/// The pattern of the natural logarithm of that drag, `-4.6051702`: the
/// single nearest to the logarithm of the single nearest to `0.01`.
pub const SCROLL_LN_DRAG_BITS: u32 = 0xc093_5d8e;

/// The state of a friction motion.
#[derive(Clone, Copy, Debug)]
pub struct Friction {
    /// The position at time zero.
    pub x: Scalar,
    /// The velocity at time zero.
    pub v: Scalar,
    /// The drag coefficient, in (0, 1).
    pub drag: Scalar,
    /// The natural logarithm of the drag, which is negative.
    pub ln_drag: Scalar,
}

impl Friction {
    /// Does an offset from the start count as none? It does when its
    /// absolute value is below the machine epsilon.
    pub open spec fn at_start(offset: Scalar) -> bool {
        offset.spec_abs().spec_lt(Scalar { bits: EPSILON_BITS })
    }

    /// Is a motion with this velocity over? It is when the speed is below
    /// one unit per second.
    pub open spec fn spec_is_done(velocity: Scalar) -> bool {
        velocity.spec_abs().spec_lt(Scalar::spec_one())
    }

    /// Does the motion ever reach a position, given the argument of the
    /// logarithm in the solution for the time? It does when it moves at all
    /// and the argument is a finite number above zero. A motion without
    /// velocity stays where it is, and an argument of zero or less belongs to
    /// a position at or past the place where the motion dies out.
    pub open spec fn reaches(&self, argument: Scalar) -> bool {
        &&& !self.v.spec_same(Scalar::spec_zero())
        &&& argument.spec_is_finite()
        &&& argument.spec_gt(Scalar::spec_zero())
    }

    /// The time at which a position is met: zero where its offset from the
    /// start counts as none; NaN where the motion never reaches it; the
    /// solution of the position formula elsewhere.
    pub open spec fn spec_time_for_position(
        &self,
        offset: Scalar,
        argument: Scalar,
        solved: Scalar,
    ) -> Scalar {
        if Friction::at_start(offset) {
            Scalar::spec_zero()
        } else if !self.reaches(argument) {
            Scalar::spec_nan()
        } else {
            solved
        }
    }

    /// A motion at rest at position zero, with the given drag and its
    /// natural logarithm.
    pub fn new(drag: Scalar, ln_drag: Scalar) -> (r: Friction)
        ensures
            r == (Friction { x: Scalar::spec_zero(), v: Scalar::spec_zero(), drag, ln_drag }),
    {
        Friction { x: Scalar::zero(), v: Scalar::zero(), drag, ln_drag }
    }

    /// Restarts the motion at position `x` with velocity `v`.
    pub fn set(&mut self, x: Scalar, v: Scalar)
        ensures
            *final(self) == (Friction { x, v, ..*old(self) }),
    {
        self.x = x;
        self.v = v;
    }

    /// The time at which the motion is at a position `p`, given `offset`, the
    /// difference `p - self.x`; `argument`, the quotient
    /// `(offset * ln_drag + v) / v` whose logarithm is to be taken; and
    /// `solved`, the solution `ln(argument) / ln_drag` of the position
    /// formula for the time.
    ///
    /// A position that counts as the start is met at time zero. A position
    /// that the motion never reaches has the time NaN. Any other is met when
    /// the formula says, at a negative time where it lies behind the motion.
    #[verifier::when_used_as_spec(spec_time_for_position)]
    pub fn time_for_position(&self, offset: Scalar, argument: Scalar, solved: Scalar) -> (r:
        Scalar)
        ensures
            r == self.spec_time_for_position(offset, argument, solved),
    {
        if offset.abs().lt(Scalar::from_bits(EPSILON_BITS)) {
            Scalar::zero()
        } else if self.v.same(Scalar::zero()) || !argument.is_finite() || !argument.gt(
            Scalar::zero(),
        ) {
            Scalar::nan()
        } else {
            solved
        }
    }

    /// Decides whether the motion is over at a time at which it has the
    /// given velocity.
    #[verifier::when_used_as_spec(spec_is_done)]
    pub fn is_done(velocity: Scalar) -> (r: bool)
        ensures
            r == Friction::spec_is_done(velocity),
    {
        velocity.abs().lt(Scalar::one())
    }
}

/// The position where the motion starts is met at time zero, whatever the
/// formula gave: an offset of zero, of either sign, counts as none.
pub proof fn lemma_start_is_met_at_once(
    friction: Friction,
    offset: Scalar,
    argument: Scalar,
    solved: Scalar,
)
    requires
        offset.spec_same(Scalar::spec_zero()),
    ensures
        friction.spec_time_for_position(offset, argument, solved) == Scalar::spec_zero(),
{
}

/// A position that the motion never reaches has the time NaN, which is no
/// time ahead. Said of every position away from the start when the motion
/// has no velocity, and of every position for which the argument of the
/// logarithm is zero, below zero, infinite or NaN.
pub proof fn lemma_out_of_reach(friction: Friction, offset: Scalar, argument: Scalar, solved: Scalar)
    requires
        !Friction::at_start(offset),
        friction.v.spec_same(Scalar::spec_zero()) || argument.spec_le(Scalar::spec_zero())
            || !argument.spec_is_finite(),
    ensures
        friction.spec_time_for_position(offset, argument, solved).spec_is_nan(),
        !friction.spec_time_for_position(offset, argument, solved).spec_is_ahead(),
{
}

/// A position within reach is met at the time that the formula gives.
pub proof fn lemma_within_reach(friction: Friction, offset: Scalar, argument: Scalar, solved: Scalar)
    requires
        !Friction::at_start(offset),
        friction.reaches(argument),
    ensures
        friction.spec_time_for_position(offset, argument, solved) == solved,
{
}

/// A motion without velocity is over.
pub proof fn lemma_still_is_done(velocity: Scalar)
    requires
        velocity.spec_same(Scalar::spec_zero()),
    ensures
        Friction::spec_is_done(velocity),
{
}

/// A velocity that is NaN never counts as over, and an offset that is NaN
/// never counts as none.
pub proof fn lemma_nan_is_neither(value: Scalar)
    requires
        value.spec_is_nan(),
    ensures
        !Friction::spec_is_done(value),
        !Friction::at_start(value),
{
}

} // verus!
