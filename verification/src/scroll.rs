//! Scrolling between two bounds: drag while inside, a spring at the edges.
//!
//! The surface may rest anywhere from `-extent` up to zero. A fling decays
//! under drag; where it would leave that range, a spring anchored on the bound
//! takes over at the moment the bound is met.
use vstd::prelude::*;
use crate::friction::{Friction, SCROLL_DRAG_BITS, SCROLL_LN_DRAG_BITS};
use crate::motion::{in_spring, phase_at, spec_in_spring, spec_phase_at};
use crate::motion::{Crossing, Handover, Launch, Phase};
use crate::scalar::Scalar;
use crate::spring::{Spring, SpringSolution};
use crate::spring::{SCROLL_DAMPING_BITS, SCROLL_DISCRIMINANT_BITS, SCROLL_MASS_BITS};
use crate::spring::SCROLL_STIFFNESS_BITS;

verus! {

/// A scrolling motion.
#[derive(Clone, Copy, Debug)]
pub struct Scroll {
    /// The length of the range: positions from `-extent` to zero are in
    /// bounds.
    pub extent: Scalar,
    /// The drag model, restarted by every `set`.
    pub friction: Friction,
    /// The spring model, anchored anew by every `set` that plans a hand-over.
    pub spring: Spring,
    /// The time at which the spring takes over; NaN while none is planned.
    pub spring_time: Scalar,
}

impl Scroll {
    /// What is decided when the surface is let go at `x` with velocity `v`,
    /// where `to_zero` and `to_extent` tell when and how fast the drag curve
    /// from there meets the upper bound, zero, and the lower bound,
    /// `-extent`.
    ///
    /// Out of bounds with no return ahead (the curve meets the bound that was
    /// passed at no finite time above zero), the spring takes over at once,
    /// from `x` to that bound, with `v`. Otherwise the bound that counts is
    /// the one in the direction of travel: zero for a velocity of zero or
    /// more, `-extent` for any other. If the curve meets it at a finite time
    /// above zero, the spring takes over then and there, entered with the
    /// velocity that drag has left. If not, drag keeps the motion.
    pub open spec fn spec_handover(
        extent: Scalar,
        x: Scalar,
        v: Scalar,
        to_zero: Crossing,
        to_extent: Crossing,
    ) -> Handover {
        let upper = Scalar::spec_zero();
        let lower = extent.spec_neg();
        if x.spec_gt(upper) && !to_zero.time.spec_is_ahead() {
            Handover::spec_at_once(x, upper, v)
        } else if x.spec_lt(lower) && !to_extent.time.spec_is_ahead() {
            Handover::spec_at_once(x, lower, v)
        } else if v.spec_ge(Scalar::spec_zero()) {
            if to_zero.time.spec_is_ahead() {
                Handover::spec_on_reaching(upper, to_zero)
            } else {
                Handover::Never
            }
        } else {
            if to_extent.time.spec_is_ahead() {
                Handover::spec_on_reaching(lower, to_extent)
            } else {
                Handover::Never
            }
        }
    }

    /// Is the spring in charge at `time`?
    pub open spec fn spec_in_spring(&self, time: Scalar) -> bool {
        spec_in_spring(self.spring_time, time)
    }

    /// The model in charge at `time`.
    pub open spec fn spec_phase(&self, time: Scalar) -> Phase {
        spec_phase_at(self.spring_time, time)
    }

    /// A surface at rest at position zero with room to scroll down to
    /// `-extent`: drag 0.01, a spring of mass 1, stiffness 90 and damping 20,
    /// and no hand-over planned.
    pub fn new(extent: Scalar) -> (r: Scroll)
        ensures
            r == (Scroll {
                extent,
                friction: Friction {
                    x: Scalar::spec_zero(),
                    v: Scalar::spec_zero(),
                    drag: Scalar { bits: SCROLL_DRAG_BITS },
                    ln_drag: Scalar { bits: SCROLL_LN_DRAG_BITS },
                },
                spring: Spring {
                    mass: Scalar { bits: SCROLL_MASS_BITS },
                    spring_constant: Scalar { bits: SCROLL_STIFFNESS_BITS },
                    damping: Scalar { bits: SCROLL_DAMPING_BITS },
                    discriminant: Scalar { bits: SCROLL_DISCRIMINANT_BITS },
                    end: Scalar::spec_zero(),
                    solution: SpringSolution::Snapped,
                    start_time: Scalar::spec_zero(),
                },
                spring_time: Scalar::spec_nan(),
            }),
    {
        Scroll {
            extent,
            friction: Friction::new(
                Scalar::from_bits(SCROLL_DRAG_BITS),
                Scalar::from_bits(SCROLL_LN_DRAG_BITS),
            ),
            spring: Spring::new(
                Scalar::from_bits(SCROLL_MASS_BITS),
                Scalar::from_bits(SCROLL_STIFFNESS_BITS),
                Scalar::from_bits(SCROLL_DAMPING_BITS),
                Scalar::from_bits(SCROLL_DISCRIMINANT_BITS),
            ),
            spring_time: Scalar::nan(),
        }
    }

    /// Decides the hand-over for a release at `x` with velocity `v`.
    #[verifier::when_used_as_spec(spec_handover)]
    pub fn handover(
        extent: Scalar,
        x: Scalar,
        v: Scalar,
        to_zero: Crossing,
        to_extent: Crossing,
    ) -> (r: Handover)
        ensures
            r == Scroll::spec_handover(extent, x, v, to_zero, to_extent),
    {
        let upper = Scalar::zero();
        let lower = extent.neg();
        if x.gt(upper) && !to_zero.time.is_ahead() {
            Handover::at_once(x, upper, v)
        } else if x.lt(lower) && !to_extent.time.is_ahead() {
            Handover::at_once(x, lower, v)
        } else if v.ge(Scalar::zero()) {
            if to_zero.time.is_ahead() {
                Handover::on_reaching(upper, to_zero)
            } else {
                Handover::Never
            }
        } else {
            if to_extent.time.is_ahead() {
                Handover::on_reaching(lower, to_extent)
            } else {
                Handover::Never
            }
        }
    }

    /// Starts a scroll from `x` with velocity `v`. `to_zero` and `to_extent`
    /// tell when and how fast the drag curve from `(x, v)` meets zero and
    /// `-extent`.
    ///
    /// Drag is restarted from `(x, v)` and the hand-over is decided. Where
    /// there is one, its time is recorded, the spring is put to rest where it
    /// starts, and the order to aim it is returned for the caller to carry
    /// out with `Spring::set`. Where there is none, the recorded time is NaN,
    /// the spring is left as it was and nothing is returned.
    pub fn set(&mut self, x: Scalar, v: Scalar, to_zero: Crossing, to_extent: Crossing) -> (r:
        Option<Launch>)
        ensures
            ({
                let planned = Scroll::spec_handover(old(self).extent, x, v, to_zero, to_extent);
                &&& *final(self) == (Scroll {
                    extent: old(self).extent,
                    friction: Friction { x, v, ..old(self).friction },
                    spring: planned.spring_after(old(self).spring),
                    spring_time: planned.spring_time(),
                })
                &&& r == planned.launch()
            }),
    {
        self.friction.set(x, v);
        let planned = Scroll::handover(self.extent, x, v, to_zero, to_extent);
        let (spring_time, launch) = planned.engage(&mut self.spring);
        self.spring_time = spring_time;
        launch
    }

    /// The length of the range.
    pub fn extent(&self) -> (r: Scalar)
        ensures
            r == self.extent,
    {
        self.extent
    }

    /// Decides whether the spring is in charge at `time`.
    #[verifier::when_used_as_spec(spec_in_spring)]
    pub fn in_spring(&self, time: Scalar) -> (r: bool)
        ensures
            r == self.spec_in_spring(time),
    {
        in_spring(self.spring_time, time)
    }

    /// Picks the model whose position, velocity and rest are those of the
    /// scroll at `time`.
    #[verifier::when_used_as_spec(spec_phase)]
    pub fn phase(&self, time: Scalar) -> (r: Phase)
        ensures
            r == self.spec_phase(time),
    {
        phase_at(self.spring_time, time)
    }
}

/// The hand-over never lies in the past: its time is zero or a finite time
/// above zero, and where none is planned it is the NaN that no time reaches.
pub proof fn lemma_scroll_handover_time(
    extent: Scalar,
    x: Scalar,
    v: Scalar,
    to_zero: Crossing,
    to_extent: Crossing,
)
    ensures
        ({
            let h = Scroll::spec_handover(extent, x, v, to_zero, to_extent);
            &&& h is Never ==> h.spring_time() == Scalar::spec_nan()
            &&& h is Spring ==> h.spring_time() == Scalar::spec_zero()
                || h.spring_time().spec_is_ahead()
        }),
{
}

/// Let go in bounds, the surface is left to drag unless the bound ahead is
/// met at a finite time above zero.
pub proof fn lemma_scroll_in_bounds(
    extent: Scalar,
    x: Scalar,
    v: Scalar,
    to_zero: Crossing,
    to_extent: Crossing,
)
    requires
        x.spec_le(Scalar::spec_zero()),
        x.spec_ge(extent.spec_neg()),
    ensures
        ({
            let h = Scroll::spec_handover(extent, x, v, to_zero, to_extent);
            let ahead = if v.spec_ge(Scalar::spec_zero()) {
                to_zero
            } else {
                to_extent
            };
            h is Never <==> !ahead.time.spec_is_ahead()
        }),
{
}

/// Let go past a bound and moving on outwards or not at all, so that drag
/// meets the bound at no time ahead, the surface is sprung back at once from
/// where it is to that bound, with the velocity it has.
pub proof fn lemma_scroll_overscrolled(
    extent: Scalar,
    x: Scalar,
    v: Scalar,
    to_zero: Crossing,
    to_extent: Crossing,
)
    ensures
        x.spec_gt(Scalar::spec_zero()) && !to_zero.time.spec_is_ahead() ==> Scroll::spec_handover(
            extent,
            x,
            v,
            to_zero,
            to_extent,
        ) == Handover::spec_at_once(x, Scalar::spec_zero(), v),
        !x.spec_gt(Scalar::spec_zero()) && x.spec_lt(extent.spec_neg())
            && !to_extent.time.spec_is_ahead() ==> Scroll::spec_handover(
            extent,
            x,
            v,
            to_zero,
            to_extent,
        ) == Handover::spec_at_once(x, extent.spec_neg(), v),
{
}

/// No jump at a hand-over that waits for a bound: a hand-over is either at
/// time zero, from where the surface is and with the velocity it has, or at
/// the time drag meets a bound; then the spring starts at rest on that very
/// bound, is aimed at it, and is entered with the velocity drag has at that
/// time.
pub proof fn lemma_scroll_handover_is_continuous(
    extent: Scalar,
    x: Scalar,
    v: Scalar,
    to_zero: Crossing,
    to_extent: Crossing,
)
    ensures
        match Scroll::spec_handover(extent, x, v, to_zero, to_extent) {
            Handover::Never => true,
            Handover::Spring { from, launch } => {
                ||| launch.time == Scalar::spec_zero() && from == x && launch.velocity == v
                ||| from == launch.target && launch.target == Scalar::spec_zero() && launch.time
                    == to_zero.time && launch.velocity == to_zero.velocity
                ||| from == launch.target && launch.target == extent.spec_neg() && launch.time
                    == to_extent.time && launch.velocity == to_extent.velocity
            },
        },
{
}

} // verus!
