//! A position pulled to an anchor by a damped spring.
//!
//! The motion solves `m x'' + c x' + k x = 0` for the offset `x` from the
//! anchor. The sign of the discriminant `c^2 - 4 m k` selects one of three
//! closed forms, each with coefficients fixed by the offset and the velocity at
//! the moment the spring was aimed. Here stand the state of the spring and the
//! decisions around the closed forms: which form applies, whether aiming the
//! spring again changes anything, whether a solution fits the spring, and when
//! it has come to rest.
use vstd::prelude::*;
use crate::motion::MotionState;
use crate::scalar::Scalar;

verus! {

/// The pattern of `0.001`, the distance and the speed below which a spring
/// counts as being at rest on its anchor.
pub const TOLERANCE_BITS: u32 = 0x3a83_126f;

/// The pattern of `1.0`, the mass of the spring under a scrolling surface.
pub const SCROLL_MASS_BITS: u32 = 0x3f80_0000;

/// The pattern of `90.0`, the stiffness of the spring under a scrolling
/// surface.
pub const SCROLL_STIFFNESS_BITS: u32 = 0x42b4_0000;

/// The pattern of `20.0`, the damping of the spring under a scrolling
/// surface.
pub const SCROLL_DAMPING_BITS: u32 = 0x41a0_0000;

/// The pattern of `40.0`, the discriminant `20 * 20 - 4 * 1 * 90` of the
/// spring under a scrolling surface, which is overdamped.
pub const SCROLL_DISCRIMINANT_BITS: u32 = 0x4220_0000;

/// The three families of solutions of a damped spring.
#[derive(Clone, Copy, Debug, PartialEq, Eq, Structural)]
pub enum Regime {
    /// Two distinct real roots: the offset decays without crossing over and
    /// over.
    Overdamped,
    /// One double root.
    CriticallyDamped,
    /// Complex roots: the offset oscillates while it decays.
    Underdamped,
}

impl Regime {
    /// The regime of a spring with the given discriminant
    /// `damping^2 - 4 * mass * stiffness`: overdamped above zero, underdamped
    /// below, critically damped otherwise. The test is exact, with no
    /// tolerance, and a discriminant that is NaN falls to the critical case.
    pub open spec fn spec_of(discriminant: Scalar) -> Regime {
        if discriminant.spec_gt(Scalar::spec_zero()) {
            Regime::Overdamped
        } else if discriminant.spec_lt(Scalar::spec_zero()) {
            Regime::Underdamped
        } else {
            Regime::CriticallyDamped
        }
    }

    /// Selects the regime for a discriminant.
    #[verifier::when_used_as_spec(spec_of)]
    pub fn of(discriminant: Scalar) -> (r: Regime)
        ensures
            r == Regime::spec_of(discriminant),
    {
        if discriminant.gt(Scalar::zero()) {
            Regime::Overdamped
        } else if discriminant.lt(Scalar::zero()) {
            Regime::Underdamped
        } else {
            Regime::CriticallyDamped
        }
    }
}

/// A solved spring: the closed form of the offset from the anchor over the
/// time since the spring was aimed, with its coefficients.
#[derive(Clone, Copy, Debug)]
pub enum SpringSolution {
    /// `c1 * e^(r1 t) + c2 * e^(r2 t)`.
    Overdamped { r1: Scalar, r2: Scalar, c1: Scalar, c2: Scalar },
    /// `(c1 + c2 t) * e^(r t)`.
    CriticallyDamped { r: Scalar, c1: Scalar, c2: Scalar },
    /// `e^(r t) * (c1 cos(w t) + c2 sin(w t))`.
    Underdamped { w: Scalar, r: Scalar, c1: Scalar, c2: Scalar },
    /// At rest on the anchor at every time: offset zero, velocity zero.
    Snapped,
}

impl SpringSolution {
    /// The regime whose closed form this is; a snapped spring has none.
    pub open spec fn spec_regime(&self) -> Option<Regime> {
        match self {
            SpringSolution::Overdamped { .. } => Some(Regime::Overdamped),
            SpringSolution::CriticallyDamped { .. } => Some(Regime::CriticallyDamped),
            SpringSolution::Underdamped { .. } => Some(Regime::Underdamped),
            SpringSolution::Snapped => None,
        }
    }

    /// Tells which closed form is to be evaluated, or that there is none to
    /// evaluate.
    #[verifier::when_used_as_spec(spec_regime)]
    pub fn regime(&self) -> (r: Option<Regime>)
        ensures
            r == self.spec_regime(),
    {
        match self {
            SpringSolution::Overdamped { .. } => Some(Regime::Overdamped),
            SpringSolution::CriticallyDamped { .. } => Some(Regime::CriticallyDamped),
            SpringSolution::Underdamped { .. } => Some(Regime::Underdamped),
            SpringSolution::Snapped => None,
        }
    }

    /// The offset and the velocity that hold at every time, where the
    /// solution has such: a snapped spring stays at offset zero with velocity
    /// zero. The other three vary with time and have to be evaluated.
    pub open spec fn spec_constant_state(&self) -> Option<MotionState> {
        match self {
            SpringSolution::Snapped => Some(
                MotionState { position: Scalar::spec_zero(), velocity: Scalar::spec_zero() },
            ),
            _ => None,
        }
    }

    /// Gives the state of a solution that does not vary with time.
    #[verifier::when_used_as_spec(spec_constant_state)]
    pub fn constant_state(&self) -> (r: Option<MotionState>)
        ensures
            r == self.spec_constant_state(),
    {
        match self {
            SpringSolution::Snapped => Some(
                MotionState { position: Scalar::zero(), velocity: Scalar::zero() },
            ),
            _ => None,
        }
    }
}

/// Does `a` lie strictly between `-epsilon` and `epsilon`?
pub open spec fn spec_almost_zero(a: Scalar, epsilon: Scalar) -> bool {
    a.spec_gt(epsilon.spec_neg()) && a.spec_lt(epsilon)
}

/// Decides whether `a` lies strictly between `-epsilon` and `epsilon`.
#[verifier::when_used_as_spec(spec_almost_zero)]
pub fn almost_zero(a: Scalar, epsilon: Scalar) -> (r: bool)
    ensures
        r == spec_almost_zero(a, epsilon),
{
    a.gt(epsilon.neg()) && a.lt(epsilon)
}

/// Is a value within the tolerance of zero? Two positions are as good as
/// equal when their difference is, and a motion is as good as still when its
/// velocity is.
pub open spec fn negligible(a: Scalar) -> bool {
    spec_almost_zero(a, Scalar { bits: TOLERANCE_BITS })
}

/// What the caller has measured of a spring before it is aimed at a new
/// target `x` with an added `velocity` at some `time`.
#[derive(Clone, Copy, Debug)]
pub struct Probe {
    /// The anchor less `x`: the offset from the new target if the spring is
    /// taken to rest on its anchor.
    pub resting_offset: Scalar,
    /// The position of the spring at `time` less `x`: the offset from the new
    /// target if the spring is taken where its solution has it.
    pub moving_offset: Scalar,
    /// `velocity` plus the velocity of the spring at `time`.
    pub moving_velocity: Scalar,
}

/// What aiming a spring comes to.
#[derive(Clone, Copy, Debug)]
pub enum Retarget {
    /// Nothing: the spring is as good as there already.
    Keep,
    /// A new solution, for this offset from the target and this velocity at
    /// the moment of aiming.
    Solve { offset: Scalar, velocity: Scalar },
}

/// Why a solution was not taken.
#[derive(Clone, Copy, Debug, PartialEq, Eq, Structural)]
pub enum Misfit {
    /// It is not of the regime that the discriminant of the spring selects.
    Regime,
    /// It is critically damped or underdamped, and its first coefficient is
    /// not the offset it was to start from.
    Start,
}

/// The state of a spring motion.
#[derive(Clone, Copy, Debug)]
pub struct Spring {
    pub mass: Scalar,
    pub spring_constant: Scalar,
    pub damping: Scalar,
    /// `damping^2 - 4 * mass * spring_constant`, which fixes the regime for
    /// as long as the spring lives.
    pub discriminant: Scalar,
    /// The anchor: where the spring comes to rest.
    pub end: Scalar,
    /// The closed form in force.
    pub solution: SpringSolution,
    /// The time at which the closed form has its time zero.
    pub start_time: Scalar,
}

impl Spring {
    /// What aiming at `x` with `velocity` at `time` comes to.
    ///
    /// Nothing, if `x` is within the tolerance of the present anchor and
    /// `velocity` is negligible: the spring is going there already. Else the
    /// state to continue from is fixed: at a `time` of zero or less the
    /// spring is taken to rest on its anchor and `velocity` is all it has;
    /// later than that it is taken where its solution has it, and `velocity`
    /// comes on top of its own. If that state is within the tolerance of the
    /// target in offset and in velocity, again nothing. Otherwise the spring
    /// is to be solved for that state.
    pub open spec fn spec_plan(x: Scalar, velocity: Scalar, time: Scalar, probe: Probe) -> Retarget {
        if negligible(probe.resting_offset) && negligible(velocity) {
            Retarget::Keep
        } else {
            let fresh = time.spec_le(Scalar::spec_zero());
            let offset = if fresh {
                probe.resting_offset
            } else {
                probe.moving_offset
            };
            let entering = if fresh {
                velocity
            } else {
                probe.moving_velocity
            };
            if negligible(offset) && negligible(entering) {
                Retarget::Keep
            } else {
                Retarget::Solve { offset, velocity: entering }
            }
        }
    }

    /// The regime of this spring.
    pub open spec fn spec_regime(&self) -> Regime {
        Regime::spec_of(self.discriminant)
    }

    /// What keeps `solved` from being the solution of this spring for a
    /// start at `offset`, if anything does. It has to be of the regime of the
    /// spring. And where the first coefficient of the closed form is the
    /// offset at time zero itself, as it is in the critically damped and the
    /// underdamped form, it has to be `offset`, bit for bit.
    pub open spec fn misfit(&self, offset: Scalar, solved: SpringSolution) -> Option<Misfit> {
        if solved.spec_regime() != Some(self.spec_regime()) {
            Some(Misfit::Regime)
        } else {
            match solved {
                SpringSolution::CriticallyDamped { c1, .. } if c1 != offset => Some(Misfit::Start),
                SpringSolution::Underdamped { c1, .. } if c1 != offset => Some(Misfit::Start),
                _ => None,
            }
        }
    }

    /// The spring after `set`, and what `set` returns.
    pub open spec fn spec_set(
        self,
        x: Scalar,
        velocity: Scalar,
        time: Scalar,
        probe: Probe,
        solved: SpringSolution,
    ) -> (Spring, Result<(), Misfit>) {
        match Spring::spec_plan(x, velocity, time, probe) {
            Retarget::Keep => (self, Ok(())),
            Retarget::Solve { offset, .. } => match self.misfit(offset, solved) {
                Some(why) => (self, Err(why)),
                None => (Spring { end: x, solution: solved, start_time: time, ..self }, Ok(())),
            },
        }
    }

    /// Where the spring is and how fast it moves, if that is the same at
    /// every time: a snapped spring is at its anchor, without velocity.
    pub open spec fn spec_resting(&self) -> Option<MotionState> {
        match self.solution {
            SpringSolution::Snapped => Some(
                MotionState { position: self.end, velocity: Scalar::spec_zero() },
            ),
            _ => None,
        }
    }

    /// Has the spring come to rest, given `moving`, the offset from the
    /// anchor and the velocity that its closed form has at the time in
    /// question? It has when both are negligible. A snapped spring has no
    /// closed form to evaluate: its offset and its velocity are zero at every
    /// time, and `moving` is not looked at.
    pub open spec fn spec_is_done(&self, moving: MotionState) -> bool {
        let state = match self.solution.spec_constant_state() {
            Some(constant) => constant,
            None => moving,
        };
        negligible(state.position) && negligible(state.velocity)
    }

    /// A spring snapped to position zero. `discriminant` is
    /// `damping^2 - 4 * mass * spring_constant`.
    pub fn new(mass: Scalar, spring_constant: Scalar, damping: Scalar, discriminant: Scalar) -> (r:
        Spring)
        ensures
            r == (Spring {
                mass,
                spring_constant,
                damping,
                discriminant,
                end: Scalar::spec_zero(),
                solution: SpringSolution::Snapped,
                start_time: Scalar::spec_zero(),
            }),
    {
        Spring {
            mass,
            spring_constant,
            damping,
            discriminant,
            end: Scalar::zero(),
            solution: SpringSolution::Snapped,
            start_time: Scalar::zero(),
        }
    }

    /// Tells which closed form a solution of this spring has.
    #[verifier::when_used_as_spec(spec_regime)]
    pub fn regime(&self) -> (r: Regime)
        ensures
            r == self.spec_regime(),
    {
        Regime::of(self.discriminant)
    }

    /// Decides what aiming at `x` with `velocity` at `time` comes to, and for
    /// which state the spring is to be solved if it is.
    #[verifier::when_used_as_spec(spec_plan)]
    pub fn plan(x: Scalar, velocity: Scalar, time: Scalar, probe: Probe) -> (r: Retarget)
        ensures
            r == Spring::spec_plan(x, velocity, time, probe),
    {
        let tolerance = Scalar::from_bits(TOLERANCE_BITS);
        if almost_zero(probe.resting_offset, tolerance) && almost_zero(velocity, tolerance) {
            return Retarget::Keep;
        }
        let fresh = time.le(Scalar::zero());
        let offset = if fresh {
            probe.resting_offset
        } else {
            probe.moving_offset
        };
        let entering = if fresh {
            velocity
        } else {
            probe.moving_velocity
        };
        if almost_zero(offset, tolerance) && almost_zero(entering, tolerance) {
            Retarget::Keep
        } else {
            Retarget::Solve { offset, velocity: entering }
        }
    }

    /// Checks `solved` against the spring and the offset it was to start
    /// from.
    pub fn check(&self, offset: Scalar, solved: &SpringSolution) -> (r: Option<Misfit>)
        ensures
            r == self.misfit(offset, *solved),
    {
        let fits = match solved.regime() {
            None => false,
            Some(regime) => regime == self.regime(),
        };
        if !fits {
            return Some(Misfit::Regime);
        }
        match solved {
            SpringSolution::CriticallyDamped { c1, .. } => if c1.to_bits() != offset.to_bits() {
                Some(Misfit::Start)
            } else {
                None
            },
            SpringSolution::Underdamped { c1, .. } => if c1.to_bits() != offset.to_bits() {
                Some(Misfit::Start)
            } else {
                None
            },
            _ => None,
        }
    }

    /// Aims the spring at `x` with `velocity` at `time`. `solved` is the
    /// solution for the state that `plan` names.
    ///
    /// Where `plan` keeps the spring, `solved` is not looked at and nothing
    /// changes. Where it does not, `solved` is checked: a solution that does
    /// not fit is refused, with the reason, and nothing changes. One that
    /// fits replaces the solution whole, `x` becomes the anchor and `time`
    /// the solution's time zero.
    pub fn set(
        &mut self,
        x: Scalar,
        velocity: Scalar,
        time: Scalar,
        probe: Probe,
        solved: SpringSolution,
    ) -> (r: Result<(), Misfit>)
        ensures
            *final(self) == old(self).spec_set(x, velocity, time, probe, solved).0,
            r == old(self).spec_set(x, velocity, time, probe, solved).1,
    {
        match Spring::plan(x, velocity, time, probe) {
            Retarget::Keep => Ok(()),
            Retarget::Solve { offset, .. } => match self.check(offset, &solved) {
                Some(why) => Err(why),
                None => {
                    self.solution = solved;
                    self.end = x;
                    self.start_time = time;
                    Ok(())
                },
            },
        }
    }

    /// Puts the spring to rest at `x`, at once: `x` is the anchor, and the
    /// position at every time until the spring is aimed again.
    pub fn snap(&mut self, x: Scalar)
        ensures
            *final(self) == (Spring {
                end: x,
                solution: SpringSolution::Snapped,
                start_time: Scalar::spec_zero(),
                ..*old(self)
            }),
    {
        self.end = x;
        self.start_time = Scalar::zero();
        self.solution = SpringSolution::Snapped;
    }

    /// Gives the position and the velocity of a spring that has them the
    /// same at every time.
    #[verifier::when_used_as_spec(spec_resting)]
    pub fn resting(&self) -> (r: Option<MotionState>)
        ensures
            r == self.spec_resting(),
    {
        match self.solution {
            SpringSolution::Snapped => Some(
                MotionState { position: self.end, velocity: Scalar::zero() },
            ),
            _ => None,
        }
    }

    /// Decides whether the spring has come to rest at a time at which its
    /// closed form has the offset and the velocity `moving`.
    #[verifier::when_used_as_spec(spec_is_done)]
    pub fn is_done(&self, moving: MotionState) -> (r: bool)
        ensures
            r == self.spec_is_done(moving),
    {
        let state = match self.solution.constant_state() {
            Some(constant) => constant,
            None => moving,
        };
        let tolerance = Scalar::from_bits(TOLERANCE_BITS);
        almost_zero(state.position, tolerance) && almost_zero(state.velocity, tolerance)
    }
}

/// A discriminant of zero, of either sign, is critically damped, and so is
/// one that is NaN; every other is overdamped or underdamped by its sign.
pub proof fn lemma_regime_by_sign(discriminant: Scalar)
    ensures
        discriminant.spec_same(Scalar::spec_zero()) || discriminant.spec_is_nan()
            <==> Regime::spec_of(discriminant) == Regime::CriticallyDamped,
        discriminant.rank() > 0 && !discriminant.spec_is_nan() <==> Regime::spec_of(discriminant)
            == Regime::Overdamped,
        discriminant.rank() < 0 && !discriminant.spec_is_nan() <==> Regime::spec_of(discriminant)
            == Regime::Underdamped,
{
}

/// Within the tolerance of zero means: a number, with a magnitude below that
/// of the tolerance.
pub proof fn lemma_negligible(a: Scalar)
    ensures
        negligible(a) <==> !a.spec_is_nan() && a.magnitude() < TOLERANCE_BITS,
        negligible(Scalar::spec_zero()),
        negligible(a) == negligible(a.spec_neg()),
{
}

/// A solution that `set` takes is of the regime that the discriminant of the
/// spring selects, and where the closed form has the offset at time zero for
/// its first coefficient (critically damped, underdamped), that coefficient
/// is the very offset for which the spring was to be solved.
pub proof fn lemma_solution_taken_fits(
    spring: Spring,
    x: Scalar,
    velocity: Scalar,
    time: Scalar,
    probe: Probe,
    solved: SpringSolution,
)
    requires
        Spring::spec_plan(x, velocity, time, probe) is Solve,
        spring.spec_set(x, velocity, time, probe, solved).1 is Ok,
    ensures
        ({
            let after = spring.spec_set(x, velocity, time, probe, solved).0;
            let offset = Spring::spec_plan(x, velocity, time, probe)->offset;
            &&& after.solution == solved
            &&& after.end == x
            &&& after.start_time == time
            &&& solved.spec_regime() == Some(Regime::spec_of(spring.discriminant))
            &&& solved matches SpringSolution::CriticallyDamped { c1, .. } ==> c1 == offset
            &&& solved matches SpringSolution::Underdamped { c1, .. } ==> c1 == offset
        }),
{
}

/// Aiming a spring where it rests changes nothing. Said of a target whose
/// distance from the anchor is negligible and of a negligible velocity, at
/// any time: whatever solution is offered, the spring stays as it was, and
/// so it does however often this is repeated.
pub proof fn lemma_aiming_at_rest_keeps(
    spring: Spring,
    x: Scalar,
    velocity: Scalar,
    time: Scalar,
    probe: Probe,
    solved: SpringSolution,
)
    requires
        negligible(probe.resting_offset),
        negligible(velocity),
    ensures
        Spring::spec_plan(x, velocity, time, probe) == Retarget::Keep,
        spring.spec_set(x, velocity, time, probe, solved) == (spring, Ok::<(), Misfit>(())),
{
}

/// A snapped spring is at its anchor, without velocity, and has come to rest,
/// at every time: none of this looks at a time or at anything measured.
pub proof fn lemma_snapped_is_done(spring: Spring, moving: MotionState)
    requires
        spring.solution is Snapped,
    ensures
        spring.spec_resting() == Some(
            MotionState { position: spring.end, velocity: Scalar::spec_zero() },
        ),
        spring.spec_is_done(moving),
{
}

/// Only a snapped spring stays put: a spring with a closed form in force has
/// to be evaluated, and is done exactly when the offset and the velocity
/// that the closed form has are negligible.
pub proof fn lemma_moving_is_done(spring: Spring, moving: MotionState)
    requires
        !(spring.solution is Snapped),
    ensures
        spring.spec_resting() is None,
        spring.spec_is_done(moving) <==> negligible(moving.position) && negligible(moving.velocity),
{
}

} // verus!
