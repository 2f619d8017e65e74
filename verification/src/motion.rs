//! The values that pass between the formulas and the planning.
use vstd::prelude::*;
use crate::scalar::Scalar;
use crate::spring::{Spring, SpringSolution};

verus! {

/// Where a one-dimensional motion is at one instant, and how fast it moves.
#[derive(Clone, Copy, Debug)]
pub struct MotionState {
    pub position: Scalar,
    pub velocity: Scalar,
}

/// A meeting of the drag curve with a point: the time at which the curve is at
/// the point, and the velocity it has at that time.
#[derive(Clone, Copy, Debug)]
pub struct Crossing {
    pub time: Scalar,
    pub velocity: Scalar,
}

/// The order that a composite motion gives for its spring once it has decided
/// to hand over: aim at `target`, entering with `velocity`, from `time` on.
#[derive(Clone, Copy, Debug)]
pub struct Launch {
    pub target: Scalar,
    pub velocity: Scalar,
    pub time: Scalar,
}

/// What a composite motion decides when a gesture ends.
#[derive(Clone, Copy, Debug)]
pub enum Handover {
    /// Drag keeps the motion for good.
    Never,
    /// The spring takes over at `launch.time`: it is put to rest at `from`
    /// and then aimed as `launch` says.
    Spring { from: Scalar, launch: Launch },
}

impl Handover {
    /// The time for which the hand-over is planned: NaN where there is none.
    pub open spec fn spring_time(self) -> Scalar {
        match self {
            Handover::Never => Scalar::spec_nan(),
            Handover::Spring { launch, .. } => launch.time,
        }
    }

    /// The order for the spring, where there is one.
    pub open spec fn launch(self) -> Option<Launch> {
        match self {
            Handover::Never => None,
            Handover::Spring { launch, .. } => Some(launch),
        }
    }

    /// A hand-over at time zero, from `from` to `target`, entering with
    /// `velocity`.
    pub open spec fn spec_at_once(from: Scalar, target: Scalar, velocity: Scalar) -> Handover {
        Handover::Spring { from, launch: Launch { target, velocity, time: Scalar::spec_zero() } }
    }

    /// A hand-over at the moment drag meets `point`: the spring waits at the
    /// point and is entered with the velocity that drag has left.
    pub open spec fn spec_on_reaching(point: Scalar, crossing: Crossing) -> Handover {
        Handover::Spring {
            from: point,
            launch: Launch { target: point, velocity: crossing.velocity, time: crossing.time },
        }
    }

    /// The spring once the hand-over is recorded: put to rest at the place
    /// where it is to start, or left as it was where there is no hand-over.
    pub open spec fn spring_after(self, spring: Spring) -> Spring {
        match self {
            Handover::Never => spring,
            Handover::Spring { from, .. } => Spring {
                end: from,
                solution: SpringSolution::Snapped,
                start_time: Scalar::spec_zero(),
                ..spring
            },
        }
    }

    /// Plans a hand-over at time zero.
    #[verifier::when_used_as_spec(spec_at_once)]
    pub fn at_once(from: Scalar, target: Scalar, velocity: Scalar) -> (r: Handover)
        ensures
            r == Handover::spec_at_once(from, target, velocity),
    {
        Handover::Spring { from, launch: Launch { target, velocity, time: Scalar::zero() } }
    }

    /// Plans a hand-over at the moment drag meets `point`.
    #[verifier::when_used_as_spec(spec_on_reaching)]
    pub fn on_reaching(point: Scalar, crossing: Crossing) -> (r: Handover)
        ensures
            r == Handover::spec_on_reaching(point, crossing),
    {
        Handover::Spring {
            from: point,
            launch: Launch { target: point, velocity: crossing.velocity, time: crossing.time },
        }
    }

    /// Records the hand-over on the spring of a composite motion: where
    /// there is one, the spring is put to rest at the place where it is to
    /// start. Returns the time for which the hand-over is planned, and the
    /// order to aim the spring, for the caller to carry out with
    /// `Spring::set`.
    pub fn engage(self, spring: &mut Spring) -> (r: (Scalar, Option<Launch>))
        ensures
            r.0 == self.spring_time(),
            r.1 == self.launch(),
            *final(spring) == self.spring_after(*old(spring)),
    {
        match self {
            Handover::Never => (Scalar::nan(), None),
            Handover::Spring { from, launch } => {
                spring.snap(from);
                (launch.time, Some(launch))
            },
        }
    }
}

/// Which of its two models a composite motion follows at some time.
#[derive(Clone, Copy, Debug, PartialEq, Eq, Structural)]
pub enum Phase {
    /// Velocity decaying under drag.
    Friction,
    /// The spring settling on its anchor.
    Spring,
}

/// Has the hand-over to the spring happened by `time`? It has when a
/// hand-over time was planned at all (a finite `spring_time`) and `time` has
/// reached it. A `spring_time` that is NaN means that drag is never left.
pub open spec fn spec_in_spring(spring_time: Scalar, time: Scalar) -> bool {
    spring_time.spec_is_finite() && time.spec_ge(spring_time)
}

/// Decides whether the hand-over planned for `spring_time` has happened by
/// `time`.
#[verifier::when_used_as_spec(spec_in_spring)]
pub fn in_spring(spring_time: Scalar, time: Scalar) -> (r: bool)
    ensures
        r == spec_in_spring(spring_time, time),
{
    spring_time.is_finite() && time.ge(spring_time)
}

/// The model that is followed at `time` under a hand-over planned for
/// `spring_time`.
pub open spec fn spec_phase_at(spring_time: Scalar, time: Scalar) -> Phase {
    if spec_in_spring(spring_time, time) {
        Phase::Spring
    } else {
        Phase::Friction
    }
}

/// Picks the model to evaluate at `time`.
#[verifier::when_used_as_spec(spec_phase_at)]
pub fn phase_at(spring_time: Scalar, time: Scalar) -> (r: Phase)
    ensures
        r == spec_phase_at(spring_time, time),
{
    if in_spring(spring_time, time) {
        Phase::Spring
    } else {
        Phase::Friction
    }
}

/// The hand-over is one-way: once the spring has taken over it keeps the
/// motion at every later time.
pub proof fn lemma_handover_is_one_way(spring_time: Scalar, earlier: Scalar, later: Scalar)
    requires
        spec_in_spring(spring_time, earlier),
        later.spec_ge(earlier),
    ensures
        spec_in_spring(spring_time, later),
{
}

/// Without a finite hand-over time drag keeps the motion at every time, and
/// so it does at a time that is NaN.
pub proof fn lemma_no_handover(spring_time: Scalar, time: Scalar)
    requires
        !spring_time.spec_is_finite() || time.spec_is_nan(),
    ensures
        spec_phase_at(spring_time, time) == Phase::Friction,
{
}

/// A hand-over planned for time zero has happened at every time from zero on.
pub proof fn lemma_immediate_handover(time: Scalar)
    requires
        time.spec_ge(Scalar::spec_zero()),
    ensures
        spec_phase_at(Scalar::spec_zero(), time) == Phase::Spring,
{
}

} // verus!
