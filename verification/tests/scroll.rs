use gravitas::motion::{in_spring, phase_at};
use gravitas::{
    Crossing, Friction, Handover, Launch, MotionState, Phase, Probe, Regime, Retarget,
    Scalar, Scroll, Spring, SpringSolution,
};

const EPSILON: f32 = 0.001;

fn sc(x: f32) -> Scalar {
    Scalar::from_bits(x.to_bits())
}

fn fl(x: Scalar) -> f32 {
    f32::from_bits(x.to_bits())
}

fn friction_x(f: &Friction, time: f32) -> f32 {
    fl(f.x) + fl(f.v) * fl(f.drag).powf(time) / fl(f.ln_drag) - fl(f.v) / fl(f.ln_drag)
}

fn friction_dx(f: &Friction, time: f32) -> f32 {
    fl(f.v) * fl(f.drag).powf(time)
}

fn crossing(f: &Friction, p: f32) -> Crossing {
    let offset = p - fl(f.x);
    let argument = (offset * fl(f.ln_drag) + fl(f.v)) / fl(f.v);
    let solved = argument.ln() / fl(f.ln_drag);
    let time = fl(f.time_for_position(sc(offset), sc(argument), sc(solved)));
    Crossing { time: sc(time), velocity: sc(friction_dx(f, time)) }
}

fn solve(s: &Spring, initial: f32, velocity: f32) -> SpringSolution {
    let (damping, mass, k) = (fl(s.damping), fl(s.mass), fl(s.spring_constant));
    let cmk = fl(s.discriminant);
    match s.regime() {
        Regime::Overdamped => {
            let r1 = (-damping - cmk.sqrt()) / (2.0 * mass);
            let r2 = (-damping + cmk.sqrt()) / (2.0 * mass);
            let c2 = (velocity - r1 * initial) / (r2 - r1);
            let c1 = initial - c2;
            SpringSolution::Overdamped { r1: sc(r1), r2: sc(r2), c1: sc(c1), c2: sc(c2) }
        }
        Regime::Underdamped => {
            let w = (4.0 * mass * k - damping * damping).sqrt() / (2.0 * mass);
            let r = -damping / (2.0 * mass);
            let c2 = (velocity - r * initial) / w;
            SpringSolution::Underdamped { w: sc(w), r: sc(r), c1: sc(initial), c2: sc(c2) }
        }
        Regime::CriticallyDamped => {
            let r = -damping / (2.0 * mass);
            let c2 = velocity / (r * initial);
            SpringSolution::CriticallyDamped { r: sc(r), c1: sc(initial), c2: sc(c2) }
        }
    }
}

fn offset_at(solution: &SpringSolution, t: f32) -> f32 {
    let e = std::f32::consts::E;
    match *solution {
        SpringSolution::Overdamped { r1, r2, c1, c2 } => {
            fl(c1) * e.powf(fl(r1) * t) + fl(c2) * e.powf(fl(r2) * t)
        }
        SpringSolution::CriticallyDamped { r, c1, c2 } => (fl(c1) + fl(c2) * t) * e.powf(fl(r) * t),
        SpringSolution::Underdamped { w, r, c1, c2 } => {
            e.powf(fl(r) * t) * (fl(c1) * (fl(w) * t).cos() + fl(c2) * (fl(w) * t).sin())
        }
        SpringSolution::Snapped => 0.0,
    }
}

fn velocity_at(solution: &SpringSolution, t: f32) -> f32 {
    let e = std::f32::consts::E;
    match *solution {
        SpringSolution::Overdamped { r1, r2, c1, c2 } => {
            fl(c1) * fl(r1) * e.powf(fl(r1) * t) + fl(c2) * fl(r2) * e.powf(fl(r2) * t)
        }
        SpringSolution::CriticallyDamped { r, c1, c2 } => {
            let pow = e.powf(fl(r) * t);
            fl(r) * (fl(c1) + fl(c2) * t) * pow + fl(c2) * pow
        }
        SpringSolution::Underdamped { w, r, c1, c2 } => {
            let pow = e.powf(fl(r) * t);
            let cos = (fl(w) * t).cos();
            let sin = (fl(w) * t).sin();
            pow * (fl(c2) * fl(w) * cos - fl(c1) * fl(w) * sin)
                + fl(r) * pow * (fl(c2) * sin + fl(c1) * cos)
        }
        SpringSolution::Snapped => 0.0,
    }
}

fn spring_x(s: &Spring, time: f32) -> f32 {
    match s.resting() {
        Some(rest) => fl(rest.position),
        None => fl(s.end) + offset_at(&s.solution, time - fl(s.start_time)),
    }
}

fn spring_dx(s: &Spring, time: f32) -> f32 {
    match s.resting() {
        Some(rest) => fl(rest.velocity),
        None => velocity_at(&s.solution, time - fl(s.start_time)),
    }
}

fn spring_is_done(s: &Spring, time: f32) -> bool {
    let local = time - fl(s.start_time);
    let moving = MotionState {
        position: sc(offset_at(&s.solution, local)),
        velocity: sc(velocity_at(&s.solution, local)),
    };
    s.is_done(moving)
}

fn aim(s: &mut Spring, launch: Launch) {
    let (target, velocity, time) = (fl(launch.target), fl(launch.velocity), fl(launch.time));
    let probe = Probe {
        resting_offset: sc(fl(s.end) - target),
        moving_offset: sc(spring_x(s, time) - target),
        moving_velocity: sc(velocity + spring_dx(s, time)),
    };
    let solved = match Spring::plan(launch.target, launch.velocity, launch.time, probe) {
        Retarget::Keep => s.solution,
        Retarget::Solve { offset, velocity } => solve(s, fl(offset), fl(velocity)),
    };
    assert!(s.set(launch.target, launch.velocity, launch.time, probe, solved).is_ok());
}

fn x_of(phase: Phase, friction: &Friction, spring: &Spring, time: f32) -> f32 {
    match phase {
        Phase::Spring => spring_x(spring, time),
        Phase::Friction => friction_x(friction, time),
    }
}

fn dx_of(phase: Phase, friction: &Friction, spring: &Spring, time: f32) -> f32 {
    match phase {
        Phase::Spring => spring_dx(spring, time),
        Phase::Friction => friction_dx(friction, time),
    }
}

fn done_of(phase: Phase, friction: &Friction, spring: &Spring, time: f32) -> bool {
    match phase {
        Phase::Spring => spring_is_done(spring, time),
        Phase::Friction => Friction::is_done(sc(friction_dx(friction, time))),
    }
}

fn set(s: &mut Scroll, x: f32, v: f32) -> Option<Launch> {
    let mut released = s.friction;
    released.set(sc(x), sc(v));
    let to_zero = crossing(&released, 0.0);
    let to_extent = crossing(&released, -fl(s.extent));
    let launch = s.set(sc(x), sc(v), to_zero, to_extent);
    if let Some(l) = launch {
        aim(&mut s.spring, l);
    }
    launch
}

fn x(s: &Scroll, time: f32) -> f32 {
    x_of(s.phase(sc(time)), &s.friction, &s.spring, time)
}

fn dx(s: &Scroll, time: f32) -> f32 {
    dx_of(s.phase(sc(time)), &s.friction, &s.spring, time)
}

fn is_done(s: &Scroll, time: f32) -> bool {
    done_of(s.phase(sc(time)), &s.friction, &s.spring, time)
}

fn at(time: f32, velocity: f32) -> Crossing {
    Crossing { time: sc(time), velocity: sc(velocity) }
}

fn launch_bits(h: Handover) -> Option<(u32, u32, u32, u32)> {
    match h {
        Handover::Never => None,
        Handover::Spring { from, launch } => Some((
            from.to_bits(),
            launch.target.to_bits(),
            launch.velocity.to_bits(),
            launch.time.to_bits(),
        )),
    }
}

fn bits(from: f32, target: f32, velocity: f32, time: f32) -> Option<(u32, u32, u32, u32)> {
    Some((from.to_bits(), target.to_bits(), velocity.to_bits(), time.to_bits()))
}

#[test]
fn new_scroll_rests_at_zero_with_no_handover() {
    let s = Scroll::new(sc(1000.0));
    assert_eq!(fl(s.extent()), 1000.0);
    assert_eq!(fl(s.extent), 1000.0);
    assert_eq!(s.friction.x.to_bits(), 0);
    assert_eq!(s.friction.v.to_bits(), 0);
    assert_eq!(fl(s.friction.drag), 0.01);
    assert_eq!(s.friction.ln_drag.to_bits(), 0.01f32.ln().to_bits());
    assert_eq!(fl(s.spring.mass), 1.0);
    assert_eq!(fl(s.spring.spring_constant), 90.0);
    assert_eq!(fl(s.spring.damping), 20.0);
    assert_eq!(fl(s.spring.discriminant), 40.0);
    assert_eq!(s.spring.regime(), Regime::Overdamped);
    assert_eq!(s.spring.end.to_bits(), 0);
    assert!(s.spring.solution.regime().is_none());
    assert!(fl(s.spring_time).is_nan());
    assert!(!s.in_spring(sc(0.0)));
    assert_eq!(s.phase(sc(5.0)), Phase::Friction);
}

#[test]
fn released_at_the_top_moving_up_stays_in_friction() {
    let mut s = Scroll::new(sc(1000.0));
    let launch = set(&mut s, 0.0, 500.0);
    assert!(launch.is_none());
    assert!(fl(s.spring_time).is_nan());
    for &t in [0.0f32, 0.5, 1.0, 10.0, 1.0e6].iter() {
        assert!(!s.in_spring(sc(t)));
        assert_eq!(s.phase(sc(t)), Phase::Friction);
    }
    let ln = 0.01f32.ln();
    assert_eq!(x(&s, 0.0), 0.0);
    assert_eq!(dx(&s, 0.0), 500.0);
    assert!((x(&s, 1.0) - (500.0 * 0.01 / ln - 500.0 / ln)).abs() < 1.0e-3);
    assert!((x(&s, 1.0) - 107.4879).abs() < 1.0e-2);
    assert!((dx(&s, 1.0) - 5.0).abs() < 1.0e-4);
    assert!((x(&s, 100.0) - 108.5736).abs() < 1.0e-2);
    assert!(!is_done(&s, 1.0));
    assert!(is_done(&s, 2.0));
}

#[test]
fn overscrolled_and_moving_out_springs_back_at_once() {
    let mut s = Scroll::new(sc(1000.0));
    let launch = set(&mut s, 50.0, 200.0).unwrap();
    assert_eq!(fl(launch.target), 0.0);
    assert_eq!(fl(launch.velocity), 200.0);
    assert_eq!(launch.time.to_bits(), 0);
    assert_eq!(s.spring_time.to_bits(), 0);
    assert_eq!(fl(s.spring.end), 0.0);
    assert!(s.in_spring(sc(0.0)));
    assert_eq!(s.phase(sc(0.0)), Phase::Spring);
    assert!((x(&s, 0.0) - 50.0).abs() < 1.0e-3);
    assert!((dx(&s, 0.0) - 200.0).abs() < 1.0e-2);
    assert!(!is_done(&s, 0.0));
    assert!(is_done(&s, 5.0));
    assert!(x(&s, 5.0).abs() < EPSILON);
}

#[test]
fn overscrolled_below_springs_back_to_the_lower_bound() {
    let mut s = Scroll::new(sc(1000.0));
    let launch = set(&mut s, -1050.0, -100.0).unwrap();
    assert_eq!(fl(launch.target), -1000.0);
    assert_eq!(fl(launch.velocity), -100.0);
    assert_eq!(launch.time.to_bits(), 0);
    assert_eq!(fl(s.spring.end), -1000.0);
    assert!((x(&s, 0.0) + 1050.0).abs() < 1.0e-3);
    assert!((x(&s, 5.0) + 1000.0).abs() < EPSILON);
    assert!(is_done(&s, 5.0));
}

#[test]
fn overscrolled_at_rest_springs_back() {
    let mut s = Scroll::new(sc(1000.0));
    let launch = set(&mut s, 30.0, 0.0).unwrap();
    assert_eq!(fl(launch.target), 0.0);
    assert_eq!(fl(launch.velocity), 0.0);
    assert_eq!(launch.time.to_bits(), 0);
    assert!((x(&s, 0.0) - 30.0).abs() < 1.0e-3);
    assert!(x(&s, 5.0).abs() < EPSILON);
}

#[test]
fn overscrolled_but_flung_back_in_is_left_to_friction() {
    let mut s = Scroll::new(sc(1000.0));
    let launch = set(&mut s, 50.0, -2000.0);
    assert!(launch.is_none());
    assert!(fl(s.spring_time).is_nan());
    assert!((x(&s, 0.0) - 50.0).abs() < 1.0e-3);
    assert!(x(&s, 10.0) < 0.0 && x(&s, 10.0) > -1000.0);
}

#[test]
fn a_fling_into_the_upper_bound_hands_over_there_without_a_jump() {
    let mut s = Scroll::new(sc(1000.0));
    let launch = set(&mut s, -20.0, 500.0).unwrap();
    let t = fl(launch.time);
    assert!(t > 0.0 && t.is_finite());
    assert_eq!(fl(launch.target), 0.0);
    assert_eq!(s.spring_time.to_bits(), launch.time.to_bits());
    assert_eq!(launch.velocity.to_bits(), friction_dx(&s.friction, t).to_bits());
    assert!((friction_x(&s.friction, t) - 0.0).abs() < 1.0e-3);
    assert!((spring_x(&s.spring, t) - friction_x(&s.friction, t)).abs() < 1.0e-3);
    assert!((spring_dx(&s.spring, t) - friction_dx(&s.friction, t)).abs() < 1.0e-2);
    assert_eq!(s.phase(sc(t * 0.5)), Phase::Friction);
    assert_eq!(s.phase(sc(t)), Phase::Spring);
    assert_eq!(s.phase(sc(t + 1.0)), Phase::Spring);
    assert!((x(&s, 0.0) + 20.0).abs() < 1.0e-3);
    assert!(x(&s, t + 0.05) > 0.0);
    assert!(is_done(&s, t + 5.0));
    assert!(x(&s, t + 5.0).abs() < EPSILON);
}

#[test]
fn a_fling_into_the_lower_bound_hands_over_there_without_a_jump() {
    let mut s = Scroll::new(sc(1000.0));
    let launch = set(&mut s, -990.0, -500.0).unwrap();
    let t = fl(launch.time);
    assert!(t > 0.0 && t.is_finite());
    assert_eq!(fl(launch.target), -1000.0);
    assert_eq!(fl(s.spring.end), -1000.0);
    assert!((spring_x(&s.spring, t) - friction_x(&s.friction, t)).abs() < 1.0e-2);
    assert!((spring_dx(&s.spring, t) - friction_dx(&s.friction, t)).abs() < 1.0e-2);
    assert!((x(&s, t + 5.0) + 1000.0).abs() < EPSILON);
}

#[test]
fn a_fling_that_dies_out_in_bounds_never_hands_over() {
    let mut s = Scroll::new(sc(1000.0));
    assert!(set(&mut s, -500.0, 300.0).is_none());
    assert!(fl(s.spring_time).is_nan());
    assert!(set(&mut s, -500.0, -300.0).is_none());
    assert!(set(&mut s, -500.0, 0.0).is_none());
    assert!(!s.in_spring(sc(100.0)));
}

#[test]
fn set_restarts_friction_and_leaves_the_spring_alone_without_a_handover() {
    let mut s = Scroll::new(sc(1000.0));
    set(&mut s, 50.0, 200.0).unwrap();
    let end = s.spring.end.to_bits();
    let regime = s.spring.solution.regime();
    assert!(regime.is_some());
    assert!(set(&mut s, -500.0, 300.0).is_none());
    assert_eq!(fl(s.friction.x), -500.0);
    assert_eq!(fl(s.friction.v), 300.0);
    assert_eq!(fl(s.friction.drag), 0.01);
    assert_eq!(fl(s.extent), 1000.0);
    assert_eq!(s.spring.end.to_bits(), end);
    assert_eq!(s.spring.solution.regime(), regime);
}

#[test]
fn the_decision_table_of_a_scroll() {
    let e = sc(1000.0);
    let never = at(f32::NAN, f32::NAN);
    let soon = at(0.25, 40.0);
    let past = at(-0.25, 40.0);
    let now = at(0.0, 40.0);
    let forever = at(f32::INFINITY, 0.0);
    assert_eq!(launch_bits(Scroll::handover(e, sc(50.0), sc(200.0), never, never)), bits(50.0, 0.0, 200.0, 0.0));
    assert_eq!(launch_bits(Scroll::handover(e, sc(50.0), sc(200.0), past, never)), bits(50.0, 0.0, 200.0, 0.0));
    assert_eq!(launch_bits(Scroll::handover(e, sc(50.0), sc(200.0), now, never)), bits(50.0, 0.0, 200.0, 0.0));
    assert_eq!(launch_bits(Scroll::handover(e, sc(50.0), sc(200.0), forever, never)), bits(50.0, 0.0, 200.0, 0.0));
    assert_eq!(launch_bits(Scroll::handover(e, sc(50.0), sc(-900.0), soon, never)), None);
    assert_eq!(launch_bits(Scroll::handover(e, sc(50.0), sc(-9000.0), soon, soon)), bits(-1000.0, -1000.0, 40.0, 0.25));
    assert_eq!(launch_bits(Scroll::handover(e, sc(-1200.0), sc(-5.0), never, past)), bits(-1200.0, -1000.0, -5.0, 0.0));
    assert_eq!(launch_bits(Scroll::handover(e, sc(-1200.0), sc(900.0), never, soon)), None);
    assert_eq!(launch_bits(Scroll::handover(e, sc(-1200.0), sc(9000.0), soon, soon)), bits(0.0, 0.0, 40.0, 0.25));
    assert_eq!(launch_bits(Scroll::handover(e, sc(-500.0), sc(300.0), soon, never)), bits(0.0, 0.0, 40.0, 0.25));
    assert_eq!(launch_bits(Scroll::handover(e, sc(-500.0), sc(0.0), soon, never)), bits(0.0, 0.0, 40.0, 0.25));
    assert_eq!(launch_bits(Scroll::handover(e, sc(-500.0), sc(-300.0), soon, never)), None);
    assert_eq!(launch_bits(Scroll::handover(e, sc(-500.0), sc(-300.0), never, soon)), bits(-1000.0, -1000.0, 40.0, 0.25));
    assert_eq!(launch_bits(Scroll::handover(e, sc(-500.0), sc(f32::NAN), soon, never)), None);
    assert_eq!(launch_bits(Scroll::handover(e, sc(0.0), sc(500.0), now, never)), None);
    assert_eq!(launch_bits(Scroll::handover(e, sc(-1000.0), sc(-500.0), never, now)), None);
    assert_eq!(launch_bits(Scroll::handover(e, sc(f32::NAN), sc(1.0), past, past)), None);
}

#[test]
fn the_spring_is_in_charge_from_the_handover_on() {
    assert!(!in_spring(sc(f32::NAN), sc(0.0)));
    assert!(!in_spring(sc(f32::NAN), sc(f32::INFINITY)));
    assert!(!in_spring(sc(f32::INFINITY), sc(f32::INFINITY)));
    assert!(!in_spring(sc(f32::NEG_INFINITY), sc(0.0)));
    assert!(in_spring(sc(0.0), sc(0.0)));
    assert!(in_spring(sc(0.0), sc(-0.0)));
    assert!(in_spring(sc(0.0), sc(3.0)));
    assert!(!in_spring(sc(0.0), sc(-0.001)));
    assert!(!in_spring(sc(0.0), sc(f32::NAN)));
    assert!(in_spring(sc(0.5), sc(0.5)));
    assert!(!in_spring(sc(0.5), sc(0.4999)));
    assert!(in_spring(sc(0.5), sc(f32::INFINITY)));
    assert_eq!(phase_at(sc(0.5), sc(0.75)), Phase::Spring);
    assert_eq!(phase_at(sc(0.5), sc(0.25)), Phase::Friction);
    assert_eq!(phase_at(sc(f32::NAN), sc(0.25)), Phase::Friction);
}

#[test]
fn handovers_are_built_as_named() {
    assert_eq!(launch_bits(Handover::at_once(sc(3.0), sc(4.0), sc(5.0))), bits(3.0, 4.0, 5.0, 0.0));
    assert_eq!(launch_bits(Handover::on_reaching(sc(3.0), at(0.5, 6.0))), bits(3.0, 3.0, 6.0, 0.5));
}

#[test]
fn engaging_a_handover_readies_the_spring() {
    let mut spring = Spring::new(sc(1.0), sc(90.0), sc(20.0), sc(40.0));
    aim(&mut spring, Launch { target: sc(80.0), velocity: sc(10.0), time: sc(0.0) });
    assert!(spring.solution.regime().is_some());
    let (time, launch) = Handover::Never.engage(&mut spring);
    assert!(fl(time).is_nan());
    assert!(launch.is_none());
    assert_eq!(fl(spring.end), 80.0);
    assert!(spring.solution.regime().is_some());
    let (time, launch) = Handover::on_reaching(sc(-5.0), at(0.5, 6.0)).engage(&mut spring);
    assert_eq!(fl(time), 0.5);
    let launch = launch.unwrap();
    assert_eq!(fl(launch.target), -5.0);
    assert_eq!(fl(launch.velocity), 6.0);
    assert_eq!(fl(launch.time), 0.5);
    assert_eq!(fl(spring.end), -5.0);
    assert!(spring.solution.regime().is_none());
    assert_eq!(spring.start_time.to_bits(), 0);
    assert_eq!(fl(spring.mass), 1.0);
    assert_eq!(fl(spring.spring_constant), 90.0);
    assert_eq!(fl(spring.damping), 20.0);
    assert_eq!(fl(spring.discriminant), 40.0);
}
