//! Closed-form motion for touch interfaces: the part that decides.
//!
//! A fling is modelled as a velocity that decays under drag until a spring
//! takes over and settles the position on a boundary or a snap point. Every
//! trajectory is a formula in the elapsed time, so nothing is integrated step
//! by step; what remains to get right is the planning around the formulas:
//! which damping regime a spring is in, whether a spring has to be solved again
//! when it is given a new target, where a position lies among the snap points,
//! and when and where drag hands over to the spring.
//!
//! This crate holds that planning, and the state it works on, with every
//! function proved against its contract. Numbers are IEEE 754 singles carried
//! by their bit patterns ([`Scalar`]). Comparing, negating and classifying them
//! is integer work and is done here. Arithmetic on them is not: the caller
//! evaluates the formulas and hands the values in, and each function says which
//! values it expects.
pub mod friction;
pub mod gravity;
pub mod motion;
pub mod pager;
pub mod scalar;
pub mod scroll;
pub mod spring;

pub use friction::Friction;
pub use gravity::Gravity;
pub use motion::{Crossing, Handover, Launch, MotionState, Phase};
pub use pager::{Outlook, Pager, SnapPoint, SnapQuery};
pub use scalar::Scalar;
pub use scroll::Scroll;
pub use spring::{Misfit, Probe, Regime, Retarget, Spring, SpringSolution};
