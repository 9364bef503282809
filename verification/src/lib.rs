//! The core of a pendulum simulation: one rigid body on a hinge, stepped at
//! a fixed rate.
//!
//! The core holds the state, decides and keeps order; it leaves the
//! arithmetic on numbers to its host. Numbers are held as binary32 bit
//! patterns ([`scalar`], [`vector`]). A sub-step is a plan of stages
//! ([`schedule`]): the core hands out one piece of arithmetic at a time,
//! takes the result back, and either writes it into the body or decides on
//! it whether a correction is due. The body ([`physics`]) and the hinge and
//! system ([`pendulum`]) lay out the plan; the accumulator ([`clock`]) turns
//! frames of any length into a whole number of sub-steps.
//!
//! A host drives a sub-step so:
//!
//! ```text
//! let mut walk = system.step(dt);
//! let mut outcome = Outcome::Nothing;
//! while let Some(action) = walk.next(&mut system.body, outcome) {
//!     outcome = compute(&system, action);
//! }
//! ```
//!
//! where `compute` is the host's arithmetic: a function of the system and
//! the action, with no decision in it.

pub mod scalar;
pub mod vector;
pub mod schedule;
pub mod physics;
pub mod pendulum;
pub mod clock;
