//! The rigid body: its state, and the decisions its integrator takes.

use vstd::prelude::*;
use crate::scalar::{lemma_nan_patterns, lemma_rounds_by_significand, Scalar};
use crate::schedule::{actions, apply, is_above, run, Action, Host, Outcome, Stage};
use crate::vector::{Quaternion, Vector3};

verus! {

/// Pattern of the squared angular speed, `1e-6`, up to which a body counts
/// as not turning.
pub const ANGULAR_EPSILON_BITS: u32 = 0x3586_37BD;

/// Why a body could not be made.
#[derive(Clone, Copy, Debug, PartialEq, Eq, Structural)]
pub enum BodyError {
    /// The mass given is not greater than zero.
    MassNotPositive,
}

/// A mass: a number that is greater than zero.
///
/// The host divides by it. No value of this type holds zero, a negative
/// number or a not-a-number, so it need not test before it does.
#[derive(Clone, Copy, Debug)]
pub struct Mass {
    value: Scalar,
}

impl Mass {
    #[verifier::type_invariant]
    spec fn positive(self) -> bool {
        self.value.is_positive()
    }

    /// The number held.
    pub closed spec fn view(self) -> Scalar {
        self.value
    }

    /// Accepts a number as a mass if and only if it is greater than zero.
    pub fn new(value: Scalar) -> (m: Option<Mass>)
        ensures
            m is Some <==> value.is_positive(),
            m matches Some(mass) ==> mass@ == value,
    {
        if value.exceeds_zero() {
            Some(Mass { value })
        } else {
            None
        }
    }

    /// The number held. It is greater than zero.
    pub fn get(&self) -> (value: Scalar)
        ensures
            value == self@,
            value.is_positive(),
    {
        proof {
            use_type_invariant(self);
        }
        self.value
    }
}

/// State of one rigid body in world space.
#[derive(Clone, Copy, Debug)]
pub struct RigidBody {
    /// Centre of mass.
    pub position: Vector3,
    /// Rotation. The host keeps it at unit length.
    pub orientation: Quaternion,
    pub linear_velocity: Vector3,
    pub angular_velocity: Vector3,
    pub mass: Mass,
}

impl RigidBody {
    /// The squared angular speed above which the body is turned.
    pub open spec fn angular_epsilon() -> Scalar {
        Scalar { bits: ANGULAR_EPSILON_BITS }
    }

    /// A body of the given mass, at rest at the origin and not rotated.
    ///
    /// A mass that is not greater than zero is rejected: zero, a negative
    /// number, and a pattern that denotes no number.
    pub fn new(mass: Scalar) -> (r: Result<RigidBody, BodyError>)
        ensures
            mass.is_positive() ==> (r matches Ok(body) && body.mass@ == mass && body.position
                == Vector3::zero() && body.orientation == Quaternion::identity()
                && body.linear_velocity == Vector3::zero() && body.angular_velocity
                == Vector3::zero()),
            !mass.is_positive() ==> r == Err::<RigidBody, BodyError>(BodyError::MassNotPositive),
    {
        match Mass::new(mass) {
            Some(mass) => {
                let zero = Vector3 { x: Scalar { bits: 0 }, y: Scalar { bits: 0 }, z: Scalar { bits: 0 } };
                Ok(
                    RigidBody {
                        position: zero,
                        orientation: Quaternion {
                            x: Scalar { bits: 0 },
                            y: Scalar { bits: 0 },
                            z: Scalar { bits: 0 },
                            w: Scalar { bits: crate::vector::ONE_BITS },
                        },
                        linear_velocity: zero,
                        angular_velocity: zero,
                        mass,
                    },
                )
            },
            None => Err(BodyError::MassNotPositive),
        }
    }

    /// The stage in which `force` acts on the body over `dt`.
    pub open spec fn forcing(force: Vector3, dt: Scalar) -> Stage {
        Stage::Always { action: Action::ApplyForce { force, dt } }
    }

    /// Lays out the application of `force` over `dt`: the linear velocity
    /// gains `force / mass * dt`. The host may divide: the mass of a body is
    /// greater than zero.
    pub fn apply_force(force: Vector3, dt: Scalar) -> (stage: Stage)
        ensures
            stage == Self::forcing(force, dt),
    {
        Stage::Always { action: Action::ApplyForce { force, dt } }
    }

    /// The stages of one integration step over `dt`.
    pub open spec fn integration(dt: Scalar) -> Seq<Stage> {
        seq![
            Stage::Always { action: Action::Translate { dt } },
            Stage::Guarded {
                measure: Action::MeasureSpin,
                threshold: Self::angular_epsilon(),
                correction: Action::Rotate { dt },
            },
        ]
    }

    /// Lays out a semi-implicit Euler step over `dt`: the position moves by
    /// the linear velocity, and the orientation turns by the angular
    /// velocity if the squared magnitude of that velocity is above `1e-6`.
    /// Below, the axis of rotation could not be told, and the orientation
    /// stays as it is.
    ///
    /// No stage touches a velocity: forces are applied before this step.
    pub fn integrate(dt: Scalar) -> (stages: [Stage; 2])
        ensures
            stages@ == Self::integration(dt),
    {
        let stages = [
            Stage::Always { action: Action::Translate { dt } },
            Stage::Guarded {
                measure: Action::MeasureSpin,
                threshold: Scalar { bits: ANGULAR_EPSILON_BITS },
                correction: Action::Rotate { dt },
            },
        ];
        assert(stages@ =~= Self::integration(dt));
        stages
    }
}

/// A force changes the linear velocity and nothing else.
pub proof fn lemma_force_changes_the_linear_velocity_only(
    force: Vector3,
    dt: Scalar,
    body: RigidBody,
    host: Host,
)
    ensures
        ({
            let after = RigidBody::forcing(force, dt).result(body, host);
            &&& after.position == body.position
            &&& after.orientation == body.orientation
            &&& after.angular_velocity == body.angular_velocity
            &&& after.mass == body.mass
        }),
{
}

/// Integration moves the pose and nothing else: the velocities and the mass
/// stay. The orientation stays too unless the spin that the host measures,
/// on the body as translation left it, is above `1e-6`.
pub proof fn lemma_integration_moves_the_pose_only(dt: Scalar, body: RigidBody, host: Host)
    ensures
        ({
            let moved = apply(body, Action::Translate { dt }, host(body, Action::Translate { dt }));
            let after = run(RigidBody::integration(dt), body, host);
            &&& after.linear_velocity == body.linear_velocity
            &&& after.angular_velocity == body.angular_velocity
            &&& after.mass == body.mass
            &&& after.position == moved.position
            &&& !is_above(host(moved, Action::MeasureSpin), RigidBody::angular_epsilon())
                ==> after.orientation == body.orientation
        }),
{
    reveal_with_fuel(run, 3);
}

/// A body that does not turn keeps its orientation: where the host measures
/// a spin of zero, as it does on an angular velocity that is the zero
/// vector, integration asks for the translation and the measurement and
/// for nothing more, and the orientation after it is the orientation before
/// it, whatever `dt` is.
pub proof fn lemma_no_spin_no_turn(dt: Scalar, body: RigidBody, host: Host)
    requires
        ({
            let moved = apply(body, Action::Translate { dt }, host(body, Action::Translate { dt }));
            host(moved, Action::MeasureSpin) matches Outcome::Measured(spin) && spin.is_zero()
        }),
    ensures
        run(RigidBody::integration(dt), body, host).orientation == body.orientation,
        actions(RigidBody::integration(dt), body, host) == seq![
            Action::Translate { dt },
            Action::MeasureSpin,
        ],
{
    let moved = apply(body, Action::Translate { dt }, host(body, Action::Translate { dt }));
    let spin = host(moved, Action::MeasureSpin)->Measured_0;
    lemma_nan_patterns(spin);
    assert(!spin.gt(RigidBody::angular_epsilon()));
    reveal_with_fuel(run, 3);
    reveal_with_fuel(actions, 3);
    assert(actions(RigidBody::integration(dt), body, host) =~= seq![
        Action::Translate { dt },
        Action::MeasureSpin,
    ]);
}

/// The threshold on the spin is the binary32 number nearest to `1e-6`.
pub proof fn lemma_angular_epsilon_is_a_millionth()
    ensures
        RigidBody::angular_epsilon().rounds(1, 1_000_000),
{
    vstd::arithmetic::power2::lemma2_to64_rest();
    lemma_rounds_by_significand(RigidBody::angular_epsilon(), 1, 1_000_000, 43);
}

} // verus!
