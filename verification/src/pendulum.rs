//! The hinge that holds the pendulum, and the sub-step of the whole system.

use vstd::prelude::*;
use crate::physics::{lemma_integration_moves_the_pose_only, RigidBody};
use crate::scalar::{lemma_denotes_by_significand, lemma_rounds_by_significand, Scalar};
use crate::clock::{lemma_time_is_kept, released, total};
use crate::schedule::{
    actions, apply, is_above, lemma_mass_is_kept, lemma_run_concat, lemma_run_single,
    lemma_walk_follows_plan, run, walk_to_end, Action, Host, Pending, Stage, Walk,
};
use crate::vector::{Vector3, ONE_BITS};

verus! {

/// Pattern of the squared length, `1e-8`, up to which a constraint error or
/// an attachment velocity is left alone.
pub const CONSTRAINT_EPSILON_BITS: u32 = 0x322B_CC77;

/// Pattern of `0.5`, the share of the positional error removed per pass.
pub const POSITION_STRENGTH_BITS: u32 = 0x3F00_0000;

/// Pattern of `0.1`, the share of the attachment velocity removed per
/// sub-step.
pub const VELOCITY_DAMPING_BITS: u32 = 0x3DCC_CCCD;

/// Pattern of `0.1`, by which the velocity pass scales its angular
/// correction down, so that the swing keeps most of its momentum.
pub const ANGULAR_DAMPING_SCALE_BITS: u32 = 0x3DCC_CCCD;

/// Positional passes per sub-step.
pub const POSITION_ITERATIONS: usize = 3;

/// A share: a number greater than zero and not greater than one. The
/// strength of a positional pass and the damping of a velocity pass are
/// shares, so that a pass removes some of what it measures and never more
/// than all of it.
#[derive(Clone, Copy, Debug)]
pub struct Share {
    value: Scalar,
}

impl Share {
    #[verifier::type_invariant]
    spec fn in_range(self) -> bool {
        Self::holds(self.value)
    }

    /// The number lies in `(0, 1]`.
    pub open spec fn holds(value: Scalar) -> bool {
        value.is_positive() && !value.gt(Scalar { bits: ONE_BITS })
    }

    /// The number held.
    pub closed spec fn view(self) -> Scalar {
        self.value
    }

    /// Accepts a number as a share if and only if it lies in `(0, 1]`.
    pub fn new(value: Scalar) -> (share: Option<Share>)
        ensures
            share is Some <==> Self::holds(value),
            share matches Some(made) ==> made@ == value,
    {
        if value.exceeds_zero() && !value.exceeds(Scalar { bits: ONE_BITS }) {
            Some(Share { value })
        } else {
            None
        }
    }

    /// The number held. It lies in `(0, 1]`.
    pub fn get(&self) -> (value: Scalar)
        ensures
            value == self@,
            Self::holds(value),
    {
        proof {
            use_type_invariant(self);
        }
        self.value
    }
}

/// Pins one point of a body to a fixed point in space.
///
/// Both points are set when the hinge is made and cannot be changed after.
/// The hinge keeps nothing from one sub-step to the next.
#[derive(Clone, Copy, Debug, PartialEq, Eq, Structural)]
pub struct HingeConstraint {
    anchor: Vector3,
    local_anchor: Vector3,
}

impl HingeConstraint {
    /// The fixed point, in world space.
    pub closed spec fn anchor_point(self) -> Vector3 {
        self.anchor
    }

    /// The pinned point, in the body's own frame.
    pub closed spec fn attachment_point(self) -> Vector3 {
        self.local_anchor
    }

    /// The squared length above which an error or a velocity is corrected.
    pub open spec fn epsilon() -> Scalar {
        Scalar { bits: CONSTRAINT_EPSILON_BITS }
    }

    /// The factor on the angular part of the velocity correction.
    pub open spec fn angular_scale() -> Scalar {
        Scalar { bits: ANGULAR_DAMPING_SCALE_BITS }
    }

    /// One positional pass that removes the share `strength` of the error.
    pub open spec fn position_pass(strength: Scalar) -> Stage {
        Stage::Guarded {
            measure: Action::MeasureAnchorError,
            threshold: Self::epsilon(),
            correction: Action::CorrectPosition { strength },
        }
    }

    /// One velocity pass that removes the share `damping` of the attachment
    /// point's velocity.
    pub open spec fn velocity_pass(damping: Scalar) -> Stage {
        Stage::Guarded {
            measure: Action::MeasureAttachmentVelocity,
            threshold: Self::epsilon(),
            correction: Action::DampVelocity { damping, angular_scale: Self::angular_scale() },
        }
    }

    pub fn new(anchor: Vector3, local_anchor: Vector3) -> (hinge: HingeConstraint)
        ensures
            hinge.anchor_point() == anchor,
            hinge.attachment_point() == local_anchor,
    {
        HingeConstraint { anchor, local_anchor }
    }

    /// The fixed point, in world space.
    pub fn anchor(&self) -> (point: Vector3)
        ensures
            point == self.anchor_point(),
    {
        self.anchor
    }

    /// The pinned point, in the body's own frame.
    pub fn local_anchor(&self) -> (point: Vector3)
        ensures
            point == self.attachment_point(),
    {
        self.local_anchor
    }

    /// Lays out one positional pass: the body is moved by the share
    /// `strength` of the error if the squared length of the error is above
    /// `1e-8`, and left where it is otherwise.
    ///
    /// The pass moves the body directly. It is repeated within a sub-step,
    /// each time on what the pass before left over.
    pub fn solve_position(strength: Share) -> (stage: Stage)
        ensures
            stage == Self::position_pass(strength@),
            Share::holds(strength@),
    {
        Stage::Guarded {
            measure: Action::MeasureAnchorError,
            threshold: Scalar { bits: CONSTRAINT_EPSILON_BITS },
            correction: Action::CorrectPosition { strength: strength.get() },
        }
    }

    /// Lays out one velocity pass: the share `damping` of the attachment
    /// point's velocity is taken off the body's velocities if the squared
    /// speed of that point is above `1e-8`. The angular part is scaled down
    /// by a further `0.1`.
    pub fn solve_velocity(damping: Share) -> (stage: Stage)
        ensures
            stage == Self::velocity_pass(damping@),
            Share::holds(damping@),
    {
        Stage::Guarded {
            measure: Action::MeasureAttachmentVelocity,
            threshold: Scalar { bits: CONSTRAINT_EPSILON_BITS },
            correction: Action::DampVelocity {
                damping: damping.get(),
                angular_scale: Scalar { bits: ANGULAR_DAMPING_SCALE_BITS },
            },
        }
    }
}

/// One body on one hinge, under gravity.
#[derive(Clone, Copy, Debug)]
pub struct PendulumSystem {
    pub body: RigidBody,
    pub constraint: HingeConstraint,
    pub gravity: Vector3,
}

impl PendulumSystem {
    /// The share of the positional error that one pass removes.
    pub open spec fn position_strength() -> Scalar {
        Scalar { bits: POSITION_STRENGTH_BITS }
    }

    /// The share of the attachment velocity that the velocity pass removes.
    pub open spec fn velocity_damping() -> Scalar {
        Scalar { bits: VELOCITY_DAMPING_BITS }
    }

    /// The stage that applies gravity over `dt`.
    pub open spec fn gravity_stage(dt: Scalar) -> Stage {
        Stage::Always { action: Action::ApplyGravity { dt } }
    }

    /// The stages of one sub-step of length `dt`, in order: gravity, then
    /// integration, then three positional passes, then one velocity pass.
    pub open spec fn plan(dt: Scalar) -> Seq<Stage> {
        seq![Self::gravity_stage(dt)] + RigidBody::integration(dt)
            + Seq::new(
            POSITION_ITERATIONS as nat,
            |i: int| HingeConstraint::position_pass(Self::position_strength()),
        ) + seq![HingeConstraint::velocity_pass(Self::velocity_damping())]
    }

    /// The body after one sub-step of length `dt`.
    pub open spec fn after_step(dt: Scalar, body: RigidBody, host: Host) -> RigidBody {
        run(Self::plan(dt), body, host)
    }

    /// The body after `count` sub-steps of length `dt`.
    pub open spec fn after_steps(count: nat, dt: Scalar, body: RigidBody, host: Host) -> RigidBody
        decreases count,
    {
        if count == 0 {
            body
        } else {
            Self::after_steps((count - 1) as nat, dt, Self::after_step(dt, body, host), host)
        }
    }

    /// The body after a run of frames, where each frame is taken into an
    /// accumulator and as many sub-steps are run as it releases.
    pub open spec fn after_frames(
        period: int,
        carried: int,
        frames: Seq<u64>,
        dt: Scalar,
        body: RigidBody,
        host: Host,
    ) -> RigidBody
        decreases frames.len(),
    {
        if frames.len() == 0 {
            body
        } else {
            let taken = carried + frames[0];
            Self::after_frames(
                period,
                taken % period,
                frames.drop_first(),
                dt,
                Self::after_steps((taken / period) as nat, dt, body, host),
                host,
            )
        }
    }

    pub fn new(body: RigidBody, constraint: HingeConstraint, gravity: Vector3) -> (system:
        PendulumSystem)
        ensures
            system.body == body,
            system.constraint == constraint,
            system.gravity == gravity,
    {
        PendulumSystem { body, constraint, gravity }
    }

    /// Begins one sub-step of length `dt`. The host takes the walk to its
    /// end on `self.body`.
    ///
    /// The constraint is solved after integration, so that it corrects the
    /// pose that integration produced. The number of positional passes is
    /// fixed; the error left over is not looked at.
    pub fn step(&self, dt: Scalar) -> (walk: Walk)
        ensures
            walk.remaining() == Self::plan(dt),
            walk.pending() == Pending::Nothing,
    {
        let mut stages: Vec<Stage> = Vec::new();
        stages.push(Stage::Always { action: Action::ApplyGravity { dt } });
        let integration = RigidBody::integrate(dt);
        stages.push(integration[0]);
        stages.push(integration[1]);
        let ghost head = seq![Self::gravity_stage(dt)] + RigidBody::integration(dt);
        assert(stages@ =~= head);
        let strength = Share::new(Scalar { bits: POSITION_STRENGTH_BITS }).unwrap();
        let damping = Share::new(Scalar { bits: VELOCITY_DAMPING_BITS }).unwrap();
        let mut pass: usize = 0;
        while pass < POSITION_ITERATIONS
            invariant
                pass <= POSITION_ITERATIONS,
                strength@ == Self::position_strength(),
                stages@ == head + Seq::new(
                    pass as nat,
                    |i: int| HingeConstraint::position_pass(Self::position_strength()),
                ),
            decreases POSITION_ITERATIONS - pass,
        {
            stages.push(HingeConstraint::solve_position(strength));
            pass = pass + 1;
            assert(stages@ =~= head + Seq::new(
                pass as nat,
                |i: int| HingeConstraint::position_pass(Self::position_strength()),
            ));
        }
        stages.push(HingeConstraint::solve_velocity(damping));
        Walk::new(stages)
    }
}

/// A positional pass moves the position and nothing else, and not even that
/// unless the error that the host measures is above `1e-8`.
pub proof fn lemma_position_pass_moves_the_position_only(
    strength: Scalar,
    body: RigidBody,
    host: Host,
)
    ensures
        ({
            let after = HingeConstraint::position_pass(strength).result(body, host);
            &&& after.orientation == body.orientation
            &&& after.linear_velocity == body.linear_velocity
            &&& after.angular_velocity == body.angular_velocity
            &&& after.mass == body.mass
            &&& !is_above(host(body, Action::MeasureAnchorError), HingeConstraint::epsilon())
                ==> after == body
        }),
{
}

/// A velocity pass changes the two velocities and nothing else, and not
/// even those unless the speed that the host measures is above `1e-8`.
pub proof fn lemma_velocity_pass_changes_the_velocities_only(
    damping: Scalar,
    body: RigidBody,
    host: Host,
)
    ensures
        ({
            let after = HingeConstraint::velocity_pass(damping).result(body, host);
            &&& after.position == body.position
            &&& after.orientation == body.orientation
            &&& after.mass == body.mass
            &&& !is_above(host(body, Action::MeasureAttachmentVelocity), HingeConstraint::epsilon())
                ==> after == body
        }),
{
}

/// Gravity changes the linear velocity and nothing else.
pub proof fn lemma_gravity_changes_the_linear_velocity_only(
    dt: Scalar,
    body: RigidBody,
    host: Host,
)
    ensures
        ({
            let after = PendulumSystem::gravity_stage(dt).result(body, host);
            &&& after.position == body.position
            &&& after.orientation == body.orientation
            &&& after.angular_velocity == body.angular_velocity
            &&& after.mass == body.mass
        }),
{
}

/// A sub-step is its operations, each on what the one before left: gravity
/// is applied, the body is integrated, the position is corrected three
/// times, the velocity is damped once. The host is asked for the actions of
/// these operations, in this order, and for no other. The mass is the same
/// after the sub-step.
pub proof fn lemma_step_in_order(dt: Scalar, body: RigidBody, host: Host)
    ensures
        ({
            let pass = HingeConstraint::position_pass(PendulumSystem::position_strength());
            let damp = HingeConstraint::velocity_pass(PendulumSystem::velocity_damping());
            let pushed = PendulumSystem::gravity_stage(dt).result(body, host);
            let moved = run(RigidBody::integration(dt), pushed, host);
            let once = pass.result(moved, host);
            let twice = pass.result(once, host);
            let thrice = pass.result(twice, host);
            &&& PendulumSystem::after_step(dt, body, host) == damp.result(thrice, host)
            &&& actions(PendulumSystem::plan(dt), body, host) == seq![Action::ApplyGravity { dt }]
                + actions(RigidBody::integration(dt), pushed, host) + pass.actions(moved, host)
                + pass.actions(once, host) + pass.actions(twice, host) + damp.actions(
                thrice,
                host,
            )
        }),
        PendulumSystem::after_step(dt, body, host).mass == body.mass,
{
    let pass = HingeConstraint::position_pass(PendulumSystem::position_strength());
    let damp = HingeConstraint::velocity_pass(PendulumSystem::velocity_damping());
    let gravity = PendulumSystem::gravity_stage(dt);
    let integration = RigidBody::integration(dt);
    let s1 = seq![gravity];
    let s3 = s1 + integration;
    let s4 = s3 + seq![pass];
    let s5 = s4 + seq![pass];
    let s6 = s5 + seq![pass];
    let s7 = s6 + seq![damp];
    assert(PendulumSystem::plan(dt) =~= s7);
    let pushed = gravity.result(body, host);
    let moved = run(integration, pushed, host);
    let once = pass.result(moved, host);
    let twice = pass.result(once, host);
    let thrice = pass.result(twice, host);
    lemma_run_single(gravity, body, host);
    lemma_run_single(pass, moved, host);
    lemma_run_single(pass, once, host);
    lemma_run_single(pass, twice, host);
    lemma_run_single(damp, thrice, host);
    lemma_run_concat(s1, integration, body, host);
    lemma_run_concat(s3, seq![pass], body, host);
    lemma_run_concat(s4, seq![pass], body, host);
    lemma_run_concat(s5, seq![pass], body, host);
    lemma_run_concat(s6, seq![damp], body, host);
    lemma_mass_is_kept(PendulumSystem::plan(dt), body, host);
}

/// Within a sub-step only integration turns the body: the orientation after
/// the sub-step is the one that integration left. So a body on which the
/// host measures no spin above `1e-6` has, after the sub-step, the
/// orientation that it had before.
pub proof fn lemma_step_turns_in_integration_only(dt: Scalar, body: RigidBody, host: Host)
    ensures
        ({
            let pushed = PendulumSystem::gravity_stage(dt).result(body, host);
            let moved = apply(pushed, Action::Translate { dt }, host(pushed, Action::Translate { dt }));
            let after = PendulumSystem::after_step(dt, body, host);
            &&& after.orientation == run(RigidBody::integration(dt), pushed, host).orientation
            &&& !is_above(host(moved, Action::MeasureSpin), RigidBody::angular_epsilon())
                ==> after.orientation == body.orientation
        }),
{
    let pass = HingeConstraint::position_pass(PendulumSystem::position_strength());
    let damp = HingeConstraint::velocity_pass(PendulumSystem::velocity_damping());
    let pushed = PendulumSystem::gravity_stage(dt).result(body, host);
    let moved = run(RigidBody::integration(dt), pushed, host);
    let once = pass.result(moved, host);
    let twice = pass.result(once, host);
    let thrice = pass.result(twice, host);
    lemma_step_in_order(dt, body, host);
    lemma_integration_moves_the_pose_only(dt, pushed, host);
    lemma_position_pass_moves_the_position_only(PendulumSystem::position_strength(), moved, host);
    lemma_position_pass_moves_the_position_only(PendulumSystem::position_strength(), once, host);
    lemma_position_pass_moves_the_position_only(PendulumSystem::position_strength(), twice, host);
    lemma_velocity_pass_changes_the_velocities_only(
        PendulumSystem::velocity_damping(),
        thrice,
        host,
    );
}

/// The walk that `step` begins, taken to its end by a host that answers
/// every action, hands out the actions of the plan and leaves the body
/// after one sub-step.
pub proof fn lemma_step_walk(dt: Scalar, body: RigidBody, host: Host)
    ensures
        walk_to_end(PendulumSystem::plan(dt), Pending::Nothing, body, host) == (
            actions(PendulumSystem::plan(dt), body, host),
            PendulumSystem::after_step(dt, body, host),
        ),
{
    lemma_walk_follows_plan(PendulumSystem::plan(dt), Pending::Nothing, body, host);
}

/// Sub-steps run one after the other: `first + second` of them come to
/// `second` of them on what `first` of them left.
pub proof fn lemma_steps_add_up(first: nat, second: nat, dt: Scalar, body: RigidBody, host: Host)
    ensures
        PendulumSystem::after_steps(first + second, dt, body, host) == PendulumSystem::after_steps(
            second,
            dt,
            PendulumSystem::after_steps(first, dt, body, host),
            host,
        ),
    decreases first,
{
    if first > 0 {
        lemma_steps_add_up(
            (first - 1) as nat,
            second,
            dt,
            PendulumSystem::after_step(dt, body, host),
            host,
        );
    }
}

/// Over any run of frames, the body is the one that is left by as many
/// sub-steps as the time taken in holds.
pub proof fn lemma_frames_come_to_steps(
    period: int,
    carried: int,
    frames: Seq<u64>,
    dt: Scalar,
    body: RigidBody,
    host: Host,
)
    requires
        period > 0,
        0 <= carried < period,
    ensures
        PendulumSystem::after_frames(period, carried, frames, dt, body, host)
            == PendulumSystem::after_steps(
            ((carried + total(frames)) / period) as nat,
            dt,
            body,
            host,
        ),
    decreases frames.len(),
{
    lemma_time_is_kept(period, carried, frames);
    if frames.len() > 0 {
        let taken = carried + frames[0];
        let now = (taken / period) as nat;
        let left = taken % period;
        vstd::arithmetic::div_mod::lemma_mod_bound(taken, period);
        vstd::arithmetic::div_mod::lemma_div_pos_is_pos(taken, period);
        let stepped = PendulumSystem::after_steps(now, dt, body, host);
        lemma_frames_come_to_steps(period, left, frames.drop_first(), dt, stepped, host);
        lemma_time_is_kept(period, left, frames.drop_first());
        let later = released(period, left, frames.drop_first());
        lemma_total_is_not_negative(frames.drop_first());
        vstd::arithmetic::div_mod::lemma_div_pos_is_pos(
            left + total(frames.drop_first()),
            period,
        );
        lemma_steps_add_up(now, later as nat, dt, body, host);
    }
}

/// The time that frames take is not negative.
proof fn lemma_total_is_not_negative(frames: Seq<u64>)
    ensures
        total(frames) >= 0,
    decreases frames.len(),
{
    if frames.len() > 0 {
        lemma_total_is_not_negative(frames.drop_first());
    }
}

/// The rate of frames does not change the trajectory: two runs of frames
/// that take the same time in all leave the same body, however each run is
/// cut into frames. Only the length of the sub-step enters.
pub proof fn lemma_frame_rate_does_not_matter(
    period: int,
    carried: int,
    coarse: Seq<u64>,
    fine: Seq<u64>,
    dt: Scalar,
    body: RigidBody,
    host: Host,
)
    requires
        period > 0,
        0 <= carried < period,
        total(coarse) == total(fine),
    ensures
        PendulumSystem::after_frames(period, carried, coarse, dt, body, host)
            == PendulumSystem::after_frames(period, carried, fine, dt, body, host),
{
    lemma_frames_come_to_steps(period, carried, coarse, dt, body, host);
    lemma_frames_come_to_steps(period, carried, fine, dt, body, host);
}

/// The numbers of the constraint are what they are called: the threshold is
/// the binary32 number nearest to `1e-8`, the share of a positional pass is
/// one half, and the share of the velocity pass and the factor on its
/// angular part are the binary32 number nearest to one tenth. Both shares
/// lie in `(0, 1]`.
pub proof fn lemma_constraint_numbers()
    ensures
        HingeConstraint::epsilon().rounds(1, 100_000_000),
        PendulumSystem::position_strength().denotes(1, 2),
        PendulumSystem::velocity_damping().rounds(1, 10),
        HingeConstraint::angular_scale().rounds(1, 10),
        Share::holds(PendulumSystem::position_strength()),
        Share::holds(PendulumSystem::velocity_damping()),
{
    vstd::arithmetic::power2::lemma2_to64();
    vstd::arithmetic::power2::lemma2_to64_rest();
    lemma_rounds_by_significand(HingeConstraint::epsilon(), 1, 100_000_000, 50);
    lemma_denotes_by_significand(PendulumSystem::position_strength(), 1, 2, 24);
    lemma_rounds_by_significand(PendulumSystem::velocity_damping(), 1, 10, 27);
    lemma_rounds_by_significand(HingeConstraint::angular_scale(), 1, 10, 27);
}

} // verus!
