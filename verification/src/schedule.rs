//! What a sub-step asks of the host, and what it does with the answers.
//!
//! The core does no arithmetic on numbers. It tells the host what to compute
//! from the body (an [`Action`]), takes the result back (an [`Outcome`]),
//! and decides what becomes of it: which field of the body it replaces, or
//! whether a correction is due. Within a sub-step the host only reads the
//! body.
//!
//! A sub-step is laid out as a sequence of [`Stage`]s; a [`Walk`] goes
//! through it one action at a time.

use vstd::prelude::*;
use crate::physics::RigidBody;
use crate::scalar::Scalar;
use crate::vector::{Quaternion, Vector3};

verus! {

/// One piece of arithmetic for the host to carry out. Each is computed from
/// the body as it is when the action is handed out.
#[derive(Clone, Copy, Debug, PartialEq, Eq, Structural)]
pub enum Action {
    /// The linear velocity after `force` has acted over `dt`:
    /// `linear_velocity + force / mass * dt`.
    ApplyForce { force: Vector3, dt: Scalar },
    /// The same with the force of gravity, `gravity * mass`.
    ApplyGravity { dt: Scalar },
    /// The position after `dt`: `position + linear_velocity * dt`.
    Translate { dt: Scalar },
    /// The squared magnitude of the angular velocity.
    MeasureSpin,
    /// The orientation turned about the angular velocity's axis by its
    /// magnitude times `dt`, and brought back to unit length.
    Rotate { dt: Scalar },
    /// The squared length of the error: the anchor minus the place of the
    /// body's attachment point, `position + orientation * local_anchor`.
    MeasureAnchorError,
    /// The position moved by the error times `strength`.
    CorrectPosition { strength: Scalar },
    /// The squared speed of the attachment point, whose velocity is
    /// `linear_velocity + angular_velocity x r`, with `r` the attachment
    /// point's offset from the centre of mass, `orientation * local_anchor`.
    MeasureAttachmentVelocity,
    /// The linear velocity less the attachment velocity times `damping`,
    /// and the angular velocity less `r x` the attachment velocity, times
    /// `damping / mass * angular_scale`.
    DampVelocity { damping: Scalar, angular_scale: Scalar },
}

/// What the host brings back from an action.
#[derive(Clone, Copy, Debug, PartialEq, Eq, Structural)]
pub enum Outcome {
    /// No action was carried out.
    Nothing,
    /// The number that a measuring action yields.
    Measured(Scalar),
    /// The result of `Translate` or `CorrectPosition`.
    Position(Vector3),
    /// The result of `ApplyForce` or `ApplyGravity`.
    LinearVelocity(Vector3),
    /// The result of `Rotate`.
    Orientation(Quaternion),
    /// The result of `DampVelocity`.
    Velocities { linear: Vector3, angular: Vector3 },
}

/// One step of a plan.
#[derive(Clone, Copy, Debug, PartialEq, Eq, Structural)]
pub enum Stage {
    /// The action is carried out every time.
    Always { action: Action },
    /// `measure` is carried out every time, and `correction` after it if the
    /// number that `measure` yields is greater than `threshold`.
    Guarded { measure: Action, threshold: Scalar, correction: Action },
}

/// Where a walk stands between two calls.
#[derive(Clone, Copy, Debug, PartialEq, Eq, Structural)]
pub enum Pending {
    /// Nothing has been handed out, or the plan is finished.
    Nothing,
    /// The action has been handed out; its outcome goes into the body.
    Act(Action),
    /// The measurement of the first remaining stage has been handed out.
    Measure,
}

/// The host's arithmetic, for stating what a walk comes to: what it brings
/// back from an action on a body. The laws below hold whatever it is.
pub type Host = spec_fn(RigidBody, Action) -> Outcome;

/// The body once the outcome of an action is in. An action replaces the
/// fields that it is there to compute, and only if the outcome is of the
/// kind that it yields; every other field stays, and so does the mass.
pub open spec fn apply(body: RigidBody, action: Action, outcome: Outcome) -> RigidBody {
    match (action, outcome) {
        (Action::ApplyForce { .. }, Outcome::LinearVelocity(velocity)) => RigidBody {
            linear_velocity: velocity,
            ..body
        },
        (Action::ApplyGravity { .. }, Outcome::LinearVelocity(velocity)) => RigidBody {
            linear_velocity: velocity,
            ..body
        },
        (Action::Translate { .. }, Outcome::Position(position)) => RigidBody { position, ..body },
        (Action::Rotate { .. }, Outcome::Orientation(orientation)) => RigidBody {
            orientation,
            ..body
        },
        (Action::CorrectPosition { .. }, Outcome::Position(position)) => RigidBody {
            position,
            ..body
        },
        (Action::DampVelocity { .. }, Outcome::Velocities { linear, angular }) => RigidBody {
            linear_velocity: linear,
            angular_velocity: angular,
            ..body
        },
        _ => body,
    }
}

/// The outcome is a number above the threshold.
pub open spec fn is_above(outcome: Outcome, threshold: Scalar) -> bool {
    outcome matches Outcome::Measured(measured) && measured.gt(threshold)
}

impl Stage {
    /// The actions that this stage hands out on `body`.
    pub open spec fn actions(self, body: RigidBody, host: Host) -> Seq<Action> {
        match self {
            Stage::Always { action } => seq![action],
            Stage::Guarded { measure, threshold, correction } => if is_above(
                host(body, measure),
                threshold,
            ) {
                seq![measure, correction]
            } else {
                seq![measure]
            },
        }
    }

    /// The body after this stage.
    pub open spec fn result(self, body: RigidBody, host: Host) -> RigidBody {
        match self {
            Stage::Always { action } => apply(body, action, host(body, action)),
            Stage::Guarded { measure, threshold, correction } => if is_above(
                host(body, measure),
                threshold,
            ) {
                apply(body, correction, host(body, correction))
            } else {
                body
            },
        }
    }
}

/// The body after all stages of a plan, each on what the one before left.
pub open spec fn run(stages: Seq<Stage>, body: RigidBody, host: Host) -> RigidBody
    decreases stages.len(),
{
    if stages.len() == 0 {
        body
    } else {
        run(stages.drop_first(), stages[0].result(body, host), host)
    }
}

/// The actions handed out over all stages of a plan.
pub open spec fn actions(stages: Seq<Stage>, body: RigidBody, host: Host) -> Seq<Action>
    decreases stages.len(),
{
    if stages.len() == 0 {
        Seq::empty()
    } else {
        stages[0].actions(body, host) + actions(
            stages.drop_first(),
            stages[0].result(body, host),
            host,
        )
    }
}

/// Hands out the first action of the stages that remain.
pub open spec fn hand_out(remaining: Seq<Stage>) -> (Seq<Stage>, Pending, Option<Action>) {
    if remaining.len() == 0 {
        (remaining, Pending::Nothing, None)
    } else {
        match remaining[0] {
            Stage::Always { action } => (remaining.drop_first(), Pending::Act(action), Some(action)),
            Stage::Guarded { measure, .. } => (remaining, Pending::Measure, Some(measure)),
        }
    }
}

/// One move of a walk: what becomes of the outcome brought, and what is
/// handed out next.
///
/// `remaining` are the stages not yet finished. The result is the stages
/// that remain after the move, where the walk then stands, the body, and
/// the action handed out, or `None` at the end of the plan.
///
/// The outcome of an action goes into the body. The outcome of a
/// measurement decides: above the threshold the correction is handed out.
/// In every other case the walk goes on to the next stage.
pub open spec fn transition(
    remaining: Seq<Stage>,
    pending: Pending,
    body: RigidBody,
    outcome: Outcome,
) -> (Seq<Stage>, Pending, RigidBody, Option<Action>) {
    match pending {
        Pending::Nothing => {
            let (rest, next, handed) = hand_out(remaining);
            (rest, next, body, handed)
        },
        Pending::Act(action) => {
            let (rest, next, handed) = hand_out(remaining);
            (rest, next, apply(body, action, outcome), handed)
        },
        Pending::Measure => {
            let stage = remaining[0];
            if stage is Guarded && is_above(outcome, stage->threshold) {
                (
                    remaining.drop_first(),
                    Pending::Act(stage->correction),
                    body,
                    Some(stage->correction),
                )
            } else {
                let (rest, next, handed) = hand_out(remaining.drop_first());
                (rest, next, body, handed)
            }
        },
    }
}

/// A walk through a plan.
///
/// The host calls [`Walk::next`] until it returns `None`, computes what each
/// action asks for, and brings the outcome to the following call.
#[derive(Debug)]
pub struct Walk {
    stages: Vec<Stage>,
    done: usize,
    pending: Pending,
}

impl Walk {
    #[verifier::type_invariant]
    spec fn inv(self) -> bool {
        &&& self.done <= self.stages@.len()
        &&& self.pending is Measure ==> self.done < self.stages@.len()
            && self.stages@[self.done as int] is Guarded
    }

    /// The stages not yet finished.
    pub closed spec fn remaining(self) -> Seq<Stage> {
        self.stages@.skip(self.done as int)
    }

    /// Where the walk stands.
    pub closed spec fn pending(self) -> Pending {
        self.pending
    }

    /// A walk at the start of the given plan.
    pub fn new(stages: Vec<Stage>) -> (walk: Walk)
        ensures
            walk.remaining() == stages@,
            walk.pending() == Pending::Nothing,
    {
        let walk = Walk { stages, done: 0, pending: Pending::Nothing };
        assert(walk.stages@.skip(0) =~= walk.stages@);
        walk
    }

    /// Puts the outcome of the action handed out last into `body`, or
    /// decides on it, and hands out the next action; `None` when the plan is
    /// finished. To the first call the host brings `Outcome::Nothing`.
    pub fn next(&mut self, body: &mut RigidBody, outcome: Outcome) -> (action: Option<Action>)
        ensures
            (final(self).remaining(), final(self).pending(), *final(body), action) == transition(
                old(self).remaining(),
                old(self).pending(),
                *old(body),
                outcome,
            ),
    {
        proof {
            use_type_invariant(&*self);
        }
        let ghost before = self.stages@.skip(self.done as int);
        let len = self.stages.len();
        match self.pending {
            Pending::Nothing => {},
            Pending::Act(action) => {
                put(body, action, outcome);
            },
            Pending::Measure => {
                assert(before[0] == self.stages@[self.done as int]);
                let stage = self.stages[self.done];
                self.pending = Pending::Nothing;
                self.done = self.done + 1;
                assert(self.stages@.skip(self.done as int) =~= before.drop_first());
                if let Stage::Guarded { measure: _, threshold, correction } = stage {
                    if let Outcome::Measured(measured) = outcome {
                        if measured.exceeds(threshold) {
                            self.pending = Pending::Act(correction);
                            return Some(correction);
                        }
                    }
                }
            },
        }
        let ghost rest = self.stages@.skip(self.done as int);
        if self.done >= len {
            self.pending = Pending::Nothing;
            assert(rest.len() == 0);
            return None;
        }
        assert(rest[0] == self.stages@[self.done as int]);
        match self.stages[self.done] {
            Stage::Always { action } => {
                self.done = self.done + 1;
                self.pending = Pending::Act(action);
                assert(self.stages@.skip(self.done as int) =~= rest.drop_first());
                Some(action)
            },
            Stage::Guarded { measure, threshold: _, correction: _ } => {
                self.pending = Pending::Measure;
                Some(measure)
            },
        }
    }
}

/// Puts the outcome of an action into the body.
fn put(body: &mut RigidBody, action: Action, outcome: Outcome)
    ensures
        *final(body) == apply(*old(body), action, outcome),
{
    match (action, outcome) {
        (Action::ApplyForce { force: _, dt: _ }, Outcome::LinearVelocity(velocity)) => {
            body.linear_velocity = velocity;
        },
        (Action::ApplyGravity { dt: _ }, Outcome::LinearVelocity(velocity)) => {
            body.linear_velocity = velocity;
        },
        (Action::Translate { dt: _ }, Outcome::Position(position)) => {
            body.position = position;
        },
        (Action::Rotate { dt: _ }, Outcome::Orientation(orientation)) => {
            body.orientation = orientation;
        },
        (Action::CorrectPosition { strength: _ }, Outcome::Position(position)) => {
            body.position = position;
        },
        (
            Action::DampVelocity { damping: _, angular_scale: _ },
            Outcome::Velocities { linear, angular },
        ) => {
            body.linear_velocity = linear;
            body.angular_velocity = angular;
        },
        _ => {},
    }
}

/// What the host brings to the next call of a walk that stands at
/// `pending`, on `body`.
pub open spec fn answer(remaining: Seq<Stage>, pending: Pending, body: RigidBody, host: Host) -> Outcome {
    match pending {
        Pending::Nothing => Outcome::Nothing,
        Pending::Act(action) => host(body, action),
        Pending::Measure => host(body, remaining[0]->measure),
    }
}

/// A walk taken to its end by a host that answers every action: the actions
/// handed out on the way, and the body at the end.
pub open spec fn walk_to_end(remaining: Seq<Stage>, pending: Pending, body: RigidBody, host: Host) -> (
    Seq<Action>,
    RigidBody,
)
    decreases remaining.len(), (if pending is Measure { 0nat } else { 1nat }),
{
    if pending is Measure && (remaining.len() == 0 || !(remaining[0] is Guarded)) {
        (Seq::empty(), body)
    } else {
        let (rest, next, moved, handed) = transition(
            remaining,
            pending,
            body,
            answer(remaining, pending, body, host),
        );
        match handed {
            None => (Seq::empty(), moved),
            Some(action) => {
                let (later, last) = walk_to_end(rest, next, moved, host);
                (seq![action] + later, last)
            },
        }
    }
}

/// What a walk that waits for a measurement comes to: the correction if the
/// number exceeds the threshold, then the stages after.
pub open spec fn walk_after_measure(remaining: Seq<Stage>, body: RigidBody, host: Host) -> (
    Seq<Action>,
    RigidBody,
) {
    let stage = remaining[0];
    let after = stage.result(body, host);
    (
        stage.actions(body, host).drop_first() + actions(remaining.drop_first(), after, host),
        run(remaining.drop_first(), after, host),
    )
}

/// A walk taken to its end hands out the actions of its plan and leaves the
/// body that the plan comes to: stage by stage, each measurement, and after
/// it the correction exactly when the number measured exceeds the stage's
/// threshold.
pub proof fn lemma_walk_follows_plan(remaining: Seq<Stage>, pending: Pending, body: RigidBody, host: Host)
    requires
        pending is Measure ==> remaining.len() > 0 && remaining[0] is Guarded,
    ensures
        pending is Nothing ==> walk_to_end(remaining, pending, body, host) == (
            actions(remaining, body, host),
            run(remaining, body, host),
        ),
        pending matches Pending::Act(action) ==> walk_to_end(remaining, pending, body, host) == (
            actions(remaining, apply(body, action, host(body, action)), host),
            run(remaining, apply(body, action, host(body, action)), host),
        ),
        pending is Measure ==> walk_to_end(remaining, pending, body, host) == walk_after_measure(
            remaining,
            body,
            host,
        ),
    decreases remaining.len(), (if pending is Measure { 0nat } else { 1nat }),
{
    let (rest, next, moved, handed) = transition(
        remaining,
        pending,
        body,
        answer(remaining, pending, body, host),
    );
    if handed is Some {
        lemma_walk_follows_plan(rest, next, moved, host);
    }
    match pending {
        Pending::Measure => {
            let stage = remaining[0];
            let later = remaining.drop_first();
            if is_above(host(body, stage->measure), stage->threshold) {
                assert(stage.actions(body, host).drop_first() =~= seq![stage->correction]);
            } else {
                assert(stage.actions(body, host).drop_first() =~= Seq::<Action>::empty());
                lemma_handing_out(later, body, host);
            }
        },
        Pending::Act(action) => {
            lemma_handing_out(remaining, apply(body, action, host(body, action)), host);
        },
        Pending::Nothing => {
            lemma_handing_out(remaining, body, host);
        },
    }
}

/// The plan's actions and result, split at the action that is handed out
/// first.
proof fn lemma_handing_out(remaining: Seq<Stage>, body: RigidBody, host: Host)
    ensures
        remaining.len() == 0 ==> actions(remaining, body, host) == Seq::<Action>::empty() && run(
            remaining,
            body,
            host,
        ) == body,
        remaining.len() > 0 && remaining[0] is Always ==> {
            let action = remaining[0]->action;
            let moved = apply(body, action, host(body, action));
            &&& actions(remaining, body, host) == seq![action] + actions(
                remaining.drop_first(),
                moved,
                host,
            )
            &&& run(remaining, body, host) == run(remaining.drop_first(), moved, host)
        },
        remaining.len() > 0 && remaining[0] is Guarded ==> {
            let after = walk_after_measure(remaining, body, host);
            &&& actions(remaining, body, host) == seq![remaining[0]->measure] + after.0
            &&& run(remaining, body, host) == after.1
        },
{
    if remaining.len() > 0 {
        let stage = remaining[0];
        let later = actions(remaining.drop_first(), stage.result(body, host), host);
        match stage {
            Stage::Always { action } => {},
            Stage::Guarded { measure, .. } => {
                assert(stage.actions(body, host) =~= seq![measure] + stage.actions(
                    body,
                    host,
                ).drop_first());
                assert(stage.actions(body, host) + later =~= seq![measure] + (stage.actions(
                    body,
                    host,
                ).drop_first() + later));
            },
        }
    }
}

/// Two plans laid end to end: the second runs on what the first leaves.
pub proof fn lemma_run_concat(first: Seq<Stage>, second: Seq<Stage>, body: RigidBody, host: Host)
    ensures
        run(first + second, body, host) == run(second, run(first, body, host), host),
        actions(first + second, body, host) == actions(first, body, host) + actions(
            second,
            run(first, body, host),
            host,
        ),
    decreases first.len(),
{
    if first.len() == 0 {
        assert(first + second =~= second);
        assert(actions(first, body, host) + actions(second, body, host) =~= actions(
            second,
            body,
            host,
        ));
    } else {
        let after = first[0].result(body, host);
        lemma_run_concat(first.drop_first(), second, after, host);
        assert((first + second).drop_first() =~= first.drop_first() + second);
        assert(actions(first + second, body, host) =~= actions(first, body, host) + actions(
            second,
            run(first, body, host),
            host,
        ));
    }
}

/// A plan of one stage comes to what that stage comes to.
pub proof fn lemma_run_single(stage: Stage, body: RigidBody, host: Host)
    ensures
        run(seq![stage], body, host) == stage.result(body, host),
        actions(seq![stage], body, host) == stage.actions(body, host),
{
    let stages = seq![stage];
    reveal_with_fuel(run, 2);
    reveal_with_fuel(actions, 2);
    assert(stages.drop_first().len() == 0);
    assert(actions(stages, body, host) =~= stage.actions(body, host));
}

/// Whatever the plan and whatever the host brings, the mass stays.
pub proof fn lemma_mass_is_kept(stages: Seq<Stage>, body: RigidBody, host: Host)
    ensures
        run(stages, body, host).mass == body.mass,
    decreases stages.len(),
{
    if stages.len() > 0 {
        lemma_mass_is_kept(stages.drop_first(), stages[0].result(body, host), host);
    }
}

/// A walk ends: a plan hands out at least one action for each of its stages
/// and at most two.
pub proof fn lemma_walk_is_short(stages: Seq<Stage>, body: RigidBody, host: Host)
    ensures
        stages.len() <= actions(stages, body, host).len() <= 2 * stages.len(),
    decreases stages.len(),
{
    if stages.len() > 0 {
        lemma_walk_is_short(stages.drop_first(), stages[0].result(body, host), host);
    }
}

} // verus!
