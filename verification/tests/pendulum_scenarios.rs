use glam::{Quat, Vec3};
use pendulum_core::clock::FixedStepAccumulator;
use pendulum_core::pendulum::{HingeConstraint, PendulumSystem, Share};
use pendulum_core::physics::RigidBody;
use pendulum_core::scalar::Scalar;
use pendulum_core::schedule::{Action, Outcome, Stage, Walk};
use pendulum_core::vector::{Quaternion, Vector3};

const TIMESTEP: f32 = 1.0 / 120.0;

fn scalar(x: f32) -> Scalar {
    Scalar::from_bits(x.to_bits())
}

fn share(x: f32) -> Share {
    Share::new(scalar(x)).unwrap()
}

fn number(s: Scalar) -> f32 {
    f32::from_bits(s.to_bits())
}

fn vector(v: Vec3) -> Vector3 {
    Vector3::from_bits(v.to_array().map(f32::to_bits))
}

fn vec3(v: Vector3) -> Vec3 {
    Vec3::from_array(v.to_bits().map(f32::from_bits))
}

fn quaternion(q: Quat) -> Quaternion {
    Quaternion::from_bits(q.to_array().map(f32::to_bits))
}

fn quat(q: Quaternion) -> Quat {
    Quat::from_array(q.to_bits().map(f32::from_bits))
}

fn anchor_error(system: &PendulumSystem) -> Vec3 {
    let body = &system.body;
    let world_anchor =
        vec3(body.position) + quat(body.orientation) * vec3(system.constraint.local_anchor());
    vec3(system.constraint.anchor()) - world_anchor
}

fn attachment_velocity(system: &PendulumSystem) -> (Vec3, Vec3) {
    let body = &system.body;
    let r = quat(body.orientation) * vec3(system.constraint.local_anchor());
    (r, vec3(body.linear_velocity) + vec3(body.angular_velocity).cross(r))
}

/// Computes what an action asks for, with the arithmetic of glam.
fn compute(system: &PendulumSystem, action: Action) -> Outcome {
    let body = &system.body;
    let mass = number(body.mass.get());
    match action {
        Action::ApplyForce { force, dt } => Outcome::LinearVelocity(vector(
            vec3(body.linear_velocity) + vec3(force) / mass * number(dt),
        )),
        Action::ApplyGravity { dt } => {
            let force = vec3(system.gravity) * mass;
            Outcome::LinearVelocity(vector(
                vec3(body.linear_velocity) + force / mass * number(dt),
            ))
        }
        Action::Translate { dt } => Outcome::Position(vector(
            vec3(body.position) + vec3(body.linear_velocity) * number(dt),
        )),
        Action::MeasureSpin => {
            Outcome::Measured(scalar(vec3(body.angular_velocity).length_squared()))
        }
        Action::Rotate { dt } => {
            let spin = vec3(body.angular_velocity);
            let angle = spin.length() * number(dt);
            let delta = Quat::from_axis_angle(spin.normalize(), angle);
            Outcome::Orientation(quaternion((delta * quat(body.orientation)).normalize()))
        }
        Action::MeasureAnchorError => {
            Outcome::Measured(scalar(anchor_error(system).length_squared()))
        }
        Action::CorrectPosition { strength } => Outcome::Position(vector(
            vec3(body.position) + anchor_error(system) * number(strength),
        )),
        Action::MeasureAttachmentVelocity => {
            Outcome::Measured(scalar(attachment_velocity(system).1.length_squared()))
        }
        Action::DampVelocity { damping, angular_scale } => {
            let (r, velocity) = attachment_velocity(system);
            let correction = r.cross(velocity) * number(damping);
            Outcome::Velocities {
                linear: vector(vec3(body.linear_velocity) - velocity * number(damping)),
                angular: vector(
                    vec3(body.angular_velocity) - correction / mass * number(angular_scale),
                ),
            }
        }
    }
}

/// Takes a walk to its end on the system's body.
fn finish(system: &mut PendulumSystem, mut walk: Walk) -> Vec<Action> {
    let mut done = Vec::new();
    let mut outcome = Outcome::Nothing;
    while let Some(action) = walk.next(&mut system.body, outcome) {
        outcome = compute(system, action);
        done.push(action);
    }
    done
}

fn step(system: &mut PendulumSystem, dt: f32) -> Vec<Action> {
    let walk = system.step(scalar(dt));
    finish(system, walk)
}

fn one(stage: Stage) -> Walk {
    Walk::new(vec![stage])
}

fn integration(dt: f32) -> Walk {
    Walk::new(RigidBody::integrate(scalar(dt)).to_vec())
}

/// A pendulum released from rest at `angle` degrees, its centre of mass
/// `length` from the hinge at the origin.
fn pendulum(length: f32, mass: f32, angle: f32, gravity: Vec3) -> PendulumSystem {
    let mut body = RigidBody::new(scalar(mass)).unwrap();
    let angle = angle.to_radians();
    body.position = vector(Vec3::new(angle.sin() * length, -angle.cos() * length, 0.0));
    body.orientation = quaternion(Quat::from_rotation_z(angle));
    let hinge = HingeConstraint::new(vector(Vec3::ZERO), vector(Vec3::new(0.0, length, 0.0)));
    PendulumSystem::new(body, hinge, vector(gravity))
}

const GRAVITY: Vec3 = Vec3::new(0.0, -9.81, 0.0);

#[test]
fn gravity_alone_accelerates_downwards() {
    let body = RigidBody::new(scalar(1.0)).unwrap();
    let hinge = HingeConstraint::new(vector(Vec3::ZERO), vector(Vec3::ZERO));
    let mut system = PendulumSystem::new(body, hinge, vector(GRAVITY));
    let mass = number(system.body.mass.get());
    let force = vector(vec3(system.gravity) * mass);
    let done = finish(&mut system, one(RigidBody::apply_force(force, scalar(TIMESTEP))));
    assert_eq!(done, vec![Action::ApplyForce { force, dt: scalar(TIMESTEP) }]);
    let velocity = vec3(system.body.linear_velocity);
    assert!((velocity - Vec3::new(0.0, -0.08175, 0.0)).length() < 1.0e-4, "{:?}", velocity);
    assert_eq!(system.body.position, vector(Vec3::ZERO));
    assert_eq!(vec3(system.body.angular_velocity), Vec3::ZERO);
}

#[test]
fn a_force_accelerates_by_its_share_of_the_mass() {
    let body = RigidBody::new(scalar(4.0)).unwrap();
    let hinge = HingeConstraint::new(vector(Vec3::ZERO), vector(Vec3::ZERO));
    let mut system = PendulumSystem::new(body, hinge, vector(GRAVITY));
    system.body.linear_velocity = vector(Vec3::new(1.0, 1.0, 1.0));
    let force = vector(Vec3::new(8.0, 0.0, -2.0));
    finish(&mut system, one(RigidBody::apply_force(force, scalar(0.5))));
    assert_eq!(vec3(system.body.linear_velocity), Vec3::new(2.0, 1.0, 0.75));
    assert_eq!(system.body.position, vector(Vec3::ZERO));
    assert_eq!(system.body.angular_velocity, vector(Vec3::ZERO));
}

#[test]
fn the_step_applies_gravity_as_a_force() {
    let body = RigidBody::new(scalar(3.0)).unwrap();
    let hinge = HingeConstraint::new(vector(Vec3::ZERO), vector(Vec3::ZERO));
    let mut by_gravity = PendulumSystem::new(body, hinge, vector(GRAVITY));
    let mut by_force = by_gravity;
    let dt = scalar(TIMESTEP);
    finish(&mut by_gravity, one(Stage::Always { action: Action::ApplyGravity { dt } }));
    let force = vector(GRAVITY * 3.0);
    finish(&mut by_force, one(RigidBody::apply_force(force, dt)));
    assert_eq!(by_gravity.body.linear_velocity, by_force.body.linear_velocity);
}

#[test]
fn gravity_accelerates_every_mass_alike() {
    for mass in [0.25, 1.0, 8.0] {
        let body = RigidBody::new(scalar(mass)).unwrap();
        let hinge = HingeConstraint::new(vector(Vec3::ZERO), vector(Vec3::ZERO));
        let mut system = PendulumSystem::new(body, hinge, vector(GRAVITY));
        finish(&mut system, one(Stage::Always { action: Action::ApplyGravity { dt: scalar(0.5) } }));
        let velocity = vec3(system.body.linear_velocity);
        assert!((velocity - Vec3::new(0.0, -4.905, 0.0)).length() < 1.0e-5, "{:?}", velocity);
    }
}

#[test]
fn integration_without_spin_keeps_the_orientation() {
    for dt in [0.0, TIMESTEP, 1.0, 1.0e6] {
        let mut system = pendulum(2.0, 1.0, 55.0, GRAVITY);
        system.body.linear_velocity = vector(Vec3::new(1.0, 2.0, 3.0));
        let before = system.body;
        let walk = integration(dt);
        let done = finish(&mut system, walk);
        assert_eq!(done, vec![Action::Translate { dt: scalar(dt) }, Action::MeasureSpin]);
        assert_eq!(system.body.orientation, before.orientation);
        assert_eq!(system.body.linear_velocity, before.linear_velocity);
        assert_eq!(system.body.angular_velocity, before.angular_velocity);
        let moved = vec3(before.position) + Vec3::new(1.0, 2.0, 3.0) * dt;
        assert_eq!(vec3(system.body.position), moved);
    }
}

#[test]
fn integration_below_the_threshold_keeps_the_orientation() {
    let mut system = pendulum(2.0, 1.0, 55.0, GRAVITY);
    system.body.angular_velocity = vector(Vec3::new(0.0, 0.0, 9.0e-4));
    let before = system.body.orientation;
    let walk = integration(1.0);
    finish(&mut system, walk);
    assert_eq!(system.body.orientation, before);
}

#[test]
fn integration_with_spin_turns_about_the_axis() {
    let mut system = pendulum(2.0, 1.0, 0.0, GRAVITY);
    system.body.angular_velocity = vector(Vec3::new(0.0, 0.0, std::f32::consts::FRAC_PI_2));
    let walk = integration(1.0);
    let done = finish(&mut system, walk);
    assert_eq!(done.len(), 3);
    let turned = quat(system.body.orientation) * Vec3::X;
    assert!((turned - Vec3::Y).length() < 1.0e-5, "{:?}", turned);
}

#[test]
fn orientation_stays_of_unit_length() {
    let mut system = pendulum(2.0, 1.0, 55.0, GRAVITY);
    system.body.angular_velocity = vector(Vec3::new(0.3, -1.1, 2.0));
    for _ in 0..2000 {
        let walk = integration(TIMESTEP);
        finish(&mut system, walk);
        let length = quat(system.body.orientation).length();
        assert!((length - 1.0).abs() < 1.0e-5, "{}", length);
    }
}

#[test]
fn three_position_passes_leave_an_eighth_of_the_error() {
    let mut system = pendulum(2.0, 1.0, 55.0, GRAVITY);
    system.body.position = vector(vec3(system.body.position) + Vec3::new(3.0, -4.0, 12.0));
    let distance = anchor_error(&system).length();
    assert!((distance - 13.0).abs() < 1.0e-4, "{}", distance);
    let orientation = system.body.orientation;
    let mut left = distance;
    for _ in 0..3 {
        let walk = one(HingeConstraint::solve_position(share(0.5)));
        let done = finish(&mut system, walk);
        assert_eq!(done.len(), 2);
        let now = anchor_error(&system).length();
        assert!((now - 0.5 * left).abs() < 1.0e-4, "{} after {}", now, left);
        left = now;
    }
    assert!((left - 0.125 * distance).abs() < 1.0e-4, "{}", left);
    assert_eq!(system.body.orientation, orientation);
    assert_eq!(vec3(system.body.linear_velocity), Vec3::ZERO);
}

#[test]
fn position_pass_leaves_a_negligible_error_alone() {
    let mut system = pendulum(2.0, 1.0, 55.0, GRAVITY);
    system.body.position = vector(vec3(system.body.position) + Vec3::new(5.0e-5, 0.0, 0.0));
    let before = system.body.position;
    let walk = one(HingeConstraint::solve_position(share(0.5)));
    let done = finish(&mut system, walk);
    assert_eq!(done, vec![Action::MeasureAnchorError]);
    assert_eq!(system.body.position, before);
}

#[test]
fn velocity_pass_damps_linear_more_than_angular() {
    let mut system = pendulum(2.0, 1.0, 0.0, GRAVITY);
    system.body.linear_velocity = vector(Vec3::new(1.0, 0.0, 0.0));
    let walk = one(HingeConstraint::solve_velocity(share(0.1)));
    let done = finish(&mut system, walk);
    assert_eq!(done.len(), 2);
    // r = (0, 2, 0), attachment velocity = (1, 0, 0), r x v = (0, 0, -2).
    let linear = vec3(system.body.linear_velocity);
    let angular = vec3(system.body.angular_velocity);
    assert!((linear - Vec3::new(0.9, 0.0, 0.0)).length() < 1.0e-6, "{:?}", linear);
    assert!((angular - Vec3::new(0.0, 0.0, 0.02)).length() < 1.0e-6, "{:?}", angular);
    assert_eq!(vec3(system.body.position), Vec3::new(0.0, -2.0, 0.0));
}

#[test]
fn velocity_pass_leaves_a_body_at_rest_alone() {
    let mut system = pendulum(2.0, 1.0, 55.0, GRAVITY);
    let before = system.body;
    let walk = one(HingeConstraint::solve_velocity(share(0.1)));
    let done = finish(&mut system, walk);
    assert_eq!(done, vec![Action::MeasureAttachmentVelocity]);
    assert_eq!(system.body.linear_velocity, before.linear_velocity);
    assert_eq!(system.body.angular_velocity, before.angular_velocity);
}

#[test]
fn end_to_end_one_second() {
    let mut system = pendulum(2.0, 1.0, 55.0, GRAVITY);
    let start = vec3(system.body.position).y;
    let mut lowest = start;
    for _ in 0..120 {
        step(&mut system, TIMESTEP);
        let length = quat(system.body.orientation).length();
        assert!((length - 1.0).abs() < 1.0e-5, "{}", length);
        let error = anchor_error(&system).length();
        assert!(error < 0.05, "{}", error);
        let position = vec3(system.body.position);
        assert!(position.is_finite());
        assert!((position.length() - 2.0).abs() < 0.05, "{:?}", position);
        lowest = lowest.min(position.y);
    }
    assert!(lowest < start);
    assert!(lowest >= -2.05);
}

#[test]
fn end_to_end_the_pendulum_swings_back() {
    let mut system = pendulum(2.0, 1.0, 55.0, GRAVITY);
    let mut heights = vec![vec3(system.body.position).y];
    for _ in 0..600 {
        step(&mut system, TIMESTEP);
        assert!(anchor_error(&system).length() < 0.05);
        heights.push(vec3(system.body.position).y);
    }
    let falls = heights.windows(2).any(|pair| pair[1] < pair[0]);
    let rises = heights.windows(2).any(|pair| pair[1] > pair[0]);
    assert!(falls && rises);
    let lowest = heights.iter().cloned().fold(f32::INFINITY, f32::min);
    assert!(lowest > -2.05, "{}", lowest);
    assert!(lowest < -1.9, "{}", lowest);
}

#[test]
fn end_to_end_from_off_the_hinge() {
    // The centre of mass starts 2.0 from the hinge, the attachment point is
    // 0.7 from the centre of mass: 1.3 are to be made up.
    let mut system = pendulum(2.0, 1.0, 55.0, GRAVITY);
    system.constraint = HingeConstraint::new(vector(Vec3::ZERO), vector(Vec3::new(0.0, 0.7, 0.0)));
    assert!((anchor_error(&system).length() - 1.3).abs() < 1.0e-5);
    let mut heights = vec![vec3(system.body.position).y];
    for n in 0..120 {
        step(&mut system, TIMESTEP);
        let length = quat(system.body.orientation).length();
        assert!((length - 1.0).abs() < 1.0e-5, "{}", length);
        let error = anchor_error(&system).length();
        if n == 0 {
            // Three passes leave an eighth of the 1.3, and the fall adds to it.
            assert!((error - 0.1625).abs() < 1.0e-3, "{}", error);
        } else {
            assert!(error < 0.05, "{} at {}", error, n);
        }
        heights.push(vec3(system.body.position).y);
    }
    let falls = heights.windows(2).any(|pair| pair[1] < pair[0]);
    let rises = heights.windows(2).any(|pair| pair[1] > pair[0]);
    assert!(falls && rises);
    assert!(heights.iter().all(|y| *y > -2.05));
}

/// Runs frames of `frame` ticks until `ticks` have passed; a sub-step is
/// `period` ticks.
fn simulate(frame: u64, ticks: u64, period: u64) -> (u64, PendulumSystem) {
    let mut system = pendulum(2.0, 1.0, 55.0, GRAVITY);
    let mut clock = FixedStepAccumulator::new(period).unwrap();
    let mut steps = 0;
    let mut passed = 0;
    while passed < ticks {
        for _ in 0..clock.advance(frame) {
            step(&mut system, TIMESTEP);
            steps += 1;
        }
        passed += frame;
    }
    (steps, system)
}

#[test]
fn frame_rate_does_not_change_the_trajectory() {
    // A tick is 1/240 s: frames at 30 a second take 8, frames at 240 take 1.
    let (coarse_steps, coarse) = simulate(8, 480, 2);
    let (fine_steps, fine) = simulate(1, 480, 2);
    assert_eq!(coarse_steps, 240);
    assert_eq!(fine_steps, 240);
    assert_eq!(coarse.body.position, fine.body.position);
    assert_eq!(coarse.body.orientation, fine.body.orientation);
    assert_eq!(coarse.body.linear_velocity, fine.body.linear_velocity);
    assert_eq!(coarse.body.angular_velocity, fine.body.angular_velocity);
}

#[test]
fn frames_that_do_not_fill_a_step_are_carried() {
    // Frames of 3/480 s against sub-steps of 4/480 s.
    let (steps, _) = simulate(3, 480, 4);
    assert_eq!(steps, 120);
}
