use rigid_rk::rigid_body::{
    inverse_principal, inverse_symmetric, newton_euler_dynamics, newtonian_gravity, RigidBody,
};
use rigid_rk::runge_kutta::{explicit, RungeKutta};
use rigid_rk::scalar::Scalar;
use rigid_rk::tableau::ButcherTableau;
use rigid_rk::two_body::{step_constant, tick};
use rigid_rk::vector::{add, dot, mat_vec, scale};

#[derive(Clone, Copy, Debug, PartialEq)]
struct Float(f64);

impl Scalar for Float {
    fn from_ratio_model(num: i64, den: i64) -> Self {
        Float(num as f64 / den as f64)
    }

    fn add_model(self, rhs: Self) -> Self {
        Float(self.0 + rhs.0)
    }

    fn sub_model(self, rhs: Self) -> Self {
        Float(self.0 - rhs.0)
    }

    fn mul_model(self, rhs: Self) -> Self {
        Float(self.0 * rhs.0)
    }

    fn div_model(self, rhs: Self) -> Self {
        Float(self.0 / rhs.0)
    }

    fn sqrt_model(self) -> Self {
        Float(self.0.sqrt())
    }

    fn from_ratio(num: i64, den: i64) -> Self {
        Self::from_ratio_model(num, den)
    }

    fn add(&self, rhs: &Self) -> Self {
        self.add_model(*rhs)
    }

    fn sub(&self, rhs: &Self) -> Self {
        self.sub_model(*rhs)
    }

    fn mul(&self, rhs: &Self) -> Self {
        self.mul_model(*rhs)
    }

    fn div(&self, rhs: &Self) -> Self {
        self.div_model(*rhs)
    }

    fn sqrt(&self) -> Self {
        self.sqrt_model()
    }
}

const G: f64 = 6.67430e-11;

fn v3(x: f64, y: f64, z: f64) -> [Float; 3] {
    [Float(x), Float(y), Float(z)]
}

fn diagonal(a: f64, b: f64, c: f64) -> [[Float; 3]; 3] {
    [v3(a, 0.0, 0.0), v3(0.0, b, 0.0), v3(0.0, 0.0, c)]
}

fn body_at(mass: f64, x: f64) -> RigidBody<Float> {
    RigidBody {
        lin_mass: Float(mass),
        rot_mass: diagonal(1.0, 1.0, 1.0),
        lin_pos: v3(x, 0.0, 0.0),
        lin_vel: v3(0.0, 0.0, 0.0),
        rot_pos: [Float(0.0); 4],
        rot_vel: v3(0.0, 0.0, 0.0),
    }
}

fn close(a: f64, b: f64, tolerance: f64) -> bool {
    (a - b).abs() <= tolerance * (1.0 + a.abs().max(b.abs()))
}

#[test]
fn the_gravitational_constant_is_the_nearest_float() {
    let g = Float::from_ratio(
        rigid_rk::rigid_body::GRAVITATIONAL_NUM,
        rigid_rk::rigid_body::GRAVITATIONAL_DEN,
    );
    assert_eq!(g.0, G);
}

#[test]
fn tableau_weights_sum_to_one_in_floats() {
    for t in [ButcherTableau::explicit_4(), ButcherTableau::explicit_3_8()] {
        let mut sum = 0.0;
        for b in *t.b_table() {
            sum += Float::from_ratio(b.num, b.den).0;
        }
        assert!(close(sum, 1.0, 1.0e-15));
        for i in 0..4 {
            for j in i..4 {
                let a = t.a_table()[i][j];
                assert_eq!(Float::from_ratio(a.num, a.den).0, 0.0);
            }
        }
    }
}

#[test]
fn classical_step_of_exponential_growth_is_fourth_order() {
    let tableau = ButcherTableau::explicit_4();
    let f = |_t: &Float, y: &[Float; 1]| *y;
    let (t, y) = explicit(&Float(0.0), &[Float(1.0)], &f, Float(0.1), &tableau);
    assert_eq!(t, Float(0.1));
    let exact = 0.1f64.exp();
    // The first neglected term of the series is h^5 / 120.
    assert!(y[0].0 < exact);
    assert!(exact - y[0].0 < 1.0e-5 / 120.0 * 1.1);
    assert!(close(y[0].0, 265241.0 / 240000.0, 1.0e-15));
}

#[test]
fn halving_the_step_divides_the_error_by_sixteen() {
    let f = |_t: &Float, y: &[Float; 1]| *y;
    for tableau in [ButcherTableau::explicit_4(), ButcherTableau::explicit_3_8()] {
        let mut errors = [0.0; 2];
        for (e, steps) in errors.iter_mut().zip([10, 20]) {
            let h = Float(1.0 / steps as f64);
            let mut t = Float(0.0);
            let mut y = [Float(1.0)];
            for _ in 0..steps {
                (t, y) = explicit(&t, &y, &f, h, &tableau);
            }
            assert!(close(t.0, 1.0, 1.0e-14));
            *e = (y[0].0 - 1.0f64.exp()).abs();
        }
        let ratio = errors[0] / errors[1];
        assert!(ratio > 14.0 && ratio < 18.0);
    }
}

#[test]
fn constant_derivative_is_integrated_to_rounding() {
    let rate = [Float(1.5), Float(-2.0), Float(0.1)];
    let f = |_t: &Float, _y: &[Float; 3]| rate;
    let y = [Float(1.0), Float(0.25), Float(-7.0)];
    for h in [0.01, 0.5, -0.125, 3.0] {
        for tableau in [ButcherTableau::explicit_4(), ButcherTableau::explicit_3_8()] {
            let (t, next) = explicit(&Float(2.0), &y, &f, Float(h), &tableau);
            assert_eq!(t, Float(2.0 + h));
            for i in 0..3 {
                assert!(close(next[i].0, y[i].0 + h * rate[i].0, 1.0e-15));
            }
        }
    }
}

#[test]
fn harmonic_oscillator_over_one_period() {
    let f = |_t: &Float, y: &[Float; 2]| [y[1], Float(-y[0].0)];
    let rk = RungeKutta::<4, 2>::explicit4();
    let steps = 1000;
    let h = Float(2.0 * std::f64::consts::PI / steps as f64);
    let mut y = [Float(1.0), Float(0.0)];
    for i in 0..steps {
        y = rk.integrate(Float(i as f64 * h.0), h, &y, &f);
    }
    assert!(close(y[0].0, 1.0, 1.0e-9));
    assert!(y[1].0.abs() < 1.0e-9);
}

#[test]
fn not_a_number_is_propagated() {
    let f = |_t: &Float, y: &[Float; 2]| *y;
    let y = [Float(1.0), Float(f64::NAN)];
    let (_, next) = explicit(&Float(0.0), &y, &f, Float(0.1), &ButcherTableau::explicit_4());
    assert!(close(next[0].0, 265241.0 / 240000.0, 1.0e-15));
    assert!(next[1].0.is_nan());
}

#[test]
fn gravity_between_two_unit_masses_in_floats() {
    let body1 = body_at(1.0, -1.0);
    let body2 = body_at(1.0, 1.0);
    // The force on the first body points to the second, toward +x.
    let on_first = newtonian_gravity(&body1, &body2);
    assert_eq!(on_first, v3(G / 4.0, 0.0, 0.0));
    assert!(on_first[0].0 > 0.0);
    // The force on the second body is the negation, toward -x.
    let on_second = scale(&Float(-1.0), &on_first);
    assert!(on_second[0].0 < 0.0 && on_second[1].0 == 0.0 && on_second[2].0 == 0.0);
    assert_eq!(newtonian_gravity(&body2, &body1), v3(-G / 4.0, 0.0, 0.0));
    assert_eq!(on_second[0], Float(-G / 4.0));
    assert!(close(dot(&on_first, &on_first).0.sqrt(), G * 1.0 * 1.0 / 4.0, 1.0e-15));
}

#[test]
fn gravity_at_no_distance_is_not_a_number() {
    let body1 = body_at(1.0, 2.0);
    let body2 = body_at(1.0, 2.0);
    let f = newtonian_gravity(&body1, &body2);
    assert!(f[0].0.is_nan() && f[1].0.is_nan() && f[2].0.is_nan());
}

#[test]
fn acceleration_of_a_body_without_mass_is_not_finite() {
    let body = body_at(0.0, 0.0);
    let zero = v3(0.0, 0.0, 0.0);
    let (lin_acc, _) = newton_euler_dynamics(&body, &v3(1.0, -1.0, 0.0), &zero);
    assert_eq!(lin_acc[0].0, f64::INFINITY);
    assert_eq!(lin_acc[1].0, f64::NEG_INFINITY);
    assert!(lin_acc[2].0.is_nan());
}

#[test]
fn inverses_in_floats() {
    let m = [v3(2.0, 1.0, 0.0), v3(1.0, 3.0, 1.0), v3(0.0, 1.0, 4.0)];
    let inv = inverse_symmetric(&m);
    for j in 0..3 {
        let column = mat_vec(&m, &[inv[0][j], inv[1][j], inv[2][j]]);
        for i in 0..3 {
            assert!((column[i].0 - if i == j { 1.0 } else { 0.0 }).abs() < 1.0e-15);
        }
    }
    let d = diagonal(2.0, 0.5, -8.0);
    assert_eq!(inverse_principal(&d), diagonal(0.5, 2.0, -0.125));
    let s = inverse_symmetric(&d);
    for i in 0..3 {
        for j in 0..3 {
            assert!(close(s[i][j].0, inverse_principal(&d)[i][j].0, 1.0e-15));
        }
    }
    let singular = inverse_symmetric(&[v3(1.0, 2.0, 3.0), v3(2.0, 4.0, 6.0), v3(3.0, 6.0, 9.0)]);
    assert!(!singular[0][0].0.is_finite());
}

#[test]
fn two_bodies_keep_their_total_momentum() {
    for mass in [1.0, 1.0e6] {
        let tableau = ButcherTableau::explicit_4();
        let mut bodies = [body_at(mass, -1.0), body_at(mass, 1.0)];
        let mut time = Float(0.0);
        let mut separation = 2.0;
        for n in 1..=300 {
            let [body1, body2] = &mut bodies;
            time = tick(body1, body2, &time, Float(1.0 / 100.0), &tableau);
            let momentum = add(
                &scale(&bodies[0].lin_mass, &bodies[0].lin_vel),
                &scale(&bodies[1].lin_mass, &bodies[1].lin_vel),
            );
            assert_eq!(momentum, v3(0.0, 0.0, 0.0));
            assert_eq!(bodies[0].lin_pos[0].0, -bodies[1].lin_pos[0].0);
            // The bodies move toward each other.
            assert!(bodies[0].lin_vel[0].0 > 0.0 && bodies[1].lin_vel[0].0 < 0.0);
            let next = bodies[1].lin_pos[0].0 - bodies[0].lin_pos[0].0;
            if n == 1 {
                // They were at rest: the first tick gives them velocity only.
                assert_eq!(next, separation);
            } else {
                assert!(next < separation);
            }
            separation = next;
        }
        assert!(close(time.0, 3.0, 1.0e-13));
        assert!(separation < 2.0);
        // Each body has moved by a * h^2 * (0 + 1 + .. + 299) with
        // a = G m / 4, to first order in a.
        let expected = G * mass / 4.0 * 1.0e-4 * 300.0 * 299.0;
        assert!(((2.0 - separation) - expected).abs() < 1.0e-3 * expected);
    }
}

#[test]
fn torque_free_rotation_keeps_its_energy() {
    let inertia = diagonal(1.0, 2.0, 3.0);
    let energy = |w: &[Float; 3]| 0.5 * dot(w, &mat_vec(&inertia, w)).0;
    let f = |_t: &Float, w: &[Float; 3]| {
        let body = RigidBody {
            lin_mass: Float(1.0),
            rot_mass: inertia,
            lin_pos: v3(0.0, 0.0, 0.0),
            lin_vel: v3(0.0, 0.0, 0.0),
            rot_pos: [Float(0.0); 4],
            rot_vel: *w,
        };
        newton_euler_dynamics(&body, &v3(0.0, 0.0, 0.0), &v3(0.0, 0.0, 0.0)).1
    };
    let tableau = ButcherTableau::explicit_4();
    let mut w = v3(0.3, 1.0, -0.5);
    let start = energy(&w);
    let mut t = Float(0.0);
    for _ in 0..500 {
        (t, w) = explicit(&t, &w, &f, Float(0.01), &tableau);
        assert!(close(energy(&w), start, 1.0e-9));
    }
    // The body did tumble: the angular velocity has changed.
    assert!((w[0].0 - 0.3).abs() > 0.1);
}

#[test]
fn a_tick_steps_position_and_velocity_apart() {
    let tableau = ButcherTableau::explicit_3_8();
    let mut body1 = body_at(2.0e9, -1.0);
    let mut body2 = body_at(4.0e9, 3.0);
    body1.lin_vel = v3(0.5, 1.0, 0.0);
    body2.lin_vel = v3(0.0, -2.0, 0.25);
    body1.rot_vel = v3(1.0, 2.0, 3.0);
    let h = 0.125;
    let time = tick(&mut body1, &mut body2, &Float(10.0), Float(h), &tableau);
    assert_eq!(time, Float(10.125));
    // The positions move along the velocities before the tick.
    assert_eq!(body1.lin_pos, v3(-1.0 + h * 0.5, h * 1.0, 0.0));
    assert_eq!(body2.lin_pos, v3(3.0, h * -2.0, h * 0.25));
    // The velocities change by the force at the positions before the tick.
    let force = G * 2.0e9 * 4.0e9 / 16.0;
    assert!(close(body1.lin_vel[0].0, 0.5 + h * force / 2.0e9, 1.0e-15));
    assert!(close(body2.lin_vel[0].0, 0.0 - h * force / 4.0e9, 1.0e-15));
    assert_eq!([body1.lin_vel[1].0, body1.lin_vel[2].0], [1.0, 0.0]);
    assert_eq!([body2.lin_vel[1].0, body2.lin_vel[2].0], [-2.0, 0.25]);
    // The rest is left as it was.
    assert_eq!(body1.rot_vel, v3(1.0, 2.0, 3.0));
    assert_eq!(body1.rot_pos, [Float(0.0); 4]);
    assert_eq!(body1.lin_mass, Float(2.0e9));
    assert_eq!(body2.lin_mass, Float(4.0e9));
    assert_eq!(body2.rot_mass, diagonal(1.0, 1.0, 1.0));
}

#[test]
fn a_step_along_a_constant() {
    let y = v3(1.0, 2.0, 3.0);
    let rate = v3(-4.0, 0.5, 0.0);
    let (t, next) = step_constant(&Float(1.0), &y, rate, Float(0.5), &ButcherTableau::explicit_4());
    assert_eq!(t, Float(1.5));
    for i in 0..3 {
        assert!(close(next[i].0, y[i].0 + 0.5 * rate[i].0, 1.0e-15));
    }
}
