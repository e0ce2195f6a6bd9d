use gravity::forces::{accumulate, attract, integrate, reset, G_BITS};
use gravity::scalar::ZERO_BITS;
use gravity::{Planet, Scalar, Vector3};

#[derive(Clone, Copy, Debug, PartialEq)]
struct Real(f64);

impl Scalar for Real {
    fn from_bits(bits: u64) -> Self {
        Real(f64::from_bits(bits))
    }

    fn plus(self, rhs: Self) -> Self {
        Real(self.0 + rhs.0)
    }

    fn minus(self, rhs: Self) -> Self {
        Real(self.0 - rhs.0)
    }

    fn times(self, rhs: Self) -> Self {
        Real(self.0 * rhs.0)
    }

    fn over(self, rhs: Self) -> Self {
        Real(self.0 / rhs.0)
    }

    fn negated(self) -> Self {
        Real(-self.0)
    }

    fn root(self) -> Self {
        Real(self.0.sqrt())
    }

    fn equals(self, rhs: Self) -> bool {
        self.0 == rhs.0
    }

    fn less_than(self, rhs: Self) -> bool {
        self.0 < rhs.0
    }
}

fn v(x: f64, y: f64, z: f64) -> Vector3<Real> {
    Vector3::new(Real(x), Real(y), Real(z))
}

fn parts(a: Vector3<Real>) -> (f64, f64, f64) {
    (a.x().0, a.y().0, a.z().0)
}

fn body(name: &str, mass: f64, radius: f64, position: Vector3<Real>, velocity: Vector3<Real>) -> Planet<Real> {
    Planet {
        name: name.to_string(),
        mass: Real(mass),
        radius: Real(radius),
        position,
        velocity,
        acceleration: v(0.0, 0.0, 0.0),
    }
}

const G: f64 = 6.67e-11;

#[test]
fn the_constants_are_the_bit_patterns_of_their_numbers() {
    assert_eq!(G_BITS, 6.67e-11f64.to_bits());
    assert_eq!(ZERO_BITS, 0.0f64.to_bits());
    assert_eq!(Real::from_bits(G_BITS), Real(6.67e-11));
}

#[test]
fn reset_clears_every_acceleration_and_nothing_else() {
    let mut a = body("a", 2.0, 1.0, v(1.0, 2.0, 3.0), v(4.0, 5.0, 6.0));
    a.acceleration = v(7.0, 8.0, 9.0);
    let mut b = body("b", 3.0, 0.5, v(-1.0, 0.0, 0.0), v(0.0, 0.0, 0.0));
    b.acceleration = v(f64::NAN, 1.0, -1.0);
    let mut planets = vec![a, b];
    reset(&mut planets);
    assert_eq!(planets.len(), 2);
    assert_eq!(parts(planets[0].acceleration), (0.0, 0.0, 0.0));
    assert_eq!(parts(planets[1].acceleration), (0.0, 0.0, 0.0));
    assert_eq!(planets[0].name, "a");
    assert_eq!(planets[0].mass, Real(2.0));
    assert_eq!(planets[0].radius, Real(1.0));
    assert_eq!(parts(planets[0].position), (1.0, 2.0, 3.0));
    assert_eq!(parts(planets[0].velocity), (4.0, 5.0, 6.0));
    assert_eq!(planets[1].name, "b");
}

#[test]
fn attract_applies_newtons_law_to_both_bodies() {
    let mut planets = vec![
        body("a", 3.0, 0.0, v(0.0, 0.0, 0.0), v(0.0, 0.0, 0.0)),
        body("b", 5.0, 0.0, v(2.0, 0.0, 0.0), v(0.0, 0.0, 0.0)),
    ];
    attract(&mut planets, 0, 1);
    assert_eq!(parts(planets[0].acceleration), (G * 5.0 / 4.0, 0.0, 0.0));
    assert_eq!(parts(planets[1].acceleration), (-(G * 3.0 / 4.0), 0.0, 0.0));
    assert_eq!(parts(planets[0].position), (0.0, 0.0, 0.0));
    assert_eq!(parts(planets[1].position), (2.0, 0.0, 0.0));
}

#[test]
fn attract_follows_the_formula_operation_by_operation() {
    let pa = (1.0f64, 2.0f64, 3.0f64);
    let pb = (4.0f64, -2.0f64, 0.5f64);
    let (ma, mb) = (7.5f64, 0.25f64);
    let mut planets = vec![
        body("a", ma, 0.0, v(pa.0, pa.1, pa.2), v(0.0, 0.0, 0.0)),
        body("b", mb, 0.0, v(pb.0, pb.1, pb.2), v(0.0, 0.0, 0.0)),
    ];
    planets[0].acceleration = v(0.5, 0.5, 0.5);
    attract(&mut planets, 0, 1);
    let d = (pb.0 - pa.0, pb.1 - pa.1, pb.2 - pa.2);
    let d2 = d.0 * d.0 + d.1 * d.1 + d.2 * d.2;
    let m = d2.sqrt();
    let dir = (d.0 / m, d.1 / m, d.2 / m);
    let sa = G * mb / d2;
    let sb = G * ma / d2;
    assert_eq!(
        parts(planets[0].acceleration),
        (0.5 + dir.0 * sa, 0.5 + dir.1 * sa, 0.5 + dir.2 * sa)
    );
    assert_eq!(
        parts(planets[1].acceleration),
        (0.0 + (-dir.0) * sb, 0.0 + (-dir.1) * sb, 0.0 + (-dir.2) * sb)
    );
}

#[test]
fn attract_gives_equal_and_opposite_forces() {
    let (ma, mb) = (5.97e24f64, 7.35e22f64);
    let mut planets = vec![
        body("a", ma, 0.0, v(1.0e7, -2.0e7, 3.0e6), v(0.0, 0.0, 0.0)),
        body("b", mb, 0.0, v(3.8e8, 1.0e6, -5.0e7), v(0.0, 0.0, 0.0)),
    ];
    attract(&mut planets, 0, 1);
    let fa = parts(planets[0].acceleration * Real(ma));
    let fb = parts(planets[1].acceleration * Real(mb));
    let size = (fa.0 * fa.0 + fa.1 * fa.1 + fa.2 * fa.2).sqrt();
    assert!(size > 0.0);
    assert!((fa.0 + fb.0).abs() <= 1e-12 * size);
    assert!((fa.1 + fb.1).abs() <= 1e-12 * size);
    assert!((fa.2 + fb.2).abs() <= 1e-12 * size);
}

#[test]
fn attract_skips_a_coincident_pair() {
    let mut planets = vec![
        body("a", 3.0, 1.0, v(1.0, 2.0, 3.0), v(0.0, 0.0, 0.0)),
        body("b", 5.0, 1.0, v(1.0, 2.0, 3.0), v(0.0, 0.0, 0.0)),
    ];
    planets[0].acceleration = v(0.25, 0.0, 0.0);
    attract(&mut planets, 0, 1);
    assert_eq!(parts(planets[0].acceleration), (0.25, 0.0, 0.0));
    assert_eq!(parts(planets[1].acceleration), (0.0, 0.0, 0.0));
}

#[test]
fn attract_skips_a_pair_whose_squared_distance_vanishes() {
    let mut planets = vec![
        body("a", 3.0, 1.0, v(0.0, 0.0, 0.0), v(0.0, 0.0, 0.0)),
        body("b", 5.0, 1.0, v(1e-200, 0.0, 0.0), v(0.0, 0.0, 0.0)),
    ];
    attract(&mut planets, 0, 1);
    assert_eq!(parts(planets[0].acceleration), (0.0, 0.0, 0.0));
    assert_eq!(parts(planets[1].acceleration), (0.0, 0.0, 0.0));
}

#[test]
fn attract_leaves_the_other_bodies_alone() {
    let mut planets = vec![
        body("a", 3.0, 0.0, v(0.0, 0.0, 0.0), v(0.0, 0.0, 0.0)),
        body("b", 5.0, 0.0, v(2.0, 0.0, 0.0), v(0.0, 0.0, 0.0)),
        body("c", 7.0, 0.0, v(0.0, 9.0, 0.0), v(0.0, 0.0, 0.0)),
    ];
    attract(&mut planets, 0, 2);
    assert_eq!(parts(planets[1].acceleration), (0.0, 0.0, 0.0));
    assert_eq!(parts(planets[0].acceleration), (0.0, G * 7.0 / 81.0, 0.0));
    assert_eq!(parts(planets[2].acceleration), (0.0, -(G * 3.0 / 81.0), 0.0));
}

#[test]
fn accumulate_visits_every_pair_once_in_index_order() {
    let masses = [3.0f64, 5.0, 7.0];
    let xs = [0.0f64, 1.0, 3.0];
    let mut planets = vec![
        body("a", masses[0], 0.0, v(xs[0], 0.0, 0.0), v(0.0, 0.0, 0.0)),
        body("b", masses[1], 0.0, v(xs[1], 0.0, 0.0), v(0.0, 0.0, 0.0)),
        body("c", masses[2], 0.0, v(xs[2], 0.0, 0.0), v(0.0, 0.0, 0.0)),
    ];
    accumulate(&mut planets);
    let pull = |from: usize, on: usize| -> f64 {
        let (lo, hi) = if on < from { (on, from) } else { (from, on) };
        let d = xs[hi] - xs[lo];
        let d2 = d * d + 0.0 * 0.0 + 0.0 * 0.0;
        let dir = d / d2.sqrt();
        if on < from {
            dir * (G * masses[from] / d2)
        } else {
            (-dir) * (G * masses[from] / d2)
        }
    };
    assert_eq!(planets[0].acceleration.x().0, (0.0 + pull(1, 0)) + pull(2, 0));
    assert_eq!(planets[1].acceleration.x().0, (0.0 + pull(0, 1)) + pull(2, 1));
    assert_eq!(planets[2].acceleration.x().0, (0.0 + pull(0, 2)) + pull(1, 2));
    assert!(planets[0].acceleration.x().0 > 0.0);
    assert!(planets[2].acceleration.x().0 < 0.0);
}

#[test]
fn accumulate_adds_to_the_acceleration_that_is_there() {
    let mut planets = vec![
        body("a", 3.0, 0.0, v(0.0, 0.0, 0.0), v(0.0, 0.0, 0.0)),
        body("b", 5.0, 0.0, v(0.0, 0.0, 2.0), v(0.0, 0.0, 0.0)),
    ];
    planets[0].acceleration = v(1.0, 1.0, 1.0);
    accumulate(&mut planets);
    assert_eq!(parts(planets[0].acceleration), (1.0, 1.0, 1.0 + G * 5.0 / 4.0));
}

#[test]
fn accumulate_on_one_body_or_none_does_nothing() {
    let mut none: Vec<Planet<Real>> = Vec::new();
    accumulate(&mut none);
    assert_eq!(none.len(), 0);
    let mut one = vec![body("a", 3.0, 1.0, v(1.0, 2.0, 3.0), v(4.0, 5.0, 6.0))];
    accumulate(&mut one);
    assert_eq!(parts(one[0].acceleration), (0.0, 0.0, 0.0));
    assert_eq!(parts(one[0].position), (1.0, 2.0, 3.0));
}

#[test]
fn coincident_bodies_get_a_finite_acceleration() {
    let mut planets = vec![
        body("a", 5.0e10, 1.0, v(4.0, 4.0, 4.0), v(0.0, 0.0, 0.0)),
        body("b", 7.0e10, 1.0, v(4.0, 4.0, 4.0), v(0.0, 0.0, 0.0)),
    ];
    reset(&mut planets);
    accumulate(&mut planets);
    for planet in planets.iter() {
        let (x, y, z) = parts(planet.acceleration);
        assert!(x.is_finite() && y.is_finite() && z.is_finite());
        assert_eq!((x, y, z), (0.0, 0.0, 0.0));
    }
}

#[test]
fn integrate_moves_by_the_new_velocity() {
    let mut a = body("a", 1.0, 1.0, v(10.0, 20.0, 30.0), v(1.0, 2.0, 3.0));
    a.acceleration = v(0.5, -2.0, 0.0);
    let mut planets = vec![a, body("b", 1.0, 1.0, v(0.0, 0.0, 0.0), v(-1.0, 0.0, 0.0))];
    integrate(&mut planets);
    assert_eq!(parts(planets[0].velocity), (1.5, 0.0, 3.0));
    assert_eq!(parts(planets[0].position), (11.5, 20.0, 33.0));
    assert_eq!(parts(planets[0].acceleration), (0.5, -2.0, 0.0));
    assert_eq!(parts(planets[1].velocity), (-1.0, 0.0, 0.0));
    assert_eq!(parts(planets[1].position), (-1.0, 0.0, 0.0));
    assert_eq!(planets[0].name, "a");
    assert_eq!(planets[0].mass, Real(1.0));
}

#[test]
fn the_light_body_is_pulled_toward_the_heavy_one() {
    let mut planets = vec![
        body("heavy", 5.97e24, 6.4e6, v(0.0, 0.0, 0.0), v(0.0, 0.0, 0.0)),
        body("light", 1.0, 1.0, v(1.5e8, 0.0, 0.0), v(0.0, 29780.0, 0.0)),
    ];
    reset(&mut planets);
    accumulate(&mut planets);
    let expected = G * 5.97e24 / (1.5e8f64 * 1.5e8);
    let got = planets[1].acceleration.magnitude().0;
    assert!((got - expected).abs() <= 1e-12 * expected);
    assert_eq!(planets[1].acceleration.x().0, -expected);
    assert_eq!(planets[1].acceleration.y().0, 0.0);
    assert!(planets[0].acceleration.magnitude().0 < 1e-26);
}
