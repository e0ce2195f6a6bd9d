//! Gravitation: the first three phases of a sub-step.
//!
//! Accelerations are reset, every unordered pair of bodies then pulls on each other once, and
//! finally velocities and positions are advanced by one unit of time.
use crate::scalar::{
    are_equal, deterministic, of_bits, product_of, quotient_of, zero, Scalar, ZERO_BITS,
};
use crate::universe::Planet;
use crate::vector3::Vector3;
use core::ops::Neg;
use vstd::prelude::*;

verus! {

/// The bit pattern of the gravitational constant, 6.67e-11.
pub const G_BITS: u64 = 0x3DD2_5598_616D_D9F1;

/// The gravitational constant.
pub open spec fn gravitational_constant<S: Scalar>() -> S {
    of_bits(G_BITS)
}

/// The body `p` with its acceleration replaced by `a`.
pub open spec fn with_acceleration<S: Scalar>(p: Planet<S>, a: Vector3<S>) -> Planet<S> {
    Planet { acceleration: a, ..p }
}

/// Whether `after` is the body `before` with, at most, another acceleration.
pub open spec fn same_but_acceleration<S: Scalar>(before: Planet<S>, after: Planet<S>) -> bool {
    after == with_acceleration(before, after.acceleration)
}

/// Whether `after` is the body `before` with, at most, another velocity and position.
pub open spec fn same_but_motion<S: Scalar>(before: Planet<S>, after: Planet<S>) -> bool {
    after == (Planet { velocity: after.velocity, position: after.position, ..before })
}

/// Every body with its acceleration set to zero.
pub open spec fn at_rest<S: Scalar>(ps: Seq<Planet<S>>) -> Seq<Planet<S>> {
    Seq::new(ps.len(), |k: int| with_acceleration(ps[k], Vector3::origin()))
}

/// The vector from the earlier body `a` of a pair to the later body `b`.
pub open spec fn separation<S: Scalar>(a: Planet<S>, b: Planet<S>) -> Vector3<S> {
    b.position.minus(a.position)
}

/// Whether two bodies stand at a squared distance of zero. Such a pair exerts no pull.
pub open spec fn coincident<S: Scalar>(a: Planet<S>, b: Planet<S>) -> bool {
    are_equal(separation(a, b).squared_length(), zero())
}

/// The acceleration that a body of mass `mass` causes at the squared distance `distance_sqr`:
/// `G * mass / distance_sqr`.
pub open spec fn strength<S: Scalar>(mass: S, distance_sqr: S) -> S {
    quotient_of(product_of(gravitational_constant(), mass), distance_sqr)
}

/// What the later body `b` of a pair adds to the acceleration of the earlier body `a`: it points
/// from `a` to `b`.
pub open spec fn pull_on_earlier<S: Scalar>(a: Planet<S>, b: Planet<S>) -> Vector3<S> {
    let between = separation(a, b);
    between.unit().scaled(strength(b.mass, between.squared_length()))
}

/// What the earlier body `a` of a pair adds to the acceleration of the later body `b`: it points
/// from `b` to `a`.
pub open spec fn pull_on_later<S: Scalar>(a: Planet<S>, b: Planet<S>) -> Vector3<S> {
    let between = separation(a, b);
    between.unit().opposite().scaled(strength(a.mass, between.squared_length()))
}

/// The acceleration `acc` of body `k` once body `m` has acted on it. A body does not act on
/// itself, nor on one that it coincides with.
pub open spec fn after_pull<S: Scalar>(ps: Seq<Planet<S>>, k: int, m: int, acc: Vector3<S>) -> Vector3<S> {
    if k < m {
        if coincident(ps[k], ps[m]) {
            acc
        } else {
            acc.plus(pull_on_earlier(ps[k], ps[m]))
        }
    } else if m < k {
        if coincident(ps[m], ps[k]) {
            acc
        } else {
            acc.plus(pull_on_later(ps[m], ps[k]))
        }
    } else {
        acc
    }
}

/// The acceleration of body `k` once the bodies before index `upto` have acted on it, one after
/// the other in the order of the collection.
pub open spec fn pulled<S: Scalar>(ps: Seq<Planet<S>>, k: int, upto: int) -> Vector3<S>
    decreases upto,
{
    if upto <= 0 {
        ps[k].acceleration
    } else {
        after_pull(ps, k, upto - 1, pulled(ps, k, upto - 1))
    }
}

/// Every body with the pull of all the others added to its acceleration.
pub open spec fn attracted<S: Scalar>(ps: Seq<Planet<S>>) -> Seq<Planet<S>> {
    Seq::new(ps.len(), |k: int| with_acceleration(ps[k], pulled(ps, k, ps.len() as int)))
}

/// The body `p` one unit of time later: its velocity grows by its acceleration, then its
/// position by the new velocity.
pub open spec fn moved<S: Scalar>(p: Planet<S>) -> Planet<S> {
    let velocity = p.velocity.plus(p.acceleration);
    Planet { velocity, position: p.position.plus(velocity), ..p }
}

/// Every body one unit of time later.
pub open spec fn integrated<S: Scalar>(ps: Seq<Planet<S>>) -> Seq<Planet<S>> {
    Seq::new(ps.len(), |k: int| moved(ps[k]))
}

/// Sets the acceleration of every body to zero.
pub fn reset<S: Scalar>(planets: &mut Vec<Planet<S>>)
    ensures
        final(planets)@.len() == old(planets)@.len(),
        forall|k: int|
            0 <= k < old(planets)@.len() ==> same_but_acceleration(
                old(planets)@[k],
                #[trigger] final(planets)@[k],
            ),
        deterministic::<S>() ==> final(planets)@ == at_rest(old(planets)@),
{
    let n = planets.len();
    let mut i: usize = 0;
    while i < n
        invariant
            n == planets@.len(),
            n == old(planets)@.len(),
            i <= n,
            forall|k: int| 0 <= k < n ==> same_but_acceleration(old(planets)@[k], #[trigger] planets@[k]),
            deterministic::<S>() ==> forall|k: int|
                0 <= k < i ==> #[trigger] planets@[k] == with_acceleration(
                    old(planets)@[k],
                    Vector3::origin(),
                ),
            forall|k: int| i <= k < n ==> #[trigger] planets@[k] == old(planets)@[k],
        decreases n - i,
    {
        planets[i].acceleration = Vector3::zeroed();
        i += 1;
    }
    assert(deterministic::<S>() ==> planets@ =~= at_rest(old(planets)@));
}

/// Lets the bodies at `i` and `j`, `i` before `j`, pull on each other: each gains the pull of the
/// other, in opposite directions along the line between them. A pair at a squared distance of
/// zero is left as it is.
pub fn attract<S: Scalar>(planets: &mut Vec<Planet<S>>, i: usize, j: usize)
    requires
        i < j < old(planets)@.len(),
    ensures
        final(planets)@.len() == old(planets)@.len(),
        forall|k: int|
            0 <= k < old(planets)@.len() && k != i && k != j ==> #[trigger] final(planets)@[k] == old(
                planets,
            )@[k],
        same_but_acceleration(old(planets)@[i as int], final(planets)@[i as int]),
        same_but_acceleration(old(planets)@[j as int], final(planets)@[j as int]),
        deterministic::<S>() ==> final(planets)@[i as int] == with_acceleration(
            old(planets)@[i as int],
            after_pull(old(planets)@, i as int, j as int, old(planets)@[i as int].acceleration),
        ),
        deterministic::<S>() ==> final(planets)@[j as int] == with_acceleration(
            old(planets)@[j as int],
            after_pull(old(planets)@, j as int, i as int, old(planets)@[j as int].acceleration),
        ),
{
    let between = planets[j].position - planets[i].position;
    let distance_sqr = between.magnitude_sqr();
    if !distance_sqr.equals(S::from_bits(ZERO_BITS)) {
        let direction = between.normalized();
        let g = S::from_bits(G_BITS);
        let on_earlier = direction * g.times(planets[j].mass).over(distance_sqr);
        let on_later = direction.neg() * g.times(planets[i].mass).over(distance_sqr);
        planets[i].acceleration = planets[i].acceleration + on_earlier;
        planets[j].acceleration = planets[j].acceleration + on_later;
    }
}

/// How many bodies have acted on body `k` when the pairs before `(i, j)` have been visited.
pub open spec fn acted<S: Scalar>(ps: Seq<Planet<S>>, i: int, j: int, k: int) -> int {
    if k < i {
        ps.len() as int
    } else if k == i {
        j
    } else if k < j {
        i + 1
    } else {
        i
    }
}

/// Lets every unordered pair of bodies pull on each other once: the pairs `(i, j)` with `i`
/// before `j` are visited in the order of `i`, then of `j`.
pub fn accumulate<S: Scalar>(planets: &mut Vec<Planet<S>>)
    ensures
        final(planets)@.len() == old(planets)@.len(),
        forall|k: int|
            0 <= k < old(planets)@.len() ==> same_but_acceleration(
                old(planets)@[k],
                #[trigger] final(planets)@[k],
            ),
        deterministic::<S>() ==> final(planets)@ == attracted(old(planets)@),
{
    let n = planets.len();
    let mut i: usize = 0;
    while i < n
        invariant
            n == planets@.len(),
            n == old(planets)@.len(),
            i <= n,
            forall|k: int| 0 <= k < n ==> same_but_acceleration(old(planets)@[k], #[trigger] planets@[k]),
            deterministic::<S>() ==> forall|k: int|
                0 <= k < n ==> #[trigger] planets@[k] == with_acceleration(
                    old(planets)@[k],
                    pulled(old(planets)@, k, acted(old(planets)@, i as int, i as int, k)),
                ),
        decreases n - i,
    {
        let mut j: usize = i + 1;
        proof {
            if deterministic::<S>() {
                assert forall|k: int| 0 <= k < n implies #[trigger] planets@[k] == with_acceleration(
                    old(planets)@[k],
                    pulled(old(planets)@, k, acted(old(planets)@, i as int, j as int, k)),
                ) by {
                    assert(pulled(old(planets)@, i as int, i + 1) == pulled(old(planets)@, i as int, i as int));
                }
            }
        }
        while j < n
            invariant
                n == planets@.len(),
                n == old(planets)@.len(),
                i < j <= n,
                forall|k: int|
                    0 <= k < n ==> same_but_acceleration(old(planets)@[k], #[trigger] planets@[k]),
                deterministic::<S>() ==> forall|k: int|
                    0 <= k < n ==> #[trigger] planets@[k] == with_acceleration(
                        old(planets)@[k],
                        pulled(old(planets)@, k, acted(old(planets)@, i as int, j as int, k)),
                    ),
            decreases n - j,
        {
            let ghost before = planets@;
            attract(planets, i, j);
            proof {
                if deterministic::<S>() {
                    let start = old(planets)@;
                    assert(before[i as int].acceleration == pulled(start, i as int, j as int));
                    assert(before[j as int].acceleration == pulled(start, j as int, i as int));
                    assert forall|k: int| 0 <= k < n implies #[trigger] planets@[k] == with_acceleration(
                        start[k],
                        pulled(start, k, acted(start, i as int, j + 1, k)),
                    ) by {
                        if k != i && k != j {
                            assert(planets@[k] == before[k]);
                        }
                    }
                }
            }
            j += 1;
        }
        i += 1;
    }
    assert(deterministic::<S>() ==> planets@ =~= attracted(old(planets)@));
}

/// Advances every body by one unit of time: its velocity by its acceleration, then its position
/// by the new velocity.
pub fn integrate<S: Scalar>(planets: &mut Vec<Planet<S>>)
    ensures
        final(planets)@.len() == old(planets)@.len(),
        forall|k: int|
            0 <= k < old(planets)@.len() ==> same_but_motion(old(planets)@[k], #[trigger] final(planets)@[k]),
        deterministic::<S>() ==> final(planets)@ == integrated(old(planets)@),
{
    let n = planets.len();
    let mut i: usize = 0;
    while i < n
        invariant
            n == planets@.len(),
            n == old(planets)@.len(),
            i <= n,
            forall|k: int| 0 <= k < n ==> same_but_motion(old(planets)@[k], #[trigger] planets@[k]),
            deterministic::<S>() ==> forall|k: int| 0 <= k < i ==> #[trigger] planets@[k] == moved(old(planets)@[k]),
            forall|k: int| i <= k < n ==> #[trigger] planets@[k] == old(planets)@[k],
        decreases n - i,
    {
        planets[i].velocity = planets[i].velocity + planets[i].acceleration;
        planets[i].position = planets[i].position + planets[i].velocity;
        i += 1;
    }
    assert(deterministic::<S>() ==> planets@ =~= integrated(old(planets)@));
}

} // verus!
