//! Laws of the simulation, proved from the definitions that the contracts are stated in.
use crate::collisions::{
    collided, lemma_without_none, lemma_without_one_more, overlapping, struck, survivors, touching,
    without,
};
use crate::forces::{
    after_pull, at_rest, attracted, coincident, pull_on_earlier, pull_on_later, pulled, separation,
    strength,
};
use crate::universe::{Planet, State};
use crate::scalar::Scalar;
use crate::vector3::Vector3;
use vstd::prelude::*;
use vstd::set_lib::{lemma_int_range, lemma_len_subset, set_int_range};

verus! {

/// A sub-step never changes the speed, so neither does any number of them.
pub proof fn lemma_speed_is_kept<S: Scalar>(start: State<S>, count: nat)
    ensures
        start.advanced(count).speed == start.speed,
    decreases count,
{
    if count > 0 {
        lemma_speed_is_kept(start, (count - 1) as nat);
    }
}

/// Sub-steps add up: `first + second` sub-steps lead to the state that `second` sub-steps lead to
/// from the state after `first` sub-steps.
pub proof fn lemma_sub_steps_add_up<S: Scalar>(start: State<S>, first: nat, second: nat)
    ensures
        start.advanced(first + second) == start.advanced(first).advanced(second),
    decreases second,
{
    if second > 0 {
        lemma_sub_steps_add_up(start, first, (second - 1) as nat);
        assert(first + second - 1 == first + (second - 1) as nat);
    }
}

/// A tick at speed `k` ends in the state that `k` single sub-steps in a row end in: where each
/// state of a run is the sub-step of the one before it, and the run has as many sub-steps as the
/// speed of its first state says, its last state is the first one ticked.
pub proof fn lemma_tick_is_repeated_sub_step<S: Scalar>(run: Seq<State<S>>)
    requires
        run.len() > 0,
        forall|t: int| 0 < t < run.len() ==> #[trigger] run[t] == run[t - 1].stepped(),
        run[0].speed == run.len() - 1,
    ensures
        run.last() == run[0].ticked(),
{
    lemma_run_follows_sub_steps(run, run.len() - 1);
}

/// In a run of sub-steps the state at position `t` is the first state advanced by `t` sub-steps.
pub proof fn lemma_run_follows_sub_steps<S: Scalar>(run: Seq<State<S>>, t: int)
    requires
        0 <= t < run.len(),
        forall|t: int| 0 < t < run.len() ==> #[trigger] run[t] == run[t - 1].stepped(),
    ensures
        run[t] == run[0].advanced(t as nat),
    decreases t,
{
    if t > 0 {
        lemma_run_follows_sub_steps(run, t - 1);
    }
}

/// Runs that start from the same state end in the same state and show the same snapshot: a tick
/// depends on nothing but the state it starts from.
pub proof fn lemma_runs_agree<S: Scalar>(first: State<S>, second: State<S>)
    requires
        first == second,
    ensures
        first.ticked() == second.ticked(),
        first.ticked().rendered() == second.ticked().rendered(),
{
}

/// The two pulls of a pair lie along one line and point in opposite directions: the earlier body
/// is pulled along the unit vector from it to the later body, the later body along the opposite
/// of that same vector, each scaled by the strength that the mass of the other gives at their
/// squared distance.
pub proof fn lemma_pulls_oppose<S: Scalar>(a: Planet<S>, b: Planet<S>)
    ensures
        pull_on_earlier(a, b) == separation(a, b).unit().scaled(
            strength(b.mass, separation(a, b).squared_length()),
        ),
        pull_on_later(a, b) == separation(a, b).unit().opposite().scaled(
            strength(a.mass, separation(a, b).squared_length()),
        ),
{
}

/// A pair of bodies acts on both of its bodies or on neither: where the two coincide it leaves
/// both accelerations as they are, and otherwise it adds a pull to each.
pub proof fn lemma_pair_acts_on_both_or_neither<S: Scalar>(
    ps: Seq<Planet<S>>,
    i: int,
    j: int,
    on_i: Vector3<S>,
    on_j: Vector3<S>,
)
    requires
        0 <= i < j < ps.len(),
    ensures
        coincident(ps[i], ps[j]) ==> after_pull(ps, i, j, on_i) == on_i && after_pull(ps, j, i, on_j)
            == on_j,
        !coincident(ps[i], ps[j]) ==> after_pull(ps, i, j, on_i) == on_i.plus(
            pull_on_earlier(ps[i], ps[j]),
        ) && after_pull(ps, j, i, on_j) == on_j.plus(pull_on_later(ps[i], ps[j])),
{
}

/// Bodies that all coincide with body `k` leave its acceleration as it was.
pub proof fn lemma_coincident_bodies_exert_nothing<S: Scalar>(ps: Seq<Planet<S>>, k: int, upto: int)
    requires
        0 <= k < ps.len(),
        0 <= upto <= ps.len(),
        forall|m: int| 0 <= m < k ==> #[trigger] coincident(ps[m], ps[k]),
        forall|m: int| k < m < ps.len() ==> #[trigger] coincident(ps[k], ps[m]),
    ensures
        pulled(ps, k, upto) == ps[k].acceleration,
    decreases upto,
{
    if upto > 0 {
        lemma_coincident_bodies_exert_nothing(ps, k, upto - 1);
        let m = upto - 1;
        if m < k {
            assert(coincident(ps[m], ps[k]));
        } else if k < m {
            assert(coincident(ps[k], ps[m]));
        }
    }
}

/// Two bodies at a squared distance of zero end the force phase of a sub-step with an
/// acceleration of zero.
pub proof fn lemma_coincident_pair_stays_at_rest<S: Scalar>(ps: Seq<Planet<S>>)
    requires
        ps.len() == 2,
        coincident(ps[0], ps[1]),
    ensures
        attracted(at_rest(ps)) == at_rest(ps),
        attracted(at_rest(ps))[0].acceleration == Vector3::<S>::origin(),
        attracted(at_rest(ps))[1].acceleration == Vector3::<S>::origin(),
{
    let rest = at_rest(ps);
    assert(coincident(rest[0], rest[1]));
    lemma_coincident_bodies_exert_nothing(rest, 0, 2);
    lemma_coincident_bodies_exert_nothing(rest, 1, 2);
    assert(attracted(rest) =~= rest);
}

/// Two bodies that overlap are both struck, whatever else is in the collection.
pub proof fn lemma_overlapping_pair_is_struck<S: Scalar>(ps: Seq<Planet<S>>, i: int, j: int)
    requires
        0 <= i < j < ps.len(),
        overlapping(ps[i], ps[j]),
    ensures
        struck(ps).contains(i),
        struck(ps).contains(j),
{
    assert(touching(ps, i, j));
    assert(touching(ps, j, i));
}

/// What is left and what was removed make up the whole: the number of items left and the number
/// of indices removed add up to the length.
pub proof fn lemma_without_counts<T>(s: Seq<T>, gone: Set<int>)
    requires
        forall|k: int| gone.contains(k) ==> 0 <= k < s.len(),
    ensures
        gone.finite(),
        without(s, gone).len() + gone.len() == s.len(),
    decreases s.len(),
{
    lemma_int_range(0, s.len() as int);
    assert(gone.subset_of(set_int_range(0, s.len() as int)));
    lemma_len_subset(gone, set_int_range(0, s.len() as int));
    if s.len() == 0 {
        assert(gone =~= Set::<int>::empty());
    } else {
        let top = s.len() - 1;
        let rest = gone.remove(top);
        lemma_without_counts(s.drop_last(), rest);
        lemma_without_ignores_the_rest(s.drop_last(), gone, rest);
        if gone.contains(top) {
            assert(rest.insert(top) =~= gone);
        } else {
            assert(rest =~= gone);
        }
    }
}

/// Only the indices within the sequence matter to what is left of it.
pub proof fn lemma_without_ignores_the_rest<T>(s: Seq<T>, first: Set<int>, second: Set<int>)
    requires
        forall|k: int| 0 <= k < s.len() ==> (first.contains(k) <==> second.contains(k)),
    ensures
        without(s, first) == without(s, second),
    decreases s.len(),
{
    if s.len() > 0 {
        lemma_without_ignores_the_rest(s.drop_last(), first, second);
    }
}

/// The bodies that survive and the bodies struck make up the collection.
pub proof fn lemma_survivors_count<S: Scalar>(ps: Seq<Planet<S>>)
    ensures
        struck(ps).finite(),
        survivors(ps).len() + struck(ps).len() == ps.len(),
{
    lemma_without_counts(ps, struck(ps));
}

/// Where exactly one pair of bodies overlaps, exactly those two are removed: the collection
/// becomes shorter by two, and the others keep their order.
pub proof fn lemma_single_collision<S: Scalar>(ps: Seq<Planet<S>>, i: int, j: int)
    requires
        0 <= i < j < ps.len(),
        overlapping(ps[i], ps[j]),
        forall|a: int, b: int|
            0 <= a < b < ps.len() && #[trigger] overlapping(ps[a], ps[b]) ==> a == i && b == j,
    ensures
        struck(ps) == set![i, j],
        survivors(ps) == ps.remove(j).remove(i),
        survivors(ps).len() == ps.len() - 2,
{
    lemma_overlapping_pair_is_struck(ps, i, j);
    assert forall|k: int| struck(ps).contains(k) implies k == i || k == j by {
        let m = choose|m: int| 0 <= m < ps.len() && #[trigger] touching(ps, k, m);
        if k < m {
            assert(overlapping(ps[k], ps[m]));
        } else {
            assert(overlapping(ps[m], ps[k]));
        }
    }
    assert(struck(ps) =~= set![i, j]);
    let none = Set::<int>::empty();
    lemma_without_none(ps, none);
    lemma_without_one_more(ps, none, j);
    lemma_without_one_more(ps, none.insert(j), i);
    assert(none.insert(j).insert(i) =~= set![i, j]);
}

/// Where no two bodies overlap, the collision phase removes nothing.
pub proof fn lemma_no_collision<S: Scalar>(ps: Seq<Planet<S>>)
    requires
        forall|a: int, b: int| 0 <= a < b < ps.len() ==> !#[trigger] overlapping(ps[a], ps[b]),
    ensures
        survivors(ps) == ps,
{
    assert forall|k: int| 0 <= k < ps.len() implies !struck(ps).contains(k) by {
        if collided(ps, k) {
            let m = choose|m: int| 0 <= m < ps.len() && #[trigger] touching(ps, k, m);
            if k < m {
                assert(overlapping(ps[k], ps[m]));
            } else {
                assert(overlapping(ps[m], ps[k]));
            }
        }
    }
    lemma_without_none(ps, struck(ps));
}

} // verus!
