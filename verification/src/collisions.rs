//! Collisions: the last two phases of a sub-step.
//!
//! Two bodies collide when their squared distance is below the square of the larger of their
//! radii. Every body that collides with another is removed; nothing is merged.
use crate::forces::separation;
use crate::scalar::{deterministic, is_less, larger, larger_of, product_of, Scalar};
use crate::universe::Planet;
use core::ops::Sub;
use vstd::prelude::*;

verus! {

/// Whether the earlier body `a` of a pair and the later body `b` overlap: their squared distance
/// is below the square of the larger radius.
pub open spec fn overlapping<S: Scalar>(a: Planet<S>, b: Planet<S>) -> bool {
    let reach = larger_of(a.radius, b.radius);
    is_less(separation(a, b).squared_length(), product_of(reach, reach))
}

/// Whether the bodies at `k` and `m` are two different bodies that overlap.
pub open spec fn touching<S: Scalar>(ps: Seq<Planet<S>>, k: int, m: int) -> bool {
    if k < m {
        overlapping(ps[k], ps[m])
    } else if m < k {
        overlapping(ps[m], ps[k])
    } else {
        false
    }
}

/// Whether body `k` overlaps with some other body of the collection.
pub open spec fn collided<S: Scalar>(ps: Seq<Planet<S>>, k: int) -> bool {
    exists|m: int| 0 <= m < ps.len() && #[trigger] touching(ps, k, m)
}

/// The indices of the bodies that overlap with another.
pub open spec fn struck<S: Scalar>(ps: Seq<Planet<S>>) -> Set<int> {
    Set::new(|k: int| 0 <= k < ps.len() && collided(ps, k))
}

/// The sequence `s` without the items whose index is in `gone`; the others keep their order.
pub open spec fn without<T>(s: Seq<T>, gone: Set<int>) -> Seq<T>
    decreases s.len(),
{
    if s.len() == 0 {
        s
    } else if gone.contains(s.len() - 1) {
        without(s.drop_last(), gone)
    } else {
        without(s.drop_last(), gone).push(s.last())
    }
}

/// The indices below `len` that are not in `gone`, in ascending order.
pub open spec fn kept(len: nat, gone: Set<int>) -> Seq<int> {
    without(Seq::new(len, |k: int| k), gone)
}

/// The bodies that overlap with no other, in their order.
pub open spec fn survivors<S: Scalar>(ps: Seq<Planet<S>>) -> Seq<Planet<S>> {
    without(ps, struck(ps))
}

/// Whether a list of indices is strictly ascending, and so free of duplicates.
pub open spec fn ascending(marks: Seq<usize>) -> bool {
    forall|a: int, b: int| 0 <= a < b < marks.len() ==> marks[a] < marks[b]
}

/// The indices that a list holds from position `from` on.
pub open spec fn marked_from(marks: Seq<usize>, from: int) -> Set<int> {
    Set::new(|k: int| exists|a: int| from <= a < marks.len() && #[trigger] marks[a] == k)
}

/// The indices that a list holds.
pub open spec fn marked(marks: Seq<usize>) -> Set<int> {
    marked_from(marks, 0)
}

/// Removing nothing that is there leaves a sequence as it is.
pub proof fn lemma_without_none<T>(s: Seq<T>, gone: Set<int>)
    requires
        forall|k: int| 0 <= k < s.len() ==> !gone.contains(k),
    ensures
        without(s, gone) == s,
    decreases s.len(),
{
    if s.len() > 0 {
        lemma_without_none(s.drop_last(), gone);
        assert(s.drop_last().push(s.last()) =~= s);
    }
}

/// What is left of a sequence are its items at the indices kept, which ascend and avoid `gone`.
pub proof fn lemma_without_picks<T>(s: Seq<T>, gone: Set<int>)
    ensures
        kept(s.len(), gone).len() == without(s, gone).len(),
        forall|k: int|
            0 <= k < without(s, gone).len() ==> {
                let from = #[trigger] kept(s.len(), gone)[k];
                0 <= from < s.len() && !gone.contains(from) && without(s, gone)[k] == s[from]
            },
        forall|a: int, b: int|
            0 <= a < b < without(s, gone).len() ==> kept(s.len(), gone)[a] < kept(s.len(), gone)[b],
    decreases s.len(),
{
    if s.len() > 0 {
        let front = s.drop_last();
        let all = Seq::new(s.len(), |k: int| k);
        assert(all.drop_last() =~= Seq::new(front.len(), |k: int| k));
        lemma_without_picks(front, gone);
        assert(all.last() == s.len() - 1);
    }
}

/// Where every index in `gone` lies above `m`, the items up to `m` stay in place, and removing
/// the item at `m` as well amounts to removing it from what was left.
pub proof fn lemma_without_one_more<T>(s: Seq<T>, gone: Set<int>, m: int)
    requires
        0 <= m < s.len(),
        forall|k: int| gone.contains(k) ==> m < k,
    ensures
        without(s, gone).len() > m,
        forall|a: int| 0 <= a <= m ==> without(s, gone)[a] == s[a],
        without(s, gone.insert(m)) == without(s, gone).remove(m),
    decreases s.len(),
{
    let front = s.drop_last();
    let top = s.len() - 1;
    if top == m {
        lemma_without_none(front, gone);
        lemma_without_none(front, gone.insert(m));
        assert(without(s, gone) == front.push(s.last()));
        assert(front.push(s.last()) =~= s);
        assert(s.remove(m) =~= front);
    } else {
        lemma_without_one_more(front, gone, m);
        let left = without(front, gone);
        if gone.contains(top) {
            assert(without(s, gone) == left);
        } else {
            assert(without(s, gone) == left.push(s.last()));
            assert(left.remove(m).push(s.last()) =~= left.push(s.last()).remove(m));
        }
        assert forall|a: int| 0 <= a <= m implies without(s, gone)[a] == s[a] by {
            assert(left[a] == front[a]);
        }
    }
}

/// Whether the bodies `a` and `b`, `a` before `b`, overlap.
pub fn overlap<S: Scalar>(a: &Planet<S>, b: &Planet<S>) -> (hit: bool)
    ensures
        deterministic::<S>() ==> hit == overlapping(*a, *b),
{
    let distance_sqr = b.position.sub(a.position).magnitude_sqr();
    let radius = larger(a.radius, b.radius);
    distance_sqr.less_than(radius.times(radius))
}

/// The first position of an ascending list at which the index is `k` or above.
pub fn position_of(marks: &Vec<usize>, k: usize) -> (pos: usize)
    requires
        ascending(marks@),
    ensures
        pos <= marks@.len(),
        forall|a: int| 0 <= a < pos ==> marks@[a] < k,
        forall|a: int| pos <= a < marks@.len() ==> marks@[a] >= k,
{
    let mut low: usize = 0;
    let mut high: usize = marks.len();
    while low < high
        invariant
            ascending(marks@),
            low <= high <= marks@.len(),
            forall|a: int| 0 <= a < low ==> marks@[a] < k,
            forall|a: int| high <= a < marks@.len() ==> marks@[a] >= k,
        decreases high - low,
    {
        let middle: usize = low + (high - low) / 2;
        if marks[middle] < k {
            low = middle + 1;
        } else {
            high = middle;
        }
    }
    low
}

/// Adds the index `k` to an ascending list, unless the list holds it already.
pub fn mark(marks: &mut Vec<usize>, k: usize)
    requires
        ascending(old(marks)@),
    ensures
        ascending(final(marks)@),
        marked(final(marks)@) == marked(old(marks)@).insert(k as int),
{
    let pos = position_of(marks, k);
    if pos == marks.len() || marks[pos] != k {
        marks.insert(pos, k);
        proof {
            let before = old(marks)@;
            let after = marks@;
            assert forall|x: int| marked(after).contains(x) <==> marked(before).insert(
                k as int,
            ).contains(x) by {
                if marked(after).contains(x) {
                    let a = choose|a: int| 0 <= a < after.len() && #[trigger] after[a] == x;
                    if a < pos {
                        assert(before[a] == x);
                    } else if a > pos {
                        assert(before[a - 1] == x);
                    }
                }
                if marked(before).contains(x) {
                    let a = choose|a: int| 0 <= a < before.len() && #[trigger] before[a] == x;
                    if a < pos {
                        assert(after[a] == x);
                    } else {
                        assert(after[a + 1] == x);
                    }
                }
                if x == k {
                    assert(after[pos as int] == x);
                }
            }
            assert(marked(after) =~= marked(before).insert(k as int));
        }
    } else {
        proof {
            assert(marks@[pos as int] == k);
            assert(marked(marks@) =~= marked(marks@).insert(k as int));
        }
    }
}

/// Whether the pair of `k` and `m` comes before the pair `(i, j)` in the order in which the
/// pairs are visited: by the earlier body first, then by the later one.
pub open spec fn visited(i: int, j: int, k: int, m: int) -> bool {
    if k < m {
        k < i || (k == i && m < j)
    } else {
        m < i || (m == i && k < j)
    }
}

/// Whether body `k` overlaps with another body in one of the pairs visited before `(i, j)`.
pub open spec fn struck_before<S: Scalar>(ps: Seq<Planet<S>>, i: int, j: int, k: int) -> bool {
    exists|m: int| 0 <= m < ps.len() && #[trigger] touching(ps, k, m) && visited(i, j, k, m)
}

/// The indices of the bodies that overlap with another, in ascending order and each once. Every
/// unordered pair is tested once.
pub fn find_collisions<S: Scalar>(planets: &Vec<Planet<S>>) -> (marks: Vec<usize>)
    ensures
        ascending(marks@),
        forall|a: int| 0 <= a < marks@.len() ==> marks@[a] < planets@.len(),
        deterministic::<S>() ==> marked(marks@) == struck(planets@),
{
    let n = planets.len();
    let mut marks: Vec<usize> = Vec::new();
    let mut i: usize = 0;
    assert(marked(marks@) =~= Set::<int>::empty());
    while i < n
        invariant
            n == planets@.len(),
            i <= n,
            ascending(marks@),
            forall|k: int| marked(marks@).contains(k) ==> 0 <= k < n,
            deterministic::<S>() ==> forall|k: int|
                0 <= k < n ==> (marked(marks@).contains(k) <==> struck_before(planets@, i as int, 0, k)),
        decreases n - i,
    {
        let mut j: usize = i + 1;
        proof {
            if deterministic::<S>() {
                assert forall|k: int| 0 <= k < n implies (marked(marks@).contains(k) <==> struck_before(
                    planets@,
                    i as int,
                    j as int,
                    k,
                )) by {
                    lemma_struck_before_row(planets@, i as int, k);
                }
            }
        }
        while j < n
            invariant
                n == planets@.len(),
                i < j <= n,
                ascending(marks@),
                forall|k: int| marked(marks@).contains(k) ==> 0 <= k < n,
                deterministic::<S>() ==> forall|k: int|
                    0 <= k < n ==> (marked(marks@).contains(k) <==> struck_before(
                        planets@,
                        i as int,
                        j as int,
                        k,
                    )),
            decreases n - j,
        {
            let hit = overlap(&planets[i], &planets[j]);
            if hit {
                mark(&mut marks, i);
                mark(&mut marks, j);
            }
            proof {
                if deterministic::<S>() {
                    assert forall|k: int| 0 <= k < n implies (marked(marks@).contains(k) <==> struck_before(
                        planets@,
                        i as int,
                        j + 1,
                        k,
                    )) by {
                        lemma_struck_before_next(planets@, i as int, j as int, k);
                    }
                }
            }
            j += 1;
        }
        proof {
            if deterministic::<S>() {
                assert forall|k: int| 0 <= k < n implies (marked(marks@).contains(k) <==> struck_before(
                    planets@,
                    i + 1,
                    0,
                    k,
                )) by {
                    lemma_struck_before_row(planets@, i + 1, k);
                    lemma_struck_before_end(planets@, i as int, k);
                }
            }
        }
        i += 1;
    }
    proof {
        assert forall|a: int| 0 <= a < marks@.len() implies marks@[a] < planets@.len() by {
            assert(marked(marks@).contains(marks@[a] as int));
        }
        if deterministic::<S>() {
            assert forall|k: int| marked(marks@).contains(k) <==> struck(planets@).contains(k) by {
                if 0 <= k < n {
                    lemma_struck_before_all(planets@, k);
                }
            }
            assert(marked(marks@) =~= struck(planets@));
        }
    }
    marks
}

/// At the start of the row of `i`, the pairs visited are those whose earlier body is before `i`.
pub proof fn lemma_struck_before_row<S: Scalar>(ps: Seq<Planet<S>>, i: int, k: int)
    ensures
        struck_before(ps, i, i + 1, k) <==> struck_before(ps, i, 0, k),
{
    if struck_before(ps, i, i + 1, k) {
        let m = choose|m: int| 0 <= m < ps.len() && #[trigger] touching(ps, k, m) && visited(i, i + 1, k, m);
        assert(touching(ps, k, m) && visited(i, 0, k, m));
    }
    if struck_before(ps, i, 0, k) {
        let m = choose|m: int| 0 <= m < ps.len() && #[trigger] touching(ps, k, m) && visited(i, 0, k, m);
        assert(touching(ps, k, m) && visited(i, i + 1, k, m));
    }
}

/// At the end of the row of `i`, the pairs visited are those whose earlier body is `i` or
/// before it.
pub proof fn lemma_struck_before_end<S: Scalar>(ps: Seq<Planet<S>>, i: int, k: int)
    requires
        0 <= k < ps.len(),
    ensures
        struck_before(ps, i, ps.len() as int, k) <==> struck_before(ps, i + 1, i + 2, k),
{
    let n = ps.len() as int;
    if struck_before(ps, i, n, k) {
        let m = choose|m: int| 0 <= m < ps.len() && #[trigger] touching(ps, k, m) && visited(i, n, k, m);
        assert(touching(ps, k, m) && visited(i + 1, i + 2, k, m));
    }
    if struck_before(ps, i + 1, i + 2, k) {
        let m = choose|m: int| 0 <= m < ps.len() && #[trigger] touching(ps, k, m) && visited(i + 1, i + 2, k, m);
        assert(touching(ps, k, m) && visited(i, n, k, m));
    }
}

/// Visiting the pair `(i, j)` adds `i` and `j` to the bodies struck if the two overlap, and
/// nothing otherwise.
pub proof fn lemma_struck_before_next<S: Scalar>(ps: Seq<Planet<S>>, i: int, j: int, k: int)
    requires
        0 <= i < j < ps.len(),
        0 <= k < ps.len(),
    ensures
        struck_before(ps, i, j + 1, k) <==> (struck_before(ps, i, j, k) || (overlapping(ps[i], ps[j]) && (k
            == i || k == j))),
{
    if struck_before(ps, i, j + 1, k) {
        let m = choose|m: int| 0 <= m < ps.len() && #[trigger] touching(ps, k, m) && visited(i, j + 1, k, m);
        if visited(i, j, k, m) {
            assert(touching(ps, k, m) && visited(i, j, k, m));
        }
    }
    if struck_before(ps, i, j, k) {
        let m = choose|m: int| 0 <= m < ps.len() && #[trigger] touching(ps, k, m) && visited(i, j, k, m);
        assert(touching(ps, k, m) && visited(i, j + 1, k, m));
    }
    if overlapping(ps[i], ps[j]) {
        if k == i {
            assert(touching(ps, k, j) && visited(i, j + 1, k, j));
        }
        if k == j {
            assert(touching(ps, k, i) && visited(i, j + 1, k, i));
        }
    }
}

/// Once every row is done, every pair has been visited.
pub proof fn lemma_struck_before_all<S: Scalar>(ps: Seq<Planet<S>>, k: int)
    requires
        0 <= k < ps.len(),
    ensures
        struck_before(ps, ps.len() as int, 0, k) <==> collided(ps, k),
{
    let n = ps.len() as int;
    if struck_before(ps, n, 0, k) {
        let m = choose|m: int| 0 <= m < ps.len() && #[trigger] touching(ps, k, m) && visited(n, 0, k, m);
        assert(touching(ps, k, m));
    }
    if collided(ps, k) {
        let m = choose|m: int| 0 <= m < ps.len() && #[trigger] touching(ps, k, m);
        assert(touching(ps, k, m) && visited(n, 0, k, m));
    }
}

/// Removes the items at the marked indices, from the highest index down, so that no removal
/// shifts an item that is still to go.
pub fn remove_marked<T>(items: &mut Vec<T>, marks: &Vec<usize>)
    requires
        ascending(marks@),
        forall|a: int| 0 <= a < marks@.len() ==> marks@[a] < old(items)@.len(),
    ensures
        final(items)@ == without(old(items)@, marked(marks@)),
{
    let mut c: usize = marks.len();
    proof {
        assert(marked_from(marks@, c as int) =~= Set::<int>::empty());
        lemma_without_none(items@, marked_from(marks@, c as int));
    }
    while c > 0
        invariant
            c <= marks@.len(),
            ascending(marks@),
            forall|a: int| 0 <= a < marks@.len() ==> marks@[a] < old(items)@.len(),
            items@ == without(old(items)@, marked_from(marks@, c as int)),
        decreases c,
    {
        c -= 1;
        let index = marks[c];
        proof {
            let gone = marked_from(marks@, c + 1);
            assert forall|k: int| gone.contains(k) implies index < k by {
                let a = choose|a: int| c + 1 <= a < marks@.len() && #[trigger] marks@[a] == k;
                assert(marks@[c as int] < marks@[a]);
            }
            lemma_without_one_more(old(items)@, gone, index as int);
            assert(gone.insert(index as int) =~= marked_from(marks@, c as int)) by {
                assert forall|k: int| gone.insert(index as int).contains(k) <==> marked_from(
                    marks@,
                    c as int,
                ).contains(k) by {
                    if gone.insert(index as int).contains(k) {
                        if k == index {
                            assert(marks@[c as int] == k);
                        } else {
                            let a = choose|a: int| c + 1 <= a < marks@.len() && #[trigger] marks@[a] == k;
                            assert(c <= a < marks@.len() && marks@[a] == k);
                        }
                    }
                    if marked_from(marks@, c as int).contains(k) {
                        let a = choose|a: int| c <= a < marks@.len() && #[trigger] marks@[a] == k;
                        if a != c {
                            assert(c + 1 <= a < marks@.len() && marks@[a] == k);
                        }
                    }
                }
            }
        }
        items.remove(index);
    }
}

} // verus!
