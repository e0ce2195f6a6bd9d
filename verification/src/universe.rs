//! The universe: an ordered collection of bodies and the number of sub-steps per tick.
use crate::collisions::{
    find_collisions, kept, lemma_without_picks, marked, remove_marked, survivors,
};
use crate::forces::{accumulate, at_rest, attracted, integrate, integrated, reset};
use crate::scalar::{deterministic, Scalar};
use crate::vector3::Vector3;
use vstd::prelude::*;

verus! {

/// One gravitating body.
///
/// `radius` only matters for the overlap test, never for gravity. A body has no identity beyond
/// its place in the collection that owns it.
#[derive(Debug)]
pub struct Planet<S> {
    pub name: String,
    pub mass: S,
    pub radius: S,
    pub position: Vector3<S>,
    pub velocity: Vector3<S>,
    pub acceleration: Vector3<S>,
}

impl<S: Copy> Clone for Planet<S> {
    fn clone(&self) -> (r: Self)
        ensures
            r == *self,
    {
        Planet {
            name: self.name.clone(),
            mass: self.mass,
            radius: self.radius,
            position: self.position,
            velocity: self.velocity,
            acceleration: self.acceleration,
        }
    }
}

/// What a snapshot shows of one body.
pub struct Snapshot<S> {
    pub name: Seq<char>,
    pub radius: S,
    pub mass: S,
    pub velocity: Vector3<S>,
    pub position: Vector3<S>,
}

impl<S> Planet<S> {
    /// What a snapshot taken now shows of this body.
    pub open spec fn snapshot(self) -> Snapshot<S> {
        Snapshot {
            name: self.name@,
            radius: self.radius,
            mass: self.mass,
            velocity: self.velocity,
            position: self.position,
        }
    }
}

/// The bodies of a universe, in order, and its sub-steps per tick.
pub struct State<S> {
    pub planets: Seq<Planet<S>>,
    pub speed: u32,
}

/// Whether two bodies agree in what a sub-step never changes: name, mass and radius.
pub open spec fn same_body<S>(before: Planet<S>, after: Planet<S>) -> bool {
    &&& after.name == before.name
    &&& after.mass == before.mass
    &&& after.radius == before.radius
}

/// Whether the bodies of `after` are the bodies of `before` at the indices `from`, which
/// ascend: each with its name, mass and radius.
pub open spec fn picks<S>(from: Seq<int>, before: Seq<Planet<S>>, after: Seq<Planet<S>>) -> bool {
    &&& from.len() == after.len()
    &&& forall|k: int|
        0 <= k < from.len() ==> 0 <= #[trigger] from[k] < before.len() && same_body(
            before[from[k]],
            after[k],
        )
    &&& forall|a: int, b: int| 0 <= a < b < from.len() ==> from[a] < from[b]
}

/// Whether `after` holds bodies of `before` and no others, in the order they had there, each
/// with its name, mass and radius.
pub open spec fn remains_of<S>(after: Seq<Planet<S>>, before: Seq<Planet<S>>) -> bool {
    exists|from: Seq<int>| picks(from, before, after)
}

/// A collection remains of itself.
pub proof fn lemma_remains_of_itself<S>(ps: Seq<Planet<S>>)
    ensures
        remains_of(ps, ps),
{
    assert(picks(Seq::new(ps.len(), |k: int| k), ps, ps));
}

/// What remains of a collection is no longer than the collection.
pub proof fn lemma_remains_are_no_more<S>(after: Seq<Planet<S>>, before: Seq<Planet<S>>)
    requires
        remains_of(after, before),
    ensures
        after.len() <= before.len(),
{
    let from = choose|from: Seq<int>| picks(from, before, after);
    if from.len() > 0 {
        lemma_ascending_from_zero(from, from.len() - 1);
    }
}

/// In an ascending list of indices that are not negative, no index is below its position.
pub proof fn lemma_ascending_from_zero(from: Seq<int>, k: int)
    requires
        0 <= k < from.len(),
        forall|a: int| 0 <= a < from.len() ==> 0 <= #[trigger] from[a],
        forall|a: int, b: int| 0 <= a < b < from.len() ==> from[a] < from[b],
    ensures
        k <= from[k],
    decreases k,
{
    if k > 0 {
        lemma_ascending_from_zero(from, k - 1);
    }
}

/// What remains of what remains of a collection remains of that collection.
pub proof fn lemma_remains_of_chain<S>(last: Seq<Planet<S>>, middle: Seq<Planet<S>>, first: Seq<Planet<S>>)
    requires
        remains_of(last, middle),
        remains_of(middle, first),
    ensures
        remains_of(last, first),
{
    let late = choose|from: Seq<int>| picks(from, middle, last);
    let early = choose|from: Seq<int>| picks(from, first, middle);
    let from = Seq::new(late.len(), |k: int| early[late[k]]);
    assert(picks(from, first, last)) by {
        assert forall|k: int| 0 <= k < from.len() implies 0 <= #[trigger] from[k] < first.len() && same_body(
            first[from[k]],
            last[k],
        ) by {
            let m = late[k];
            assert(same_body(middle[m], last[k]));
            assert(0 <= early[m] < first.len() && same_body(first[early[m]], middle[m]));
        }
        assert forall|a: int, b: int| 0 <= a < b < from.len() implies from[a] < from[b] by {
            assert(late[a] < late[b]);
            assert(0 <= late[a] && late[b] < early.len());
        }
    }
}

/// The bodies one sub-step later: accelerations are reset, every pair pulls on each other, every
/// body moves, and the bodies that then overlap with another are removed.
pub open spec fn step<S: Scalar>(ps: Seq<Planet<S>>) -> Seq<Planet<S>> {
    survivors(integrated(attracted(at_rest(ps))))
}

impl<S: Scalar> State<S> {
    /// The state one sub-step later.
    pub open spec fn stepped(self) -> Self {
        State { planets: step(self.planets), speed: self.speed }
    }

    /// The state `count` sub-steps later.
    pub open spec fn advanced(self, count: nat) -> Self
        decreases count,
    {
        if count == 0 {
            self
        } else {
            self.advanced((count - 1) as nat).stepped()
        }
    }

    /// The state one tick later: as many sub-steps later as the speed says.
    pub open spec fn ticked(self) -> Self {
        self.advanced(self.speed as nat)
    }

    /// What a snapshot of this state shows: every body, in order.
    pub open spec fn rendered(self) -> Seq<Snapshot<S>> {
        self.planets.map_values(|p: Planet<S>| p.snapshot())
    }
}

/// The simulated world.
#[derive(Debug)]
pub struct Universe<S> {
    planets: Vec<Planet<S>>,
    speed: u32,
}

impl<S> View for Universe<S> {
    type V = State<S>;

    closed spec fn view(&self) -> State<S> {
        State { planets: self.planets@, speed: self.speed }
    }
}

impl<S: Scalar> Universe<S> {
    /// Advances the universe by one sub-step.
    pub fn tick_once(&mut self)
        ensures
            final(self)@.speed == old(self)@.speed,
            remains_of(final(self)@.planets, old(self)@.planets),
            deterministic::<S>() ==> final(self)@ == old(self)@.stepped(),
    {
        reset(&mut self.planets);
        accumulate(&mut self.planets);
        integrate(&mut self.planets);
        let marks = find_collisions(&self.planets);
        let ghost moved = self.planets@;
        remove_marked(&mut self.planets, &marks);
        proof {
            lemma_without_picks(moved, marked(marks@));
            assert(picks(kept(moved.len(), marked(marks@)), old(self).planets@, self.planets@));
        }
    }

    /// Advances the universe by one tick: as many sub-steps as its speed says, one after the
    /// other. With a speed of zero nothing changes.
    pub fn tick(&mut self)
        ensures
            final(self)@.speed == old(self)@.speed,
            remains_of(final(self)@.planets, old(self)@.planets),
            old(self)@.speed == 0 ==> final(self)@ == old(self)@,
            deterministic::<S>() ==> final(self)@ == old(self)@.ticked(),
    {
        let mut done: u32 = 0;
        proof {
            lemma_remains_of_itself(self@.planets);
        }
        while done < self.speed
            invariant
                done <= self.speed,
                self@.speed == old(self)@.speed,
                remains_of(self@.planets, old(self)@.planets),
                done == 0 ==> self@ == old(self)@,
                deterministic::<S>() ==> self@ == old(self)@.advanced(done as nat),
            decreases self.speed - done,
        {
            let ghost middle = self@.planets;
            self.tick_once();
            proof {
                lemma_remains_of_chain(self@.planets, middle, old(self)@.planets);
            }
            done += 1;
        }
    }

    /// An empty universe that advances one sub-step per tick.
    pub fn new() -> (universe: Self)
        ensures
            universe@.planets == Seq::<Planet<S>>::empty(),
            universe@.speed == 1,
    {
        Universe { planets: Vec::new(), speed: 1 }
    }

    /// Appends a body that starts with no acceleration. Mass and radius are taken as given.
    pub fn add_planet(&mut self, name: String, pos: Vector3<S>, vel: Vector3<S>, mass: S, radius: S)
        ensures
            final(self)@.speed == old(self)@.speed,
            final(self)@.planets.len() == old(self)@.planets.len() + 1,
            final(self)@.planets.drop_last() == old(self)@.planets,
            final(self)@.planets.last().name == name,
            final(self)@.planets.last().mass == mass,
            final(self)@.planets.last().radius == radius,
            final(self)@.planets.last().position == pos,
            final(self)@.planets.last().velocity == vel,
            deterministic::<S>() ==> final(self)@.planets == old(self)@.planets.push(
                Planet {
                    name,
                    mass,
                    radius,
                    position: pos,
                    velocity: vel,
                    acceleration: Vector3::origin(),
                },
            ),
    {
        let planet = Planet {
            name,
            mass,
            radius,
            position: pos,
            velocity: vel,
            acceleration: Vector3::zeroed(),
        };
        self.planets.push(planet);
        assert(self.planets@.drop_last() =~= old(self).planets@);
    }

    /// The number of sub-steps that one tick performs.
    pub fn speed(&self) -> (speed: u32)
        ensures
            speed == self@.speed,
    {
        self.speed
    }

    /// Sets the number of sub-steps of the ticks to come; zero makes a tick do nothing.
    pub fn set_speed(&mut self, speed: u32)
        ensures
            final(self)@.speed == speed,
            final(self)@.planets == old(self)@.planets,
    {
        self.speed = speed;
    }

    /// A copy of what every body shows, in the order of the collection.
    pub fn render(&self) -> (output: Output<S>)
        ensures
            output@ == self@.rendered(),
    {
        let mut output = Output { planets: Vec::new() };
        let n = self.planets.len();
        let mut i: usize = 0;
        while i < n
            invariant
                n == self.planets.len(),
                i <= n,
                output.planets.len() == i,
                forall|k: int| 0 <= k < i ==> (#[trigger] output.planets[k])@ == self.planets[k].snapshot(),
            decreases n - i,
        {
            let planet = &self.planets[i];
            let out_planet = OutPlanet {
                name: planet.name.clone(),
                radius: planet.radius,
                mass: planet.mass,
                velocity: planet.velocity,
                position: planet.position,
            };
            output.planets.push(out_planet);
            i += 1;
        }
        assert(output@ =~= self@.rendered());
        output
    }
}

impl<S: Scalar + core::fmt::Debug> Universe<S> {
    /// A dump of the whole state for diagnostics, produced by std's `format!` from the derived
    /// `Debug` implementations. Nothing is claimed of the text, and its layout may change.
    #[verifier::external_body]
    pub fn as_string(&self) -> (text: String) {
        format!("{:?}", self)
    }
}

/// A snapshot of a universe: what each body showed when it was taken, in order. It shares
/// nothing with the universe it came from.
pub struct Output<S> {
    planets: Vec<OutPlanet<S>>,
}

impl<S> View for Output<S> {
    type V = Seq<Snapshot<S>>;

    closed spec fn view(&self) -> Seq<Snapshot<S>> {
        self.planets@.map_values(|p: OutPlanet<S>| p@)
    }
}

impl<S: Scalar> Output<S> {
    /// The body at `index`, which must be below [`length`](Self::length).
    pub fn get_planet(&self, index: usize) -> (planet: OutPlanet<S>)
        requires
            index < self@.len(),
        ensures
            planet@ == self@[index as int],
    {
        self.planets[index].clone()
    }

    /// How many bodies the snapshot holds.
    pub fn length(&self) -> (length: usize)
        ensures
            length == self@.len(),
    {
        self.planets.len()
    }
}

/// One body of a snapshot.
pub struct OutPlanet<S> {
    name: String,
    radius: S,
    mass: S,
    velocity: Vector3<S>,
    position: Vector3<S>,
}

impl<S> View for OutPlanet<S> {
    type V = Snapshot<S>;

    closed spec fn view(&self) -> Snapshot<S> {
        Snapshot {
            name: self.name@,
            radius: self.radius,
            mass: self.mass,
            velocity: self.velocity,
            position: self.position,
        }
    }
}

impl<S: Copy> Clone for OutPlanet<S> {
    fn clone(&self) -> (r: Self)
        ensures
            r@ == self@,
    {
        OutPlanet {
            name: self.name.clone(),
            radius: self.radius,
            mass: self.mass,
            velocity: self.velocity,
            position: self.position,
        }
    }
}

impl<S: Scalar> OutPlanet<S> {
    /// The body's label.
    pub fn name(&self) -> (name: String)
        ensures
            name@ == self@.name,
    {
        self.name.clone()
    }

    /// The body's radius.
    pub fn radius(&self) -> (radius: S)
        ensures
            radius == self@.radius,
    {
        self.radius
    }

    /// The body's mass.
    pub fn mass(&self) -> (mass: S)
        ensures
            mass == self@.mass,
    {
        self.mass
    }

    /// The body's velocity.
    pub fn velocity(&self) -> (velocity: Vector3<S>)
        ensures
            velocity == self@.velocity,
    {
        self.velocity
    }

    /// The body's position.
    pub fn position(&self) -> (position: Vector3<S>)
        ensures
            position == self@.position,
    {
        self.position
    }
}

} // verus!
