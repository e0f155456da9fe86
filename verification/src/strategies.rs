//! Direction policies.

use crate::elevator::{Direction, DirectionStrategy, Elevator};
use crate::model::{ElevatorState, Event};
use crate::simulations::draw;
use rand::rngs::StdRng;
use vstd::prelude::*;

verus! {

/// Sends the car down, always. At the lowest floor the engine brings the car
/// to rest.
pub struct AlwaysDown;

impl DirectionStrategy for AlwaysDown {
    open spec fn permits(e: ElevatorState, direction: Direction) -> bool {
        direction == Direction::Down
    }

    fn new_direction(_e: &Elevator) -> (direction: Direction)
        ensures
            direction == Direction::Down,
    {
        Direction::Down
    }
}

/// The direction of a car that sweeps between the lowest and the highest
/// floor: down from the top, up from the bottom, and on as before in between.
pub open spec fn sweep(e: ElevatorState) -> Direction {
    if e.current_floor == e.max_floor {
        Direction::Down
    } else if e.current_floor == e.min_floor {
        Direction::Up
    } else {
        e.direction
    }
}

/// Sweeps the car up and down between the lowest and the highest floor.
pub struct UpAndDownLoop;

impl DirectionStrategy for UpAndDownLoop {
    open spec fn permits(e: ElevatorState, direction: Direction) -> bool {
        direction == sweep(e)
    }

    fn new_direction(e: &Elevator) -> (direction: Direction)
        ensures
            direction == sweep(e@),
    {
        if e.current_floor == e.max_floor {
            Direction::Down
        } else {
            if e.current_floor == e.min_floor {
                Direction::Up
            } else {
                e.direction
            }
        }
    }
}

/// Sends the car up or down as a fair coin falls, anew at every step.
pub struct Random;

impl Random {
    /// The direction for a coin that has fallen: up for `true`, down for
    /// `false`.
    pub fn direction_for(coin: bool) -> (direction: Direction)
        ensures
            direction == if coin {
                Direction::Up
            } else {
                Direction::Down
            },
    {
        if coin {
            Direction::Up
        } else {
            Direction::Down
        }
    }

    /// Picks up or down by the next number of `rng`: up for an odd number,
    /// down for an even one. With a seeded generator a run under this choice
    /// can be repeated.
    pub fn direction_from(rng: &mut StdRng) -> (direction: Direction)
        ensures
            direction == Direction::Up || direction == Direction::Down,
    {
        Random::direction_for_number(draw(rng))
    }
}

impl DirectionStrategy for Random {
    open spec fn permits(e: ElevatorState, direction: Direction) -> bool {
        direction == Direction::Up || direction == Direction::Down
    }

    fn new_direction(_e: &Elevator) -> (direction: Direction)
        ensures
            direction == Direction::Up || direction == Direction::Down,
    {
        Random::direction_for(toss())
    }
}

/// Calls `rand::random::<bool>()`, which draws one boolean from the random
/// generator of the current thread. Nothing is claimed of the value. The
/// call panics if that generator cannot be seeded from the operating system.
#[verifier::external_body]
fn toss() -> (coin: bool) {
    rand::random::<bool>()
}

impl Random {
    /// The direction for a number that has been drawn: up for an odd number,
    /// down for an even one.
    pub fn direction_for_number(number: usize) -> (direction: Direction)
        ensures
            direction == if number % 2 == 1 {
                Direction::Up
            } else {
                Direction::Down
            },
    {
        Random::direction_for(number % 2 == 1)
    }
}

/// A policy is deterministic if it permits at most one direction in every
/// state.
pub open spec fn deterministic<T: DirectionStrategy>() -> bool {
    forall|e: ElevatorState, a: Direction, b: Direction|
        #[trigger] T::permits(e, a) && #[trigger] T::permits(e, b) ==> a == b
}

/// Every step among `events`, taken one after the other from state `s`, is
/// taken in a direction that the policy `T` permits at that moment.
pub open spec fn obeys<T: DirectionStrategy>(s: ElevatorState, events: Seq<Event>) -> bool {
    forall|i: int|
        0 <= i < events.len() && (#[trigger] events[i]) is Step ==> T::permits(
            s.run(events.take(i)).tick(),
            events[i]->direction,
        )
}

/// Two histories of equal length in which the same requests are made at the
/// same places.
pub open spec fn same_requests(a: Seq<Event>, b: Seq<Event>) -> bool {
    &&& a.len() == b.len()
    &&& forall|i: int|
        0 <= i < a.len() && ((#[trigger] a[i]) is Request || (#[trigger] b[i]) is Request)
            ==> a[i] == b[i]
}

/// `AlwaysDown` is deterministic.
pub proof fn always_down_is_deterministic()
    ensures
        deterministic::<AlwaysDown>(),
{
}

/// `UpAndDownLoop` is deterministic.
pub proof fn up_and_down_loop_is_deterministic()
    ensures
        deterministic::<UpAndDownLoop>(),
{
}

/// Under a deterministic policy the history repeats: two runs from the same
/// state that receive the same requests at the same places take the same
/// directions step for step, and so pass through the same states.
pub proof fn deterministic_runs_agree<T: DirectionStrategy>(
    s: ElevatorState,
    a: Seq<Event>,
    b: Seq<Event>,
)
    requires
        deterministic::<T>(),
        obeys::<T>(s, a),
        obeys::<T>(s, b),
        same_requests(a, b),
    ensures
        a == b,
{
    lemma_prefixes_agree::<T>(s, a, b, a.len() as int);
    assert(a.take(a.len() as int) =~= a);
    assert(b.take(b.len() as int) =~= b);
}

proof fn lemma_prefixes_agree<T: DirectionStrategy>(
    s: ElevatorState,
    a: Seq<Event>,
    b: Seq<Event>,
    n: int,
)
    requires
        deterministic::<T>(),
        obeys::<T>(s, a),
        obeys::<T>(s, b),
        same_requests(a, b),
        0 <= n <= a.len(),
    ensures
        a.take(n) == b.take(n),
    decreases n,
{
    if n == 0 {
        assert(a.take(0) =~= b.take(0));
    } else {
        lemma_prefixes_agree::<T>(s, a, b, n - 1);
        let i = n - 1;
        if a[i] is Step && b[i] is Step {
            let before = s.run(a.take(i)).tick();
            assert(T::permits(before, a[i]->direction));
            assert(T::permits(before, b[i]->direction));
        }
        assert(a[i] == b[i]);
        assert(a.take(n) =~= a.take(i).push(a[i]));
        assert(b.take(n) =~= b.take(i).push(b[i]));
    }
}

} // verus!
