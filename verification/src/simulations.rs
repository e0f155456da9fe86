//! The workload of a block of flats: residents travel between the ground
//! floor and their own floor.

use crate::elevator::{Direction, Elevator, TravelRequest};
use rand::rngs::StdRng;
use rand::Rng;
use vstd::prelude::*;

verus! {

/// The standard generator of `rand`, of which nothing is known here.
#[verifier::external_type_specification]
#[verifier::external_body]
pub struct ExStdRng(StdRng);

/// Calls `Rng::gen::<usize>()` on the generator, which draws the next
/// machine word from it. Nothing is claimed of the value.
#[verifier::external_body]
pub(crate) fn draw(rng: &mut StdRng) -> (number: usize) {
    rng.gen::<usize>()
}

/// The request that belongs to two drawn numbers in a building whose highest
/// floor is `max_floor`. The first number picks the origin among all floors.
/// From an upper floor the trip goes to the ground floor; from the ground
/// floor the second number picks the destination among the upper floors.
pub open spec fn resident_request(first: usize, second: usize, max_floor: usize) -> TravelRequest {
    let origin = (first as int % (max_floor + 1)) as usize;
    let destination = if origin != 0 {
        0usize
    } else {
        (second as int % max_floor as int + 1) as usize
    };
    TravelRequest {
        origin,
        direction: if destination < origin {
            Direction::Down
        } else {
            Direction::Up
        },
        destination,
    }
}

/// A trip between the ground floor and an upper floor of the building, in
/// one way or the other, with its direction noted correctly.
pub open spec fn resident_trip(t: TravelRequest, max_floor: usize) -> bool {
    &&& t.origin <= max_floor
    &&& t.destination <= max_floor
    &&& (t.origin == 0) != (t.destination == 0)
    &&& t.direction == if t.destination < t.origin {
        Direction::Down
    } else {
        Direction::Up
    }
}

/// Makes the request that belongs to two drawn numbers.
pub fn request_from_draws(first: usize, second: usize, max_floor: usize) -> (t: TravelRequest)
    requires
        1 <= max_floor < usize::MAX,
    ensures
        t == resident_request(first, second, max_floor),
        resident_trip(t, max_floor),
{
    let origin = first % (max_floor + 1);
    let destination = if origin != 0 {
        0
    } else {
        // the destination is not the ground floor in this case
        (second % max_floor) + 1
    };
    let direction = if destination < origin {
        Direction::Down
    } else {
        Direction::Up
    };
    TravelRequest { direction, origin, destination }
}

/// Draws the request of a resident of the building that `elevator` serves.
/// One number is drawn for the origin, and a second one only if the trip
/// starts on the ground floor.
pub fn gen_travel_request(rng: &mut StdRng, elevator: &Elevator) -> (t: TravelRequest)
    requires
        1 <= elevator.max_floor < usize::MAX,
    ensures
        exists|first: usize, second: usize| t == #[trigger] resident_request(
            first,
            second,
            elevator.max_floor,
        ),
        resident_trip(t, elevator.max_floor),
{
    let first = draw(rng);
    let second = if first % (elevator.max_floor + 1) != 0 {
        0
    } else {
        draw(rng)
    };
    request_from_draws(first, second, elevator.max_floor)
}

} // verus!
