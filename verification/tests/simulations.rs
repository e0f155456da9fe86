use elevator_sim::elevator::{Direction, Elevator, TravelRequest};
use elevator_sim::simulations::{gen_travel_request, request_from_draws};
use rand::rngs::StdRng;
use rand::{Rng, SeedableRng};

#[test]
fn upper_floor_goes_down_to_the_ground() {
    let t = request_from_draws(7, 5, 3);
    assert_eq!(TravelRequest { origin: 3, destination: 0, direction: Direction::Down }, t);
    let t = request_from_draws(9, 0, 3);
    assert_eq!(TravelRequest { origin: 1, destination: 0, direction: Direction::Down }, t);
}

#[test]
fn ground_floor_goes_up_to_a_drawn_floor() {
    let t = request_from_draws(8, 5, 3);
    assert_eq!(TravelRequest { origin: 0, destination: 3, direction: Direction::Up }, t);
    let t = request_from_draws(0, 6, 3);
    assert_eq!(TravelRequest { origin: 0, destination: 1, direction: Direction::Up }, t);
    let t = request_from_draws(4, 7, 3);
    assert_eq!(TravelRequest { origin: 0, destination: 2, direction: Direction::Up }, t);
}

#[test]
fn building_of_two_floors_has_two_trips() {
    assert_eq!(
        TravelRequest { origin: 0, destination: 1, direction: Direction::Up },
        request_from_draws(2, 99, 1)
    );
    assert_eq!(
        TravelRequest { origin: 1, destination: 0, direction: Direction::Down },
        request_from_draws(3, 99, 1)
    );
}

#[test]
fn largest_draws_are_taken() {
    let t = request_from_draws(usize::MAX, usize::MAX, usize::MAX - 1);
    assert_eq!(0, t.origin);
    assert_eq!(2, t.destination);
    assert_eq!(Direction::Up, t.direction);
}

#[test]
fn drawn_requests_run_between_the_ground_and_an_upper_floor() {
    let e = Elevator::new(0, 3, 3);
    let mut rng = StdRng::seed_from_u64(123123);
    let mut up = 0;
    let mut down = 0;
    for _ in 0..500 {
        let t = gen_travel_request(&mut rng, &e);
        assert!(t.origin <= 3);
        assert!(t.destination <= 3);
        assert!((t.origin == 0) != (t.destination == 0));
        if t.destination < t.origin {
            assert_eq!(Direction::Down, t.direction);
            down += 1;
        } else {
            assert_eq!(Direction::Up, t.direction);
            up += 1;
        }
    }
    assert!(up > 0);
    assert!(down > 0);
}

#[test]
fn drawn_request_uses_the_next_numbers_of_the_generator() {
    let e = Elevator::new(0, 3, 3);
    let mut rng = StdRng::seed_from_u64(7);
    let mut shadow = StdRng::seed_from_u64(7);
    let mut seconds = 0;
    for _ in 0..200 {
        let t = gen_travel_request(&mut rng, &e);
        let first = shadow.gen::<usize>();
        let second = if first % 4 != 0 {
            0
        } else {
            seconds += 1;
            shadow.gen::<usize>()
        };
        assert_eq!(request_from_draws(first, second, 3), t);
    }
    assert!(seconds > 0);
    assert_eq!(shadow.gen::<u64>(), rng.gen::<u64>());
}

#[test]
fn same_seed_draws_the_same_requests() {
    let e = Elevator::new(0, 3, 3);
    let mut a = StdRng::seed_from_u64(42);
    let mut b = StdRng::seed_from_u64(42);
    for _ in 0..100 {
        assert_eq!(gen_travel_request(&mut a, &e), gen_travel_request(&mut b, &e));
    }
}
