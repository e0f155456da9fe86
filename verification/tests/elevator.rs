use elevator_sim::elevator::{Direction, Elevator, TravelRequest};
use elevator_sim::strategies::{AlwaysDown, Random, UpAndDownLoop};

fn trip(origin: usize, destination: usize) -> TravelRequest {
    TravelRequest {
        origin,
        destination,
        direction: if destination < origin { Direction::Down } else { Direction::Up },
    }
}

#[test]
fn test_elevator() {
    let mut e = Elevator::new(0, 1, 1);
    e.add_request(TravelRequest {
        origin: 1,
        destination: 0,
        direction: Direction::Down,
    });
    for _ in 0..5 {
        e.step::<AlwaysDown>();
    }
    assert_eq!(0, e.jobs.len());
    assert_eq!(0, e.floor_backlog.len());
    assert_eq!(1, e.wait_times.len());
    assert_eq!(3, e.wait_times[0]); // 1t = travel time + 1t = enter src + 1t exit dst
    assert!(4 <= e.time);
}

#[test]
fn test_elevator_is_no_teleporter() {
    let mut e = Elevator::new(0, 1, 0);
    e.add_request(TravelRequest {
        origin: 1,
        destination: 0,
        direction: Direction::Down,
    });
    e.add_request(TravelRequest {
        origin: 0,
        destination: 1,
        direction: Direction::Up,
    });
    e.step::<AlwaysDown>();
    e.step::<AlwaysDown>();
    e.step::<AlwaysDown>();
    e.step::<AlwaysDown>();

    assert_eq!(0, e.wait_times.len());
    assert_eq!(2, e.jobs.len());
    assert_eq!(2, e.floor_backlog.len());
}

#[test]
fn new_engine_rests_with_nothing_to_do() {
    let e = Elevator::new(2, 7, 4);
    assert_eq!(2, e.min_floor);
    assert_eq!(7, e.max_floor);
    assert_eq!(4, e.current_floor);
    assert_eq!(Direction::Rest, e.direction);
    assert!(e.floor_backlog.is_empty());
    assert!(e.wait_times.is_empty());
    assert_eq!(0, e.time);
    assert_eq!(0, e.backlog());
    assert!(!e.is_busy());
    assert!(e.is_valid());
}

#[test]
fn engine_of_one_floor_is_valid() {
    let e = Elevator::new(3, 3, 3);
    assert!(e.is_valid());
    assert_eq!(3, e.current_floor);
}

#[test]
fn request_is_queued_and_stamped_with_the_current_time() {
    let mut e = Elevator::new(0, 3, 0);
    e.step::<AlwaysDown>();
    e.step::<AlwaysDown>();
    e.add_request(trip(2, 0));
    assert!(e.is_busy());
    assert_eq!(1, e.backlog());
    assert_eq!(vec![2], e.floor_backlog);
    assert_eq!(2, e.jobs[0].start);
    assert_eq!(None, e.jobs[0].entered_at);
    assert_eq!(trip(2, 0), e.jobs[0].travel_request);
    assert_eq!(2, e.time);
    assert_eq!(0, e.current_floor);
}

#[test]
fn doors_open_instead_of_moving() {
    let mut e = Elevator::new(0, 3, 2);
    e.add_request(trip(2, 0));
    e.step_with(Direction::Up);
    assert_eq!(2, e.current_floor);
    assert_eq!(Direction::Up, e.direction);
    assert_eq!(vec![0], e.floor_backlog);
    assert_eq!(Some(1), e.jobs[0].entered_at);
    assert_eq!(0, e.jobs[0].start);
    assert!(e.wait_times.is_empty());
    assert_eq!(1, e.time);
}

#[test]
fn direct_trip_up_waits_one_step_per_floor_and_two_more() {
    let mut e = Elevator::new(0, 5, 1);
    e.add_request(trip(1, 4));
    e.step_with(Direction::Rest);
    e.step_with(Direction::Up);
    e.step_with(Direction::Up);
    e.step_with(Direction::Up);
    assert_eq!(4, e.current_floor);
    assert!(e.wait_times.is_empty());
    e.step_with(Direction::Rest);
    assert_eq!(vec![5], e.wait_times);
    assert_eq!(0, e.backlog());
    assert!(!e.is_busy());
    assert_eq!(5, e.time);
}

#[test]
fn wait_time_counts_from_the_request_not_from_boarding() {
    let mut e = Elevator::new(0, 3, 0);
    e.step_with(Direction::Rest);
    e.add_request(trip(2, 3));
    // two steps to reach the origin, one to board, one to travel, one to leave
    e.step_with(Direction::Up);
    e.step_with(Direction::Up);
    e.step_with(Direction::Up);
    assert_eq!(Some(4), e.jobs[0].entered_at);
    e.step_with(Direction::Up);
    e.step_with(Direction::Up);
    assert_eq!(vec![5], e.wait_times);
    assert_eq!(6, e.time);
}

#[test]
fn car_comes_to_rest_at_the_ends() {
    let mut e = Elevator::new(1, 2, 2);
    e.step_with(Direction::Up);
    assert_eq!(2, e.current_floor);
    assert_eq!(Direction::Rest, e.direction);
    e.step_with(Direction::Down);
    assert_eq!(1, e.current_floor);
    assert_eq!(Direction::Down, e.direction);
    e.step_with(Direction::Down);
    assert_eq!(1, e.current_floor);
    assert_eq!(Direction::Rest, e.direction);
    e.step_with(Direction::Rest);
    assert_eq!(1, e.current_floor);
    assert_eq!(Direction::Rest, e.direction);
    assert_eq!(4, e.time);
}

#[test]
fn request_from_a_floor_to_itself_boards_and_leaves_in_one_step() {
    let mut e = Elevator::new(0, 3, 2);
    e.add_request(trip(2, 2));
    e.step_with(Direction::Rest);
    assert_eq!(vec![1], e.wait_times);
    assert_eq!(0, e.backlog());
    // the destination was noted when the job boarded
    assert_eq!(vec![2], e.floor_backlog);
    e.step_with(Direction::Rest);
    assert!(e.floor_backlog.is_empty());
    assert_eq!(vec![1], e.wait_times);
    assert_eq!(2, e.current_floor);
}

#[test]
fn riders_from_one_floor_board_together() {
    let mut e = Elevator::new(0, 3, 1);
    e.add_request(trip(1, 3));
    e.add_request(trip(2, 0));
    e.add_request(trip(1, 0));
    e.step_with(Direction::Up);
    assert_eq!(vec![2, 3, 0], e.floor_backlog);
    assert_eq!(Some(1), e.jobs[0].entered_at);
    assert_eq!(None, e.jobs[1].entered_at);
    assert_eq!(Some(1), e.jobs[2].entered_at);
    assert_eq!(3, e.backlog());
}

#[test]
fn riders_for_one_floor_leave_together() {
    let mut e = Elevator::new(0, 3, 1);
    e.add_request(trip(1, 2));
    e.step_with(Direction::Up);
    e.add_request(trip(1, 2));
    e.step_with(Direction::Up);
    assert_eq!(vec![2, 2, 2], e.floor_backlog);
    e.step_with(Direction::Up);
    assert_eq!(2, e.current_floor);
    e.step_with(Direction::Up);
    assert_eq!(vec![4, 3], e.wait_times);
    assert_eq!(0, e.backlog());
    assert!(!e.is_busy());
}

#[test]
fn rider_boards_again_when_the_doors_open_at_its_origin() {
    let mut e = Elevator::new(0, 3, 1);
    e.add_request(trip(1, 3));
    e.step_with(Direction::Up);
    e.add_request(trip(1, 0));
    e.step_with(Direction::Up);
    assert_eq!(1, e.current_floor);
    assert_eq!(vec![3, 3, 0], e.floor_backlog);
    assert_eq!(Some(2), e.jobs[0].entered_at);
    assert_eq!(Some(2), e.jobs[1].entered_at);
}

#[test]
fn request_outside_the_floors_is_accepted_and_never_served() {
    let mut e = Elevator::new(0, 1, 0);
    e.add_request(trip(5, 9));
    for _ in 0..10 {
        e.step::<UpAndDownLoop>();
        assert!(e.current_floor <= 1);
    }
    assert_eq!(vec![5], e.floor_backlog);
    assert_eq!(1, e.backlog());
    assert!(e.wait_times.is_empty());
}

#[test]
fn has_stop_finds_the_floors_in_the_backlog() {
    let mut e = Elevator::new(0, 5, 0);
    assert!(!e.has_stop(0));
    e.add_request(trip(4, 1));
    e.add_request(trip(2, 1));
    assert!(e.has_stop(4));
    assert!(e.has_stop(2));
    assert!(!e.has_stop(1));
    assert!(!e.has_stop(0));
}

#[test]
fn car_stays_within_its_floors_under_any_policy() {
    let mut e = Elevator::new(2, 5, 3);
    e.add_request(trip(5, 2));
    e.add_request(trip(2, 4));
    for _ in 0..300 {
        e.step::<Random>();
        assert!(2 <= e.current_floor && e.current_floor <= 5);
        assert_eq!(2, e.min_floor);
        assert_eq!(5, e.max_floor);
        assert!(e.is_valid());
    }
}

#[test]
fn car_moves_one_floor_at_most_and_only_its_own_way() {
    let mut e = Elevator::new(0, 4, 2);
    e.add_request(trip(4, 0));
    e.add_request(trip(0, 3));
    e.add_request(trip(1, 2));
    let mut moved = 0;
    for _ in 0..300 {
        let before = e.current_floor;
        e.step::<Random>();
        let after = e.current_floor;
        if after > before {
            assert_eq!(before + 1, after);
            assert_eq!(Direction::Up, e.direction);
            moved += 1;
        } else if after < before {
            assert_eq!(before, after + 1);
            assert_eq!(Direction::Down, e.direction);
            moved += 1;
        }
    }
    assert!(moved > 0);
}

#[test]
fn every_request_is_open_or_has_one_wait_time() {
    let mut e = Elevator::new(0, 3, 3);
    let mut accepted = 0;
    for round in 0..200 {
        if round % 7 == 0 {
            e.add_request(trip(round % 4, (round + 1) % 4));
            accepted += 1;
        }
        let recorded = e.wait_times.clone();
        e.step::<UpAndDownLoop>();
        assert_eq!(accepted, e.backlog() + e.wait_times.len());
        assert_eq!(recorded[..], e.wait_times[..recorded.len()]);
    }
    assert!(e.wait_times.len() > 0);
}

#[test]
fn idle_engine_records_nothing_and_stays_where_it_rests() {
    let mut e = Elevator::new(0, 3, 2);
    let mut floors = Vec::new();
    for _ in 0..6 {
        let before = e.current_floor;
        e.step::<AlwaysDown>();
        if e.direction == Direction::Rest {
            assert_eq!(before, e.current_floor);
        }
        floors.push(e.current_floor);
        assert!(e.wait_times.is_empty());
        assert_eq!(0, e.backlog());
        assert!(!e.is_busy());
    }
    assert_eq!(vec![1, 0, 0, 0, 0, 0], floors);
    assert_eq!(Direction::Rest, e.direction);
}

#[test]
fn engine_with_a_field_overwritten_is_not_valid() {
    let mut e = Elevator::new(0, 3, 2);
    e.current_floor = 4;
    assert!(!e.is_valid());
    e.current_floor = 3;
    assert!(e.is_valid());
    e.add_request(trip(3, 0));
    e.time = 5;
    e.jobs[0].start = 6;
    assert!(!e.is_valid());
    e.jobs[0].start = 5;
    assert!(e.is_valid());
    e.jobs[0].entered_at = Some(5);
    assert!(!e.is_valid());
    e.time = 7;
    e.jobs[0].entered_at = Some(6);
    assert!(e.is_valid());
    e.jobs[0].entered_at = Some(8);
    assert!(!e.is_valid());
}
