//! What holds of the elevator state machine, whatever the requests and
//! whatever the policy.

use crate::elevator::Direction;
use crate::model::{
    alights_at, distance, other_than, requests_in, starts_at, stays_at, toward, ElevatorState,
    Event, JobState, Trip,
};
use vstd::prelude::*;

verus! {

/// Accepting a request keeps a consistent state consistent.
pub proof fn request_keeps_wf(s: ElevatorState, trip: Trip)
    requires
        s.wf(),
    ensures
        s.add_request(trip).wf(),
{
}

/// A step keeps a consistent state consistent, whatever the direction.
pub proof fn step_keeps_wf(s: ElevatorState, direction: Direction)
    requires
        s.wf(),
    ensures
        s.step(direction).wf(),
{
    let t = s.tick().steer(direction);
    if t.at_stop() {
        let riders = t.riders();
        let after = t.serve();
        assert forall|i: int| 0 <= i < after.jobs.len() implies (#[trigger] after.jobs[i]).timely(
            after.clock,
        ) by {
            let job = after.jobs[i];
            assert(riders.filter(stays_at(t.current_floor)).contains(job));
            riders.lemma_filter_contains_rev(stays_at(t.current_floor), job);
            let k = choose|k: int| 0 <= k < riders.len() && riders[k] == job;
            assert(s.jobs[k].timely(s.clock));
        }
    }
}

/// Every state that can be reached from a consistent one is consistent, and
/// serves the same floors: the car never leaves the floors between
/// `min_floor` and `max_floor`, whatever is requested and whatever the policy
/// chooses.
pub proof fn floor_stays_in_bounds(s: ElevatorState, events: Seq<Event>)
    requires
        s.wf(),
    ensures
        s.run(events).wf(),
        s.run(events).in_bounds(),
        s.run(events).min_floor == s.min_floor,
        s.run(events).max_floor == s.max_floor,
    decreases events.len(),
{
    if events.len() > 0 {
        floor_stays_in_bounds(s, events.drop_last());
        let before = s.run(events.drop_last());
        match events.last() {
            Event::Request { trip } => {
                request_keeps_wf(before, trip);
            },
            Event::Step { direction } => {
                step_keeps_wf(before, direction);
            },
        }
    }
}

/// A new engine whose car starts on a floor that it serves never has its car
/// anywhere else.
pub proof fn new_engine_stays_in_bounds(
    min_floor: nat,
    max_floor: nat,
    floor: nat,
    events: Seq<Event>,
)
    requires
        min_floor <= floor <= max_floor,
    ensures
        min_floor <= ElevatorState::init(min_floor, max_floor, floor).run(events).current_floor
            <= max_floor,
{
    floor_stays_in_bounds(ElevatorState::init(min_floor, max_floor, floor), events);
}

/// In one step the car stays where it is or moves by one floor, and it moves
/// only the way that was chosen for the step: up by one only under `Up`,
/// down by one only under `Down`. A request moves nothing.
pub proof fn no_teleportation(s: ElevatorState, direction: Direction)
    ensures
        ({
            let t = s.step(direction);
            ||| t.current_floor == s.current_floor
            ||| t.current_floor == s.current_floor + 1 && direction == Direction::Up && t.direction
                == Direction::Up
            ||| t.current_floor + 1 == s.current_floor && direction == Direction::Down
                && t.direction == Direction::Down
        }),
        forall|trip: Trip| #[trigger] s.add_request(trip).current_floor == s.current_floor,
{
}

/// Of the jobs on board when the doors are open, each either stays or
/// leaves, so the two groups share out the whole.
proof fn lemma_stay_or_leave(jobs: Seq<JobState>, floor: nat)
    ensures
        jobs.filter(stays_at(floor)).len() + jobs.filter(alights_at(floor)).len() == jobs.len(),
    decreases jobs.len(),
{
    reveal(Seq::filter);
    if jobs.len() > 0 {
        lemma_stay_or_leave(jobs.drop_last(), floor);
    }
}

/// A step closes a job exactly when it records a wait time: the open jobs
/// and the recorded wait times together are as many after the step as
/// before, and no recorded wait time is changed or dropped.
pub proof fn step_conserves_jobs(s: ElevatorState, direction: Direction)
    ensures
        s.step(direction).jobs.len() + s.step(direction).wait_times.len() == s.jobs.len()
            + s.wait_times.len(),
        s.wait_times.is_prefix_of(s.step(direction).wait_times),
{
    let t = s.tick().steer(direction);
    if t.at_stop() {
        lemma_stay_or_leave(t.riders(), t.current_floor);
    }
}

/// Every accepted request is, after any sequence of requests and steps,
/// either an open job or one recorded wait time, never both and never
/// neither: open jobs and wait times together count the jobs there were at
/// the start and the requests accepted since. Wait times are only ever
/// appended.
pub proof fn jobs_are_conserved(s: ElevatorState, events: Seq<Event>)
    ensures
        s.run(events).jobs.len() + s.run(events).wait_times.len() == s.jobs.len()
            + s.wait_times.len() + requests_in(events),
        s.wait_times.is_prefix_of(s.run(events).wait_times),
    decreases events.len(),
{
    if events.len() > 0 {
        jobs_are_conserved(s, events.drop_last());
        let before = s.run(events.drop_last());
        match events.last() {
            Event::Request { trip } => {},
            Event::Step { direction } => {
                step_conserves_jobs(before, direction);
            },
        }
    }
}

/// An engine with an empty backlog never opens its doors: a step changes
/// neither backlog nor jobs nor wait times, and if the car is at rest after
/// the step, it has not moved in it.
pub proof fn idle_step_changes_nothing(s: ElevatorState, direction: Direction)
    requires
        !s.is_busy(),
    ensures
        s.step(direction).backlog == s.backlog,
        s.step(direction).jobs == s.jobs,
        s.step(direction).wait_times == s.wait_times,
        s.step(direction).direction == Direction::Rest ==> s.step(direction).current_floor
            == s.current_floor,
{
}

/// An engine with an empty backlog that is stepped again and again, under
/// whatever directions, keeps its backlog empty and appends nothing to its
/// jobs or its wait times.
pub proof fn idle_engine_stays_idle(s: ElevatorState, events: Seq<Event>)
    requires
        !s.is_busy(),
        forall|i: int| 0 <= i < events.len() ==> #[trigger] events[i] is Step,
    ensures
        s.run(events).backlog == s.backlog,
        s.run(events).jobs == s.jobs,
        s.run(events).wait_times == s.wait_times,
    decreases events.len(),
{
    if events.len() > 0 {
        idle_engine_stays_idle(s, events.drop_last());
        assert(events.last() is Step);
        idle_step_changes_nothing(s.run(events.drop_last()), events.last()->direction);
    }
}

/// Once a step under `direction` has left an idle car at rest, further steps
/// under the same direction leave the car on its floor and at rest.
pub proof fn resting_car_stays_put(s: ElevatorState, direction: Direction, steps: nat)
    requires
        !s.is_busy(),
        s.step(direction).direction == Direction::Rest,
    ensures
        s.step(direction).glide(direction, steps).current_floor == s.current_floor,
        s.step(direction).glide(direction, steps).direction == Direction::Rest,
        !s.step(direction).glide(direction, steps).is_busy(),
    decreases steps,
{
    if steps > 0 {
        resting_car_stays_put(s, direction, (steps - 1) as nat);
    }
}

/// Filtering a sequence of one element keeps it or leaves nothing.
proof fn lemma_filter_one<A>(x: A, keep: spec_fn(A) -> bool)
    ensures
        seq![x].filter(keep) == if keep(x) {
            seq![x]
        } else {
            Seq::<A>::empty()
        },
{
    reveal(Seq::filter);
    assert(seq![x] =~= Seq::<A>::empty().push(x));
    Seq::<A>::empty().lemma_filter_push(x, keep);
    assert(Seq::<A>::empty().filter(keep) =~= Seq::<A>::empty());
}

/// A car whose only stop is `target` and which is sent toward it moves one
/// floor per step, as long as it has not arrived, and nothing else changes
/// but the clock.
proof fn lemma_glide_toward(s: ElevatorState, target: nat, steps: nat)
    requires
        s.in_bounds(),
        s.min_floor <= target <= s.max_floor,
        s.backlog == seq![target],
        0 < steps <= distance(s.current_floor, target),
    ensures
        s.glide(toward(s.current_floor, target), steps) == (ElevatorState {
            current_floor: if s.current_floor < target {
                s.current_floor + steps
            } else {
                (s.current_floor - steps) as nat
            },
            clock: s.clock + steps,
            direction: toward(s.current_floor, target),
            ..s
        }),
    decreases steps,
{
    let way = toward(s.current_floor, target);
    if steps > 1 {
        lemma_glide_toward(s, target, (steps - 1) as nat);
    }
    let before = s.glide(way, (steps - 1) as nat);
    assert(before.backlog[0] == target);
    assert(!before.tick().steer(way).at_stop());
}

/// The doors open for a job that waits alone where the car stands: the job
/// boards and its destination is all there is in the backlog.
proof fn lemma_pick_up(s: ElevatorState, job: JobState, direction: Direction)
    requires
        s.backlog == seq![s.current_floor],
        s.jobs == seq![job],
        job.origin == s.current_floor,
        job.destination != s.current_floor,
    ensures
        s.step(direction) == (ElevatorState {
            clock: s.clock + 1,
            direction,
            backlog: seq![job.destination],
            jobs: seq![job.board(s.current_floor, s.clock + 1)],
            ..s
        }),
{
    let floor = s.current_floor;
    let t = s.tick().steer(direction);
    let riding = job.board(floor, t.clock);
    assert(t.backlog[0] == floor);
    lemma_filter_one(floor, other_than(floor));
    lemma_filter_one(job, starts_at(floor));
    assert(t.riders() =~= seq![riding]);
    lemma_filter_one(riding, stays_at(floor));
    lemma_filter_one(riding, alights_at(floor));
    assert(t.serve().backlog =~= seq![job.destination]);
    assert(t.serve().jobs =~= seq![riding]);
    assert(t.serve().wait_times =~= s.wait_times);
}

/// The doors open for a job that rides alone and has arrived: its wait time
/// is recorded and nothing is left to do.
proof fn lemma_set_down(s: ElevatorState, job: JobState, direction: Direction)
    requires
        s.backlog == seq![s.current_floor],
        s.jobs == seq![job],
        job.boarded_at is Some,
        job.destination == s.current_floor,
        job.origin != s.current_floor,
    ensures
        s.step(direction) == (ElevatorState {
            clock: s.clock + 1,
            direction,
            backlog: Seq::<nat>::empty(),
            jobs: Seq::<JobState>::empty(),
            wait_times: s.wait_times.push((s.clock + 1 - job.start) as nat),
            ..s
        }),
{
    let floor = s.current_floor;
    let t = s.tick().steer(direction);
    assert(t.backlog[0] == floor);
    lemma_filter_one(floor, other_than(floor));
    lemma_filter_one(job, starts_at(floor));
    assert(t.riders() =~= seq![job]);
    lemma_filter_one(job, stays_at(floor));
    lemma_filter_one(job, alights_at(floor));
    assert(t.serve().backlog =~= Seq::<nat>::empty());
    assert(t.serve().jobs =~= Seq::<JobState>::empty());
    assert(t.serve().wait_times =~= s.wait_times.push((t.clock - job.start) as nat));
}

/// A job that rides alone is taken straight to its destination and set down
/// there: the trip takes one step per floor and one step more.
proof fn lemma_ride(s: ElevatorState, job: JobState, last: Direction)
    requires
        s.in_bounds(),
        s.min_floor <= job.destination <= s.max_floor,
        s.backlog == seq![job.destination],
        s.jobs == seq![job],
        job.boarded_at is Some,
        job.origin == s.current_floor,
        job.destination != s.current_floor,
    ensures
        ({
            let way = distance(s.current_floor, job.destination);
            s.glide(toward(s.current_floor, job.destination), way).step(last) == (ElevatorState {
                current_floor: job.destination,
                clock: s.clock + way + 1,
                direction: last,
                backlog: Seq::<nat>::empty(),
                jobs: Seq::<JobState>::empty(),
                wait_times: s.wait_times.push((s.clock + way + 1 - job.start) as nat),
                ..s
            })
        }),
{
    let way = distance(s.current_floor, job.destination);
    lemma_glide_toward(s, job.destination, way);
    lemma_set_down(s.glide(toward(s.current_floor, job.destination), way), job, last);
}

/// The wait time of a direct trip. A request is made on the floor where an
/// idle car stands, for another floor that the car serves. The next step
/// opens the doors and the job boards; then the car is sent toward the
/// destination for as many steps as there are floors on the way; one more
/// step opens the doors there. The wait time recorded is one step to board,
/// one step per floor travelled, and one step to leave. The directions
/// chosen in the first and in the last step do not matter.
pub proof fn direct_trip_wait_time(s: ElevatorState, trip: Trip, first: Direction, last: Direction)
    requires
        s.in_bounds(),
        s.backlog.len() == 0,
        s.jobs.len() == 0,
        trip.origin == s.current_floor,
        s.min_floor <= trip.destination <= s.max_floor,
        trip.destination != trip.origin,
    ensures
        ({
            let way = distance(trip.origin, trip.destination);
            let t = s.add_request(trip).step(first).glide(
                toward(trip.origin, trip.destination),
                way,
            ).step(last);
            &&& t.wait_times == s.wait_times.push(1 + way + 1)
            &&& t.jobs.len() == 0
            &&& t.backlog.len() == 0
            &&& t.current_floor == trip.destination
            &&& t.clock == s.clock + 1 + way + 1
        }),
{
    let job = JobState::waiting(trip, s.clock);
    let asked = s.add_request(trip);
    assert(asked.backlog =~= seq![trip.origin]);
    assert(asked.jobs =~= seq![job]);
    lemma_pick_up(asked, job, first);
    lemma_ride(asked.step(first), job.board(trip.origin, s.clock + 1), last);
}

/// If every floor in the backlog is the next stop of an open job, and no
/// open job goes from a floor to the same floor, then the same holds after
/// a step.
pub proof fn step_keeps_backlog_accounted(s: ElevatorState, direction: Direction)
    requires
        s.backlog_accounted(),
        s.endpoints_differ(),
    ensures
        s.step(direction).backlog_accounted(),
        s.step(direction).endpoints_differ(),
{
    let t = s.tick().steer(direction);
    if t.at_stop() {
        let floor = t.current_floor;
        let riders = t.riders();
        let after = t.serve();
        let left = t.backlog.filter(other_than(floor));
        let picked = t.jobs.filter(starts_at(floor));
        assert forall|j: int| 0 <= j < after.jobs.len() implies (#[trigger] after.jobs[j]).origin
            != after.jobs[j].destination by {
            let job = after.jobs[j];
            assert(riders.filter(stays_at(floor)).contains(job));
            riders.lemma_filter_contains_rev(stays_at(floor), job);
            let k = choose|k: int| 0 <= k < riders.len() && riders[k] == job;
            assert(s.jobs[k].origin != s.jobs[k].destination);
        }
        assert forall|i: int| 0 <= i < after.backlog.len() implies after.expected_at(
            #[trigger] after.backlog[i],
        ) by {
            let x = after.backlog[i];
            // The job in the car that accounts for `x`.
            let k = if i < left.len() {
                t.backlog.lemma_filter_pred(other_than(floor), i);
                assert(left.contains(x));
                t.backlog.lemma_filter_contains_rev(other_than(floor), x);
                let b = choose|b: int| 0 <= b < s.backlog.len() && s.backlog[b] == x;
                assert(s.expected_at(s.backlog[b]));
                choose|j: int| 0 <= j < s.jobs.len() && (#[trigger] s.jobs[j]).next_stop() == x
            } else {
                let m = i - left.len();
                t.jobs.lemma_filter_pred(starts_at(floor), m);
                assert(picked.contains(picked[m]));
                t.jobs.lemma_filter_contains_rev(starts_at(floor), picked[m]);
                choose|k: int| 0 <= k < t.jobs.len() && t.jobs[k] == picked[m]
            };
            let rider = riders[k];
            assert(s.jobs[k].origin != s.jobs[k].destination);
            assert(rider.next_stop() == x);
            assert(stays_at(floor)(rider));
            riders.lemma_filter_contains(stays_at(floor), k);
            let j = choose|j: int| 0 <= j < after.jobs.len() && after.jobs[j] == rider;
            assert(after.jobs[j].next_stop() == x);
        }
    } else {
        let after = t.travel();
        assert(after.jobs == s.jobs && after.backlog == s.backlog);
        assert forall|i: int| 0 <= i < after.backlog.len() implies after.expected_at(
            #[trigger] after.backlog[i],
        ) by {
            assert(s.expected_at(s.backlog[i]));
            let j = choose|j: int|
                0 <= j < s.jobs.len() && (#[trigger] s.jobs[j]).next_stop() == s.backlog[i];
            assert(after.jobs[j].next_stop() == after.backlog[i]);
        }
    }
}

/// Every floor in the backlog is the origin of an open job that has not
/// boarded or the destination of one that has: this holds after any sequence
/// of steps and of requests from a floor to another, if it held before and
/// no open job went from a floor to the same floor.
pub proof fn backlog_stays_accounted(s: ElevatorState, events: Seq<Event>)
    requires
        s.backlog_accounted(),
        s.endpoints_differ(),
        forall|i: int| 0 <= i < events.len() ==> (#[trigger] events[i]).proper(),
    ensures
        s.run(events).backlog_accounted(),
        s.run(events).endpoints_differ(),
    decreases events.len(),
{
    if events.len() > 0 {
        backlog_stays_accounted(s, events.drop_last());
        let before = s.run(events.drop_last());
        assert(events.last().proper());
        match events.last() {
            Event::Request { trip } => {
                let after = before.add_request(trip);
                assert forall|i: int| 0 <= i < after.backlog.len() implies after.expected_at(
                    #[trigger] after.backlog[i],
                ) by {
                    if i < before.backlog.len() {
                        assert(before.expected_at(before.backlog[i]));
                        let j = choose|j: int|
                            0 <= j < before.jobs.len() && (#[trigger] before.jobs[j]).next_stop()
                                == before.backlog[i];
                        assert(after.jobs[j].next_stop() == after.backlog[i]);
                    } else {
                        assert(after.jobs[before.jobs.len() as int].next_stop() == trip.origin);
                    }
                }
            },
            Event::Step { direction } => {
                step_keeps_backlog_accounted(before, direction);
            },
        }
    }
}

} // verus!
