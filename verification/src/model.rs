//! The elevator as a mathematical state machine.
//!
//! Floors and clock values are natural numbers here, so the transitions are
//! total and free of machine limits. The executable engine is specified as a
//! refinement of these transitions.

use crate::elevator::Direction;
use vstd::prelude::*;

verus! {

/// A request to be taken from one floor to another.
pub struct Trip {
    pub origin: nat,
    pub destination: nat,
    /// The direction that the caller has noted; the machine never reads it.
    pub direction: Direction,
}

/// The bookkeeping record of one accepted request.
pub struct JobState {
    pub origin: nat,
    pub destination: nat,
    /// The direction noted in the request.
    pub direction: Direction,
    /// The clock value at which the request was accepted.
    pub start: nat,
    /// The clock value at which the doors last opened at `origin` for this
    /// job, or `None` while it still waits there.
    pub boarded_at: Option<nat>,
}

impl JobState {
    /// A job as it is when its request has just been accepted.
    pub open spec fn waiting(trip: Trip, clock: nat) -> JobState {
        JobState {
            origin: trip.origin,
            destination: trip.destination,
            direction: trip.direction,
            start: clock,
            boarded_at: None,
        }
    }

    /// The job after the doors opened at `floor` at time `clock`: it boards
    /// if `floor` is its origin.
    pub open spec fn board(self, floor: nat, clock: nat) -> JobState {
        if self.origin == floor {
            JobState { boarded_at: Some(clock), ..self }
        } else {
            self
        }
    }

    /// Whether the job is on board and `floor` is where it wants to go.
    pub open spec fn alights(self, floor: nat) -> bool {
        self.boarded_at is Some && self.destination == floor
    }

    /// The floor at which the job needs the car next: its origin while it
    /// waits, its destination once it is on board.
    pub open spec fn next_stop(self) -> nat {
        if self.boarded_at is Some {
            self.destination
        } else {
            self.origin
        }
    }

    /// The clock values of the job are consistent with the time `clock`.
    pub open spec fn timely(self, clock: nat) -> bool {
        &&& self.start <= clock
        &&& self.boarded_at matches Some(t) ==> self.start < t <= clock
    }
}

/// Selects the floors other than `floor`.
pub open spec fn other_than(floor: nat) -> spec_fn(nat) -> bool {
    |f: nat| f != floor
}

/// Selects the jobs whose origin is `floor`.
pub open spec fn starts_at(floor: nat) -> spec_fn(JobState) -> bool {
    |j: JobState| j.origin == floor
}

/// Selects the jobs that are on board and bound for `floor`.
pub open spec fn alights_at(floor: nat) -> spec_fn(JobState) -> bool {
    |j: JobState| j.alights(floor)
}

/// Selects the jobs that do not leave the car at `floor`.
pub open spec fn stays_at(floor: nat) -> spec_fn(JobState) -> bool {
    |j: JobState| !j.alights(floor)
}

/// Boards a job if the doors open at its origin.
pub open spec fn boarding(floor: nat, clock: nat) -> spec_fn(JobState) -> JobState {
    |j: JobState| j.board(floor, clock)
}

/// The destination of a job.
pub open spec fn destination_of() -> spec_fn(JobState) -> nat {
    |j: JobState| j.destination
}

/// The time a job has been in the system at time `clock`.
pub open spec fn wait_until(clock: nat) -> spec_fn(JobState) -> nat {
    |j: JobState| (clock - j.start) as nat
}

/// What can happen to an elevator: a request is accepted, or one unit of time
/// passes with the policy choosing `direction`.
pub enum Event {
    Request { trip: Trip },
    Step { direction: Direction },
}

impl Event {
    /// Whether the event is a request that goes from a floor to another.
    pub open spec fn proper(self) -> bool {
        self matches Event::Request { trip } ==> trip.origin != trip.destination
    }
}

/// The number of floors between two floors.
pub open spec fn distance(from: nat, to: nat) -> nat {
    if from <= to {
        (to - from) as nat
    } else {
        (from - to) as nat
    }
}

/// The direction in which `to` lies as seen from another floor `from`.
pub open spec fn toward(from: nat, to: nat) -> Direction {
    if from < to {
        Direction::Up
    } else {
        Direction::Down
    }
}

/// The number of requests among `events`.
pub open spec fn requests_in(events: Seq<Event>) -> nat
    decreases events.len(),
{
    if events.len() == 0 {
        0
    } else {
        requests_in(events.drop_last()) + if events.last() is Request {
            1nat
        } else {
            0nat
        }
    }
}

/// The complete state of an elevator.
pub struct ElevatorState {
    pub min_floor: nat,
    pub max_floor: nat,
    pub current_floor: nat,
    pub direction: Direction,
    /// The floors still to be visited, in the order they were noted;
    /// a floor may occur more than once.
    pub backlog: Seq<nat>,
    /// The accepted requests that are not completed, oldest first.
    pub jobs: Seq<JobState>,
    pub clock: nat,
    /// The wait times of the completed jobs, in order of completion.
    pub wait_times: Seq<nat>,
}

impl ElevatorState {
    /// A resting car with nothing to do, at time zero.
    pub open spec fn init(min_floor: nat, max_floor: nat, floor: nat) -> ElevatorState {
        ElevatorState {
            min_floor,
            max_floor,
            current_floor: floor,
            direction: Direction::Rest,
            backlog: Seq::empty(),
            jobs: Seq::empty(),
            clock: 0,
            wait_times: Seq::empty(),
        }
    }

    /// The car is within the floors it serves.
    pub open spec fn in_bounds(self) -> bool {
        self.min_floor <= self.current_floor <= self.max_floor
    }

    /// The state is consistent: the car is in bounds and no job comes from
    /// the future.
    pub open spec fn wf(self) -> bool {
        &&& self.in_bounds()
        &&& forall|i: int| 0 <= i < self.jobs.len() ==> (#[trigger] self.jobs[i]).timely(self.clock)
    }

    /// Some open job needs the car at `floor` next.
    pub open spec fn expected_at(self, floor: nat) -> bool {
        exists|j: int| 0 <= j < self.jobs.len() && (#[trigger] self.jobs[j]).next_stop() == floor
    }

    /// Every floor in the backlog is the next stop of an open job.
    pub open spec fn backlog_accounted(self) -> bool {
        forall|i: int| 0 <= i < self.backlog.len() ==> self.expected_at(#[trigger] self.backlog[i])
    }

    /// No open job goes from a floor to the same floor.
    pub open spec fn endpoints_differ(self) -> bool {
        forall|j: int|
            0 <= j < self.jobs.len() ==> (#[trigger] self.jobs[j]).origin
                != self.jobs[j].destination
    }

    /// Whether there is a floor left to visit.
    pub open spec fn is_busy(self) -> bool {
        self.backlog.len() > 0
    }

    /// Accepts a request: its origin joins the backlog and a job is opened,
    /// stamped with the current time.
    pub open spec fn add_request(self, trip: Trip) -> ElevatorState {
        ElevatorState {
            backlog: self.backlog.push(trip.origin),
            jobs: self.jobs.push(JobState::waiting(trip, self.clock)),
            ..self
        }
    }

    /// One unit of time passes.
    pub open spec fn tick(self) -> ElevatorState {
        ElevatorState { clock: self.clock + 1, ..self }
    }

    /// The car takes the direction `direction`.
    pub open spec fn steer(self, direction: Direction) -> ElevatorState {
        ElevatorState { direction, ..self }
    }

    /// Whether the current floor is one the car has to stop at.
    pub open spec fn at_stop(self) -> bool {
        self.backlog.contains(self.current_floor)
    }

    /// The jobs after the doors opened at the current floor and before anyone
    /// left: those that start here are on board.
    pub open spec fn riders(self) -> Seq<JobState> {
        self.jobs.map_values(boarding(self.current_floor, self.clock))
    }

    /// The doors open at the current floor. The floor leaves the backlog
    /// altogether; every job that starts here boards and has its destination
    /// noted; then every job on board that is bound for this floor, those
    /// that have just boarded included, records its wait time and is closed.
    pub open spec fn serve(self) -> ElevatorState {
        let floor = self.current_floor;
        ElevatorState {
            backlog: self.backlog.filter(other_than(floor)) + self.jobs.filter(
                starts_at(floor),
            ).map_values(destination_of()),
            jobs: self.riders().filter(stays_at(floor)),
            wait_times: self.wait_times + self.riders().filter(alights_at(floor)).map_values(
                wait_until(self.clock),
            ),
            ..self
        }
    }

    /// The car moves one floor in its direction if it can, and comes to rest
    /// if it cannot.
    pub open spec fn travel(self) -> ElevatorState {
        match self.direction {
            Direction::Rest => self,
            Direction::Up => if self.current_floor < self.max_floor {
                ElevatorState { current_floor: self.current_floor + 1, ..self }
            } else {
                ElevatorState { direction: Direction::Rest, ..self }
            },
            Direction::Down => if self.current_floor > self.min_floor {
                ElevatorState { current_floor: (self.current_floor - 1) as nat, ..self }
            } else {
                ElevatorState { direction: Direction::Rest, ..self }
            },
        }
    }

    /// What follows the policy's choice within a step: the car takes the
    /// direction, then either serves the current floor or moves.
    pub open spec fn proceed(self, direction: Direction) -> ElevatorState {
        let s = self.steer(direction);
        if s.at_stop() {
            s.serve()
        } else {
            s.travel()
        }
    }

    /// One step of the machine under the direction that the policy chose.
    /// The policy is asked after the clock has advanced.
    pub open spec fn step(self, direction: Direction) -> ElevatorState {
        self.tick().proceed(direction)
    }

    /// The state after `steps` steps in each of which `direction` was chosen.
    pub open spec fn glide(self, direction: Direction, steps: nat) -> ElevatorState
        decreases steps,
    {
        if steps == 0 {
            self
        } else {
            self.glide(direction, (steps - 1) as nat).step(direction)
        }
    }

    /// The state after one event.
    pub open spec fn apply(self, event: Event) -> ElevatorState {
        match event {
            Event::Request { trip } => self.add_request(trip),
            Event::Step { direction } => self.step(direction),
        }
    }

    /// The state after a sequence of events, the first of them first.
    pub open spec fn run(self, events: Seq<Event>) -> ElevatorState
        decreases events.len(),
    {
        if events.len() == 0 {
            self
        } else {
            self.run(events.drop_last()).apply(events.last())
        }
    }
}

} // verus!
