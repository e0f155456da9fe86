//! The executable elevator engine.
//!
//! [`Elevator`] owns the state of one car. Every operation is specified by
//! the transition of [`ElevatorState`] that it carries out on the view of the
//! engine.

use crate::laws::{request_keeps_wf, step_keeps_wf};
use crate::model::{
    alights_at, destination_of, other_than, starts_at, stays_at, wait_until, ElevatorState,
    JobState, Trip,
};
use crate::seqs::{lemma_filter_next, lemma_filter_none, lemma_nats_push, nats};
use vstd::prelude::*;

verus! {

/// The direction of travel of the car.
#[derive(Copy, Clone, Debug, PartialEq, Eq, Structural)]
pub enum Direction {
    Up,
    Down,
    Rest,
}

/// A request to be taken from one floor to another.
///
/// `direction` is information for the caller; the engine neither reads nor
/// checks it.
#[derive(Copy, Clone, Debug, PartialEq, Eq, Structural)]
pub struct TravelRequest {
    pub origin: usize,
    pub direction: Direction,
    pub destination: usize,
}

impl View for TravelRequest {
    type V = Trip;

    open spec fn view(&self) -> Trip {
        Trip {
            origin: self.origin as nat,
            destination: self.destination as nat,
            direction: self.direction,
        }
    }
}

/// The engine's record of an accepted request.
#[derive(Copy, Clone, Debug)]
pub struct Job {
    pub travel_request: TravelRequest,
    /// The time at which the request was accepted.
    pub start: usize,
    /// The time at which the doors last opened at the origin for this job.
    pub entered_at: Option<usize>,
}

impl View for Job {
    type V = JobState;

    open spec fn view(&self) -> JobState {
        JobState {
            origin: self.travel_request.origin as nat,
            destination: self.travel_request.destination as nat,
            direction: self.travel_request.direction,
            start: self.start as nat,
            boarded_at: match self.entered_at {
                Some(t) => Some(t as nat),
                None => None,
            },
        }
    }
}

/// The views of a sequence of jobs.
pub open spec fn states(jobs: Seq<Job>) -> Seq<JobState> {
    jobs.map_values(|j: Job| j@)
}

proof fn lemma_states_push(jobs: Seq<Job>, job: Job)
    ensures
        states(jobs.push(job)) == states(jobs).push(job@),
{
    assert(states(jobs.push(job)) =~= states(jobs).push(job@));
}

/// One elevator car with its backlog of floors and its open jobs.
pub struct Elevator {
    pub min_floor: usize,
    pub max_floor: usize,
    pub current_floor: usize,
    pub direction: Direction,
    pub floor_backlog: Vec<usize>,
    pub jobs: Vec<Job>,
    pub time: usize,
    pub wait_times: Vec<usize>,
}

impl View for Elevator {
    type V = ElevatorState;

    open spec fn view(&self) -> ElevatorState {
        ElevatorState {
            min_floor: self.min_floor as nat,
            max_floor: self.max_floor as nat,
            current_floor: self.current_floor as nat,
            direction: self.direction,
            backlog: nats(self.floor_backlog@),
            jobs: states(self.jobs@),
            clock: self.time as nat,
            wait_times: nats(self.wait_times@),
        }
    }
}

/// A policy that picks the direction of the car at every step.
///
/// A policy reads the engine and nothing else; it may draw on a source of its
/// own, such as a random generator, so two calls in one state may differ.
/// `permits` says which directions the policy can pick in a state; a policy
/// that does not say is taken to permit any.
pub trait DirectionStrategy {
    /// Whether the policy can pick `direction` when the engine is in state `e`.
    open spec fn permits(e: ElevatorState, direction: Direction) -> bool {
        true
    }

    /// Picks the direction for this step.
    fn new_direction(e: &Elevator) -> (direction: Direction)
        ensures
            Self::permits(e@, direction),
    ;
}

impl Elevator {
    /// A resting car at floor `current` that serves the floors `min` to
    /// `max`, with nothing to do, at time zero.
    pub fn new(min: usize, max: usize, current: usize) -> (e: Self)
        requires
            min <= current <= max,
        ensures
            e@ == ElevatorState::init(min as nat, max as nat, current as nat),
            e@.wf(),
    {
        let e = Elevator {
            min_floor: min,
            max_floor: max,
            current_floor: current,
            direction: Direction::Rest,
            floor_backlog: Vec::new(),
            jobs: Vec::new(),
            time: 0,
            wait_times: Vec::new(),
        };
        proof {
            assert(e@.backlog =~= Seq::<nat>::empty());
            assert(e@.jobs =~= Seq::<JobState>::empty());
            assert(e@.wait_times =~= Seq::<nat>::empty());
        }
        e
    }

    /// Whether the engine is in a consistent state: the car is on a floor
    /// that it serves, and no job was accepted, or boarded, later than now or
    /// boarded before the step after it was accepted. The engine keeps
    /// itself consistent; only writing to its fields can make it otherwise.
    pub fn is_valid(&self) -> (valid: bool)
        ensures
            valid == self@.wf(),
    {
        if self.current_floor < self.min_floor || self.max_floor < self.current_floor {
            return false;
        }
        let mut i: usize = 0;
        while i < self.jobs.len()
            invariant
                i <= self.jobs.len(),
                self@.in_bounds(),
                forall|k: int| 0 <= k < i ==> (#[trigger] self@.jobs[k]).timely(self@.clock),
            decreases self.jobs.len() - i,
        {
            let job = self.jobs[i];
            let timely = job.start <= self.time && match job.entered_at {
                Some(t) => job.start < t && t <= self.time,
                None => true,
            };
            if !timely {
                assert(!self@.jobs[i as int].timely(self@.clock));
                return false;
            }
            i += 1;
        }
        true
    }

    /// Whether there is a floor left to visit.
    pub fn is_busy(&self) -> (busy: bool)
        ensures
            busy == self@.is_busy(),
    {
        !self.floor_backlog.is_empty()
    }

    /// Advances the engine by one step under the policy `T`: the clock
    /// advances, the policy picks a direction, and the car either serves the
    /// current floor or moves one floor.
    pub fn step<T: DirectionStrategy>(&mut self)
        requires
            old(self)@.wf(),
            old(self).time < usize::MAX,
        ensures
            exists|direction: Direction| #[trigger]
                T::permits(old(self)@.tick(), direction) && final(self)@ == old(self)@.step(
                    direction,
                ),
            final(self)@.wf(),
    {
        self.progress_time();
        let direction = T::new_direction(&*self);
        self.proceed(direction);
        proof {
            step_keeps_wf(old(self)@, direction);
            assert(T::permits(old(self)@.tick(), direction) && self@ == old(self)@.step(
                direction,
            ));
        }
    }

    /// Advances the engine by one step in which the direction `direction`
    /// has been picked for it.
    pub fn step_with(&mut self, direction: Direction)
        requires
            old(self)@.wf(),
            old(self).time < usize::MAX,
        ensures
            final(self)@ == old(self)@.step(direction),
            final(self)@.wf(),
    {
        self.progress_time();
        self.proceed(direction);
        proof {
            step_keeps_wf(old(self)@, direction);
        }
    }

    fn progress_time(&mut self)
        requires
            old(self).time < usize::MAX,
        ensures
            final(self)@ == old(self)@.tick(),
    {
        self.time += 1;
    }

    /// Takes the direction picked for this step, then serves the current
    /// floor if it is in the backlog and moves otherwise.
    fn proceed(&mut self, direction: Direction)
        requires
            old(self)@.wf(),
        ensures
            final(self)@ == old(self)@.proceed(direction),
    {
        self.direction = direction;
        if self.has_stop(self.current_floor) {
            self.open_doors();
        } else {
            self.travel();
        }
    }

    /// Whether `floor` is in the backlog.
    pub fn has_stop(&self, floor: usize) -> (stop: bool)
        ensures
            stop == self@.backlog.contains(floor as nat),
    {
        let mut i: usize = 0;
        while i < self.floor_backlog.len()
            invariant
                i <= self.floor_backlog.len(),
                forall|k: int| 0 <= k < i ==> self@.backlog[k] != floor as nat,
            decreases self.floor_backlog.len() - i,
        {
            if self.floor_backlog[i] == floor {
                assert(self@.backlog[i as int] == floor as nat);
                return true;
            }
            i += 1;
        }
        false
    }

    /// Opens the doors at the current floor.
    fn open_doors(&mut self)
        requires
            old(self)@.wf(),
        ensures
            final(self)@ == old(self)@.serve(),
    {
        let ghost before = self@;
        let ghost here = self.current_floor as nat;
        let ghost now = self.time as nat;
        let floor = self.current_floor;

        // The current floor leaves the backlog.
        let mut kept: Vec<usize> = Vec::new();
        let mut i: usize = 0;
        proof {
            lemma_filter_none(before.backlog, other_than(here));
        }
        while i < self.floor_backlog.len()
            invariant
                i <= self.floor_backlog.len(),
                self@ == before,
                floor == self.current_floor,
                here == floor as nat,
                nats(kept@) == before.backlog.take(i as int).filter(other_than(here)),
            decreases self.floor_backlog.len() - i,
        {
            let f = self.floor_backlog[i];
            proof {
                lemma_filter_next(before.backlog, other_than(here), i as int);
                lemma_nats_push(kept@, f);
            }
            if f != floor {
                kept.push(f);
            }
            i += 1;
        }
        proof {
            assert(before.backlog.take(i as int) =~= before.backlog);
        }
        self.floor_backlog = kept;

        // Whoever starts here boards.
        let ghost cleared = nats(self.floor_backlog@);
        let n = self.jobs.len();
        let mut i: usize = 0;
        proof {
            lemma_filter_none(before.jobs, starts_at(here));
            assert(before.jobs.take(0).filter(starts_at(here)).map_values(destination_of())
                =~= Seq::<nat>::empty());
            assert(cleared + Seq::<nat>::empty() =~= cleared);
        }
        while i < n
            invariant
                i <= n == self.jobs.len() == before.jobs.len(),
                self@.min_floor == before.min_floor,
                self@.max_floor == before.max_floor,
                self@.current_floor == before.current_floor,
                self@.direction == before.direction,
                self@.clock == before.clock,
                self@.wait_times == before.wait_times,
                floor == self.current_floor,
                here == floor as nat,
                now == self.time as nat,
                now == before.clock,
                forall|k: int| 0 <= k < i ==> (#[trigger] self.jobs[k])@ == before.jobs[k].board(here, now),
                forall|k: int| i <= k < n ==> (#[trigger] self.jobs[k])@ == before.jobs[k],
                nats(self.floor_backlog@) == cleared + before.jobs.take(i as int).filter(
                    starts_at(here),
                ).map_values(destination_of()),
            decreases n - i,
        {
            let job = self.jobs[i];
            proof {
                lemma_filter_next(before.jobs, starts_at(here), i as int);
                lemma_nats_push(self.floor_backlog@, job.travel_request.destination);
                let seen = before.jobs.take(i as int).filter(starts_at(here));
                assert(before.jobs[i as int] == job@);
                assert(seen.push(job@).map_values(destination_of()) =~= seen.map_values(
                    destination_of(),
                ).push(job@.destination));
                assert(cleared + seen.map_values(destination_of()).push(job@.destination)
                    =~= (cleared + seen.map_values(destination_of())).push(
                    job@.destination,
                ));
            }
            if job.travel_request.origin == floor {
                self.floor_backlog.push(job.travel_request.destination);
                self.jobs.set(i, Job { entered_at: Some(self.time), ..job });
            }
            i += 1;
        }
        proof {
            assert(before.jobs.take(n as int) =~= before.jobs);
            assert(states(self.jobs@) =~= before.riders());
        }

        // Whoever is on board and bound for this floor has arrived.
        let ghost riders = before.riders();
        let ghost recorded = nats(self.wait_times@);
        let mut staying: Vec<Job> = Vec::new();
        let mut i: usize = 0;
        proof {
            lemma_filter_none(riders, stays_at(here));
            lemma_filter_none(riders, alights_at(here));
            assert(states(staying@) =~= Seq::<JobState>::empty());
            assert(riders.take(0).filter(alights_at(here)).map_values(wait_until(now))
                =~= Seq::<nat>::empty());
            assert(recorded + Seq::<nat>::empty() =~= recorded);
        }
        while i < n
            invariant
                i <= n == self.jobs.len() == riders.len(),
                self@.min_floor == before.min_floor,
                self@.max_floor == before.max_floor,
                self@.current_floor == before.current_floor,
                self@.direction == before.direction,
                self@.clock == before.clock,
                self@.backlog == before.serve().backlog,
                states(self.jobs@) == riders,
                floor == self.current_floor,
                here == floor as nat,
                now == self.time as nat,
                forall|k: int| 0 <= k < n ==> (#[trigger] riders[k]).start <= now,
                states(staying@) == riders.take(i as int).filter(stays_at(here)),
                nats(self.wait_times@) == recorded + riders.take(i as int).filter(
                    alights_at(here),
                ).map_values(wait_until(now)),
            decreases n - i,
        {
            let job = self.jobs[i];
            proof {
                assert(riders[i as int] == job@);
                lemma_filter_next(riders, stays_at(here), i as int);
                lemma_filter_next(riders, alights_at(here), i as int);
                lemma_states_push(staying@, job);
                let gone = riders.take(i as int).filter(alights_at(here));
                let wait = wait_until(now)(job@);
                assert(gone.push(job@).map_values(wait_until(now)) =~= gone.map_values(
                    wait_until(now),
                ).push(wait));
                assert(recorded + gone.map_values(wait_until(now)).push(wait) =~= (recorded
                    + gone.map_values(wait_until(now))).push(wait));
            }
            if job.travel_request.destination == floor && job.entered_at.is_some() {
                let wait = self.time - job.start;
                proof {
                    lemma_nats_push(self.wait_times@, wait);
                }
                self.wait_times.push(wait);
            } else {
                staying.push(job);
            }
            i += 1;
        }
        proof {
            assert(riders.take(n as int) =~= riders);
        }
        self.jobs = staying;
    }

    /// Moves the car one floor in its direction, or brings it to rest where
    /// it cannot move.
    fn travel(&mut self)
        ensures
            final(self)@ == old(self)@.travel(),
    {
        match self.direction {
            Direction::Rest => {},
            Direction::Up => {
                if self.current_floor < self.max_floor {
                    self.current_floor += 1
                } else {
                    self.direction = Direction::Rest
                }
            },
            Direction::Down => {
                if self.current_floor > self.min_floor {
                    self.current_floor -= 1
                } else {
                    self.direction = Direction::Rest
                }
            },
        }
    }

    /// Accepts a request: its origin joins the backlog and a job is opened
    /// for it, stamped with the current time. Nothing is checked: a request
    /// between floors that the car does not serve, or from a floor to itself,
    /// is accepted like any other.
    pub fn add_request(&mut self, t: TravelRequest)
        ensures
            final(self)@ == old(self)@.add_request(t@),
            old(self)@.wf() ==> final(self)@.wf(),
    {
        proof {
            lemma_nats_push(self.floor_backlog@, t.origin);
            if self@.wf() {
                request_keeps_wf(self@, t@);
            }
        }
        self.floor_backlog.push(t.origin);
        let job = Job { travel_request: t, start: self.time, entered_at: None };
        proof {
            lemma_states_push(self.jobs@, job);
        }
        self.jobs.push(job);
    }

    /// The number of jobs that are not completed.
    pub fn backlog(&self) -> (open: usize)
        ensures
            open == self@.jobs.len(),
    {
        self.jobs.len()
    }
}

} // verus!
