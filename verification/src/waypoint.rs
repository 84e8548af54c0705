//! One leg of a flight plan: what the pilot enters, and what a solver derives.

use vstd::prelude::*;

verus! {

/// Why a leg or a descent has no solution.
#[derive(Clone, Copy, Debug, PartialEq, Eq, Structural)]
pub enum SolverError {
    /// The wind is faster than the aircraft: the wind triangle does not close.
    WindExceedsAirspeed,
    /// The ground speed is zero or negative: the leg is never completed.
    NonPositiveGroundSpeed,
    /// The angle of descent is not strictly between 0 and 90 degrees.
    InvalidDescentAngle,
    /// The target altitude lies above the current altitude.
    InvalidDescentProfile,
}

/// The entered fields of a leg, in degrees, nautical miles, feet and knots.
#[derive(Debug)]
pub struct WaypointInput<S> {
    pub course: S,
    pub distance: S,
    pub altitude: S,
    pub indicated_air_speed: S,
    pub wind_speed: S,
    pub wind_direction: S,
}

/// The derived fields of a leg, in knots, degrees and seconds.
#[derive(Debug)]
pub struct WaypointOutput<S> {
    pub true_air_speed: S,
    pub true_heading: S,
    pub ground_speed: S,
    pub flight_time: S,
}

/// One leg's navigation record: a label, six entered fields and four derived ones.
#[derive(Debug)]
pub struct Waypoint<S> {
    pub name: String,
    pub course: S,
    pub distance: S,
    pub altitude: S,
    pub indicated_air_speed: S,
    pub true_air_speed: S,
    pub wind_speed: S,
    pub wind_direction: S,
    pub true_heading: S,
    pub ground_speed: S,
    pub flight_time: S,
}

/// `x` is a value that `S::default()` may return: zero, for the number types.
pub open spec fn is_reset<S: Default>(x: S) -> bool {
    call_ensures(S::default, (), x)
}

impl<S> Waypoint<S> {
    /// The six entered fields of this record.
    pub open spec fn input_fields(self) -> WaypointInput<S> {
        WaypointInput {
            course: self.course,
            distance: self.distance,
            altitude: self.altitude,
            indicated_air_speed: self.indicated_air_speed,
            wind_speed: self.wind_speed,
            wind_direction: self.wind_direction,
        }
    }

    /// The four derived fields of this record.
    pub open spec fn derived_fields(self) -> WaypointOutput<S> {
        WaypointOutput {
            true_air_speed: self.true_air_speed,
            true_heading: self.true_heading,
            ground_speed: self.ground_speed,
            flight_time: self.flight_time,
        }
    }

    /// This record with its derived fields replaced by `derived`.
    pub open spec fn with_derived(self, derived: WaypointOutput<S>) -> Waypoint<S> {
        Waypoint {
            true_air_speed: derived.true_air_speed,
            true_heading: derived.true_heading,
            ground_speed: derived.ground_speed,
            flight_time: derived.flight_time,
            ..self
        }
    }
}

impl<S> Waypoint<S> {
    /// Stores a solver's outcome. A solution replaces the four derived fields
    /// and nothing else; a failure leaves the whole record as it was and is
    /// handed back.
    pub fn apply(&mut self, outcome: Result<WaypointOutput<S>, SolverError>) -> (r: Result<(), SolverError>)
        ensures
            match outcome {
                Ok(derived) => r == Ok::<(), SolverError>(()) && *final(self) == old(self).with_derived(derived),
                Err(e) => r == Err::<(), SolverError>(e) && *final(self) == *old(self),
            },
    {
        match outcome {
            Ok(derived) => {
                self.true_air_speed = derived.true_air_speed;
                self.true_heading = derived.true_heading;
                self.ground_speed = derived.ground_speed;
                self.flight_time = derived.flight_time;
                Ok(())
            },
            Err(e) => Err(e),
        }
    }
}

impl<S: Default> Waypoint<S> {
    /// The label is empty and every field is reset.
    pub open spec fn is_blank(self) -> bool {
        &&& self.name@ == Seq::<char>::empty()
        &&& is_reset(self.course)
        &&& is_reset(self.distance)
        &&& is_reset(self.altitude)
        &&& is_reset(self.indicated_air_speed)
        &&& is_reset(self.true_air_speed)
        &&& is_reset(self.wind_speed)
        &&& is_reset(self.wind_direction)
        &&& is_reset(self.true_heading)
        &&& is_reset(self.ground_speed)
        &&& is_reset(self.flight_time)
    }

    /// A blank record.
    pub fn new() -> (r: Self)
        ensures
            r.is_blank(),
    {
        Waypoint {
            name: String::new(),
            course: S::default(),
            distance: S::default(),
            altitude: S::default(),
            indicated_air_speed: S::default(),
            true_air_speed: S::default(),
            wind_speed: S::default(),
            wind_direction: S::default(),
            true_heading: S::default(),
            ground_speed: S::default(),
            flight_time: S::default(),
        }
    }
}

impl<S: Copy> Waypoint<S> {
    /// What a solver reads of this record.
    pub fn input(&self) -> (r: WaypointInput<S>)
        ensures
            r == self.input_fields(),
    {
        WaypointInput {
            course: self.course,
            distance: self.distance,
            altitude: self.altitude,
            indicated_air_speed: self.indicated_air_speed,
            wind_speed: self.wind_speed,
            wind_direction: self.wind_direction,
        }
    }
}

impl<S: Default> Default for Waypoint<S> {
    /// A blank record.
    fn default() -> (r: Self)
        ensures
            r.is_blank(),
    {
        Waypoint::new()
    }
}

/// Storing a solution changes neither the label nor any entered field, and
/// the derived fields are then the solution's.
pub proof fn lemma_solution_keeps_inputs<S>(leg: Waypoint<S>, derived: WaypointOutput<S>)
    ensures
        leg.with_derived(derived).name == leg.name,
        leg.with_derived(derived).input_fields() == leg.input_fields(),
        leg.with_derived(derived).derived_fields() == derived,
{
}

/// Storing the same solution a second time changes nothing.
pub proof fn lemma_solution_stored_once<S>(leg: Waypoint<S>, derived: WaypointOutput<S>)
    ensures
        leg.with_derived(derived).with_derived(derived) == leg.with_derived(derived),
{
}

} // verus!
