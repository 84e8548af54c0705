//! The flight plan: an ordered list of legs that is never empty.

use vstd::prelude::*;
use crate::waypoint::{is_reset, Waypoint};

verus! {

/// The legs of a flight in the order they are flown. The first leg is the
/// plan's origin: it is there from the start and cannot be removed.
pub struct FlightPlan<S> {
    waypoints: Vec<Waypoint<S>>,
}

impl<S> View for FlightPlan<S> {
    type V = Seq<Waypoint<S>>;

    closed spec fn view(&self) -> Seq<Waypoint<S>> {
        self.waypoints@
    }
}

/// The leg that follows `last` when a new one is appended: it inherits the
/// cruise parameters (altitude, wind, indicated and true airspeed); its label
/// is empty and every other field is reset.
pub open spec fn follows<S: Default>(next: Waypoint<S>, last: Waypoint<S>) -> bool {
    &&& next.name@ == Seq::<char>::empty()
    &&& next.altitude == last.altitude
    &&& next.wind_direction == last.wind_direction
    &&& next.wind_speed == last.wind_speed
    &&& next.indicated_air_speed == last.indicated_air_speed
    &&& next.true_air_speed == last.true_air_speed
    &&& is_reset(next.course)
    &&& is_reset(next.distance)
    &&& is_reset(next.true_heading)
    &&& is_reset(next.ground_speed)
    &&& is_reset(next.flight_time)
}

impl<S> FlightPlan<S> {
    /// A plan is well formed when it holds its origin. Every constructor
    /// establishes this and every method keeps it.
    pub open spec fn wf(self) -> bool {
        self@.len() >= 1
    }

    /// Whether the leg at `index` exists and may be removed: every leg but the first.
    pub open spec fn removable(self, index: int) -> bool {
        0 < index < self@.len()
    }

    /// The number of legs.
    pub fn len(&self) -> (n: usize)
        ensures
            n == self@.len(),
    {
        self.waypoints.len()
    }

    /// The leg at `index`, if there is one.
    pub fn get(&self, index: usize) -> (r: Option<&Waypoint<S>>)
        ensures
            index < self@.len() ==> r == Some(&self@[index as int]),
            index >= self@.len() ==> r is None,
    {
        if index < self.waypoints.len() {
            Some(&self.waypoints[index])
        } else {
            None
        }
    }

    /// The leg at `index`, if there is one, for editing in place. Whatever is
    /// written to it, the other legs and the length of the plan stay as they are.
    pub fn get_mut(&mut self, index: usize) -> (r: Option<&mut Waypoint<S>>)
        ensures
            final(self).wf() == old(self).wf(),
            match r {
                Some(leg) => index < old(self)@.len() && *leg == old(self)@[index as int]
                    && final(self)@ == old(self)@.update(index as int, *final(leg)),
                None => index >= old(self)@.len() && final(self)@ == old(self)@,
            },
    {
        if index < self.waypoints.len() {
            Some(&mut self.waypoints[index])
        } else {
            None
        }
    }

    /// Whether the leg at `index` exists and may be removed.
    pub fn is_removable(&self, index: usize) -> (r: bool)
        ensures
            r == self.removable(index as int),
    {
        0 < index && index < self.waypoints.len()
    }

    /// Removes the leg at `index` and hands it back. The origin stays, and an
    /// index beyond the plan removes nothing: the plan is then unchanged.
    pub fn remove(&mut self, index: usize) -> (r: Option<Waypoint<S>>)
        ensures
            old(self).wf() ==> final(self).wf() && final(self)@[0] == old(self)@[0],
            old(self).removable(index as int) ==> r == Some(old(self)@[index as int])
                && final(self)@ == old(self)@.remove(index as int),
            !old(self).removable(index as int) ==> r is None && final(self)@ == old(self)@,
    {
        if 0 < index && index < self.waypoints.len() {
            Some(self.waypoints.remove(index))
        } else {
            None
        }
    }
}

impl<S: Default> FlightPlan<S> {
    /// A plan that holds one blank leg, its origin.
    pub fn new() -> (r: Self)
        ensures
            r.wf(),
            r@.len() == 1,
            r@[0].is_blank(),
    {
        let mut waypoints: Vec<Waypoint<S>> = Vec::new();
        waypoints.push(Waypoint::new());
        FlightPlan { waypoints }
    }

    /// Drops every leg and starts over from one blank origin.
    pub fn reset(&mut self)
        ensures
            final(self).wf(),
            final(self)@.len() == 1,
            final(self)@[0].is_blank(),
    {
        self.waypoints.clear();
        self.waypoints.push(Waypoint::new());
    }
}

impl<S: Default + Copy> FlightPlan<S> {
    /// Appends a leg that inherits the cruise parameters of the last one.
    /// The legs already in the plan stay as they are. Were the plan empty,
    /// the new leg would be blank.
    pub fn add_waypoint(&mut self)
        ensures
            final(self).wf(),
            final(self)@.len() == old(self)@.len() + 1,
            final(self)@.drop_last() == old(self)@,
            old(self)@.len() > 0 ==> follows(final(self)@.last(), old(self)@.last()),
            old(self)@.len() == 0 ==> final(self)@.last().is_blank(),
    {
        let mut next: Waypoint<S> = Waypoint::new();
        let n: usize = self.waypoints.len();
        if n > 0 {
            let last = &self.waypoints[n - 1];
            next.altitude = last.altitude;
            next.wind_direction = last.wind_direction;
            next.wind_speed = last.wind_speed;
            next.indicated_air_speed = last.indicated_air_speed;
            next.true_air_speed = last.true_air_speed;
        }
        self.waypoints.push(next);
        assert(self@.drop_last() =~= old(self)@);
    }
}

/// Removing the leg that was just appended gives the former plan back.
pub proof fn lemma_remove_undoes_append<S>(legs: Seq<Waypoint<S>>, next: Waypoint<S>)
    ensures
        legs.push(next).remove(legs.len() as int) == legs,
{
    assert(legs.push(next).remove(legs.len() as int) =~= legs);
}

/// Removing a leg that may be removed keeps the origin and every leg before
/// it in place, and moves every later leg one place forward.
pub proof fn lemma_remove_keeps_order<S>(legs: Seq<Waypoint<S>>, index: int, k: int)
    requires
        0 < index < legs.len(),
        0 <= k < legs.len() - 1,
    ensures
        legs.remove(index).len() == legs.len() - 1,
        legs.remove(index)[0] == legs[0],
        k < index ==> legs.remove(index)[k] == legs[k],
        k >= index ==> legs.remove(index)[k] == legs[k + 1],
{
}

} // verus!
