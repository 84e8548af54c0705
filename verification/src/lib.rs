//! The verified core of a dead-reckoning flight planner: the waypoint record,
//! the ordered plan with its editing rules, the domain checks of the leg
//! solver and of the descent calculator, and the `hh:mm:ss` notation of a
//! leg's flight time.
//!
//! The library never computes with a measured quantity. Courses, speeds,
//! distances, altitudes and times are values of a scalar type `S` that the
//! caller chooses; the plan stores, copies and resets them, and the checks
//! take the outcome of the caller's comparisons.

pub mod clock;
pub mod domain;
pub mod flightplan;
pub mod waypoint;
