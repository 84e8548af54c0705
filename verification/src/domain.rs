//! The domain checks of the leg solver and of the descent calculator.
//!
//! Both compute in floating point, which is the caller's part. What is
//! decided here is which outcome of a comparison lets a computation go on and
//! which error ends it. A comparison is taken as `partial_cmp` gives it:
//! `None` stands for a quantity that is not a number, and never passes, so
//! that no such quantity reaches a result.

use vstd::prelude::*;
use core::cmp::Ordering;
use crate::waypoint::SolverError;

verus! {

/// The first quantity is smaller than the second, or equal to it.
pub open spec fn at_most(relation: Option<Ordering>) -> bool {
    relation == Some(Ordering::Less) || relation == Some(Ordering::Equal)
}

/// The first quantity is strictly smaller than the second.
pub open spec fn below(relation: Option<Ordering>) -> bool {
    relation == Some(Ordering::Less)
}

/// The first quantity is strictly greater than the second.
pub open spec fn above(relation: Option<Ordering>) -> bool {
    relation == Some(Ordering::Greater)
}

/// The outcome of the check before the wind correction: a wind faster than
/// the aircraft leaves no wind triangle, and an aircraft that does not move
/// forward through the air has no ground speed to speak of.
pub open spec fn wind_outcome(
    wind_to_airspeed: Option<Ordering>,
    airspeed_to_zero: Option<Ordering>,
) -> Result<(), SolverError> {
    if !at_most(wind_to_airspeed) {
        Err(SolverError::WindExceedsAirspeed)
    } else if !above(airspeed_to_zero) {
        Err(SolverError::NonPositiveGroundSpeed)
    } else {
        Ok(())
    }
}

/// The outcome of the check before a leg is timed: only a strictly positive
/// ground speed gives a flight time.
pub open spec fn ground_speed_outcome(ground_speed_to_zero: Option<Ordering>) -> Result<
    (),
    SolverError,
> {
    if above(ground_speed_to_zero) {
        Ok(())
    } else {
        Err(SolverError::NonPositiveGroundSpeed)
    }
}

/// The outcome of the descent check, given how the angle of descent compares
/// with 0 and with 90 degrees and how the target altitude compares with the
/// current one. A bad angle is reported before a bad profile.
pub open spec fn descent_outcome(
    angle_to_zero: Option<Ordering>,
    angle_to_ninety: Option<Ordering>,
    target_to_altitude: Option<Ordering>,
) -> Result<(), SolverError> {
    if !(above(angle_to_zero) && below(angle_to_ninety)) {
        Err(SolverError::InvalidDescentAngle)
    } else if !at_most(target_to_altitude) {
        Err(SolverError::InvalidDescentProfile)
    } else {
        Ok(())
    }
}

/// Whether the wind triangle has a solution, given how the wind speed
/// compares with the true airspeed and how the true airspeed compares with
/// zero. A wind faster than the aircraft is reported first. Otherwise the
/// true airspeed, by which the wind speed is then divided, must be strictly
/// positive: the sine of the wind correction angle then lies between -1 and 1
/// for any wind that does not blow backwards.
pub fn check_wind(wind_to_airspeed: Option<Ordering>, airspeed_to_zero: Option<Ordering>) -> (r:
    Result<(), SolverError>)
    ensures
        r == wind_outcome(wind_to_airspeed, airspeed_to_zero),
{
    match wind_to_airspeed {
        Some(Ordering::Less) => {},
        Some(Ordering::Equal) => {},
        _ => {
            return Err(SolverError::WindExceedsAirspeed);
        },
    }
    match airspeed_to_zero {
        Some(Ordering::Greater) => Ok(()),
        _ => Err(SolverError::NonPositiveGroundSpeed),
    }
}

/// Whether a leg can be timed, given how its ground speed compares with
/// zero. Only a strictly positive ground speed gives a flight time.
pub fn check_ground_speed(ground_speed_to_zero: Option<Ordering>) -> (r: Result<(), SolverError>)
    ensures
        r == ground_speed_outcome(ground_speed_to_zero),
{
    match ground_speed_to_zero {
        Some(Ordering::Greater) => Ok(()),
        _ => Err(SolverError::NonPositiveGroundSpeed),
    }
}

/// Whether a descent can be computed. The angle of descent must lie strictly
/// between 0 and 90 degrees, where its tangent is positive and finite, and
/// the target altitude must not lie above the current one.
pub fn check_descent(
    angle_to_zero: Option<Ordering>,
    angle_to_ninety: Option<Ordering>,
    target_to_altitude: Option<Ordering>,
) -> (r: Result<(), SolverError>)
    ensures
        r == descent_outcome(angle_to_zero, angle_to_ninety, target_to_altitude),
{
    let angle_in_range = match (angle_to_zero, angle_to_ninety) {
        (Some(Ordering::Greater), Some(Ordering::Less)) => true,
        _ => false,
    };
    if !angle_in_range {
        return Err(SolverError::InvalidDescentAngle);
    }
    match target_to_altitude {
        Some(Ordering::Less) => Ok(()),
        Some(Ordering::Equal) => Ok(()),
        _ => Err(SolverError::InvalidDescentProfile),
    }
}

/// A wind faster than the aircraft is refused as such, whatever the airspeed is.
pub proof fn lemma_faster_wind_is_refused(airspeed_to_zero: Option<Ordering>)
    ensures
        wind_outcome(Some(Ordering::Greater), airspeed_to_zero) == Err::<(), SolverError>(
            SolverError::WindExceedsAirspeed,
        ),
{
}

/// An angle of descent of 0 degrees or less, of 90 degrees or more, or one
/// that is not a number, is refused as such, whatever the altitudes are.
pub proof fn lemma_flat_or_vertical_is_refused(
    angle_to_zero: Option<Ordering>,
    angle_to_ninety: Option<Ordering>,
    target_to_altitude: Option<Ordering>,
)
    requires
        !above(angle_to_zero) || !below(angle_to_ninety),
    ensures
        descent_outcome(angle_to_zero, angle_to_ninety, target_to_altitude) == Err::<
            (),
            SolverError,
        >(SolverError::InvalidDescentAngle),
{
}

/// No check passes a comparison with a quantity that is not a number.
pub proof fn lemma_no_check_passes_without_an_order(
    first: Option<Ordering>,
    second: Option<Ordering>,
    third: Option<Ordering>,
)
    ensures
        first is None || second is None ==> wind_outcome(first, second) is Err,
        first is None ==> ground_speed_outcome(first) is Err,
        first is None || second is None || third is None ==> descent_outcome(
            first,
            second,
            third,
        ) is Err,
{
}

} // verus!
