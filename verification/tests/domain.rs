use flight_scribe::domain::{check_descent, check_ground_speed, check_wind};
use flight_scribe::waypoint::SolverError;

fn wind(wind_speed: f64, true_air_speed: f64) -> Result<(), SolverError> {
    check_wind(wind_speed.partial_cmp(&true_air_speed), true_air_speed.partial_cmp(&0.0))
}

#[test]
fn a_wind_not_faster_than_the_aircraft_passes() {
    assert_eq!(wind(20.0, 100.0), Ok(()));
    assert_eq!(wind(100.0, 100.0), Ok(()));
    assert_eq!(wind(0.0, 110.0), Ok(()));
}

#[test]
fn a_wind_faster_than_the_aircraft_is_refused() {
    assert_eq!(wind(100.5, 100.0), Err(SolverError::WindExceedsAirspeed));
    assert_eq!(wind(1.0, 0.0), Err(SolverError::WindExceedsAirspeed));
    assert_eq!(wind(5.0, -10.0), Err(SolverError::WindExceedsAirspeed));
    assert_eq!(wind(f64::INFINITY, 1.0e300), Err(SolverError::WindExceedsAirspeed));
}

#[test]
fn a_wind_that_is_not_a_number_is_refused() {
    assert_eq!(wind(f64::NAN, 100.0), Err(SolverError::WindExceedsAirspeed));
    assert_eq!(wind(20.0, f64::NAN), Err(SolverError::WindExceedsAirspeed));
    assert_eq!(check_wind(None, 100.0f64.partial_cmp(&0.0)), Err(SolverError::WindExceedsAirspeed));
}

#[test]
fn an_aircraft_at_rest_in_still_air_is_refused() {
    assert_eq!(wind(0.0, 0.0), Err(SolverError::NonPositiveGroundSpeed));
    assert_eq!(wind(-20.0, -10.0), Err(SolverError::NonPositiveGroundSpeed));
    assert_eq!(check_wind(0.0f64.partial_cmp(&100.0), None), Err(SolverError::NonPositiveGroundSpeed));
}

#[test]
fn only_a_positive_ground_speed_passes() {
    assert_eq!(check_ground_speed(120.0f64.partial_cmp(&0.0)), Ok(()));
    assert_eq!(check_ground_speed(f64::MIN_POSITIVE.partial_cmp(&0.0)), Ok(()));
    assert_eq!(check_ground_speed(0.0f64.partial_cmp(&0.0)), Err(SolverError::NonPositiveGroundSpeed));
    assert_eq!(check_ground_speed((-0.0f64).partial_cmp(&0.0)), Err(SolverError::NonPositiveGroundSpeed));
    assert_eq!(check_ground_speed((-15.0f64).partial_cmp(&0.0)), Err(SolverError::NonPositiveGroundSpeed));
    assert_eq!(check_ground_speed(f64::NAN.partial_cmp(&0.0)), Err(SolverError::NonPositiveGroundSpeed));
}

fn descent(altitude: f64, target: f64, angle: f64) -> Result<(), SolverError> {
    check_descent(angle.partial_cmp(&0.0), angle.partial_cmp(&90.0), target.partial_cmp(&altitude))
}

#[test]
fn a_three_degree_descent_to_the_ground_passes() {
    assert_eq!(descent(5000.0, 0.0, 3.0), Ok(()));
    assert_eq!(descent(5000.0, 5000.0, 3.0), Ok(()));
    assert_eq!(descent(-100.0, -1300.0, 89.9), Ok(()));
}

#[test]
fn a_flat_or_vertical_descent_is_refused() {
    assert_eq!(descent(5000.0, 0.0, 0.0), Err(SolverError::InvalidDescentAngle));
    assert_eq!(descent(5000.0, 0.0, 90.0), Err(SolverError::InvalidDescentAngle));
    assert_eq!(descent(5000.0, 0.0, -3.0), Err(SolverError::InvalidDescentAngle));
    assert_eq!(descent(5000.0, 0.0, 120.0), Err(SolverError::InvalidDescentAngle));
    assert_eq!(descent(5000.0, 0.0, f64::NAN), Err(SolverError::InvalidDescentAngle));
}

#[test]
fn a_target_above_the_aircraft_is_refused() {
    assert_eq!(descent(3000.0, 5000.0, 3.0), Err(SolverError::InvalidDescentProfile));
    assert_eq!(descent(3000.0, 3000.1, 45.0), Err(SolverError::InvalidDescentProfile));
    assert_eq!(descent(f64::NAN, 0.0, 3.0), Err(SolverError::InvalidDescentProfile));
    assert_eq!(descent(3000.0, f64::NAN, 3.0), Err(SolverError::InvalidDescentProfile));
}

#[test]
fn a_bad_angle_is_reported_before_a_bad_profile() {
    assert_eq!(descent(3000.0, 5000.0, 0.0), Err(SolverError::InvalidDescentAngle));
    assert_eq!(descent(3000.0, 5000.0, 90.0), Err(SolverError::InvalidDescentAngle));
}
