use pid::math::Math;
use pid::pid::{Interval, PidController, SCALE};

/// One fixed-point unit: 1.0.
const ONE: i64 = SCALE;

fn second() -> Interval {
    Interval::from_secs(1)
}

#[test]
fn update() {
    let mut pid = PidController::new_pid(ONE, 0, 0, None);
    assert_eq!(pid.update(0, 0, second()), 0);
    assert_eq!(pid.update(0, ONE, second()), -ONE);
    assert_eq!(pid.update(0, 0, second()), 0);
}

#[test]
#[should_panic]
fn update_zero_dt() {
    let mut pid = PidController::new_pid(ONE, 0, 0, None);
    pid.update(0, 0, Interval::from_nanos(0));
}

#[test]
fn i_zone() {
    let mut pid = PidController::new_pid(0, ONE, 0, Some(ONE));

    assert_eq!(pid.update(0, 3 * ONE, second()), 0);
    assert_eq!(pid.update(0, ONE / 4, second()), -ONE / 4);
    assert_eq!(pid.update(0, ONE / 4, second()), -ONE / 2);
    assert_eq!(pid.update(0, -3 * ONE, second()), 0);
}

#[test]
fn proportional_ignores_dt_and_history() {
    let mut pid = PidController::new_pid(ONE / 2, 0, 0, None);
    // kp = 0.5, error = 3.0: output 1.5 whatever the interval.
    assert_eq!(pid.update(3 * ONE, 0, second()), 3 * ONE / 2);
    assert_eq!(pid.update(3 * ONE, 0, Interval::from_millis(7)), 3 * ONE / 2);
    assert_eq!(pid.update(3 * ONE, 0, Interval::from_nanos(1)), 3 * ONE / 2);
}

#[test]
fn derivative_uses_previous_state() {
    // kd = 2.0 only; fixed setpoint; states 1.0 then 4.0 over 0.5 s:
    // second output is kd * (s2 - s1) / dt = 2 * 3 / 0.5 = 12.
    let mut pid = PidController::new_pid(0, 0, 2 * ONE, None);
    pid.update(10 * ONE, ONE, second());
    let out = pid.update(10 * ONE, 4 * ONE, Interval::from_millis(500));
    assert_eq!(out, 12 * ONE);
}

#[test]
fn pd_constructor_matches_full_constructor() {
    let pd = PidController::new_pd(3 * ONE, 5 * ONE);
    let full = PidController::new_pid(3 * ONE, 0, 5 * ONE, None);
    assert_eq!(pd, full);

    // And the two behave identically over a sequence of updates.
    let mut a = PidController::new_pd(ONE, ONE / 2);
    let mut b = PidController::new_pid(ONE, 0, ONE / 2, None);
    let calls = [
        (0, ONE, 1_000_000_000u64),
        (2 * ONE, -ONE, 250_000_000u64),
        (2 * ONE, 2 * ONE, 500_000_000u64),
    ];
    for (setpoint, state, nanos) in calls {
        let dt = Interval::from_nanos(nanos);
        assert_eq!(a.update(setpoint, state, dt), b.update(setpoint, state, dt));
        assert_eq!(a, b);
    }
}

#[test]
fn no_zone_accumulates_without_reset() {
    // ki = 1.0 only and no zone: each output is the running sum of
    // error * dt, however large the error gets.
    let mut pid = PidController::new_pid(0, ONE, 0, None);
    assert_eq!(pid.update(0, 5 * ONE, second()), -5 * ONE);
    assert_eq!(pid.update(0, 100 * ONE, second()), -105 * ONE);
    assert_eq!(pid.update(0, -104 * ONE, second()), -ONE);
}

#[test]
fn error_on_zone_boundary_still_accumulates() {
    // The integrator resets only when |error| strictly exceeds the zone.
    let mut pid = PidController::new_pid(0, ONE, 0, Some(ONE));
    assert_eq!(pid.update(0, ONE, second()), -ONE);
    assert_eq!(pid.update(0, -ONE, second()), 0);
}

#[test]
fn integrator_increment_truncates_toward_zero() {
    // error = -1 unit over 1 ns: error * dt is a quarter of nothing;
    // truncation toward zero leaves the accumulator at exactly 0.
    let mut pid = PidController::new_pid(0, ONE, 0, None);
    assert_eq!(pid.update(0, 1, Interval::from_nanos(1)), 0);
}

#[test]
fn try_update_reports_range_overflow() {
    // Within range, try_update answers exactly like update.
    let mut pid = PidController::new_pid(0, ONE, 0, None);
    assert_eq!(pid.try_update(0, ONE, second()), Some(-ONE));

    // An increment that would push the accumulator past i64 is refused,
    // and the controller is left unchanged.
    let mut big = PidController::new_pid(0, ONE, 0, None);
    assert_eq!(big.try_update(0, -i64::MAX, Interval::from_secs(1_000)), None);
    assert_eq!(big.try_update(0, ONE, second()), Some(-ONE));
}

#[test]
fn gains_are_writable_between_updates() {
    let mut pid = PidController::new_pd(ONE, 0);
    assert_eq!(pid.update(ONE, 0, second()), ONE);
    pid.kp = 2 * ONE;
    assert_eq!(pid.update(ONE, 0, second()), 2 * ONE);
}

#[test]
fn interval_constructors_agree() {
    assert_eq!(Interval::from_secs(2), Interval::from_millis(2_000));
    assert_eq!(Interval::from_millis(3), Interval::from_micros(3_000));
    assert_eq!(Interval::from_micros(5), Interval::from_nanos(5_000));
    assert!(Interval::from_nanos(0).is_zero());
    assert!(!Interval::from_nanos(1).is_zero());
}

#[test]
fn abs_backends() {
    assert_eq!(Math::abs(-5i64), 5i64);
    assert_eq!(Math::abs(7i64), 7i64);
    assert_eq!(Math::abs(-5i128), 5i128);
    assert_eq!(Math::abs(0i128), 0i128);
}
