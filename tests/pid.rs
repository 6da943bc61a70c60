use omnitiles::pid::{Pid, FULL_SCALE};

const DT: u32 = 20_000; // 50 Hz

#[test]
fn proportional_term_is_exact() {
    let mut pid = Pid::new(500, 0, 0);
    assert_eq!(pid.update(1000, 400, DT), 300);
}

#[test]
fn proportional_term_rounds_toward_zero() {
    let mut pid = Pid::new(500, 0, 0);
    assert_eq!(pid.update(0, 601, DT), -300);
    let mut pid = Pid::new(500, 0, 0);
    assert_eq!(pid.update(601, 0, DT), 300);
}

#[test]
fn integral_accumulates_error_times_dt() {
    let mut pid = Pid::new(0, 1000, 0);
    assert_eq!(pid.update(100, 0, DT), 2);
    assert_eq!(pid.integral(), 2);
    assert_eq!(pid.update(100, 0, DT), 4);
    assert_eq!(pid.integral(), 4);
}

#[test]
fn output_is_clamped_to_default_bounds() {
    let mut pid = Pid::new(1_000_000, 0, 0);
    assert_eq!(pid.update(1000, 0, DT), FULL_SCALE);
    assert_eq!(pid.update(0, 1000, DT), -FULL_SCALE);
}

#[test]
fn custom_output_limits() {
    let mut pid = Pid::new(1000, 0, 0).with_output_limits(-50, 70);
    assert_eq!(pid.update(1000, 0, DT), 70);
    assert_eq!(pid.update(0, 1000, DT), -50);
    assert_eq!(pid.update(10, 0, DT), 10);
}

#[test]
fn anti_windup_clamps_the_integrator() {
    let mut pid = Pid::new(0, 1_000_000, 0).with_integral_limits(-200, 300);
    for _ in 0..100 {
        let out = pid.update(1_000_000, 0, DT);
        assert!(pid.integral() >= -200 && pid.integral() <= 300);
        assert!(out >= -FULL_SCALE && out <= FULL_SCALE);
        assert_eq!(out, 300);
    }
    assert_eq!(pid.integral(), 300);
    // The integrator unwinds at once instead of carrying hidden error.
    assert_eq!(pid.update(0, 1_000_000, DT), -200);
}

#[test]
fn output_never_leaves_bounds_under_large_error() {
    let mut pid = Pid::new(2_000_000, 2_000_000, 0)
        .with_output_limits(-400, 600)
        .with_integral_limits(-1000, 1000);
    for _ in 0..50 {
        let out = pid.update(i32::MAX, i32::MIN, DT);
        assert_eq!(out, 600);
        assert_eq!(pid.integral(), 1000);
    }
}

#[test]
fn first_update_has_no_derivative() {
    let mut pid = Pid::new(0, 0, 1000);
    assert_eq!(pid.update(0, 500, DT), 0);
    // -(1000 * 1 * 1e6) / (1000 * 20000) = -50
    assert_eq!(pid.update(0, 501, DT), -50);
}

#[test]
fn reset_rearms_derivative_suppression() {
    let mut pid = Pid::new(0, 1000, 1000);
    pid.update(0, 500, DT);
    pid.update(0, 400, DT);
    pid.reset();
    assert_eq!(pid.integral(), 0);
    // A large jump right after reset gives no derivative kick.
    assert_eq!(pid.update(0, 0, DT), 0);
    assert_eq!(pid.update(0, 0, DT), 0);
}

#[test]
fn derivative_uses_measurement_not_setpoint() {
    let mut pid = Pid::new(0, 0, 1000);
    pid.update(0, 100, DT);
    // Setpoint jumps, measurement is steady: no derivative term.
    assert_eq!(pid.update(50_000, 100, DT), 0);
}

#[test]
fn small_sustained_error_builds_integral() {
    // ki = 1.0, error 500 units, dt = 1 ms: half an output unit per update.
    let mut pid = Pid::new(0, 1000, 0);
    assert_eq!(pid.update(500, 0, 1000), 0);
    assert_eq!(pid.update(500, 0, 1000), 1);
    for _ in 2..1999 {
        pid.update(500, 0, 1000);
    }
    assert_eq!(pid.integral(), 999);
    assert_eq!(pid.update(500, 0, 1000), 1000);
    assert_eq!(pid.integral(), FULL_SCALE);
    for _ in 0..100 {
        assert_eq!(pid.update(500, 0, 1000), FULL_SCALE);
        assert_eq!(pid.integral(), FULL_SCALE);
    }
}

#[test]
fn terms_combine_before_rounding() {
    // Proportional 0.5 unit and integral 0.5 unit make one output unit.
    let mut pid = Pid::new(500, 25_000, 0);
    assert_eq!(pid.update(1, 0, DT), 1);
    let mut p_only = Pid::new(500, 0, 0);
    assert_eq!(p_only.update(1, 0, DT), 0);
}
