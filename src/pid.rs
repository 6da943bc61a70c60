//! PID controller in fixed-point arithmetic, with integrator anti-windup and
//! derivative on measurement.
//!
//! Gains are in thousandths (`GAIN_SCALE` is a gain of 1.0), the time step is
//! in microseconds, and the output is in the same units as the output bounds
//! (by default `-FULL_SCALE..=FULL_SCALE`, a normalized command of -1.0 to 1.0).
//! The integrator and the sum of the three terms are kept in fine units of
//! `1 / FINE_SCALE` output units, so that `ki * error * dt` accumulates
//! exactly; only the sum is rounded (toward zero) to form the output.
use vstd::prelude::*;
use crate::fixed::{clamp, div_toward_zero, clamp_i128, div_toward_zero_i128, lemma_clamp_bounds};

verus! {

/// A gain of 1.0.
pub const GAIN_SCALE: i128 = 1000;

/// Microseconds in one second.
pub const MICROS_PER_SECOND: i128 = 1_000_000;

/// Fine units in one output unit: `GAIN_SCALE * MICROS_PER_SECOND`.
pub const FINE_SCALE: i128 = 1_000_000_000;

/// A normalized value of 1.0 (full drive).
pub const FULL_SCALE: i32 = 1000;


/// PID controller with tunable gains, output clamp and integrator clamp.
pub struct Pid {
    kp: i32,
    ki: i32,
    kd: i32,
    /// Integrator, in fine units.
    integral: i128,
    prev_measurement: i32,
    out_min: i32,
    out_max: i32,
    int_min: i32,
    int_max: i32,
    first_update: bool,
}

/// The state of a [`Pid`] as mathematical values.
pub struct PidView {
    pub kp: int,
    pub ki: int,
    pub kd: int,
    /// Integrator, in fine units (`FINE_SCALE` per output unit).
    pub integral: int,
    pub prev_measurement: int,
    pub out_min: int,
    pub out_max: int,
    pub int_min: int,
    pub int_max: int,
    pub first_update: bool,
}

impl View for Pid {
    type V = PidView;

    closed spec fn view(&self) -> PidView {
        PidView {
            kp: self.kp as int,
            ki: self.ki as int,
            kd: self.kd as int,
            integral: self.integral as int,
            prev_measurement: self.prev_measurement as int,
            out_min: self.out_min as int,
            out_max: self.out_max as int,
            int_min: self.int_min as int,
            int_max: self.int_max as int,
            first_update: self.first_update,
        }
    }
}

impl PidView {
    /// The integrator lies within the range of `i32` output units.
    pub open spec fn wf(self) -> bool {
        i32::MIN * FINE_SCALE <= self.integral <= i32::MAX * FINE_SCALE
    }

    /// Proportional term `kp * error`, in fine units.
    pub open spec fn proportional(self, setpoint: int, measurement: int) -> int {
        self.kp * (setpoint - measurement) * MICROS_PER_SECOND
    }

    /// The integrator after adding `ki * error * dt` (exactly, in fine units),
    /// clamped to `[int_min, int_max]` output units.
    pub open spec fn next_integral(self, setpoint: int, measurement: int, dt_us: int) -> int {
        clamp(
            self.integral + self.ki * (setpoint - measurement) * dt_us,
            self.int_min * FINE_SCALE,
            self.int_max * FINE_SCALE,
        )
    }

    /// Derivative term on measurement, `kd * (previous - measurement) / dt`,
    /// in fine units; zero on the first update.
    pub open spec fn derivative(self, measurement: int, dt_us: int) -> int {
        if self.first_update {
            0
        } else {
            div_toward_zero(
                self.kd * (self.prev_measurement - measurement) * MICROS_PER_SECOND
                    * MICROS_PER_SECOND,
                dt_us,
            )
        }
    }

    /// What `update` returns: the sum of the three terms in output units,
    /// rounded toward zero and clamped to `[out_min, out_max]`.
    pub open spec fn output(self, setpoint: int, measurement: int, dt_us: int) -> int {
        clamp(
            div_toward_zero(
                self.proportional(setpoint, measurement) + self.next_integral(
                    setpoint,
                    measurement,
                    dt_us,
                ) + self.derivative(measurement, dt_us),
                FINE_SCALE as int,
            ),
            self.out_min,
            self.out_max,
        )
    }

    /// The state after `update`.
    pub open spec fn updated(self, setpoint: int, measurement: int, dt_us: int) -> PidView {
        PidView {
            integral: self.next_integral(setpoint, measurement, dt_us),
            prev_measurement: measurement,
            first_update: false,
            ..self
        }
    }

    /// The state after `reset`.
    pub open spec fn cleared(self) -> PidView {
        PidView { integral: 0, prev_measurement: 0, first_update: true, ..self }
    }
}

proof fn lemma_clamp_within_limit(x: int, lo: int, hi: int)
    requires
        i32::MIN * FINE_SCALE <= lo <= i32::MAX * FINE_SCALE,
        i32::MIN * FINE_SCALE <= hi <= i32::MAX * FINE_SCALE,
    ensures
        i32::MIN * FINE_SCALE <= clamp(x, lo, hi) <= i32::MAX * FINE_SCALE,
{
}

impl Pid {
    pub open spec fn wf(&self) -> bool {
        self@.wf()
    }

    /// A controller with the given gains (in thousandths), output and
    /// integrator bounds of `-FULL_SCALE..=FULL_SCALE`, and a cleared history.
    pub fn new(kp: i32, ki: i32, kd: i32) -> (r: Self)
        ensures
            r.wf(),
            r@ == (PidView {
                kp: kp as int,
                ki: ki as int,
                kd: kd as int,
                integral: 0,
                prev_measurement: 0,
                out_min: -FULL_SCALE,
                out_max: FULL_SCALE as int,
                int_min: -FULL_SCALE,
                int_max: FULL_SCALE as int,
                first_update: true,
            }),
    {
        Pid {
            kp,
            ki,
            kd,
            integral: 0,
            prev_measurement: 0,
            out_min: -FULL_SCALE,
            out_max: FULL_SCALE,
            int_min: -FULL_SCALE,
            int_max: FULL_SCALE,
            first_update: true,
        }
    }

    /// The same controller with output bounds `[min, max]`.
    pub fn with_output_limits(self, min: i32, max: i32) -> (r: Self)
        ensures
            r@ == (PidView { out_min: min as int, out_max: max as int, ..self@ }),
    {
        Pid { out_min: min, out_max: max, ..self }
    }

    /// The same controller with integrator bounds `[min, max]` (output units).
    pub fn with_integral_limits(self, min: i32, max: i32) -> (r: Self)
        ensures
            r@ == (PidView { int_min: min as int, int_max: max as int, ..self@ }),
    {
        Pid { int_min: min, int_max: max, ..self }
    }

    /// The integrator's current value in output units, rounded toward zero.
    pub fn integral(&self) -> (r: i32)
        requires
            self.wf(),
        ensures
            r as int == div_toward_zero(self@.integral, FINE_SCALE as int),
    {
        let r = div_toward_zero_i128(self.integral, FINE_SCALE);
        proof {
            if self.integral >= 0 {
                vstd::arithmetic::div_mod::lemma_div_is_ordered(
                    self.integral as int,
                    i32::MAX * FINE_SCALE,
                    FINE_SCALE as int,
                );
            } else {
                vstd::arithmetic::div_mod::lemma_div_is_ordered(
                    -self.integral as int,
                    -(i32::MIN * FINE_SCALE),
                    FINE_SCALE as int,
                );
            }
            vstd::arithmetic::div_mod::lemma_div_by_multiple(i32::MAX as int, FINE_SCALE as int);
            vstd::arithmetic::div_mod::lemma_div_by_multiple(-(i32::MIN as int), FINE_SCALE as int);
        }
        r as i32
    }

    /// Clears the integrator and the measurement history; the next update has
    /// no derivative term. Gains and bounds are kept.
    pub fn reset(&mut self)
        ensures
            final(self)@ == old(self)@.cleared(),
            final(self).wf(),
    {
        self.integral = 0;
        self.prev_measurement = 0;
        self.first_update = true;
    }

    /// One control update for `setpoint` and `measurement` after `dt_us`
    /// microseconds. A time step of zero is not accepted.
    pub fn update(&mut self, setpoint: i32, measurement: i32, dt_us: u32) -> (r: i32)
        requires
            old(self).wf(),
            dt_us > 0,
        ensures
            final(self).wf(),
            r as int == old(self)@.output(setpoint as int, measurement as int, dt_us as int),
            final(self)@ == old(self)@.updated(setpoint as int, measurement as int, dt_us as int),
    {
        let error: i128 = setpoint as i128 - measurement as i128;
        let dt: i128 = dt_us as i128;

        // Proportional term.
        proof {
            assert(-0x1_0000_0000_0000_0000 <= self.kp as int * error <= 0x1_0000_0000_0000_0000)
                by (nonlinear_arith)
                requires
                    -0x1_0000_0000 <= error <= 0x1_0000_0000,
                    -0x8000_0000 <= self.kp <= 0x8000_0000,
            ;
        }
        let p: i128 = self.kp as i128 * error * MICROS_PER_SECOND;

        // Integral term: exact accumulation, clamped after it.
        proof {
            assert(-0x1_0000_0000_0000_0000 <= self.ki as int * error <= 0x1_0000_0000_0000_0000)
                by (nonlinear_arith)
                requires
                    -0x1_0000_0000 <= error <= 0x1_0000_0000,
                    -0x8000_0000 <= self.ki <= 0x8000_0000,
            ;
            assert(-0x1_0000_0000_0000_0000_0000_0000 <= self.ki as int * error * dt
                <= 0x1_0000_0000_0000_0000_0000_0000) by (nonlinear_arith)
                requires
                    -0x1_0000_0000_0000_0000 <= self.ki as int * error <= 0x1_0000_0000_0000_0000,
                    0 < dt <= 0x1_0000_0000,
            ;
            lemma_clamp_within_limit(
                self.integral + self.ki * error * dt,
                self.int_min * FINE_SCALE,
                self.int_max * FINE_SCALE,
            );
        }
        let integral = clamp_i128(
            self.integral + self.ki as i128 * error * dt,
            self.int_min as i128 * FINE_SCALE,
            self.int_max as i128 * FINE_SCALE,
        );
        self.integral = integral;

        // Derivative term on measurement.
        let d: i128 = if self.first_update {
            0
        } else {
            let dv: i128 = self.prev_measurement as i128 - measurement as i128;
            proof {
                assert(-0x1_0000_0000_0000_0000 <= self.kd as int * dv <= 0x1_0000_0000_0000_0000)
                    by (nonlinear_arith)
                    requires
                        -0x1_0000_0000 <= dv <= 0x1_0000_0000,
                        -0x8000_0000 <= self.kd <= 0x8000_0000,
                ;
            }
            div_toward_zero_i128(self.kd as i128 * dv * MICROS_PER_SECOND * MICROS_PER_SECOND, dt)
        };
        self.first_update = false;
        self.prev_measurement = measurement;

        let sum = div_toward_zero_i128(p + integral + d, FINE_SCALE);
        clamp_i128(sum, self.out_min as i128, self.out_max as i128) as i32
    }
}

/// The state after `n` updates with the same setpoint, measurement and time step.
pub open spec fn updated_times(v: PidView, setpoint: int, measurement: int, dt_us: int, n: nat) -> PidView
    decreases n,
{
    if n == 0 {
        v
    } else {
        updated_times(v, setpoint, measurement, dt_us, (n - 1) as nat).updated(setpoint, measurement, dt_us)
    }
}

/// Anti-windup: with ordered bounds, every update leaves the integrator within
/// `[int_min, int_max]` output units and returns an output within
/// `[out_min, out_max]`, whatever the error.
pub proof fn lemma_update_bounded(v: PidView, setpoint: int, measurement: int, dt_us: int)
    requires
        v.int_min <= v.int_max,
        v.out_min <= v.out_max,
    ensures
        v.int_min * FINE_SCALE <= v.updated(setpoint, measurement, dt_us).integral <= v.int_max
            * FINE_SCALE,
        v.out_min <= v.output(setpoint, measurement, dt_us) <= v.out_max,
        v.updated(setpoint, measurement, dt_us).ki == v.ki,
        v.updated(setpoint, measurement, dt_us).int_min == v.int_min,
        v.updated(setpoint, measurement, dt_us).int_max == v.int_max,
        v.updated(setpoint, measurement, dt_us).out_min == v.out_min,
        v.updated(setpoint, measurement, dt_us).out_max == v.out_max,
{
    assert(v.int_min * FINE_SCALE <= v.int_max * FINE_SCALE) by (nonlinear_arith)
        requires
            v.int_min <= v.int_max,
    ;
    lemma_clamp_bounds(
        v.integral + v.ki * (setpoint - measurement) * dt_us,
        v.int_min * FINE_SCALE,
        v.int_max * FINE_SCALE,
    );
    let y = div_toward_zero(
        v.proportional(setpoint, measurement) + v.next_integral(setpoint, measurement, dt_us)
            + v.derivative(measurement, dt_us),
        FINE_SCALE as int,
    );
    lemma_clamp_bounds(y, v.out_min, v.out_max);
}

/// Anti-windup over time: driving the controller any number of times with the
/// same (however large) error keeps the integrator within its bounds and every
/// output within the output bounds.
pub proof fn lemma_repeated_updates_bounded(
    v: PidView,
    setpoint: int,
    measurement: int,
    dt_us: int,
    n: nat,
)
    requires
        v.int_min <= v.int_max,
        v.out_min <= v.out_max,
    ensures
        n > 0 ==> v.int_min * FINE_SCALE <= updated_times(v, setpoint, measurement, dt_us, n).integral
            <= v.int_max * FINE_SCALE,
        v.out_min <= updated_times(v, setpoint, measurement, dt_us, n).output(
            setpoint,
            measurement,
            dt_us,
        ) <= v.out_max,
        updated_times(v, setpoint, measurement, dt_us, n).ki == v.ki,
        updated_times(v, setpoint, measurement, dt_us, n).int_min == v.int_min,
        updated_times(v, setpoint, measurement, dt_us, n).int_max == v.int_max,
        updated_times(v, setpoint, measurement, dt_us, n).out_min == v.out_min,
        updated_times(v, setpoint, measurement, dt_us, n).out_max == v.out_max,
    decreases n,
{
    if n > 0 {
        lemma_repeated_updates_bounded(v, setpoint, measurement, dt_us, (n - 1) as nat);
        lemma_update_bounded(
            updated_times(v, setpoint, measurement, dt_us, (n - 1) as nat),
            setpoint,
            measurement,
            dt_us,
        );
    }
    lemma_update_bounded(updated_times(v, setpoint, measurement, dt_us, n), setpoint, measurement, dt_us);
}

/// A sustained error builds up integral action: with a constant positive
/// increment `ki * error * dt` (however small), each update adds it in full
/// until the integrator reaches `int_max`, where it then stays. After `n`
/// updates the integrator is `min(start + n * increment, int_max)`, so it sits
/// at `int_max` from `int_max * FINE_SCALE - start` updates on at the latest.
pub proof fn lemma_constant_error_saturates_integrator(
    v: PidView,
    setpoint: int,
    measurement: int,
    dt_us: int,
    n: nat,
)
    requires
        v.ki * (setpoint - measurement) * dt_us > 0,
        v.int_min <= v.int_max,
        v.int_min * FINE_SCALE <= v.integral <= v.int_max * FINE_SCALE,
    ensures
        updated_times(v, setpoint, measurement, dt_us, n).integral == if v.integral + n * (v.ki * (
        setpoint - measurement) * dt_us) >= v.int_max * FINE_SCALE {
            v.int_max * FINE_SCALE
        } else {
            v.integral + n * (v.ki * (setpoint - measurement) * dt_us)
        },
        n >= v.int_max * FINE_SCALE - v.integral ==> updated_times(
            v,
            setpoint,
            measurement,
            dt_us,
            n,
        ).integral == v.int_max * FINE_SCALE,
        updated_times(v, setpoint, measurement, dt_us, n).ki == v.ki,
        updated_times(v, setpoint, measurement, dt_us, n).int_min == v.int_min,
        updated_times(v, setpoint, measurement, dt_us, n).int_max == v.int_max,
    decreases n,
{
    let inc = v.ki * (setpoint - measurement) * dt_us;
    let top = v.int_max * FINE_SCALE;
    if n > 0 {
        lemma_constant_error_saturates_integrator(v, setpoint, measurement, dt_us, (n - 1) as nat);
        let prev = updated_times(v, setpoint, measurement, dt_us, (n - 1) as nat);
        assert(prev.ki * (setpoint - measurement) * dt_us == inc);
        let m = (n - 1) as nat;
        assert(m * inc + inc == n * inc) by (nonlinear_arith)
            requires
                m == n - 1,
        ;
        assert(m * inc >= 0) by (nonlinear_arith)
            requires
                inc > 0,
        ;
        assert(updated_times(v, setpoint, measurement, dt_us, n) == prev.updated(
            setpoint,
            measurement,
            dt_us,
        ));
        assert(prev.integral >= v.integral);
        let x = prev.integral + inc;
        assert(prev.next_integral(setpoint, measurement, dt_us) == clamp(
            x,
            v.int_min * FINE_SCALE,
            top,
        ));
        if v.integral + m * inc >= top {
            assert(x > top);
        } else {
            assert(x == v.integral + n * inc);
        }
    }
    assert(n * inc >= n) by (nonlinear_arith)
        requires
            inc >= 1,
    ;
    if n == 0 {
        assert(n * inc == 0);
    }
}

/// The first update after construction or `reset` has no derivative term:
/// its output is the rounded, clamped sum of the proportional and integral
/// terms, and it does not depend on the stored previous measurement.
pub proof fn lemma_first_update_has_no_derivative(
    v: PidView,
    setpoint: int,
    measurement: int,
    dt_us: int,
    stale: int,
)
    requires
        v.first_update,
    ensures
        v.derivative(measurement, dt_us) == 0,
        v.output(setpoint, measurement, dt_us) == clamp(
            div_toward_zero(
                v.proportional(setpoint, measurement) + v.next_integral(
                    setpoint,
                    measurement,
                    dt_us,
                ),
                FINE_SCALE as int,
            ),
            v.out_min,
            v.out_max,
        ),
        (PidView { prev_measurement: stale, ..v }).output(setpoint, measurement, dt_us) == v.output(
            setpoint,
            measurement,
            dt_us,
        ),
        v.cleared().derivative(measurement, dt_us) == 0,
{
}

} // verus!
