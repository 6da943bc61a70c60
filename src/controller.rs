//! Closed-loop position control of one linear actuator: a PID controller
//! drives an [`ActuonixLinear`] toward a clamped target, with a deadband
//! around the target.
use vstd::prelude::*;
use crate::actuator::{
    ActuatorView,
    ActuonixLinear,
    DigitalOutput,
    DutyOutput,
    PositionSource,
    SPEED_DEADBAND,
    brake_drive,
    drive_for,
    lemma_drive_one_side,
};
use crate::fixed::{abs, clamp, div_toward_zero};
use crate::pid::{FINE_SCALE, FULL_SCALE, GAIN_SCALE, Pid, PidView};

verus! {

/// Whether the controller drives the actuator.
#[derive(Clone, Copy, Debug, PartialEq, Eq, Structural)]
pub enum LinearMode {
    PositionControl,
    Disabled,
}

/// The state of a [`LinearController`] as mathematical values.
pub struct ControllerView {
    pub actuator: ActuatorView,
    pub pid: PidView,
    pub mode: LinearMode,
    pub target: int,
    pub min_position: int,
    pub max_position: int,
    pub tolerance: int,
}

impl ControllerView {
    pub open spec fn wf(self) -> bool {
        &&& self.actuator.wf()
        &&& self.pid.wf()
        &&& self.min_position <= self.max_position
        &&& self.min_position <= self.target <= self.max_position
    }

    /// The state after `step(dt_us)`, given the samples that the step's
    /// limit check, position read and speed command take.
    pub open spec fn stepped(self, dt_us: int, raw1: u16, raw2: u16, raw3: u16) -> ControllerView {
        match self.mode {
            LinearMode::Disabled => ControllerView { actuator: self.actuator.braked(), ..self },
            LinearMode::PositionControl => {
                let a = self.actuator.after_enforce(raw1).sampled(raw2);
                let position = a.position();
                let target = clamp(self.target, self.min_position, self.max_position);
                if abs(target - position) <= self.tolerance {
                    ControllerView { actuator: a.braked(), ..self }
                } else {
                    let out = self.pid.output(target, position, dt_us);
                    ControllerView {
                        actuator: a.after_set_speed(out, raw3),
                        pid: self.pid.updated(target, position, dt_us),
                        ..self
                    }
                }
            },
        }
    }
}

/// PID position controller for a linear actuator. Call [`step`](Self::step)
/// at the control rate.
pub struct LinearController<S, P1, P2, Slp, Dis> {
    actuator: ActuonixLinear<S, P1, P2, Slp, Dis>,
    pid: Pid,
    mode: LinearMode,
    target_position: i32,
    min_position: i32,
    max_position: i32,
    on_target_tolerance: i32,
}

impl<S, P1, P2, Slp, Dis> View for LinearController<S, P1, P2, Slp, Dis> {
    type V = ControllerView;

    closed spec fn view(&self) -> ControllerView {
        ControllerView {
            actuator: self.actuator@,
            pid: self.pid@,
            mode: self.mode,
            target: self.target_position as int,
            min_position: self.min_position as int,
            max_position: self.max_position as int,
            tolerance: self.on_target_tolerance as int,
        }
    }
}

impl<S, P1, P2, Slp, Dis> LinearController<S, P1, P2, Slp, Dis> where
    S: PositionSource,
    P1: DutyOutput,
    P2: DutyOutput,
    Slp: DigitalOutput,
    Dis: DigitalOutput,
 {
    pub open spec fn wf(&self) -> bool {
        self@.wf()
    }

    /// A controller in position control, with the target at the clamp of 0
    /// into `[min_position, max_position]`. Lengths are in the actuator's units;
    /// `min_position` must not exceed `max_position`.
    pub fn new(
        actuator: ActuonixLinear<S, P1, P2, Slp, Dis>,
        pid: Pid,
        min_position: i32,
        max_position: i32,
        on_target_tolerance: i32,
    ) -> (r: Self)
        requires
            actuator.wf(),
            pid.wf(),
            min_position <= max_position,
        ensures
            r.wf(),
            r@ == (ControllerView {
                actuator: actuator@,
                pid: pid@,
                mode: LinearMode::PositionControl,
                target: clamp(0, min_position as int, max_position as int),
                min_position: min_position as int,
                max_position: max_position as int,
                tolerance: on_target_tolerance as int,
            }),
    {
        let target_position = if 0 > max_position {
            max_position
        } else if 0 < min_position {
            min_position
        } else {
            0
        };
        LinearController {
            actuator,
            pid,
            mode: LinearMode::PositionControl,
            target_position,
            min_position,
            max_position,
            on_target_tolerance,
        }
    }

    /// Sets the target, clamped into the travel limits, and resets the PID so
    /// that no integral or derivative history carries over.
    pub fn set_target_position_mm(&mut self, target: i32)
        requires
            old(self).wf(),
        ensures
            final(self).wf(),
            final(self)@ == (ControllerView {
                target: clamp(target as int, old(self)@.min_position, old(self)@.max_position),
                pid: old(self)@.pid.cleared(),
                ..old(self)@
            }),
    {
        self.target_position = if target > self.max_position {
            self.max_position
        } else if target < self.min_position {
            self.min_position
        } else {
            target
        };
        self.pid.reset();
    }

    /// Stops driving: brakes now and on every step until re-enabled.
    pub fn disable(&mut self)
        requires
            old(self).wf(),
        ensures
            final(self).wf(),
            final(self)@ == (ControllerView {
                mode: LinearMode::Disabled,
                actuator: old(self)@.actuator.braked(),
                ..old(self)@
            }),
    {
        self.mode = LinearMode::Disabled;
        self.actuator.brake();
    }

    /// Resumes position control with a reset PID.
    pub fn enable(&mut self)
        requires
            old(self).wf(),
        ensures
            final(self).wf(),
            final(self)@ == (ControllerView {
                mode: LinearMode::PositionControl,
                pid: old(self)@.pid.cleared(),
                ..old(self)@
            }),
    {
        self.mode = LinearMode::PositionControl;
        self.pid.reset();
    }

    /// The current mode.
    pub fn mode(&self) -> (r: LinearMode)
        ensures
            r == self@.mode,
    {
        self.mode
    }

    /// The current target.
    pub fn target_position_mm(&self) -> (r: i32)
        ensures
            r as int == self@.target,
    {
        self.target_position
    }

    /// The actuator under control.
    pub fn actuator(&self) -> (r: &ActuonixLinear<S, P1, P2, Slp, Dis>)
        ensures
            r@ == self@.actuator,
    {
        &self.actuator
    }

    /// The PID controller.
    pub fn pid(&self) -> (r: &Pid)
        ensures
            r@ == self@.pid,
    {
        &self.pid
    }

    /// Takes a fresh sample and tells whether the filtered position is within
    /// the tolerance of the target.
    pub fn on_target(&mut self) -> (r: bool)
        requires
            old(self).wf(),
        ensures
            final(self).wf(),
            exists|raw: u16|
                final(self)@ == (ControllerView {
                    actuator: #[trigger] old(self)@.actuator.sampled(raw),
                    ..old(self)@
                }),
            r == (abs(final(self)@.target - final(self)@.actuator.position())
                <= final(self)@.tolerance),
    {
        let position = self.actuator.position_mm();
        let error: i64 = self.target_position as i64 - position as i64;
        let distance: i64 = if error < 0 { -error } else { error };
        distance <= self.on_target_tolerance as i64
    }

    /// One control step of `dt_us` microseconds (zero is not accepted).
    ///
    /// Disabled: brakes and returns. In position control: enforces the travel
    /// limits, reads the filtered position, and brakes if it is within the
    /// tolerance of the (clamped) target; otherwise hands the PID output to
    /// the actuator as its speed.
    pub fn step(&mut self, dt_us: u32)
        requires
            old(self).wf(),
            dt_us > 0,
        ensures
            final(self).wf(),
            exists|raw1: u16, raw2: u16, raw3: u16|
                final(self)@ == #[trigger] old(self)@.stepped(dt_us as int, raw1, raw2, raw3),
    {
        let ghost before = self@;
        match self.mode {
            LinearMode::Disabled => {
                self.actuator.brake();
                assert(self@ == before.stepped(dt_us as int, 0, 0, 0));
            },
            LinearMode::PositionControl => {
                self.actuator.enforce_limits();
                let ghost raw1 = choose|raw: u16| self@.actuator == before.actuator.after_enforce(raw);
                let ghost mid = self@.actuator;
                let position = self.actuator.position_mm();
                let ghost raw2 = choose|raw: u16| self@.actuator == mid.sampled(raw);
                let target = if self.target_position > self.max_position {
                    self.max_position
                } else if self.target_position < self.min_position {
                    self.min_position
                } else {
                    self.target_position
                };
                let error: i64 = target as i64 - position as i64;
                let distance: i64 = if error < 0 { -error } else { error };
                if distance <= self.on_target_tolerance as i64 {
                    self.actuator.brake();
                    assert(self@ == before.stepped(dt_us as int, raw1, raw2, 0));
                    return;
                }
                let ghost sampled = self@.actuator;
                let output = self.pid.update(target, position, dt_us);
                self.actuator.set_speed(output);
                let ghost raw3 = choose|raw: u16| self@.actuator == sampled.after_set_speed(output as int, raw);
                assert(self@ == before.stepped(dt_us as int, raw1, raw2, raw3));
            },
        }
    }
}

/// Deadband: a step in position control whose filtered position is within the
/// tolerance of the target brakes the actuator and leaves the PID untouched
/// (no update is evaluated).
pub proof fn lemma_deadband_brakes(c: ControllerView, dt_us: int, raw1: u16, raw2: u16, raw3: u16)
    requires
        c.mode == LinearMode::PositionControl,
        abs(clamp(c.target, c.min_position, c.max_position) - c.actuator.after_enforce(raw1).sampled(
            raw2,
        ).position()) <= c.tolerance,
    ensures
        c.stepped(dt_us, raw1, raw2, raw3).pid == c.pid,
        c.stepped(dt_us, raw1, raw2, raw3).actuator.drive == Some(brake_drive(c.actuator.max_duty)),
        c.stepped(dt_us, raw1, raw2, raw3).actuator.speed == c.actuator.after_enforce(raw1).speed,
{
}

/// Once the filtered position is at or past the actuator's upper limit, a step
/// never leaves the actuator extending: whatever the target and the PID output
/// (a stale positive output included), the limit check or the speed command
/// brakes, and any remembered positive speed is paired with a brake.
pub proof fn lemma_step_never_extends_past_upper_limit(
    c: ControllerView,
    dt_us: int,
    raw1: u16,
    raw2: u16,
    raw3: u16,
)
    requires
        c.mode == LinearMode::PositionControl,
        c.actuator.sampled(raw1).position() >= c.actuator.max_position(),
        c.actuator.after_enforce(raw1).sampled(raw2).position() >= c.actuator.max_position(),
        c.actuator.after_enforce(raw1).sampled(raw2).sampled(raw3).position()
            >= c.actuator.max_position(),
    ensures
        c.stepped(dt_us, raw1, raw2, raw3).actuator.speed <= 0 || c.stepped(
            dt_us,
            raw1,
            raw2,
            raw3,
        ).actuator.drive == Some(brake_drive(c.actuator.max_duty)),
{
}

/// A target beyond the position makes the step extend. On the first step
/// after a new target (the PID freshly reset, so no derivative term and no
/// negative integral), with non-negative gains, integrator bounds around zero,
/// and a position short of the target by more than the tolerance, the PID
/// output `u` is not negative, and it is positive once the proportional term
/// reaches one output unit. While the sample that the speed command takes is
/// still inside the upper limit, the remembered speed is `u` capped at full
/// scale; if `u` is above the deadband (0.001 of full scale) the actuator is
/// left extending, the first input driven and the second at zero, and
/// otherwise it brakes.
pub proof fn lemma_step_extends_toward_higher_target(
    c: ControllerView,
    dt_us: int,
    raw1: u16,
    raw2: u16,
    raw3: u16,
)
    requires
        c.mode == LinearMode::PositionControl,
        dt_us > 0,
        c.pid.first_update,
        c.pid.integral >= 0,
        c.pid.kp >= 0,
        c.pid.ki >= 0,
        c.pid.int_min <= 0 <= c.pid.int_max,
        c.pid.out_min <= 0 <= c.pid.out_max,
        clamp(c.target, c.min_position, c.max_position) - c.actuator.after_enforce(raw1).sampled(
            raw2,
        ).position() > 0,
        clamp(c.target, c.min_position, c.max_position) - c.actuator.after_enforce(raw1).sampled(
            raw2,
        ).position() > c.tolerance,
        c.actuator.after_enforce(raw1).sampled(raw2).sampled(raw3).position()
            < c.actuator.max_position(),
        0 <= c.actuator.max_duty <= u16::MAX,
    ensures
        c.pid.output(
            clamp(c.target, c.min_position, c.max_position),
            c.actuator.after_enforce(raw1).sampled(raw2).position(),
            dt_us,
        ) >= 0,
        c.pid.kp * (clamp(c.target, c.min_position, c.max_position) - c.actuator.after_enforce(
            raw1,
        ).sampled(raw2).position()) >= GAIN_SCALE && c.pid.out_max >= 1 ==> c.pid.output(
            clamp(c.target, c.min_position, c.max_position),
            c.actuator.after_enforce(raw1).sampled(raw2).position(),
            dt_us,
        ) >= 1,
        c.stepped(dt_us, raw1, raw2, raw3).actuator.speed == clamp(
            c.pid.output(
                clamp(c.target, c.min_position, c.max_position),
                c.actuator.after_enforce(raw1).sampled(raw2).position(),
                dt_us,
            ),
            -FULL_SCALE as int,
            FULL_SCALE as int,
        ),
        c.stepped(dt_us, raw1, raw2, raw3).actuator.drive == Some(
            drive_for(c.stepped(dt_us, raw1, raw2, raw3).actuator.speed, c.actuator.max_duty),
        ),
        c.pid.output(
            clamp(c.target, c.min_position, c.max_position),
            c.actuator.after_enforce(raw1).sampled(raw2).position(),
            dt_us,
        ) > SPEED_DEADBAND ==> {
            &&& c.stepped(dt_us, raw1, raw2, raw3).actuator.speed > SPEED_DEADBAND
            &&& c.stepped(dt_us, raw1, raw2, raw3).actuator.drive.unwrap().in2 == 0
            &&& c.stepped(dt_us, raw1, raw2, raw3).actuator.drive.unwrap().in1 == c.stepped(
                dt_us,
                raw1,
                raw2,
                raw3,
            ).actuator.speed * c.actuator.max_duty / (FULL_SCALE as int)
        },
        c.pid.output(
            clamp(c.target, c.min_position, c.max_position),
            c.actuator.after_enforce(raw1).sampled(raw2).position(),
            dt_us,
        ) <= SPEED_DEADBAND ==> c.stepped(dt_us, raw1, raw2, raw3).actuator.drive == Some(
            brake_drive(c.actuator.max_duty),
        ),
{
    let a = c.actuator.after_enforce(raw1).sampled(raw2);
    let pos = a.position();
    let tgt = clamp(c.target, c.min_position, c.max_position);
    let e = tgt - pos;
    let pid = c.pid;
    assert(pid.ki * e * dt_us >= 0) by (nonlinear_arith)
        requires
            pid.ki >= 0,
            e > 0,
            dt_us > 0,
    ;
    let i = pid.next_integral(tgt, pos, dt_us);
    assert(pid.int_min * FINE_SCALE <= 0 <= pid.int_max * FINE_SCALE);
    assert(i >= 0);
    let p = pid.proportional(tgt, pos);
    assert(p >= 0) by (nonlinear_arith)
        requires
            p == pid.kp * e * 1_000_000,
            pid.kp >= 0,
            e > 0,
    ;
    assert(pid.derivative(pos, dt_us) == 0);
    assert(div_toward_zero(p + i, FINE_SCALE as int) >= 0);
    if pid.kp * e >= GAIN_SCALE {
        assert(p >= FINE_SCALE) by (nonlinear_arith)
            requires
                p == pid.kp * e * 1_000_000,
                pid.kp * e >= 1000,
        ;
        vstd::arithmetic::div_mod::lemma_div_is_ordered(FINE_SCALE as int, p + i, FINE_SCALE as int);
        assert(div_toward_zero(p + i, FINE_SCALE as int) >= 1);
    }
    let u = pid.output(tgt, pos, dt_us);
    assert(u >= 0);
    assert(a.max_position() == c.actuator.max_position());
    assert(a.max_duty == c.actuator.max_duty);
    let s = clamp(u, -FULL_SCALE as int, FULL_SCALE as int);
    lemma_drive_one_side(s, c.actuator.max_duty);
}

/// A disabled controller only brakes: no PID evaluation and no sample taken.
pub proof fn lemma_disabled_only_brakes(c: ControllerView, dt_us: int, raw1: u16, raw2: u16, raw3: u16)
    requires
        c.mode == LinearMode::Disabled,
    ensures
        c.stepped(dt_us, raw1, raw2, raw3) == (ControllerView { actuator: c.actuator.braked(), ..c }),
{
}

} // verus!
