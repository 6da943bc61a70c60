//! Driver for a potentiometer-feedback linear actuator behind an H-bridge.
//!
//! Lengths are in micrometres (`MM` units make one millimetre) and speeds are
//! normalized commands in `-FULL_SCALE..=FULL_SCALE` (-1.0 full retract, 1.0
//! full extend). The position sample source, the two PWM channels and the
//! sleep and disable lines are capabilities handed in at construction.
use vstd::prelude::*;
use crate::filter::{FilterView, PositionFilter, lemma_pushed_wf, seeded};
use crate::fixed::clamp;
use crate::pid::FULL_SCALE;

verus! {

/// One millimetre in length units (micrometres).
pub const MM: i32 = 1000;

/// Full-scale reading of the 12-bit position sensor.
pub const RAW_FULL_SCALE: u16 = 4095;

/// Longest stroke the driver accepts, in length units (100 m).
pub const MAX_STROKE: i32 = 100_000_000;

/// Speeds whose magnitude is at most this (0.001 of full scale) brake
/// instead of driving.
pub const SPEED_DEADBAND: i32 = 1;

/// Source of raw position samples (a potentiometer read through an ADC).
pub trait PositionSource {
    /// Takes one fresh raw sample; must not block.
    fn read_raw(&mut self) -> u16;
}

/// One PWM channel of the H-bridge.
pub trait DutyOutput {
    /// The duty value that means 100%.
    fn max_duty(&self) -> u16;

    fn set_duty(&mut self, duty: u16);

    fn enable(&mut self);
}

/// A digital output line.
pub trait DigitalOutput {
    fn set_high(&mut self);

    fn set_low(&mut self);
}

/// Duties applied to the bridge's two inputs.
#[derive(Clone, Copy, Debug, PartialEq, Eq, Structural)]
pub struct Drive {
    pub in1: u16,
    pub in2: u16,
}

/// Position in length units for a raw reading on a stroke of `stroke` units.
pub open spec fn position_of(raw: int, stroke: int) -> int {
    raw * stroke / (RAW_FULL_SCALE as int)
}

/// Moving with `speed` at `pos` would go further out of `[min_pos, max_pos]`.
pub open spec fn beyond_limit(speed: int, pos: int, min_pos: int, max_pos: int) -> bool {
    (speed > 0 && pos >= max_pos) || (speed < 0 && pos <= min_pos)
}

/// Both inputs at full duty: the motor terminals are shorted for a fast stop.
pub open spec fn brake_drive(max_duty: int) -> Drive {
    Drive { in1: max_duty as u16, in2: max_duty as u16 }
}

/// The bridge drive for a speed: one input at `|speed|` of full duty and the
/// other at zero, or a brake for a speed within the deadband.
pub open spec fn drive_for(speed: int, max_duty: int) -> Drive {
    let duty = (if speed < 0 { -speed } else { speed }) * max_duty / (FULL_SCALE as int);
    if speed > SPEED_DEADBAND {
        Drive { in1: duty as u16, in2: 0 }
    } else if speed < -SPEED_DEADBAND {
        Drive { in1: 0, in2: duty as u16 }
    } else {
        brake_drive(max_duty)
    }
}

/// The state of an [`ActuonixLinear`] as mathematical values.
pub struct ActuatorView {
    pub filter: FilterView,
    pub max_duty: int,
    pub stroke: int,
    pub buffer: int,
    /// The last commanded speed, after clamping and the limit check.
    pub speed: int,
    /// What was last applied to the bridge, if anything.
    pub drive: Option<Drive>,
    pub awake: bool,
    pub outputs_enabled: bool,
}

impl ActuatorView {
    pub open spec fn wf(self) -> bool {
        &&& self.filter.wf()
        &&& 0 <= self.stroke <= MAX_STROKE
        &&& -FULL_SCALE <= self.speed <= FULL_SCALE
        &&& 0 <= self.max_duty <= u16::MAX
    }

    /// Lower end of the usable travel.
    pub open spec fn min_position(self) -> int {
        self.buffer
    }

    /// Upper end of the usable travel.
    pub open spec fn max_position(self) -> int {
        self.stroke - self.buffer
    }

    /// Filtered position in length units.
    pub open spec fn position(self) -> int {
        position_of(self.filter.estimate(), self.stroke)
    }

    /// The state after taking one sample into the filter.
    pub open spec fn sampled(self, raw: u16) -> ActuatorView {
        ActuatorView { filter: self.filter.pushed(raw), ..self }
    }

    /// `speed` clamped to the normalized range and zeroed if it would drive
    /// further out of the usable travel at the current position.
    pub open spec fn allowed_speed(self, speed: int) -> int {
        let s = clamp(speed, -FULL_SCALE as int, FULL_SCALE as int);
        if beyond_limit(s, self.position(), self.min_position(), self.max_position()) {
            0
        } else {
            s
        }
    }

    /// The state after `set_speed(speed)` when the fresh sample is `raw`.
    pub open spec fn after_set_speed(self, speed: int, raw: u16) -> ActuatorView {
        let v = self.sampled(raw);
        let s = v.allowed_speed(speed);
        ActuatorView { speed: s, drive: Some(drive_for(s, self.max_duty)), ..v }
    }

    /// The state after `enforce_limits` when the fresh sample is `raw`.
    pub open spec fn after_enforce(self, raw: u16) -> ActuatorView {
        if self.speed == 0 {
            self
        } else {
            let v = self.sampled(raw);
            if beyond_limit(self.speed, v.position(), v.min_position(), v.max_position()) {
                ActuatorView { speed: 0, drive: Some(brake_drive(self.max_duty)), ..v }
            } else {
                v
            }
        }
    }

    /// The state after `brake`.
    pub open spec fn braked(self) -> ActuatorView {
        ActuatorView { drive: Some(brake_drive(self.max_duty)), ..self }
    }
}

/// Actuonix-style linear actuator: median-plus-average filtered position
/// feedback, direction and duty output, and software travel limits.
pub struct ActuonixLinear<S, P1, P2, Slp, Dis> {
    pwm1: P1,
    pwm2: P2,
    nsleep: Slp,
    disable: Dis,
    read_position: S,
    filter: PositionFilter,
    max_duty: u16,
    stroke_len: i32,
    buffer: i32,
    current_speed: i32,
    drive: Option<Drive>,
    awake: bool,
    outputs_enabled: bool,
}

impl<S, P1, P2, Slp, Dis> View for ActuonixLinear<S, P1, P2, Slp, Dis> {
    type V = ActuatorView;

    closed spec fn view(&self) -> ActuatorView {
        ActuatorView {
            filter: self.filter@,
            max_duty: self.max_duty as int,
            stroke: self.stroke_len as int,
            buffer: self.buffer as int,
            speed: self.current_speed as int,
            drive: self.drive,
            awake: self.awake,
            outputs_enabled: self.outputs_enabled,
        }
    }
}

impl<S, P1, P2, Slp, Dis> ActuonixLinear<S, P1, P2, Slp, Dis> where
    S: PositionSource,
    P1: DutyOutput,
    P2: DutyOutput,
    Slp: DigitalOutput,
    Dis: DigitalOutput,
 {
    pub open spec fn wf(&self) -> bool {
        self@.wf()
    }

    /// Takes over the capabilities, wakes and enables the bridge, and seeds
    /// the filter with one sample. `stroke_len` and `buffer` are in length units;
    /// the usable travel is `[buffer, stroke_len - buffer]`.
    pub fn new(
        pwm1: P1,
        pwm2: P2,
        nsleep: Slp,
        disable: Dis,
        read_position: S,
        stroke_len: i32,
        buffer: i32,
    ) -> (r: Self)
        requires
            0 <= stroke_len <= MAX_STROKE,
        ensures
            r.wf(),
            exists|raw: u16| r@.filter == seeded(raw),
            r@.stroke == stroke_len,
            r@.buffer == buffer,
            r@.speed == 0,
            r@.drive == None::<Drive>,
            r@.awake,
            r@.outputs_enabled,
    {
        let mut nsleep = nsleep;
        let mut disable = disable;
        let mut read_position = read_position;
        nsleep.set_high();
        disable.set_low();
        let initial = read_position.read_raw();
        let max_duty = pwm1.max_duty();
        ActuonixLinear {
            pwm1,
            pwm2,
            nsleep,
            disable,
            read_position,
            filter: PositionFilter::new(initial),
            max_duty,
            stroke_len,
            buffer,
            current_speed: 0,
            drive: None,
            awake: true,
            outputs_enabled: true,
        }
    }

    fn apply(&mut self, drive: Drive)
        requires
            old(self).wf(),
        ensures
            final(self).wf(),
            final(self)@ == (ActuatorView { drive: Some(drive), ..old(self)@ }),
    {
        self.pwm1.set_duty(drive.in1);
        self.pwm2.set_duty(drive.in2);
        self.pwm1.enable();
        self.pwm2.enable();
        self.drive = Some(drive);
    }

    /// Commands a signed speed (`FULL_SCALE` is full extend). The speed is
    /// clamped to the normalized range, then zeroed if it would move further
    /// past a travel limit at the freshly filtered position; the result is
    /// remembered and applied (a speed within the deadband brakes).
    pub fn set_speed(&mut self, speed: i32)
        requires
            old(self).wf(),
        ensures
            final(self).wf(),
            exists|raw: u16| final(self)@ == old(self)@.after_set_speed(speed as int, raw),
    {
        let ghost before = self@;
        let mut s: i32 = if speed > FULL_SCALE {
            FULL_SCALE
        } else if speed < -FULL_SCALE {
            -FULL_SCALE
        } else {
            speed
        };
        let pos = self.position_mm();
        let ghost raw = choose|raw: u16| self@ == before.sampled(raw);
        let max_pos: i64 = self.stroke_len as i64 - self.buffer as i64;
        let min_pos: i64 = self.buffer as i64;
        if s > 0 && pos as i64 >= max_pos {
            s = 0;
        } else if s < 0 && pos as i64 <= min_pos {
            s = 0;
        }
        self.current_speed = s;
        let magnitude: u32 = if s < 0 { (-s) as u32 } else { s as u32 };
        proof {
            assert(magnitude * self.max_duty <= FULL_SCALE * self.max_duty) by (nonlinear_arith)
                requires
                    magnitude <= FULL_SCALE,
                    self.max_duty >= 0,
            ;
            vstd::arithmetic::div_mod::lemma_div_is_ordered(
                magnitude * self.max_duty as int,
                FULL_SCALE * self.max_duty as int,
                FULL_SCALE as int,
            );
            vstd::arithmetic::div_mod::lemma_div_by_multiple(self.max_duty as int, FULL_SCALE as int);
            assert(FULL_SCALE * self.max_duty as int == self.max_duty as int * FULL_SCALE);
        }
        let duty: u16 = (magnitude * self.max_duty as u32 / FULL_SCALE as u32) as u16;
        if s > SPEED_DEADBAND {
            self.apply(Drive { in1: duty, in2: 0 });
        } else if s < -SPEED_DEADBAND {
            self.apply(Drive { in1: 0, in2: duty });
        } else {
            self.brake();
        }
        assert(self@ == before.after_set_speed(speed as int, raw));
    }

    /// Brakes and forgets the commanded speed if the last commanded motion has
    /// carried the actuator past the travel limit in its direction. Takes a
    /// sample only while a speed is commanded.
    pub fn enforce_limits(&mut self)
        requires
            old(self).wf(),
        ensures
            final(self).wf(),
            exists|raw: u16| final(self)@ == old(self)@.after_enforce(raw),
    {
        let ghost before = self@;
        if self.current_speed == 0 {
            assert(self@ == before.after_enforce(0));
            return;
        }
        let pos = self.position_mm();
        let ghost raw = choose|raw: u16| self@ == before.sampled(raw);
        let max_pos: i64 = self.stroke_len as i64 - self.buffer as i64;
        let min_pos: i64 = self.buffer as i64;
        if (self.current_speed > 0 && pos as i64 >= max_pos) || (self.current_speed < 0 && pos as i64
            <= min_pos) {
            self.brake();
            self.current_speed = 0;
        }
        assert(self@ == before.after_enforce(raw));
    }

    /// Extends at full speed.
    pub fn extend(&mut self)
        requires
            old(self).wf(),
        ensures
            final(self).wf(),
            exists|raw: u16| final(self)@ == old(self)@.after_set_speed(FULL_SCALE as int, raw),
    {
        self.set_speed(FULL_SCALE);
    }

    /// Retracts at full speed.
    pub fn retract(&mut self)
        requires
            old(self).wf(),
        ensures
            final(self).wf(),
            exists|raw: u16| final(self)@ == #[trigger] old(self)@.after_set_speed(-FULL_SCALE as int, raw),
    {
        self.set_speed(-FULL_SCALE);
    }

    /// Drives both inputs at full duty for a fast stop. The commanded speed
    /// is kept.
    pub fn brake(&mut self)
        requires
            old(self).wf(),
        ensures
            final(self).wf(),
            final(self)@ == old(self)@.braked(),
    {
        let max = self.max_duty;
        self.apply(Drive { in1: max, in2: max });
    }

    /// Takes a fresh sample and returns the filtered position in raw counts.
    pub fn position_raw(&mut self) -> (r: u16)
        requires
            old(self).wf(),
        ensures
            final(self).wf(),
            exists|raw: u16| final(self)@ == old(self)@.sampled(raw),
            r as int == final(self)@.filter.estimate(),
    {
        let ghost before = self@;
        let raw = self.read_position.read_raw();
        proof {
            lemma_pushed_wf(self.filter@, raw);
        }
        let r = self.filter.push(raw);
        assert(self@ == before.sampled(raw));
        r
    }

    /// Takes a fresh sample and returns the filtered position as a fraction of
    /// the sensor's full scale, in thousandths (`FULL_SCALE` is fully extended).
    pub fn position_percent(&mut self) -> (r: i32)
        requires
            old(self).wf(),
        ensures
            final(self).wf(),
            exists|raw: u16| final(self)@ == old(self)@.sampled(raw),
            r as int == final(self)@.filter.estimate() * FULL_SCALE / (RAW_FULL_SCALE as int),
    {
        let raw = self.position_raw();
        (raw as u32 * FULL_SCALE as u32 / RAW_FULL_SCALE as u32) as i32
    }

    /// Takes a fresh sample and returns the filtered position in length units.
    pub fn position_mm(&mut self) -> (r: i32)
        requires
            old(self).wf(),
        ensures
            final(self).wf(),
            exists|raw: u16| final(self)@ == old(self)@.sampled(raw),
            r as int == final(self)@.position(),
    {
        let raw = self.position_raw();
        proof {
            assert(raw as int * self.stroke_len as int <= u16::MAX as int * MAX_STROKE)
                by (nonlinear_arith)
                requires
                    0 <= self.stroke_len <= MAX_STROKE,
                    0 <= raw <= u16::MAX,
            ;
            assert(raw as int * self.stroke_len as int >= 0) by (nonlinear_arith)
                requires
                    0 <= self.stroke_len,
                    0 <= raw,
            ;
        }
        (raw as u64 * self.stroke_len as u64 / RAW_FULL_SCALE as u64) as i32
    }

    /// The last commanded speed, after clamping and the limit check.
    pub fn current_speed(&self) -> (r: i32)
        ensures
            r as int == self@.speed,
    {
        self.current_speed
    }

    /// What was last applied to the bridge, if anything.
    pub fn last_drive(&self) -> (r: Option<Drive>)
        ensures
            r == self@.drive,
    {
        self.drive
    }

    /// The filtered position in length units, without taking a sample.
    pub fn filtered_position_mm(&self) -> (r: i32)
        requires
            self.wf(),
        ensures
            r as int == self@.position(),
    {
        let raw = self.filter.estimate();
        proof {
            assert(raw as int * self.stroke_len as int <= u16::MAX as int * MAX_STROKE)
                by (nonlinear_arith)
                requires
                    0 <= self.stroke_len <= MAX_STROKE,
                    0 <= raw <= u16::MAX,
            ;
            assert(raw as int * self.stroke_len as int >= 0) by (nonlinear_arith)
                requires
                    0 <= self.stroke_len,
                    0 <= raw,
            ;
            vstd::arithmetic::div_mod::lemma_div_is_ordered(
                raw as int * self.stroke_len as int,
                u16::MAX as int * MAX_STROKE,
                RAW_FULL_SCALE as int,
            );
        }
        (raw as u64 * self.stroke_len as u64 / RAW_FULL_SCALE as u64) as i32
    }

    /// The stroke length in length units.
    pub fn stroke_len_mm(&self) -> (r: i32)
        ensures
            r as int == self@.stroke,
    {
        self.stroke_len
    }

    /// Puts the bridge into its low-power sleep state.
    pub fn sleep(&mut self)
        ensures
            final(self)@ == (ActuatorView { awake: false, ..old(self)@ }),
    {
        self.nsleep.set_low();
        self.awake = false;
    }

    /// Wakes the bridge from sleep.
    pub fn wake(&mut self)
        ensures
            final(self)@ == (ActuatorView { awake: true, ..old(self)@ }),
    {
        self.nsleep.set_high();
        self.awake = true;
    }

    /// Wakes the bridge and lets it drive.
    pub fn enable_outputs(&mut self)
        ensures
            final(self)@ == (ActuatorView { awake: true, outputs_enabled: true, ..old(self)@ }),
    {
        self.wake();
        self.disable.set_low();
        self.outputs_enabled = true;
    }

    /// Brakes, then stops the bridge from driving.
    pub fn disable_outputs(&mut self)
        requires
            old(self).wf(),
        ensures
            final(self).wf(),
            final(self)@ == (ActuatorView { outputs_enabled: false, ..old(self)@.braked() }),
    {
        self.brake();
        self.disable.set_high();
        self.outputs_enabled = false;
    }
}

/// Limit clamp: a speed that would extend is refused, and the actuator brakes,
/// when the freshly filtered position is at or past the upper limit; the
/// remembered speed is then zero.
pub proof fn lemma_extend_refused_at_upper_limit(v: ActuatorView, speed: int, raw: u16)
    requires
        speed > 0,
        v.sampled(raw).position() >= v.max_position(),
    ensures
        v.after_set_speed(speed, raw).speed == 0,
        v.after_set_speed(speed, raw).drive == Some(brake_drive(v.max_duty)),
{
}

/// Limit clamp, lower end: a speed that would retract is refused, and the
/// actuator brakes, when the freshly filtered position is at or below the
/// lower limit.
pub proof fn lemma_retract_refused_at_lower_limit(v: ActuatorView, speed: int, raw: u16)
    requires
        speed < 0,
        v.sampled(raw).position() <= v.min_position(),
    ensures
        v.after_set_speed(speed, raw).speed == 0,
        v.after_set_speed(speed, raw).drive == Some(brake_drive(v.max_duty)),
{
}

/// Limit enforcement: a motion that was allowed when commanded but has since
/// carried the actuator past the limit in its direction is braked and forgotten.
pub proof fn lemma_enforce_stops_past_limit(v: ActuatorView, raw: u16)
    requires
        (v.speed > 0 && v.sampled(raw).position() >= v.max_position()) || (v.speed < 0
            && v.sampled(raw).position() <= v.min_position()),
    ensures
        v.after_enforce(raw).speed == 0,
        v.after_enforce(raw).drive == Some(brake_drive(v.max_duty)),
{
}

/// A non-zero applied speed drives exactly one input, at `|speed|` of full
/// duty, and holds the other at zero; a speed within the deadband brakes.
pub proof fn lemma_drive_one_side(speed: int, max_duty: int)
    requires
        -FULL_SCALE <= speed <= FULL_SCALE,
        0 <= max_duty <= u16::MAX,
    ensures
        speed > SPEED_DEADBAND ==> drive_for(speed, max_duty).in2 == 0
            && drive_for(speed, max_duty).in1 == speed * max_duty / (FULL_SCALE as int),
        speed < -SPEED_DEADBAND ==> drive_for(speed, max_duty).in1 == 0
            && drive_for(speed, max_duty).in2 == -speed * max_duty / (FULL_SCALE as int),
        -SPEED_DEADBAND <= speed <= SPEED_DEADBAND ==> drive_for(speed, max_duty) == brake_drive(
            max_duty,
        ),
{
    let m = if speed < 0 { -speed } else { speed };
    assert(m * max_duty <= FULL_SCALE * max_duty) by (nonlinear_arith)
        requires
            0 <= m <= FULL_SCALE,
            max_duty >= 0,
    ;
    assert(m * max_duty >= 0) by (nonlinear_arith)
        requires
            0 <= m,
            max_duty >= 0,
    ;
    vstd::arithmetic::div_mod::lemma_div_is_ordered(
        m * max_duty,
        FULL_SCALE * max_duty,
        FULL_SCALE as int,
    );
    vstd::arithmetic::div_mod::lemma_div_by_multiple(max_duty, FULL_SCALE as int);
    assert(FULL_SCALE * max_duty == max_duty * FULL_SCALE);
}

} // verus!
