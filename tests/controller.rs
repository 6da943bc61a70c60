use std::cell::Cell;
use std::rc::Rc;

use omnitiles::actuator::{ActuonixLinear, DigitalOutput, DutyOutput, PositionSource, MM};
use omnitiles::controller::{LinearController, LinearMode};
use omnitiles::pid::Pid;

#[derive(Clone)]
struct Sensor(Rc<Cell<u16>>);

impl PositionSource for Sensor {
    fn read_raw(&mut self) -> u16 {
        self.0.get()
    }
}

#[derive(Clone)]
struct Channel(Rc<Cell<u16>>);

impl DutyOutput for Channel {
    fn max_duty(&self) -> u16 {
        1000
    }
    fn set_duty(&mut self, duty: u16) {
        self.0.set(duty);
    }
    fn enable(&mut self) {}
}

struct Line;

impl DigitalOutput for Line {
    fn set_high(&mut self) {}
    fn set_low(&mut self) {}
}

type Ctl = LinearController<Sensor, Channel, Channel, Line, Line>;

struct Rig {
    sensor: Rc<Cell<u16>>,
    in1: Rc<Cell<u16>>,
    in2: Rc<Cell<u16>>,
}

const DT: u32 = 20_000;

fn rig(raw: u16, pid: Pid, tolerance: i32) -> (Rig, Ctl) {
    let sensor = Rc::new(Cell::new(raw));
    let in1 = Rc::new(Cell::new(0));
    let in2 = Rc::new(Cell::new(0));
    let act = ActuonixLinear::new(
        Channel(in1.clone()),
        Channel(in2.clone()),
        Line,
        Line,
        Sensor(sensor.clone()),
        150 * MM,
        5 * MM,
    );
    let ctl = LinearController::new(act, pid, 5 * MM, 145 * MM, tolerance);
    (Rig { sensor, in1, in2 }, ctl)
}

fn applied(r: &Rig) -> (u16, u16) {
    (r.in1.get(), r.in2.get())
}

#[test]
fn new_controller_targets_lower_limit() {
    let (_r, ctl) = rig(2048, Pid::new(1000, 0, 0), 100);
    assert_eq!(ctl.mode(), LinearMode::PositionControl);
    assert_eq!(ctl.target_position_mm(), 5 * MM);
}

#[test]
fn target_is_clamped_into_limits() {
    let (_r, mut ctl) = rig(2048, Pid::new(1000, 0, 0), 100);
    ctl.set_target_position_mm(200 * MM);
    assert_eq!(ctl.target_position_mm(), 145 * MM);
    ctl.set_target_position_mm(-3);
    assert_eq!(ctl.target_position_mm(), 5 * MM);
    ctl.set_target_position_mm(80 * MM);
    assert_eq!(ctl.target_position_mm(), 80 * MM);
}

#[test]
fn set_target_resets_pid() {
    let (_r, mut ctl) = rig(2048, Pid::new(0, 1000, 0), 100);
    ctl.set_target_position_mm(100 * MM);
    ctl.step(DT);
    assert!(ctl.pid().integral() > 0);
    ctl.set_target_position_mm(90 * MM);
    assert_eq!(ctl.pid().integral(), 0);
}

#[test]
fn step_within_deadband_brakes_without_pid_update() {
    // Filtered position is 75018 (raw 2048).
    let (r, mut ctl) = rig(2048, Pid::new(1000, 1000, 0), 100);
    ctl.set_target_position_mm(75_000);
    ctl.step(DT);
    assert_eq!(applied(&r), (1000, 1000));
    assert_eq!(ctl.pid().integral(), 0);
    ctl.set_target_position_mm(75_118);
    ctl.step(DT);
    assert_eq!(applied(&r), (1000, 1000));
    assert_eq!(ctl.pid().integral(), 0);
}

#[test]
fn step_outside_deadband_forwards_pid_output() {
    let (r, mut ctl) = rig(2048, Pid::new(10, 0, 0), 100);
    // error = 85018 - 75018 = 10000 -> 10 * 10000 / 1000 = 100
    ctl.set_target_position_mm(85_018);
    ctl.step(DT);
    assert_eq!(ctl.actuator().current_speed(), 100);
    assert_eq!(applied(&r), (100, 0));
    // error = -10000 -> -100: retract
    ctl.set_target_position_mm(65_018);
    ctl.step(DT);
    assert_eq!(ctl.actuator().current_speed(), -100);
    assert_eq!(applied(&r), (0, 100));
}

#[test]
fn disabled_controller_only_brakes() {
    let (r, mut ctl) = rig(2048, Pid::new(1000, 1000, 0), 100);
    ctl.set_target_position_mm(140 * MM);
    ctl.step(DT);
    assert_eq!(applied(&r), (1000, 0));
    ctl.disable();
    assert_eq!(ctl.mode(), LinearMode::Disabled);
    assert_eq!(applied(&r), (1000, 1000));
    let integral = ctl.pid().integral();
    for _ in 0..10 {
        ctl.step(DT);
        assert_eq!(applied(&r), (1000, 1000));
    }
    assert_eq!(ctl.pid().integral(), integral);
    // A target written while disabled is recorded but does not drive.
    ctl.set_target_position_mm(20 * MM);
    ctl.step(DT);
    assert_eq!(applied(&r), (1000, 1000));
    assert_eq!(ctl.target_position_mm(), 20 * MM);
    ctl.enable();
    assert_eq!(ctl.mode(), LinearMode::PositionControl);
    ctl.step(DT);
    assert_eq!(applied(&r), (0, 1000));
}

#[test]
fn on_target_reports_deadband() {
    let (_r, mut ctl) = rig(2048, Pid::new(1000, 0, 0), 100);
    ctl.set_target_position_mm(75_100);
    assert!(ctl.on_target());
    ctl.set_target_position_mm(75_200);
    assert!(!ctl.on_target());
}

#[test]
fn end_to_end_stops_at_upper_limit() {
    // stroke 150 mm, buffer 5 mm; a small proportional gain and an integral
    // that saturates while far away, so that the PID output is still positive
    // when the actuator reaches the limit.
    let pid = Pid::new(10, 1000, 0);
    let (r, mut ctl) = rig(2048, pid, 100);
    ctl.set_target_position_mm(200 * MM);
    assert_eq!(ctl.target_position_mm(), 145 * MM);
    ctl.step(DT);
    let (d1, d2) = applied(&r);
    assert!(d1 > 0 && d2 == 0, "commanded to extend");
    assert!(ctl.actuator().current_speed() > 0);

    // The actuator travels to its mechanical end.
    r.sensor.set(4095);
    let mut reached = false;
    let mut stale_positive_steps = 0;
    for _ in 0..1000 {
        ctl.step(DT);
        let pos = ctl.actuator().filtered_position_mm();
        if pos >= 145 * MM {
            reached = true;
            let (d1, d2) = applied(&r);
            assert!(!(d1 > 0 && d2 == 0) || d1 == d2, "no extension past the limit");
            if ctl.pid().integral() > 0 {
                stale_positive_steps += 1;
            }
        }
    }
    assert!(reached);
    assert!(stale_positive_steps > 0);
    assert!(ctl.actuator().current_speed() <= 0);
}
