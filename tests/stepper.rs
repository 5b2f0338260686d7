use dehydrator::stepper::{Dir, HalfStep, Homing, HomingPhase, PositionOutOfRange, Stepper, HOMING_DELAY_MS};

fn stepper(min: i32, max: i32, pos: i32) -> Stepper {
    Stepper { min, max, pos, step: HalfStep::init(), delay_ms: 20 }
}

#[test]
fn half_step_patterns() {
    let mut h = HalfStep::init();
    assert_eq!(h.activate(Dir::CC), [false, false, false, true]);
    assert_eq!(h.activate(Dir::CC), [false, false, true, true]);
    assert_eq!(h.activate(Dir::Off), [false, false, false, false]);
    assert_eq!(h.activate(Dir::CW), [false, false, false, true]);
    assert_eq!(h.activate(Dir::CW), [true, false, false, true]);
    assert_eq!(h.activate(Dir::CW), [true, false, false, false]);
}

#[test]
fn eight_half_steps_make_a_cycle() {
    let mut h = HalfStep::init();
    let first = h.activate(Dir::CC);
    for _ in 0..7 {
        h.activate(Dir::CC);
    }
    assert_eq!(h.activate(Dir::CC), first);
}

#[test]
fn fwd_and_rev_stop_at_bounds() {
    let mut s = stepper(0, 2, 0);
    assert!(s.fwd().is_some());
    assert_eq!(s.pos, 1);
    assert!(s.fwd().is_none());
    assert_eq!(s.pos, 2);
    assert!(s.rev().is_some());
    assert!(s.rev().is_none());
    assert_eq!(s.pos, 0);
}

#[test]
fn off_releases_coils() {
    let mut s = stepper(0, 10, 3);
    assert_eq!(s.off(), [false; 4]);
    assert_eq!(s.pos, 3);
}

#[test]
fn set_pos_out_of_range() {
    let mut s = stepper(-5, 10, 0);
    assert_eq!(s.set_pos(11).unwrap_err(), PositionOutOfRange);
    assert_eq!(s.set_pos(-6).unwrap_err(), PositionOutOfRange);
    assert_eq!(s.pos, 0);
}

#[test]
fn set_pos_to_max_drives_one_step_fewer() {
    let mut s = stepper(0, 10, 0);
    let steps = s.set_pos(10).unwrap();
    assert_eq!(steps.len(), 9);
    assert_eq!(s.pos, 10);
    assert_eq!(steps[0], [false, false, false, true]);
    let back = s.set_pos(5).unwrap();
    assert_eq!(back.len(), 5);
    assert_eq!(s.pos, 5);
    let down = s.set_pos(0).unwrap();
    assert_eq!(down.len(), 4);
    assert_eq!(s.pos, 0);
    assert!(s.set_pos(0).unwrap().is_empty());
}

#[test]
fn set_pos_inside_range_drives_full_distance() {
    let mut s = stepper(-100, 100, 0);
    assert_eq!(s.set_pos(30).unwrap().len(), 30);
    assert_eq!(s.set_pos(-20).unwrap().len(), 50);
    assert_eq!(s.pos, -20);
}

const LOW_END: i32 = -40;
const HIGH_END: i32 = 60;

/// Runs homing against a damper whose low magnet covers positions up to
/// `LOW_END`, high magnet those from `HIGH_END`, and middle magnet those near
/// 0. A sensor wired the other way reads the opposite of "near".
fn run_homing(flip_min: bool, flip_mid: bool, flip_max: bool) -> (i32, i32) {
    let read = |near: bool, flip: bool| near != flip;
    let mut h = Homing::start(
        HalfStep::init(),
        read(0 <= LOW_END, flip_min),
        read(true, flip_mid),
        read(0 >= HIGH_END, flip_max),
    );
    assert_eq!(h.stepper.delay_ms, HOMING_DELAY_MS);
    let mut guard = 0;
    while !h.is_done() {
        assert!(h.advance().is_some());
        let p = h.stepper.pos;
        h.observe(read(p <= LOW_END, flip_min), read(p >= HIGH_END, flip_max));
        guard += 1;
        assert!(guard < 10_000);
    }
    let s = h.finish();
    (s.min, s.max)
}

#[test]
fn homing_with_normal_wiring() {
    assert_eq!(run_homing(false, false, false), (LOW_END, HIGH_END));
}

#[test]
fn homing_with_one_sensor_inverted() {
    // the middle sensor disagrees with the two others
    assert_eq!(run_homing(false, true, false), (LOW_END, HIGH_END));
    // the two boundary sensors disagree with the middle one
    assert_eq!(run_homing(true, false, true), (LOW_END, HIGH_END));
}

#[test]
fn homing_with_all_sensors_inverted() {
    assert_eq!(run_homing(true, true, true), (LOW_END, HIGH_END));
}

#[test]
fn homing_phases() {
    let mut h = Homing::start(HalfStep::init(), false, false, false);
    assert_eq!(h.phase, HomingPhase::Forward);
    assert!(!h.baseline);
    h.advance();
    h.observe(false, true);
    assert_eq!(h.phase, HomingPhase::Backward);
    assert_eq!(h.stepper.max, 1);
    h.advance();
    assert_eq!(h.stepper.pos, 0);
    h.observe(false, true);
    assert_eq!(h.phase, HomingPhase::Done);
    assert_eq!(h.stepper.max, 0);
    let h = Homing::start(HalfStep::init(), true, true, false);
    assert!(h.baseline);
}

#[test]
fn homing_stops_at_position_limit() {
    let mut h = Homing::start(HalfStep::init(), false, false, false);
    h.stepper.pos = i32::MAX;
    assert!(h.advance().is_none());
    assert_eq!(h.stepper.pos, i32::MAX);
}
