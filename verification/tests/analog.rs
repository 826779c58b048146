use gamepad_input::analog::{
    AnalogInput, AnalogInputValue, Deadzone, ANALOG_MAX, ANALOG_MIN, DEFAULT_DEADZONE,
    DEFAULT_DEADZONE_DIGITAL, UNITS_PER_STEP,
};
use gamepad_input::key::Axis;

/// The sample that stands for a fraction of full deflection.
fn sample(fraction: f64) -> AnalogInputValue {
    AnalogInputValue::from_units((fraction * ANALOG_MAX as f64).round() as i32)
}

fn threshold(fraction: f64) -> Deadzone {
    Deadzone::from(sample(fraction))
}

#[test]
fn constants_agree() {
    assert_eq!(ANALOG_MAX, i16::MAX as i32 * UNITS_PER_STEP);
    assert_eq!(ANALOG_MIN, -ANALOG_MAX);
    assert_eq!(DEFAULT_DEADZONE, ANALOG_MAX / 10);
    assert_eq!(DEFAULT_DEADZONE_DIGITAL, ANALOG_MAX / 2);
}

#[test]
fn reading_is_scaled() {
    assert_eq!(AnalogInputValue::from(0i16).get(), 0);
    assert_eq!(AnalogInputValue::from(1i16).get(), 1000);
    assert_eq!(AnalogInputValue::from(-1i16).get(), -1000);
    assert_eq!(AnalogInputValue::from(12345i16).get(), 12_345_000);
    assert_eq!(AnalogInputValue::from(i16::MAX).get(), ANALOG_MAX);
    assert_eq!(AnalogInputValue::from(-i16::MAX).get(), ANALOG_MIN);
}

#[test]
fn lowest_reading_is_clamped() {
    assert_eq!(AnalogInputValue::from(i16::MIN).get(), ANALOG_MIN);
}

#[test]
fn every_reading_is_in_range() {
    let mut reading = i16::MIN;
    loop {
        let units = AnalogInputValue::from(reading).get();
        assert!(ANALOG_MIN <= units && units <= ANALOG_MAX);
        if reading == i16::MAX {
            break;
        }
        reading += 1;
    }
}

#[test]
fn units_are_clamped() {
    assert_eq!(AnalogInputValue::from_units(0).get(), 0);
    assert_eq!(AnalogInputValue::from_units(17).get(), 17);
    assert_eq!(AnalogInputValue::from_units(-17).get(), -17);
    assert_eq!(AnalogInputValue::from_units(ANALOG_MAX).get(), ANALOG_MAX);
    assert_eq!(AnalogInputValue::from_units(ANALOG_MAX + 1).get(), ANALOG_MAX);
    assert_eq!(AnalogInputValue::from_units(ANALOG_MIN - 1).get(), ANALOG_MIN);
    assert_eq!(AnalogInputValue::from_units(i32::MAX).get(), ANALOG_MAX);
    assert_eq!(AnalogInputValue::from_units(i32::MIN).get(), ANALOG_MIN);
}

#[test]
fn default_sample_is_rest() {
    assert_eq!(AnalogInputValue::default().get(), 0);
    assert_eq!(Deadzone::default().get(), 0);
}

#[test]
fn deadzone_is_magnitude() {
    assert_eq!(Deadzone::from(AnalogInputValue::from_units(5)).get(), 5);
    assert_eq!(Deadzone::from(AnalogInputValue::from_units(-5)).get(), 5);
    assert_eq!(Deadzone::from(AnalogInputValue::from_units(0)).get(), 0);
    assert_eq!(Deadzone::from(AnalogInputValue::from(i16::MIN)).get(), ANALOG_MAX);
}

#[test]
fn unknown_key_is_at_rest() {
    let input: AnalogInput<Axis> = AnalogInput::default();
    assert_eq!(input.value(Axis::LeftStickX), 0);
    assert_eq!(input.digital_value(Axis::LeftStickX), 0);
    assert_eq!(input.just_activated(Axis::LeftStickX), None);
    assert_eq!(input.just_activated_digital(Axis::LeftStickX), None);
    assert!(!input.just_deactivated(Axis::LeftStickX));
    assert!(!input.just_deactivated_digital(Axis::LeftStickX));
}

#[test]
fn update_twice_leaves_no_edge() {
    let mut input: AnalogInput<Axis> = AnalogInput::default();
    input.set(Axis::LeftStickX, sample(0.9));
    input.set(Axis::LeftStickY, sample(0.9));
    input.set(Axis::LeftStickY, sample(0.0));
    assert!(input.just_activated(Axis::LeftStickX).is_some());
    assert!(input.just_deactivated(Axis::LeftStickY));
    for _ in 0..2 {
        input.update();
        for axis in [Axis::LeftStickX, Axis::LeftStickY] {
            assert_eq!(input.just_activated(axis), None);
            assert_eq!(input.just_activated_digital(axis), None);
            assert!(!input.just_deactivated(axis));
            assert!(!input.just_deactivated_digital(axis));
        }
        assert_eq!(input.value(Axis::LeftStickX), 29_126_222);
        assert_eq!(input.value(Axis::LeftStickY), 0);
    }
}

#[test]
fn first_sample_inside_deadzone_is_no_edge() {
    let mut input: AnalogInput<Axis> = AnalogInput::default();
    input.set(Axis::LeftStickX, sample(0.05));
    assert_eq!(input.just_activated(Axis::LeftStickX), None);
    assert!(!input.just_deactivated(Axis::LeftStickX));
    assert_eq!(input.value(Axis::LeftStickX), 0);
}

#[test]
fn first_sample_outside_deadzone_is_an_edge() {
    let mut input: AnalogInput<Axis> = AnalogInput::default();
    input.set(Axis::LeftStickX, sample(0.5));
    assert_eq!(input.just_activated(Axis::LeftStickX), Some(14_563_111));
    assert_eq!(input.value(Axis::LeftStickX), 14_563_111);
    assert!(!input.just_deactivated(Axis::LeftStickX));
}

#[test]
fn leaving_then_entering_deadzone() {
    let mut input: AnalogInput<Axis> = AnalogInput::default();
    input.set(Axis::LeftStickX, sample(0.05));
    assert_eq!(input.just_activated(Axis::LeftStickX), None);
    input.set(Axis::LeftStickX, sample(0.5));
    assert_eq!(input.just_activated(Axis::LeftStickX), Some(14_563_111));
    input.update();
    assert_eq!(input.just_activated(Axis::LeftStickX), None);
    input.set(Axis::LeftStickX, sample(0.05));
    assert!(input.just_deactivated(Axis::LeftStickX));
    assert_eq!(input.just_activated(Axis::LeftStickX), None);
    assert_eq!(input.value(Axis::LeftStickX), 0);
}

#[test]
fn sign_flip_is_an_activation() {
    let mut input: AnalogInput<Axis> = AnalogInput::default();
    input.set(Axis::RightStickX, sample(0.9));
    assert_eq!(input.just_activated(Axis::RightStickX), Some(29_126_222));
    input.set(Axis::RightStickX, sample(-0.9));
    assert_eq!(input.just_activated(Axis::RightStickX), Some(-29_126_222));
    assert!(!input.just_deactivated(Axis::RightStickX));
}

#[test]
fn sign_flip_after_update_is_an_activation() {
    let mut input: AnalogInput<Axis> = AnalogInput::default();
    input.set(Axis::RightStickX, sample(0.9));
    input.update();
    assert_eq!(input.just_activated(Axis::RightStickX), None);
    input.set(Axis::RightStickX, sample(-0.9));
    assert_eq!(input.just_activated(Axis::RightStickX), Some(-29_126_222));
    assert_eq!(input.just_activated_digital(Axis::RightStickX), Some(ANALOG_MIN));
}

#[test]
fn steady_sample_is_no_edge() {
    let mut input: AnalogInput<Axis> = AnalogInput::default();
    input.set(Axis::RightStickX, sample(0.9));
    input.update();
    input.set(Axis::RightStickX, sample(0.5));
    assert_eq!(input.just_activated(Axis::RightStickX), None);
    assert!(!input.just_deactivated(Axis::RightStickX));
    assert_eq!(input.value(Axis::RightStickX), 14_563_111);
}

#[test]
fn remap_at_the_boundaries() {
    let mut input: AnalogInput<Axis> = AnalogInput::default();
    input.set(Axis::LeftZ, sample(1.0));
    assert_eq!(input.value(Axis::LeftZ), ANALOG_MAX);
    input.set(Axis::LeftZ, sample(-1.0));
    assert_eq!(input.value(Axis::LeftZ), ANALOG_MIN);
    input.update();
    input.set(Axis::LeftZ, sample(0.05));
    input.update();
    input.set(Axis::LeftZ, sample(0.1));
    assert_eq!(input.value(Axis::LeftZ), 0);
    assert_eq!(input.just_activated(Axis::LeftZ), Some(0));
}

#[test]
fn remap_rounds_toward_zero() {
    let mut input: AnalogInput<Axis> = AnalogInput::default();
    input.set(Axis::LeftZ, sample(0.25));
    assert_eq!(input.value(Axis::LeftZ), 5_461_166);
    input.set(Axis::LeftZ, sample(-0.5));
    assert_eq!(input.value(Axis::LeftZ), -14_563_111);
    input.set(Axis::LeftZ, AnalogInputValue::from(12345i16));
    assert_eq!(input.value(Axis::LeftZ), 10_075_888);
}

#[test]
fn sample_just_below_deadzone_reads_zero() {
    let mut input: AnalogInput<Axis> = AnalogInput::default();
    input.set(Axis::LeftZ, AnalogInputValue::from_units(DEFAULT_DEADZONE - 1));
    assert_eq!(input.value(Axis::LeftZ), 0);
    assert_eq!(input.just_activated(Axis::LeftZ), None);
    input.set(Axis::LeftZ, AnalogInputValue::from_units(-DEFAULT_DEADZONE));
    assert_eq!(input.just_activated(Axis::LeftZ), Some(0));
}

#[test]
fn digital_value_is_ternary() {
    let mut input: AnalogInput<Axis> = AnalogInput::default();
    for (fraction, expected) in [
        (0.0, 0),
        (0.49, 0),
        (-0.49, 0),
        (0.5, ANALOG_MAX),
        (-0.5, ANALOG_MIN),
        (0.75, ANALOG_MAX),
        (-0.75, ANALOG_MIN),
        (1.0, ANALOG_MAX),
        (-1.0, ANALOG_MIN),
    ] {
        input.set(Axis::DPadX, sample(fraction));
        assert_eq!(input.digital_value(Axis::DPadX), expected);
    }
}

#[test]
fn digital_value_of_rest_is_zero_at_zero_threshold() {
    let mut input: AnalogInput<Axis> = AnalogInput::default();
    input.set_digital_deadzone(threshold(0.0));
    input.set(Axis::DPadX, sample(0.0));
    assert_eq!(input.digital_value(Axis::DPadX), 0);
    assert_eq!(input.just_activated_digital(Axis::DPadX), Some(0));
    input.set(Axis::DPadX, AnalogInputValue::from_units(1));
    assert_eq!(input.digital_value(Axis::DPadX), ANALOG_MAX);
    input.set(Axis::DPadX, AnalogInputValue::from_units(-1));
    assert_eq!(input.digital_value(Axis::DPadX), ANALOG_MIN);
}

#[test]
fn digital_edges_follow_their_own_threshold() {
    let mut input: AnalogInput<Axis> = AnalogInput::default();
    input.set(Axis::DPadY, sample(0.3));
    assert_eq!(input.just_activated(Axis::DPadY), Some(7_281_555));
    assert_eq!(input.just_activated_digital(Axis::DPadY), None);
    input.set(Axis::DPadY, sample(0.6));
    assert_eq!(input.just_activated_digital(Axis::DPadY), Some(ANALOG_MAX));
    input.update();
    input.set(Axis::DPadY, sample(0.3));
    assert!(input.just_deactivated_digital(Axis::DPadY));
    assert!(!input.just_deactivated(Axis::DPadY));
    assert_eq!(input.just_activated_digital(Axis::DPadY), None);
}

#[test]
fn edges_accumulate_within_a_frame() {
    let mut input: AnalogInput<Axis> = AnalogInput::default();
    input.set(Axis::LeftStickX, sample(0.9));
    input.update();
    input.set(Axis::LeftStickX, sample(0.0));
    assert!(input.just_deactivated(Axis::LeftStickX));
    input.set(Axis::LeftStickX, sample(0.9));
    assert!(!input.just_deactivated(Axis::LeftStickX));
    assert_eq!(input.just_activated(Axis::LeftStickX), Some(29_126_222));
    input.set(Axis::LeftStickX, sample(0.0));
    assert!(input.just_deactivated(Axis::LeftStickX));
    assert_eq!(input.just_activated(Axis::LeftStickX), None);
}

#[test]
fn keys_are_independent() {
    let mut input: AnalogInput<Axis> = AnalogInput::default();
    input.set(Axis::LeftStickX, sample(0.9));
    assert_eq!(input.value(Axis::LeftStickY), 0);
    assert_eq!(input.just_activated(Axis::LeftStickY), None);
    input.set(Axis::LeftStickY, sample(-1.0));
    assert_eq!(input.value(Axis::LeftStickX), 29_126_222);
    assert_eq!(input.value(Axis::LeftStickY), ANALOG_MIN);
    assert_eq!(input.just_activated(Axis::LeftStickX), Some(29_126_222));
}

#[test]
fn new_deadzone_is_not_retroactive() {
    let mut input: AnalogInput<Axis> = AnalogInput::default();
    input.set(Axis::LeftStickX, sample(0.5));
    input.set_deadzone(threshold(0.75));
    assert_eq!(input.just_activated(Axis::LeftStickX), Some(0));
    assert_eq!(input.value(Axis::LeftStickX), 0);
    assert!(!input.just_deactivated(Axis::LeftStickX));
    input.set(Axis::LeftStickX, sample(0.5));
    assert_eq!(input.just_activated(Axis::LeftStickX), None);
    assert!(!input.just_deactivated(Axis::LeftStickX));
    input.set_deadzone(threshold(0.25));
    assert_eq!(input.value(Axis::LeftStickX), 10_922_333);
}

#[test]
fn new_digital_deadzone_takes_effect() {
    let mut input: AnalogInput<Axis> = AnalogInput::default();
    input.set_digital_deadzone(threshold(-0.25));
    input.set(Axis::LeftStickX, sample(0.3));
    assert_eq!(input.digital_value(Axis::LeftStickX), ANALOG_MAX);
    assert_eq!(input.just_activated_digital(Axis::LeftStickX), Some(ANALOG_MAX));
}

#[test]
fn full_deadzone_reads_zero() {
    let mut input: AnalogInput<Axis> = AnalogInput::default();
    input.set_deadzone(threshold(1.0));
    input.set(Axis::LeftStickX, sample(1.0));
    assert_eq!(input.value(Axis::LeftStickX), 0);
    assert_eq!(input.just_activated(Axis::LeftStickX), Some(0));
    input.set(Axis::LeftStickX, sample(0.99));
    assert_eq!(input.value(Axis::LeftStickX), 0);
    assert!(input.just_deactivated(Axis::LeftStickX));
}

#[test]
fn zero_deadzone_passes_everything() {
    let mut input: AnalogInput<Axis> = AnalogInput::default();
    input.set_deadzone(threshold(0.0));
    input.set(Axis::LeftStickX, sample(0.0));
    assert_eq!(input.just_activated(Axis::LeftStickX), Some(0));
    input.set(Axis::LeftStickX, AnalogInputValue::from_units(1234));
    assert_eq!(input.value(Axis::LeftStickX), 1234);
    input.set(Axis::LeftStickX, AnalogInputValue::from_units(-1234));
    assert_eq!(input.value(Axis::LeftStickX), -1234);
}
