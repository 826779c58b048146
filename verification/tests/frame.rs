use gamepad_input::analog::{AnalogInputValue, ANALOG_MAX, ANALOG_MIN};
use gamepad_input::backend::{dispatch, refresh, Backend, Event, ImplementationContext};
use gamepad_input::context::GamepadContext;
use gamepad_input::key::{Axis, Button};
use gamepad_input::pad::{filed_ids, filed_numbers, Gamepad, GamepadId};
use std::collections::HashMap;

fn sample(fraction: f64) -> AnalogInputValue {
    AnalogInputValue::from_units((fraction * ANALOG_MAX as f64).round() as i32)
}

#[test]
fn gamepad_id_is_its_number() {
    assert_eq!(usize::from(GamepadId(7)), 7);
    assert_eq!(GamepadId(7), GamepadId(7));
    assert_ne!(GamepadId(7), GamepadId(8));
}

#[test]
fn new_gamepad_is_at_rest() {
    let pad = Gamepad::new();
    assert_eq!(pad.analog_inputs.value(Axis::LeftStickX), 0);
    assert!(!pad.digital_inputs.activated(Button::South));
}

#[test]
fn gamepad_update_clears_both_containers() {
    let mut pad = Gamepad::new();
    pad.analog_inputs.set(Axis::LeftStickX, sample(0.9));
    pad.digital_inputs.activate(Button::South);
    pad.update_inputs();
    assert_eq!(pad.analog_inputs.just_activated(Axis::LeftStickX), None);
    assert!(!pad.digital_inputs.just_activated(Button::South));
    assert_eq!(pad.analog_inputs.value(Axis::LeftStickX), 29_126_222);
    assert!(pad.digital_inputs.activated(Button::South));
}

#[test]
fn filed_ids_lists_each_gamepad_once() {
    let mut pads: HashMap<usize, Gamepad> = HashMap::new();
    assert!(filed_ids(&pads).is_empty());
    pads.insert(3, Gamepad::new());
    pads.insert(1, Gamepad::new());
    pads.insert(3, Gamepad::new());
    let mut ids = filed_ids(&pads);
    ids.sort_by_key(|id| id.0);
    assert_eq!(ids, vec![GamepadId(1), GamepadId(3)]);
    let mut numbers = filed_numbers(&pads);
    numbers.sort();
    assert_eq!(numbers, vec![1, 3]);
}

#[test]
fn dispatch_connects_and_disconnects() {
    let mut pads: HashMap<usize, Gamepad> = HashMap::new();
    dispatch(&mut pads, &Event::Connected(GamepadId(4)));
    assert!(pads.contains_key(&4));
    assert_eq!(pads.len(), 1);
    dispatch(&mut pads, &Event::Disconnected(GamepadId(5)));
    assert_eq!(pads.len(), 1);
    dispatch(&mut pads, &Event::Disconnected(GamepadId(4)));
    assert!(pads.is_empty());
}

#[test]
fn dispatch_reconnect_starts_afresh() {
    let mut pads: HashMap<usize, Gamepad> = HashMap::new();
    dispatch(&mut pads, &Event::Connected(GamepadId(4)));
    dispatch(&mut pads, &Event::ButtonPressed(GamepadId(4), Button::South));
    assert!(pads[&4].digital_inputs.activated(Button::South));
    dispatch(&mut pads, &Event::Connected(GamepadId(4)));
    assert!(!pads[&4].digital_inputs.activated(Button::South));
    assert!(!pads[&4].digital_inputs.just_deactivated(Button::South));
}

#[test]
fn dispatch_routes_by_gamepad() {
    let mut pads: HashMap<usize, Gamepad> = HashMap::new();
    dispatch(&mut pads, &Event::Connected(GamepadId(0)));
    dispatch(&mut pads, &Event::Connected(GamepadId(1)));
    dispatch(&mut pads, &Event::AxisChanged(GamepadId(1), Axis::LeftStickY, sample(-1.0)));
    dispatch(&mut pads, &Event::ButtonPressed(GamepadId(0), Button::East));
    assert_eq!(pads[&1].analog_inputs.value(Axis::LeftStickY), ANALOG_MIN);
    assert_eq!(pads[&0].analog_inputs.value(Axis::LeftStickY), 0);
    assert!(pads[&0].digital_inputs.just_activated(Button::East));
    assert!(!pads[&1].digital_inputs.activated(Button::East));
    dispatch(&mut pads, &Event::ButtonReleased(GamepadId(0), Button::East));
    assert!(pads[&0].digital_inputs.just_deactivated(Button::East));
    assert!(!pads[&0].digital_inputs.activated(Button::East));
}

#[test]
fn dispatch_ignores_unknown_gamepads() {
    let mut pads: HashMap<usize, Gamepad> = HashMap::new();
    dispatch(&mut pads, &Event::AxisChanged(GamepadId(1), Axis::LeftStickY, sample(1.0)));
    dispatch(&mut pads, &Event::ButtonPressed(GamepadId(1), Button::East));
    dispatch(&mut pads, &Event::ButtonReleased(GamepadId(1), Button::East));
    dispatch(&mut pads, &Event::Other);
    assert!(pads.is_empty());
}

#[test]
fn refresh_reaches_every_gamepad() {
    let mut pads: HashMap<usize, Gamepad> = HashMap::new();
    for number in 0..5 {
        dispatch(&mut pads, &Event::Connected(GamepadId(number)));
        dispatch(&mut pads, &Event::ButtonPressed(GamepadId(number), Button::South));
        dispatch(
            &mut pads,
            &Event::AxisChanged(GamepadId(number), Axis::RightZ, sample(1.0)),
        );
    }
    refresh(&mut pads);
    assert_eq!(pads.len(), 5);
    for number in 0..5 {
        assert!(pads[&number].digital_inputs.activated(Button::South));
        assert!(!pads[&number].digital_inputs.just_activated(Button::South));
        assert_eq!(pads[&number].analog_inputs.just_activated(Axis::RightZ), None);
        assert_eq!(pads[&number].analog_inputs.value(Axis::RightZ), ANALOG_MAX);
    }
}

#[test]
fn backend_files_pending_gamepads_first() {
    let mut system = ImplementationContext::new(vec![GamepadId(2), GamepadId(9)]);
    let mut pads: HashMap<usize, Gamepad> = HashMap::new();
    system.update(&mut pads, &vec![Event::ButtonPressed(GamepadId(9), Button::Start)]);
    assert_eq!(pads.len(), 2);
    assert!(pads[&9].digital_inputs.just_activated(Button::Start));
    assert!(!pads[&2].digital_inputs.activated(Button::Start));
    system.update(&mut pads, &vec![]);
    assert_eq!(pads.len(), 2);
    assert!(pads[&9].digital_inputs.activated(Button::Start));
    assert!(!pads[&9].digital_inputs.just_activated(Button::Start));
}

#[test]
fn backend_files_pending_gamepads_once() {
    let mut system = ImplementationContext::new(vec![GamepadId(2)]);
    let mut pads: HashMap<usize, Gamepad> = HashMap::new();
    system.update(&mut pads, &vec![Event::Disconnected(GamepadId(2))]);
    assert!(pads.is_empty());
    system.update(&mut pads, &vec![]);
    assert!(pads.is_empty());
}

#[test]
fn context_starts_empty() {
    let context = GamepadContext::init(vec![GamepadId(1)]);
    assert!(context.gamepad(GamepadId(1)).is_none());
    assert!(context.gamepads().is_empty());
}

#[test]
fn context_runs_frames() {
    let mut context = GamepadContext::init(vec![GamepadId(1)]);
    context.update(&vec![
        Event::Connected(GamepadId(2)),
        Event::AxisChanged(GamepadId(1), Axis::LeftStickX, sample(0.5)),
        Event::ButtonPressed(GamepadId(2), Button::North),
        Event::AxisChanged(GamepadId(3), Axis::LeftStickX, sample(0.5)),
    ]);
    let mut ids = context.gamepads();
    ids.sort_by_key(|id| id.0);
    assert_eq!(ids, vec![GamepadId(1), GamepadId(2)]);
    let first = context.gamepad(GamepadId(1)).unwrap();
    assert_eq!(first.analog_inputs.just_activated(Axis::LeftStickX), Some(14_563_111));
    let second = context.gamepad(GamepadId(2)).unwrap();
    assert!(second.digital_inputs.just_activated(Button::North));
    assert!(context.gamepad(GamepadId(3)).is_none());

    context.update(&vec![
        Event::AxisChanged(GamepadId(1), Axis::LeftStickX, sample(0.05)),
        Event::Disconnected(GamepadId(2)),
    ]);
    let first = context.gamepad(GamepadId(1)).unwrap();
    assert!(first.analog_inputs.just_deactivated(Axis::LeftStickX));
    assert_eq!(first.analog_inputs.value(Axis::LeftStickX), 0);
    assert!(context.gamepad(GamepadId(2)).is_none());
    assert_eq!(context.gamepads(), vec![GamepadId(1)]);
}

#[test]
fn context_sets_deadzone_on_tracked_gamepads() {
    let mut context = GamepadContext::init(vec![GamepadId(1)]);
    context.update(&vec![Event::AxisChanged(GamepadId(1), Axis::LeftStickX, sample(0.5))]);
    context.set_deadzone(sample(-0.25));
    let pad = context.gamepad(GamepadId(1)).unwrap();
    assert_eq!(pad.analog_inputs.value(Axis::LeftStickX), 10_922_333);
    assert_eq!(pad.analog_inputs.digital_value(Axis::LeftStickX), ANALOG_MAX);
    context.set_deadzone_digital(sample(0.75));
    let pad = context.gamepad(GamepadId(1)).unwrap();
    assert_eq!(pad.analog_inputs.digital_value(Axis::LeftStickX), 0);
    assert_eq!(pad.analog_inputs.value(Axis::LeftStickX), 10_922_333);
}

#[test]
fn context_deadzone_skips_later_gamepads() {
    let mut context = GamepadContext::init(vec![]);
    context.set_deadzone(sample(0.75));
    context.update(&vec![
        Event::Connected(GamepadId(6)),
        Event::AxisChanged(GamepadId(6), Axis::LeftStickX, sample(0.5)),
    ]);
    let pad = context.gamepad(GamepadId(6)).unwrap();
    assert_eq!(pad.analog_inputs.value(Axis::LeftStickX), 14_563_111);
}
