//! Gamepads and the collection that files them by id.

use crate::analog::{AnalogInput, AnalogState};
use crate::digital::{DigitalInput, DigitalState};
use crate::key::{Axis, Button};
use std::collections::HashMap;
use vstd::prelude::*;

verus! {

/// The number that the input system gives a gamepad.
pub type ImplementationId = usize;

/// The instance id of a gamepad.
#[derive(Debug, Clone, Copy, PartialEq, Eq, Hash, Structural)]
pub struct GamepadId(pub ImplementationId);

impl From<GamepadId> for usize {
    fn from(id: GamepadId) -> (raw: usize) {
        id.0
    }
}

impl vstd::std_specs::convert::FromSpecImpl<GamepadId> for usize {
    open spec fn obeys_from_spec() -> bool {
        true
    }

    open spec fn from_spec(id: GamepadId) -> usize {
        id.0
    }
}

/// What a gamepad holds: the state of its axes and of its buttons.
pub struct GamepadState {
    pub analog: AnalogState<Axis>,
    pub digital: DigitalState<Button>,
}

impl GamepadState {
    /// The state of a gamepad that was just connected.
    pub open spec fn initial() -> Self {
        GamepadState { analog: AnalogState::initial(), digital: DigitalState::initial() }
    }

    /// The state at the start of the next frame.
    pub open spec fn update(self) -> Self {
        GamepadState { analog: self.analog.update(), digital: self.digital.update() }
    }

    /// The state after `axis` was sampled at `sample`.
    pub open spec fn set_axis(self, axis: Axis, sample: int) -> Self {
        GamepadState { analog: self.analog.set(axis, sample), digital: self.digital }
    }

    /// The state after a press of `button`.
    pub open spec fn press(self, button: Button) -> Self {
        GamepadState { analog: self.analog, digital: self.digital.activate(button) }
    }

    /// The state after a release of `button`.
    pub open spec fn release(self, button: Button) -> Self {
        GamepadState { analog: self.analog, digital: self.digital.deactivate(button) }
    }

    /// The state with another analog deadzone.
    pub open spec fn with_deadzone(self, threshold: int) -> Self {
        GamepadState { analog: self.analog.with_deadzone(threshold), digital: self.digital }
    }

    /// The state with another digital deadzone.
    pub open spec fn with_digital_deadzone(self, threshold: int) -> Self {
        GamepadState {
            analog: self.analog.with_digital_deadzone(threshold),
            digital: self.digital,
        }
    }
}

/// Holds the state of a gamepad.
#[derive(Debug)]
pub struct Gamepad {
    /// Analog inputs, such as thumbsticks.
    pub analog_inputs: AnalogInput<Axis>,
    /// Digital inputs, such as buttons.
    pub digital_inputs: DigitalInput<Button>,
}

impl View for Gamepad {
    type V = GamepadState;

    open spec fn view(&self) -> GamepadState {
        GamepadState { analog: self.analog_inputs@, digital: self.digital_inputs@ }
    }
}

impl Gamepad {
    /// A gamepad that was just connected: nothing sampled, nothing pressed.
    pub fn new() -> (pad: Self)
        ensures
            pad@ == GamepadState::initial(),
    {
        Gamepad { analog_inputs: AnalogInput::default(), digital_inputs: DigitalInput::default() }
    }

    /// Starts a new frame on both containers.
    pub fn update_inputs(&mut self)
        ensures
            final(self)@ == old(self)@.update(),
    {
        self.analog_inputs.update();
        self.digital_inputs.update();
    }
}

/// The gamepads filed in `filed`, by id.
pub open spec fn pads_of(filed: Map<usize, Gamepad>) -> Map<GamepadId, GamepadState> {
    Map::new(|id: GamepadId| filed.contains_key(id.0), |id: GamepadId| filed[id.0]@)
}

/// Filing a gamepad under an id gives that id the gamepad's state.
pub proof fn lemma_pads_of_insert(filed: Map<usize, Gamepad>, id: GamepadId, pad: Gamepad)
    ensures
        pads_of(filed.insert(id.0, pad)) == pads_of(filed).insert(id, pad@),
{
    assert(pads_of(filed.insert(id.0, pad)) =~= pads_of(filed).insert(id, pad@));
}

/// Dropping an id drops its gamepad.
pub proof fn lemma_pads_of_remove(filed: Map<usize, Gamepad>, id: GamepadId)
    ensures
        pads_of(filed.remove(id.0)) == pads_of(filed).remove(id),
{
    assert(pads_of(filed.remove(id.0)) =~= pads_of(filed).remove(id));
}

/// Nothing filed, no gamepad.
pub proof fn lemma_pads_of_empty()
    ensures
        pads_of(Map::<usize, Gamepad>::empty()) == Map::<GamepadId, GamepadState>::empty(),
{
    assert(pads_of(Map::<usize, Gamepad>::empty()) =~= Map::<GamepadId, GamepadState>::empty());
}

/// The numbers under which gamepads are filed in `pads`, each once.
pub fn filed_numbers(pads: &HashMap<usize, Gamepad>) -> (numbers: Vec<usize>)
    ensures
        numbers@.no_duplicates(),
        numbers@.to_set() == pads@.dom(),
{
    let mut numbers: Vec<usize> = Vec::new();
    for number in it: pads.keys()
        invariant
            numbers@.len() == it.index(),
            forall|i: int| 0 <= i < numbers@.len() ==> numbers@[i] == *it.seq()[i],
            it.seq().unref().to_set() == pads@.dom(),
            it.seq().unref().no_duplicates(),
            it.seq().unref().len() == it.seq().len(),
            forall|i: int| 0 <= i < it.seq().len() ==> it.seq().unref()[i] == *it.seq()[i],
    {
        numbers.push(*number);
    }
    assert(numbers@.to_set() =~= pads@.dom());
    numbers
}

/// The ids under which gamepads are filed in `pads`, each once.
pub fn filed_ids(pads: &HashMap<usize, Gamepad>) -> (ids: Vec<GamepadId>)
    ensures
        ids@.no_duplicates(),
        forall|id: GamepadId| ids@.contains(id) <==> pads_of(pads@).contains_key(id),
{
    let numbers: Vec<usize> = filed_numbers(pads);
    let mut ids: Vec<GamepadId> = Vec::new();
    let mut at: usize = 0;
    while at < numbers.len()
        invariant
            at <= numbers.len(),
            ids@.len() == at,
            forall|i: int| 0 <= i < at ==> ids@[i] == GamepadId(numbers@[i]),
        decreases numbers.len() - at,
    {
        ids.push(GamepadId(numbers[at]));
        at = at + 1;
    }
    proof {
        assert forall|id: GamepadId| ids@.contains(id) <==> pads_of(pads@).contains_key(id) by {
            if ids@.contains(id) {
                let i = choose|i: int| 0 <= i < ids@.len() && ids@[i] == id;
                assert(numbers@[i] == id.0);
                assert(numbers@.to_set().contains(id.0));
            }
            if pads@.contains_key(id.0) {
                assert(numbers@.to_set().contains(id.0));
                let i = choose|i: int| 0 <= i < numbers@.len() && numbers@[i] == id.0;
                assert(ids@[i] == id);
            }
        }
    }
    ids
}

} // verus!
