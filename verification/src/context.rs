//! The gamepad system context.

use crate::analog::{magnitude, AnalogInputValue, Deadzone};
use crate::backend::{frame, Backend, Event, ImplementationContext};
use crate::pad::{
    filed_ids, filed_numbers, lemma_pads_of_empty, pads_of, Gamepad, GamepadId, GamepadState,
};
use std::collections::HashMap;
use vstd::prelude::*;

verus! {

/// The gamepads with the analog deadzone of each replaced by `threshold`.
pub open spec fn with_deadzone_all(
    pads: Map<GamepadId, GamepadState>,
    threshold: int,
) -> Map<GamepadId, GamepadState> {
    Map::new(
        |id: GamepadId| pads.contains_key(id),
        |id: GamepadId| pads[id].with_deadzone(threshold),
    )
}

/// The gamepads with the digital deadzone of each replaced by `threshold`.
pub open spec fn with_digital_deadzone_all(
    pads: Map<GamepadId, GamepadState>,
    threshold: int,
) -> Map<GamepadId, GamepadState> {
    Map::new(
        |id: GamepadId| pads.contains_key(id),
        |id: GamepadId| pads[id].with_digital_deadzone(threshold),
    )
}

/// The gamepad system context.
///
/// Only one `GamepadContext` should be alive at any time.
#[derive(Debug)]
pub struct GamepadContext {
    gamepad_system: ImplementationContext,
    gamepads: HashMap<usize, Gamepad>,
}

impl GamepadContext {
    /// The gamepads that the context tracks, by id.
    pub closed spec fn pads(&self) -> Map<GamepadId, GamepadState> {
        pads_of(self.gamepads@)
    }

    /// The gamepads that the context files at its next frame.
    pub closed spec fn pending(&self) -> Seq<GamepadId> {
        self.gamepad_system.pending()
    }

    /// Initializes the gamepad context. It tracks no gamepad until its first
    /// frame, which files `connected`.
    pub fn init(connected: Vec<GamepadId>) -> (context: Self)
        ensures
            context.pads() == Map::<GamepadId, GamepadState>::empty(),
            context.pending() == connected@,
    {
        proof {
            lemma_pads_of_empty();
        }
        GamepadContext {
            gamepad_system: ImplementationContext::new(connected),
            gamepads: HashMap::new(),
        }
    }

    /// Gets a reference to a specific gamepad.
    ///
    /// Returns `None` if the gamepad is not found.
    pub fn gamepad(&self, id: GamepadId) -> (found: Option<&Gamepad>)
        ensures
            match found {
                Some(pad) => self.pads().contains_key(id) && pad@ == self.pads()[id],
                None => !self.pads().contains_key(id),
            },
    {
        self.gamepads.get(&id.0)
    }

    /// Gets the ids of all gamepads, each once, in no particular order.
    pub fn gamepads(&self) -> (ids: Vec<GamepadId>)
        ensures
            ids@.no_duplicates(),
            forall|id: GamepadId| ids@.contains(id) <==> self.pads().contains_key(id),
    {
        filed_ids(&self.gamepads)
    }

    /// Updates the state of all gamepads: runs one frame with the events
    /// that arrived since the last one.
    pub fn update(&mut self, events: &Vec<Event>)
        ensures
            final(self).pads() == frame(old(self).pads(), old(self).pending(), events@),
            final(self).pending() == Seq::<GamepadId>::empty(),
    {
        self.gamepad_system.update(&mut self.gamepads, events);
    }

    /// Sets the analog deadzone for all analog inputs, to the magnitude of
    /// `deadzone`. Gamepads that connect later start from the default.
    pub fn set_deadzone(&mut self, deadzone: AnalogInputValue)
        ensures
            final(self).pads() == with_deadzone_all(old(self).pads(), magnitude(deadzone@)),
            final(self).pending() == old(self).pending(),
    {
        retune(&mut self.gamepads, Deadzone::from(deadzone), false);
    }

    /// Sets the digital deadzone for all analog inputs, to the magnitude of
    /// `deadzone`. Gamepads that connect later start from the default.
    pub fn set_deadzone_digital(&mut self, deadzone: AnalogInputValue)
        ensures
            final(self).pads() == with_digital_deadzone_all(
                old(self).pads(),
                magnitude(deadzone@),
            ),
            final(self).pending() == old(self).pending(),
    {
        retune(&mut self.gamepads, Deadzone::from(deadzone), true);
    }
}

/// The state of a gamepad with one of its two thresholds replaced.
spec fn retuned(pad: GamepadState, threshold: int, digital: bool) -> GamepadState {
    if digital {
        pad.with_digital_deadzone(threshold)
    } else {
        pad.with_deadzone(threshold)
    }
}

/// Replaces one of the two thresholds on every gamepad.
fn retune(gamepads: &mut HashMap<usize, Gamepad>, threshold: Deadzone, digital: bool)
    ensures
        pads_of(final(gamepads)@) == if digital {
            with_digital_deadzone_all(pads_of(old(gamepads)@), threshold@)
        } else {
            with_deadzone_all(pads_of(old(gamepads)@), threshold@)
        },
{
    let numbers: Vec<usize> = filed_numbers(gamepads);
    let mut at: usize = 0;
    while at < numbers.len()
        invariant
            at <= numbers.len(),
            numbers@.no_duplicates(),
            numbers@.to_set() == old(gamepads)@.dom(),
            gamepads@.dom() == old(gamepads)@.dom(),
            forall|i: int|
                0 <= i < at ==> (#[trigger] gamepads@[numbers@[i]])@ == retuned(
                    old(gamepads)@[numbers@[i]]@,
                    threshold@,
                    digital,
                ),
            forall|i: int|
                at <= i < numbers.len() ==> (#[trigger] gamepads@[numbers@[i]]) == old(
                    gamepads,
                )@[numbers@[i]],
        decreases numbers.len() - at,
    {
        let number: usize = numbers[at];
        let ghost before = gamepads@;
        match gamepads.remove(&number) {
            Some(mut pad) => {
                if digital {
                    pad.analog_inputs.set_digital_deadzone(threshold);
                } else {
                    pad.analog_inputs.set_deadzone(threshold);
                }
                gamepads.insert(number, pad);
                assert(gamepads@ =~= before.insert(number, pad));
            },
            None => {
                // Cannot happen: every number listed is filed.
                assert(numbers@.to_set().contains(numbers@[at as int]));
                assert(false);
            },
        }
        at = at + 1;
    }
    proof {
        assert forall|id: GamepadId| #[trigger]
            pads_of(gamepads@).contains_key(id) implies pads_of(gamepads@)[id] == retuned(
            pads_of(old(gamepads)@)[id],
            threshold@,
            digital,
        ) by {
            assert(numbers@.to_set().contains(id.0));
            let i = choose|i: int| 0 <= i < numbers@.len() && numbers@[i] == id.0;
            assert(gamepads@[numbers@[i]]@ == retuned(
                old(gamepads)@[numbers@[i]]@,
                threshold@,
                digital,
            ));
        }
        if digital {
            assert(pads_of(gamepads@) =~= with_digital_deadzone_all(
                pads_of(old(gamepads)@),
                threshold@,
            ));
        } else {
            assert(pads_of(gamepads@) =~= with_deadzone_all(pads_of(old(gamepads)@), threshold@));
        }
    }
}

} // verus!
