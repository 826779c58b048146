//! The frame cycle: what one frame's events do to the connected gamepads.

use crate::analog::AnalogInputValue;
use crate::key::{Axis, Button};
use crate::pad::{
    filed_numbers, lemma_pads_of_insert, lemma_pads_of_remove, pads_of, Gamepad, GamepadId,
    GamepadState,
};
use std::collections::HashMap;
use vstd::prelude::*;

verus! {

/// Something that happened to a gamepad since the last frame.
#[derive(Debug, Clone, Copy, PartialEq, Eq, Structural)]
pub enum Event {
    /// The gamepad was connected.
    Connected(GamepadId),
    /// The gamepad was disconnected.
    Disconnected(GamepadId),
    /// An axis of the gamepad moved to a new sample.
    AxisChanged(GamepadId, Axis, AnalogInputValue),
    /// A button of the gamepad went down.
    ButtonPressed(GamepadId, Button),
    /// A button of the gamepad came up.
    ButtonReleased(GamepadId, Button),
    /// Anything else; it changes nothing.
    Other,
}

/// The gamepads after one event. A new connection starts from a fresh state,
/// also where the id was already known; an event for an unknown gamepad
/// changes nothing.
pub open spec fn apply_event(
    pads: Map<GamepadId, GamepadState>,
    event: Event,
) -> Map<GamepadId, GamepadState> {
    match event {
        Event::Connected(id) => pads.insert(id, GamepadState::initial()),
        Event::Disconnected(id) => pads.remove(id),
        Event::AxisChanged(id, axis, sample) => if pads.contains_key(id) {
            pads.insert(id, pads[id].set_axis(axis, sample@))
        } else {
            pads
        },
        Event::ButtonPressed(id, button) => if pads.contains_key(id) {
            pads.insert(id, pads[id].press(button))
        } else {
            pads
        },
        Event::ButtonReleased(id, button) => if pads.contains_key(id) {
            pads.insert(id, pads[id].release(button))
        } else {
            pads
        },
        Event::Other => pads,
    }
}

/// The gamepads after a run of events, applied in order.
pub open spec fn apply_events(
    pads: Map<GamepadId, GamepadState>,
    events: Seq<Event>,
) -> Map<GamepadId, GamepadState>
    decreases events.len(),
{
    if events.len() == 0 {
        pads
    } else {
        apply_event(apply_events(pads, events.drop_last()), events.last())
    }
}

/// The gamepads after each id of `ids` was connected, in order.
pub open spec fn connect_all(
    pads: Map<GamepadId, GamepadState>,
    ids: Seq<GamepadId>,
) -> Map<GamepadId, GamepadState>
    decreases ids.len(),
{
    if ids.len() == 0 {
        pads
    } else {
        connect_all(pads, ids.drop_last()).insert(ids.last(), GamepadState::initial())
    }
}

/// The gamepads at the start of a frame: the same ids, every edge forgotten.
pub open spec fn refresh_all(pads: Map<GamepadId, GamepadState>) -> Map<GamepadId, GamepadState> {
    Map::new(|id: GamepadId| pads.contains_key(id), |id: GamepadId| pads[id].update())
}

/// The gamepads after one frame: the pending gamepads are connected, every
/// gamepad starts a new frame, then the frame's events are applied in order.
pub open spec fn frame(
    pads: Map<GamepadId, GamepadState>,
    pending: Seq<GamepadId>,
    events: Seq<Event>,
) -> Map<GamepadId, GamepadState> {
    apply_events(refresh_all(connect_all(pads, pending)), events)
}

/// Applies one event to the gamepads.
pub fn dispatch(gamepads: &mut HashMap<usize, Gamepad>, event: &Event)
    ensures
        pads_of(final(gamepads)@) == apply_event(pads_of(old(gamepads)@), *event),
{
    match *event {
        Event::Connected(id) => {
            let pad = Gamepad::new();
            proof {
                lemma_pads_of_insert(gamepads@, id, pad);
            }
            gamepads.insert(id.0, pad);
        },
        Event::Disconnected(id) => {
            proof {
                lemma_pads_of_remove(gamepads@, id);
            }
            gamepads.remove(&id.0);
        },
        Event::AxisChanged(id, axis, sample) => {
            match gamepads.remove(&id.0) {
                Some(mut pad) => {
                    pad.analog_inputs.set(axis, sample);
                    proof {
                        lemma_pads_of_insert(old(gamepads)@, id, pad);
                        assert(gamepads@.insert(id.0, pad) =~= old(gamepads)@.insert(id.0, pad));
                    }
                    gamepads.insert(id.0, pad);
                },
                None => {
                    assert(gamepads@ =~= old(gamepads)@);
                },
            }
        },
        Event::ButtonPressed(id, button) => {
            match gamepads.remove(&id.0) {
                Some(mut pad) => {
                    pad.digital_inputs.activate(button);
                    proof {
                        lemma_pads_of_insert(old(gamepads)@, id, pad);
                        assert(gamepads@.insert(id.0, pad) =~= old(gamepads)@.insert(id.0, pad));
                    }
                    gamepads.insert(id.0, pad);
                },
                None => {
                    assert(gamepads@ =~= old(gamepads)@);
                },
            }
        },
        Event::ButtonReleased(id, button) => {
            match gamepads.remove(&id.0) {
                Some(mut pad) => {
                    pad.digital_inputs.deactivate(button);
                    proof {
                        lemma_pads_of_insert(old(gamepads)@, id, pad);
                        assert(gamepads@.insert(id.0, pad) =~= old(gamepads)@.insert(id.0, pad));
                    }
                    gamepads.insert(id.0, pad);
                },
                None => {
                    assert(gamepads@ =~= old(gamepads)@);
                },
            }
        },
        Event::Other => {},
    }
}

/// Starts a new frame on every gamepad.
pub fn refresh(gamepads: &mut HashMap<usize, Gamepad>)
    ensures
        pads_of(final(gamepads)@) == refresh_all(pads_of(old(gamepads)@)),
{
    let numbers: Vec<usize> = filed_numbers(gamepads);
    let mut at: usize = 0;
    while at < numbers.len()
        invariant
            at <= numbers.len(),
            numbers@.no_duplicates(),
            numbers@.to_set() == old(gamepads)@.dom(),
            gamepads@.dom() == old(gamepads)@.dom(),
            forall|i: int|
                0 <= i < at ==> (#[trigger] gamepads@[numbers@[i]])@ == old(
                    gamepads,
                )@[numbers@[i]]@.update(),
            forall|i: int|
                at <= i < numbers.len() ==> (#[trigger] gamepads@[numbers@[i]]) == old(
                    gamepads,
                )@[numbers@[i]],
        decreases numbers.len() - at,
    {
        let number: usize = numbers[at];
        let ghost before = gamepads@;
        match gamepads.remove(&number) {
            Some(mut pad) => {
                pad.update_inputs();
                gamepads.insert(number, pad);
                assert(gamepads@ =~= before.insert(number, pad));
            },
            None => {
                // Cannot happen: every number listed is filed.
                assert(numbers@.to_set().contains(numbers@[at as int]));
                assert(false);
            },
        }
        at = at + 1;
    }
    proof {
        assert forall|id: GamepadId| #[trigger]
            pads_of(gamepads@).contains_key(id) implies pads_of(gamepads@)[id] == pads_of(
            old(gamepads)@,
        )[id].update() by {
            assert(numbers@.to_set().contains(id.0));
            let i = choose|i: int| 0 <= i < numbers@.len() && numbers@[i] == id.0;
            assert(gamepads@[numbers@[i]]@ == old(gamepads)@[numbers@[i]]@.update());
        }
        assert(pads_of(gamepads@) =~= refresh_all(pads_of(old(gamepads)@)));
    }
}

/// What drives the frame cycle of a set of gamepads.
pub trait Backend {
    /// The gamepads that are known to be connected but were not yet filed.
    spec fn pending(&self) -> Seq<GamepadId>;

    /// Runs one frame: files the pending gamepads, starts a new frame on
    /// every gamepad, then applies the frame's events in order.
    fn update(&mut self, gamepads: &mut HashMap<usize, Gamepad>, events: &Vec<Event>)
        ensures
            pads_of(final(gamepads)@) == frame(
                pads_of(old(gamepads)@),
                old(self).pending(),
                events@,
            ),
            final(self).pending() == Seq::<GamepadId>::empty(),
    ;
}

/// The frame cycle of an input system that reports, when it starts, the
/// gamepads that are already connected.
#[derive(Debug)]
pub struct ImplementationContext {
    init_gamepads: Vec<GamepadId>,
}

impl ImplementationContext {
    /// A frame cycle that files `connected` at its first frame.
    pub fn new(connected: Vec<GamepadId>) -> (context: Self)
        ensures
            context.pending() == connected@,
    {
        ImplementationContext { init_gamepads: connected }
    }
}

impl Backend for ImplementationContext {
    closed spec fn pending(&self) -> Seq<GamepadId> {
        self.init_gamepads@
    }

    fn update(&mut self, gamepads: &mut HashMap<usize, Gamepad>, events: &Vec<Event>) {
        let mut at: usize = 0;
        while at < self.init_gamepads.len()
            invariant
                at <= self.init_gamepads.len(),
                self.init_gamepads@ == old(self).init_gamepads@,
                pads_of(gamepads@) == connect_all(
                    pads_of(old(gamepads)@),
                    self.init_gamepads@.take(at as int),
                ),
            decreases self.init_gamepads.len() - at,
        {
            let id: GamepadId = self.init_gamepads[at];
            let pad = Gamepad::new();
            proof {
                lemma_pads_of_insert(gamepads@, id, pad);
                assert(self.init_gamepads@.take(at + 1).drop_last() =~= self.init_gamepads@.take(
                    at as int,
                ));
            }
            gamepads.insert(id.0, pad);
            at = at + 1;
        }
        assert(self.init_gamepads@.take(at as int) =~= self.init_gamepads@);
        self.init_gamepads = Vec::new();

        refresh(gamepads);

        let ghost started = pads_of(gamepads@);
        let mut done: usize = 0;
        while done < events.len()
            invariant
                done <= events.len(),
                pads_of(gamepads@) == apply_events(started, events@.take(done as int)),
            decreases events.len() - done,
        {
            proof {
                assert(events@.take(done + 1).drop_last() =~= events@.take(done as int));
            }
            dispatch(gamepads, &events[done]);
            done = done + 1;
        }
        assert(events@.take(done as int) =~= events@);
    }
}

/// Events handed over in two runs do what they do in one.
pub proof fn lemma_apply_events_in_two_runs(
    pads: Map<GamepadId, GamepadState>,
    first: Seq<Event>,
    second: Seq<Event>,
)
    ensures
        apply_events(pads, first + second) == apply_events(apply_events(pads, first), second),
    decreases second.len(),
{
    if second.len() == 0 {
        assert(first + second =~= first);
    } else {
        assert((first + second).drop_last() =~= first + second.drop_last());
        assert((first + second).last() == second.last());
        lemma_apply_events_in_two_runs(pads, first, second.drop_last());
    }
}

/// A frame start keeps the ids and leaves no edge on any gamepad, and a
/// second frame start with nothing in between changes nothing more.
pub proof fn lemma_refresh_all_is_idempotent(pads: Map<GamepadId, GamepadState>)
    ensures
        refresh_all(pads).dom() == pads.dom(),
        forall|id: GamepadId| #[trigger]
            refresh_all(pads).contains_key(id) ==> {
                let pad = refresh_all(pads)[id];
                &&& pad.analog.just_activated == Set::<Axis>::empty()
                &&& pad.analog.just_deactivated == Set::<Axis>::empty()
                &&& pad.analog.just_activated_digital == Set::<Axis>::empty()
                &&& pad.analog.just_deactivated_digital == Set::<Axis>::empty()
                &&& pad.analog.values == pads[id].analog.values
                &&& pad.digital.just_activated == Set::<Button>::empty()
                &&& pad.digital.just_deactivated == Set::<Button>::empty()
                &&& pad.digital.activated == pads[id].digital.activated
            },
        refresh_all(refresh_all(pads)) == refresh_all(pads),
{
    assert(refresh_all(pads).dom() =~= pads.dom());
    assert(refresh_all(refresh_all(pads)) =~= refresh_all(pads));
}

/// A frame without pending gamepads and without events is a frame start on
/// every gamepad, so two such frames in a row are the same as one.
pub proof fn lemma_idle_frame(pads: Map<GamepadId, GamepadState>)
    ensures
        frame(pads, Seq::empty(), Seq::empty()) == refresh_all(pads),
        frame(frame(pads, Seq::empty(), Seq::empty()), Seq::empty(), Seq::empty()) == frame(
            pads,
            Seq::empty(),
            Seq::empty(),
        ),
{
    lemma_refresh_all_is_idempotent(pads);
}

/// An event for a gamepad that is not tracked changes nothing, unless it
/// connects the gamepad.
pub proof fn lemma_unknown_gamepad_is_ignored(pads: Map<GamepadId, GamepadState>, event: Event)
    requires
        match event {
            Event::Connected(_) => false,
            Event::Disconnected(id) => !pads.contains_key(id),
            Event::AxisChanged(id, _, _) => !pads.contains_key(id),
            Event::ButtonPressed(id, _) => !pads.contains_key(id),
            Event::ButtonReleased(id, _) => !pads.contains_key(id),
            Event::Other => true,
        },
    ensures
        apply_event(pads, event) == pads,
{
    assert(apply_event(pads, event) =~= pads);
}

} // verus!
