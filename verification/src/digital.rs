//! Generic digital input support.

use crate::key::{keys_of, lemma_keys_of_empty, lemma_keys_of_insert, lemma_keys_of_remove, InputKey};
use std::collections::HashSet;
use std::marker::PhantomData;
use vstd::prelude::*;

verus! {

/// What a digital container holds: the keys that are down, and the keys that
/// went down or came up since the frame began.
#[verifier::reject_recursive_types(T)]
pub struct DigitalState<T> {
    pub activated: Set<T>,
    pub just_activated: Set<T>,
    pub just_deactivated: Set<T>,
}

impl<T> DigitalState<T> {
    /// The state of a new container: nothing is down, nothing has changed.
    pub open spec fn initial() -> Self {
        DigitalState {
            activated: Set::empty(),
            just_activated: Set::empty(),
            just_deactivated: Set::empty(),
        }
    }

    /// The state after a press of `key`.
    pub open spec fn activate(self, key: T) -> Self {
        if self.activated.contains(key) {
            self
        } else {
            DigitalState {
                activated: self.activated.insert(key),
                just_activated: self.just_activated.insert(key),
                just_deactivated: self.just_deactivated.remove(key),
            }
        }
    }

    /// The state after a release of `key`.
    pub open spec fn deactivate(self, key: T) -> Self {
        if self.activated.contains(key) {
            DigitalState {
                activated: self.activated.remove(key),
                just_activated: self.just_activated.remove(key),
                just_deactivated: self.just_deactivated.insert(key),
            }
        } else {
            self
        }
    }

    /// The state at the start of the next frame.
    pub open spec fn update(self) -> Self {
        DigitalState {
            activated: self.activated,
            just_activated: Set::empty(),
            just_deactivated: Set::empty(),
        }
    }

    /// A key that just went down is down; a key that just came up is not.
    pub open spec fn consistent(self) -> bool {
        &&& self.just_activated.subset_of(self.activated)
        &&& self.just_deactivated.disjoint(self.activated)
    }
}

/// Container for digital inputs.
#[derive(Debug)]
pub struct DigitalInput<T> {
    activated: HashSet<u32>,
    just_activated: HashSet<u32>,
    just_deactivated: HashSet<u32>,
    key: PhantomData<T>,
}

impl<T: InputKey> View for DigitalInput<T> {
    type V = DigitalState<T>;

    closed spec fn view(&self) -> DigitalState<T> {
        DigitalState {
            activated: keys_of(self.activated@),
            just_activated: keys_of(self.just_activated@),
            just_deactivated: keys_of(self.just_deactivated@),
        }
    }
}

impl<T: InputKey> DigitalInput<T> {
    /// Checks if a digital input is activated.
    pub fn activated(&self, input: T) -> (down: bool)
        ensures
            down == self@.activated.contains(input),
    {
        let code = input.code();
        self.activated.contains(&code)
    }

    /// Checks if a digital input has just been activated.
    pub fn just_activated(&self, input: T) -> (edge: bool)
        ensures
            edge == self@.just_activated.contains(input),
    {
        let code = input.code();
        self.just_activated.contains(&code)
    }

    /// Checks if a digital input has just been deactivated.
    pub fn just_deactivated(&self, input: T) -> (edge: bool)
        ensures
            edge == self@.just_deactivated.contains(input),
    {
        let code = input.code();
        self.just_deactivated.contains(&code)
    }

    /// Records a press of `input`. Nothing changes if it is already down.
    pub fn activate(&mut self, input: T)
        ensures
            final(self)@ == old(self)@.activate(input),
    {
        let code = input.code();
        if !self.activated.contains(&code) {
            self.activated.insert(code);
            self.just_activated.insert(code);
            self.just_deactivated.remove(&code);
            proof {
                lemma_keys_of_insert::<T>(old(self).activated@, input);
                lemma_keys_of_insert::<T>(old(self).just_activated@, input);
                lemma_keys_of_remove::<T>(old(self).just_deactivated@, input);
            }
        }
    }

    /// Records a release of `input`. Nothing changes if it is not down.
    pub fn deactivate(&mut self, input: T)
        ensures
            final(self)@ == old(self)@.deactivate(input),
    {
        let code = input.code();
        if self.activated.contains(&code) {
            self.activated.remove(&code);
            self.just_activated.remove(&code);
            self.just_deactivated.insert(code);
            proof {
                lemma_keys_of_remove::<T>(old(self).activated@, input);
                lemma_keys_of_remove::<T>(old(self).just_activated@, input);
                lemma_keys_of_insert::<T>(old(self).just_deactivated@, input);
            }
        }
    }

    /// Starts a new frame: forgets which keys changed, keeps which are down.
    pub fn update(&mut self)
        ensures
            final(self)@ == old(self)@.update(),
    {
        self.just_activated.clear();
        self.just_deactivated.clear();
        proof {
            lemma_keys_of_empty::<T>();
        }
    }
}

impl<T: InputKey> Default for DigitalInput<T> {
    fn default() -> (fresh: Self)
        ensures
            fresh@ == DigitalState::<T>::initial(),
    {
        proof {
            lemma_keys_of_empty::<T>();
        }
        DigitalInput {
            activated: HashSet::new(),
            just_activated: HashSet::new(),
            just_deactivated: HashSet::new(),
            key: PhantomData,
        }
    }
}

/// A new container is consistent.
pub proof fn lemma_initial_is_consistent<T>()
    ensures
        DigitalState::<T>::initial().consistent(),
{
}

/// Presses, releases and frame starts keep a consistent state consistent.
pub proof fn lemma_consistent_is_kept<T>(state: DigitalState<T>, key: T)
    requires
        state.consistent(),
    ensures
        state.activate(key).consistent(),
        state.deactivate(key).consistent(),
        state.update().consistent(),
{
}

/// Pressing a key twice is the same as pressing it once: the second press
/// signals no further edge.
pub proof fn lemma_activate_is_idempotent<T>(state: DigitalState<T>, key: T)
    ensures
        state.activate(key).activate(key) == state.activate(key),
{
}

/// Releasing a key twice is the same as releasing it once.
pub proof fn lemma_deactivate_is_idempotent<T>(state: DigitalState<T>, key: T)
    ensures
        state.deactivate(key).deactivate(key) == state.deactivate(key),
{
}

/// Releasing a key that is not down changes nothing, and pressing a key that
/// is down changes nothing.
pub proof fn lemma_no_change_without_transition<T>(state: DigitalState<T>, key: T)
    ensures
        !state.activated.contains(key) ==> state.deactivate(key) == state,
        state.activated.contains(key) ==> state.activate(key) == state,
{
}

/// A press of a key that is up puts it down and signals the edge; a release
/// of a key that is down puts it up and signals the edge.
pub proof fn lemma_transition_signals_edge<T>(state: DigitalState<T>, key: T)
    ensures
        !state.activated.contains(key) ==> {
            let next = state.activate(key);
            &&& next.activated.contains(key)
            &&& next.just_activated.contains(key)
            &&& !next.just_deactivated.contains(key)
        },
        state.activated.contains(key) ==> {
            let next = state.deactivate(key);
            &&& !next.activated.contains(key)
            &&& !next.just_activated.contains(key)
            &&& next.just_deactivated.contains(key)
        },
{
}

/// A press or release of one key leaves every other key as it was.
pub proof fn lemma_other_keys_untouched<T>(state: DigitalState<T>, key: T, other: T)
    requires
        other != key,
    ensures
        state.activate(key).activated.contains(other) == state.activated.contains(other),
        state.activate(key).just_activated.contains(other) == state.just_activated.contains(
            other,
        ),
        state.activate(key).just_deactivated.contains(other) == state.just_deactivated.contains(
            other,
        ),
        state.deactivate(key).activated.contains(other) == state.activated.contains(other),
        state.deactivate(key).just_activated.contains(other) == state.just_activated.contains(
            other,
        ),
        state.deactivate(key).just_deactivated.contains(other)
            == state.just_deactivated.contains(other),
{
}

/// After a frame start no edge is left, and a second frame start with
/// nothing in between changes nothing more.
pub proof fn lemma_update_is_idempotent<T>(state: DigitalState<T>)
    ensures
        state.update().just_activated == Set::<T>::empty(),
        state.update().just_deactivated == Set::<T>::empty(),
        state.update().activated == state.activated,
        state.update().update() == state.update(),
{
}

} // verus!
