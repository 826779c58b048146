//! Identifiers of the controls of a gamepad.

use vstd::prelude::*;

verus! {

/// An identifier of a control. Containers file each key under its code, so
/// two different keys never share one.
pub trait InputKey: Copy {
    /// The code under which the key is filed.
    spec fn index(self) -> u32;

    /// Computes the code of the key.
    fn code(&self) -> (c: u32)
        ensures
            c == self.index(),
    ;

    /// Keys with the same code are the same key.
    proof fn index_is_injective(a: Self, b: Self)
        requires
            a.index() == b.index(),
        ensures
            a == b,
    ;
}

/// The keys whose codes are in `codes`.
pub open spec fn keys_of<T: InputKey>(codes: Set<u32>) -> Set<T> {
    Set::new(|k: T| codes.contains(k.index()))
}

/// Filing one more code adds exactly the key that has it.
pub proof fn lemma_keys_of_insert<T: InputKey>(codes: Set<u32>, k: T)
    ensures
        keys_of::<T>(codes.insert(k.index())) == keys_of::<T>(codes).insert(k),
{
    assert forall|j: T|
        keys_of::<T>(codes.insert(k.index())).contains(j) == keys_of::<T>(codes).insert(
            k,
        ).contains(j) by {
        if j.index() == k.index() {
            T::index_is_injective(j, k);
        }
    }
    assert(keys_of::<T>(codes.insert(k.index())) =~= keys_of::<T>(codes).insert(k));
}

/// Dropping a code removes exactly the key that has it.
pub proof fn lemma_keys_of_remove<T: InputKey>(codes: Set<u32>, k: T)
    ensures
        keys_of::<T>(codes.remove(k.index())) == keys_of::<T>(codes).remove(k),
{
    assert forall|j: T|
        keys_of::<T>(codes.remove(k.index())).contains(j) == keys_of::<T>(codes).remove(
            k,
        ).contains(j) by {
        if j.index() == k.index() {
            T::index_is_injective(j, k);
        }
    }
    assert(keys_of::<T>(codes.remove(k.index())) =~= keys_of::<T>(codes).remove(k));
}

/// No code, no key.
pub proof fn lemma_keys_of_empty<T: InputKey>()
    ensures
        keys_of::<T>(Set::<u32>::empty()) == Set::<T>::empty(),
{
    assert(keys_of::<T>(Set::<u32>::empty()) =~= Set::<T>::empty());
}

/// An analog control of a gamepad.
#[derive(Debug, Clone, Copy, PartialEq, Eq, Hash, Structural)]
pub enum Axis {
    LeftStickX,
    LeftStickY,
    LeftZ,
    RightStickX,
    RightStickY,
    RightZ,
    DPadX,
    DPadY,
    Unknown,
}

impl InputKey for Axis {
    open spec fn index(self) -> u32 {
        match self {
            Axis::LeftStickX => 0,
            Axis::LeftStickY => 1,
            Axis::LeftZ => 2,
            Axis::RightStickX => 3,
            Axis::RightStickY => 4,
            Axis::RightZ => 5,
            Axis::DPadX => 6,
            Axis::DPadY => 7,
            Axis::Unknown => 8,
        }
    }

    fn code(&self) -> (c: u32) {
        match self {
            Axis::LeftStickX => 0,
            Axis::LeftStickY => 1,
            Axis::LeftZ => 2,
            Axis::RightStickX => 3,
            Axis::RightStickY => 4,
            Axis::RightZ => 5,
            Axis::DPadX => 6,
            Axis::DPadY => 7,
            Axis::Unknown => 8,
        }
    }

    proof fn index_is_injective(a: Self, b: Self) {
    }
}

/// A digital control of a gamepad.
#[derive(Debug, Clone, Copy, PartialEq, Eq, Hash, Structural)]
pub enum Button {
    South,
    East,
    North,
    West,
    C,
    Z,
    LeftTrigger,
    LeftTrigger2,
    RightTrigger,
    RightTrigger2,
    Select,
    Start,
    Mode,
    LeftThumb,
    RightThumb,
    DPadUp,
    DPadDown,
    DPadLeft,
    DPadRight,
    Misc1,
    Paddle1,
    Paddle2,
    Paddle3,
    Paddle4,
    Touchpad,
    Unknown,
}

impl InputKey for Button {
    open spec fn index(self) -> u32 {
        match self {
            Button::South => 0,
            Button::East => 1,
            Button::North => 2,
            Button::West => 3,
            Button::C => 4,
            Button::Z => 5,
            Button::LeftTrigger => 6,
            Button::LeftTrigger2 => 7,
            Button::RightTrigger => 8,
            Button::RightTrigger2 => 9,
            Button::Select => 10,
            Button::Start => 11,
            Button::Mode => 12,
            Button::LeftThumb => 13,
            Button::RightThumb => 14,
            Button::DPadUp => 15,
            Button::DPadDown => 16,
            Button::DPadLeft => 17,
            Button::DPadRight => 18,
            Button::Misc1 => 19,
            Button::Paddle1 => 20,
            Button::Paddle2 => 21,
            Button::Paddle3 => 22,
            Button::Paddle4 => 23,
            Button::Touchpad => 24,
            Button::Unknown => 25,
        }
    }

    fn code(&self) -> (c: u32) {
        match self {
            Button::South => 0,
            Button::East => 1,
            Button::North => 2,
            Button::West => 3,
            Button::C => 4,
            Button::Z => 5,
            Button::LeftTrigger => 6,
            Button::LeftTrigger2 => 7,
            Button::RightTrigger => 8,
            Button::RightTrigger2 => 9,
            Button::Select => 10,
            Button::Start => 11,
            Button::Mode => 12,
            Button::LeftThumb => 13,
            Button::RightThumb => 14,
            Button::DPadUp => 15,
            Button::DPadDown => 16,
            Button::DPadLeft => 17,
            Button::DPadRight => 18,
            Button::Misc1 => 19,
            Button::Paddle1 => 20,
            Button::Paddle2 => 21,
            Button::Paddle3 => 22,
            Button::Paddle4 => 23,
            Button::Touchpad => 24,
            Button::Unknown => 25,
        }
    }

    proof fn index_is_injective(a: Self, b: Self) {
    }
}

} // verus!
