//! Gamepad input state: analog axes and digital buttons, sampled once per
//! frame, with deadzone-aware values and per-frame edge detection.
//!
//! Analog quantities are fixed-point integers. One unit is
//! `1 / ANALOG_MAX` of full deflection, so every sample, threshold and
//! remapped value is an exact integer and every contract is stated over `int`.
//!
//! Reading events from an input system is left to the caller, who hands each
//! frame's events to [`GamepadContext::update`].

pub mod analog;
pub mod backend;
pub mod context;
pub mod digital;
pub mod key;
pub mod pad;

pub use crate::context::GamepadContext;
pub use crate::key::{Axis, Button};
pub use crate::pad::{Gamepad, GamepadId};
