[package]
name = "gamepad_input"
version = "0.1.0"
edition = "2021"
publish = false

[dependencies]
gilrs = "*"
sdl2 = "*"
