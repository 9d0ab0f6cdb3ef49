//! Verified core of a Wii U runtime library: path manipulation and the pure
//! conversions behind the gamepad, error and text helpers.
pub mod dialog;
pub mod errno;
pub mod fs;
pub mod gamepad;
pub mod gx2;
pub mod path;
pub mod screen;
pub mod text;
pub mod thread;
pub mod time;
