//! A unified view of the buttons and sticks of the controllers of the system.
pub mod buttons;
pub mod pad;
pub mod state;

pub use buttons::{Button, ButtonSet, Device};
pub use pad::{input_library, Gamepad, GamepadError, InputLibrary, Port, RawStatus};
pub use state::{DualStickStatus, Extension, KpadStatus, NunchukStatus, State, Stick, VpadStatus};
