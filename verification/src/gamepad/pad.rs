//! Controller ports, read errors and the decisions taken when a gamepad is polled.
use vstd::prelude::*;
use vstd::std_specs::convert::{FromSpecImpl, TryFromSpecImpl};
use vstd::string::*;

use super::state::{is_kpad_input, is_vpad_input, KpadStatus, State, VpadStatus};

verus! {

/// A port a controller can be connected to: the GamePad (DRC) or one of the seven Wii
/// remote channels.
#[derive(Debug, Clone, Copy, PartialEq, Eq, Structural)]
pub enum Port {
    DRC,
    Port0,
    Port1,
    Port2,
    Port3,
    Port4,
    Port5,
    Port6,
}

/// The ports in their order.
pub open spec fn all_ports() -> Seq<Port> {
    seq![
        Port::DRC,
        Port::Port0,
        Port::Port1,
        Port::Port2,
        Port::Port3,
        Port::Port4,
        Port::Port5,
        Port::Port6,
    ]
}

/// The native channel number of a port: 0 for the GamePad and the first remote, `n` for
/// remote `n`.
pub open spec fn port_channel(p: Port) -> u32 {
    match p {
        Port::DRC => 0,
        Port::Port0 => 0,
        Port::Port1 => 1,
        Port::Port2 => 2,
        Port::Port3 => 3,
        Port::Port4 => 4,
        Port::Port5 => 5,
        Port::Port6 => 6,
    }
}

/// The remote port of a native Wii remote channel number (`0..7`).
pub open spec fn wpad_port(value: u32) -> Port
    recommends
        value < 7,
{
    match value {
        0 => Port::Port0,
        1 => Port::Port1,
        2 => Port::Port2,
        3 => Port::Port3,
        4 => Port::Port4,
        5 => Port::Port5,
        _ => Port::Port6,
    }
}

impl Port {
    /// All ports: the GamePad first, then the seven remote channels in order.
    pub fn iter() -> (r: Vec<Port>)
        ensures
            r@ == all_ports(),
    {
        let r = vec![
            Port::DRC,
            Port::Port0,
            Port::Port1,
            Port::Port2,
            Port::Port3,
            Port::Port4,
            Port::Port5,
            Port::Port6,
        ];
        assert(r@ =~= all_ports());
        r
    }

    /// The port of a GamePad channel: always the GamePad.
    pub fn from_vpad(_value: u32) -> (r: Port)
        ensures
            r == Port::DRC,
    {
        Port::DRC
    }

    /// The port of a Wii remote channel number, which must lie in `0..7`.
    pub fn from_wpad(value: u32) -> (r: Port)
        requires
            value < 7,
        ensures
            r == wpad_port(value),
            port_channel(r) == value,
    {
        match value {
            0 => Port::Port0,
            1 => Port::Port1,
            2 => Port::Port2,
            3 => Port::Port3,
            4 => Port::Port4,
            5 => Port::Port5,
            _ => Port::Port6,
        }
    }
}

impl From<Port> for u32 {
    /// The native channel number of the port.
    fn from(p: Port) -> (r: u32) {
        match p {
            Port::DRC => 0,
            Port::Port0 => 0,
            Port::Port1 => 1,
            Port::Port2 => 2,
            Port::Port3 => 3,
            Port::Port4 => 4,
            Port::Port5 => 5,
            Port::Port6 => 6,
        }
    }
}

impl FromSpecImpl<Port> for u32 {
    open spec fn obeys_from_spec() -> bool {
        true
    }

    open spec fn from_spec(p: Port) -> u32 {
        port_channel(p)
    }
}

/// An error of reading a controller.
#[derive(Debug, Clone, Copy, PartialEq, Eq, Structural)]
pub enum GamepadError {
    /// There was no new sample to read.
    NoSamples,
    /// The requested controller or channel was invalid.
    InvalidController,
    /// The channel is busy, perhaps being read by another thread.
    Busy,
    /// The input library is not initialized.
    Uninitialized,
}

/// The message of a read error.
pub open spec fn gamepad_error_message(e: GamepadError) -> Seq<char> {
    match e {
        GamepadError::NoSamples => "There was no sample new data available to write."@,
        GamepadError::InvalidController => "The requested controller or channel was invalid."@,
        GamepadError::Busy => "VPAD channel is busy, perhaps being accessed by another thread."@,
        GamepadError::Uninitialized => "VPAD is uninitialized, need to call VPADInit()."@,
    }
}

impl GamepadError {
    /// The message of the error.
    pub fn to_string(&self) -> (r: String)
        ensures
            r@ == gamepad_error_message(*self),
    {
        let m = match self {
            GamepadError::NoSamples => "There was no sample new data available to write.",
            GamepadError::InvalidController => "The requested controller or channel was invalid.",
            GamepadError::Busy => "VPAD channel is busy, perhaps being accessed by another thread.",
            GamepadError::Uninitialized => "VPAD is uninitialized, need to call VPADInit().",
        };
        m.to_owned()
    }
}

/// What a native read status code gives: 0 (success) gives `Ok(Busy)`, -1 no samples,
/// -2 an invalid controller, -4 busy, and any other code (-3, -5, ...) uninitialized.
pub open spec fn gamepad_error_from(value: i32) -> Result<GamepadError, GamepadError> {
    if value == 0 {
        Ok(GamepadError::Busy)
    } else if value == -1 {
        Err(GamepadError::NoSamples)
    } else if value == -2 {
        Err(GamepadError::InvalidController)
    } else if value == -4 {
        Err(GamepadError::Busy)
    } else {
        Err(GamepadError::Uninitialized)
    }
}

impl TryFrom<i32> for GamepadError {
    type Error = GamepadError;

    /// Reads a native status code of the GamePad or Wii remote read functions.
    fn try_from(value: i32) -> (r: Result<GamepadError, GamepadError>) {
        match value {
            0 => Ok(GamepadError::Busy),
            -1 => Err(GamepadError::NoSamples),
            -2 => Err(GamepadError::InvalidController),
            -4 => Err(GamepadError::Busy),
            _ => Err(GamepadError::Uninitialized),
        }
    }
}

impl TryFromSpecImpl<i32> for GamepadError {
    open spec fn obeys_try_from_spec() -> bool {
        true
    }

    open spec fn try_from_spec(v: i32) -> Result<GamepadError, GamepadError> {
        gamepad_error_from(v)
    }
}

/// The native input library that serves a port: the GamePad's (VPAD) for the GamePad port,
/// the Wii remotes' (KPAD) for the others.
#[derive(Debug, Clone, Copy, PartialEq, Eq, Structural)]
pub enum InputLibrary {
    /// The GamePad's input library.
    Vpad,
    /// The Wii remotes' input library.
    Kpad,
}

/// The input library of the port `p`.
pub open spec fn library_of(p: Port) -> InputLibrary {
    match p {
        Port::DRC => InputLibrary::Vpad,
        _ => InputLibrary::Kpad,
    }
}

/// The input library that serves `port`.
pub fn input_library(port: Port) -> (r: InputLibrary)
    ensures
        r == library_of(port),
{
    match port {
        Port::DRC => InputLibrary::Vpad,
        _ => InputLibrary::Kpad,
    }
}

/// A native status record read from a port: the GamePad's or a Wii remote's.
#[derive(Debug, Clone, Copy, PartialEq, Eq, Structural)]
pub enum RawStatus {
    Vpad(VpadStatus),
    Kpad(KpadStatus),
}

/// The input library whose read gives a record of the kind of `s`.
pub open spec fn status_library(s: RawStatus) -> InputLibrary {
    match s {
        RawStatus::Vpad(_) => InputLibrary::Vpad,
        RawStatus::Kpad(_) => InputLibrary::Kpad,
    }
}

/// An arbitrary gamepad on one of the ports, with the input library it holds and reads
/// from.
#[derive(Debug, Clone, Copy, PartialEq, Eq, Structural)]
pub struct Gamepad {
    pub port: Port,
    pub library: InputLibrary,
}

impl Gamepad {
    /// The gamepad on `port`, holding the input library of that port: the GamePad's for
    /// the GamePad port, the Wii remotes' for the others.
    pub fn new(port: Port) -> (r: Gamepad)
        ensures
            r.port == port,
            r.library == library_of(port),
    {
        Gamepad { port, library: input_library(port) }
    }

    /// The outcome of a poll, from what the read of the gamepad's input library on its
    /// channel returned: the number of samples read, the status code and the status record.
    /// A read of no sample with a failing code is the error of that code; anything else
    /// gives the input of the record.
    pub fn poll(&self, samples: i32, error: i32, status: RawStatus) -> (r: Result<
        State,
        GamepadError,
    >)
        requires
            status_library(status) == self.library,
        ensures
            samples == 0 && error != 0 ==> r == (match gamepad_error_from(error) {
                Ok(e) => Err::<State, GamepadError>(e),
                Err(e) => Err(e),
            }),
            !(samples == 0 && error != 0) ==> (r matches Ok(s) && match status {
                RawStatus::Vpad(v) => is_vpad_input(s, v),
                RawStatus::Kpad(k) => is_kpad_input(s, k),
            }),
    {
        if samples == 0 && error != 0 {
            match GamepadError::try_from(error) {
                Ok(e) => Err(e),
                Err(e) => Err(e),
            }
        } else {
            match status {
                RawStatus::Vpad(v) => Ok(State::from_vpad(v)),
                RawStatus::Kpad(k) => Ok(State::from_kpad(k)),
            }
        }
    }
}

/// The GamePad reads from channel 0, and the remote at place `i` among the seven remote
/// ports reads from channel `i`; reading a remote's channel number back gives that remote.
pub proof fn law_port_channels()
    ensures
        port_channel(Port::DRC) == 0,
        forall|i: int| 0 <= i < 7 ==> #[trigger] port_channel(all_ports()[i + 1]) == i,
        forall|i: u32| i < 7 ==> #[trigger] wpad_port(i) == all_ports()[i + 1],
{
}

/// The native read status codes: 0 is success, -1 no samples, -2 an invalid controller,
/// -4 busy; every other code is taken as an uninitialized library.
pub proof fn law_read_status_codes(code: i32)
    ensures
        gamepad_error_from(0i32) == Ok::<GamepadError, GamepadError>(GamepadError::Busy),
        gamepad_error_from(-1i32) == Err::<GamepadError, GamepadError>(GamepadError::NoSamples),
        gamepad_error_from(-2i32) == Err::<GamepadError, GamepadError>(GamepadError::InvalidController),
        gamepad_error_from(-4i32) == Err::<GamepadError, GamepadError>(GamepadError::Busy),
        code != 0 && code != -1 && code != -2 && code != -4 ==> gamepad_error_from(code) == Err::<
            GamepadError,
            GamepadError,
        >(GamepadError::Uninitialized),
{
}

/// The ports among the first `n` whose entry of `ready` is set, in order.
pub open spec fn ready_ports(ready: Seq<bool>, n: nat) -> Seq<Port>
    decreases n,
{
    if n == 0 {
        seq![]
    } else if ready[n - 1] {
        ready_ports(ready, (n - 1) as nat).push(all_ports()[n - 1])
    } else {
        ready_ports(ready, (n - 1) as nat)
    }
}

/// The gamepads that answered a poll: for each port of [`Port::iter`] in order whose poll
/// succeeded (`ready[i]` for the `i`-th port), the gamepad on that port.
pub fn gamepads(ready: &Vec<bool>) -> (r: Vec<Gamepad>)
    requires
        ready.len() == 8,
    ensures
        r@.map_values(|g: Gamepad| g.port) == ready_ports(ready@, 8),
        forall|j: int| 0 <= j < r.len() ==> #[trigger] r[j].library == library_of(r[j].port),
{
    let ports = Port::iter();
    let mut pads: Vec<Gamepad> = Vec::new();
    let mut i: usize = 0;
    while i < 8
        invariant
            i <= 8,
            ready.len() == 8,
            ports@ == all_ports(),
            pads@.map_values(|g: Gamepad| g.port) == ready_ports(ready@, i as nat),
            forall|j: int| 0 <= j < pads.len() ==> #[trigger] pads[j].library == library_of(pads[j].port),
        decreases 8 - i,
    {
        if ready[i] {
            pads.push(Gamepad::new(ports[i]));
        }
        assert(pads@.map_values(|g: Gamepad| g.port) =~= ready_ports(ready@, (i + 1) as nat));
        i = i + 1;
    }
    pads
}

} // verus!
