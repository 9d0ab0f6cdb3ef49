//! The input of a controller in the unified form, and how it is read from and written
//! into the native status records of the GamePad (VPAD) and of Wii remotes (KPAD).
use vstd::prelude::*;

use super::buttons::{
    decoded, device_mask, encoded, law_decode_encode, law_decoded_or, Button, ButtonSet, Device,
};

verus! {

/// An analog stick reading, held as the raw IEEE-754 bits of its two coordinates; the
/// all-zero bits are the centre, (0.0, 0.0).
#[derive(Debug, Clone, Copy, PartialEq, Eq, Structural)]
pub struct Stick {
    pub x_bits: u32,
    pub y_bits: u32,
}

impl Stick {
    /// The centred stick, (0.0, 0.0).
    pub fn centered() -> (r: Stick)
        ensures
            r == centered_stick(),
    {
        Stick { x_bits: 0, y_bits: 0 }
    }
}

/// The centred stick, (0.0, 0.0).
pub open spec fn centered_stick() -> Stick {
    Stick { x_bits: 0, y_bits: 0 }
}

/// The stick if there is one, else the centred stick.
pub open spec fn stick_or_centered(s: Option<Stick>) -> Stick {
    match s {
        Some(v) => v,
        None => centered_stick(),
    }
}

/// `new` where it is present, else `old`.
pub open spec fn overwrite(old: Stick, new: Option<Stick>) -> Stick {
    match new {
        Some(v) => v,
        None => old,
    }
}

/// `new` where it is present, else `old`.
pub open spec fn overwrite_opt(old: Option<Stick>, new: Option<Stick>) -> Option<Stick> {
    match new {
        Some(v) => Some(v),
        None => old,
    }
}

/// The input of a gamepad in the unified form: the buttons held, newly pressed and newly
/// released, and the sticks of the controllers that have them.
#[derive(Debug, Clone, Copy, PartialEq, Eq, Structural)]
pub struct State {
    pub hold: ButtonSet,
    pub trigger: ButtonSet,
    pub release: ButtonSet,
    pub left_stick: Option<Stick>,
    pub right_stick: Option<Stick>,
}

/// The native status record of the GamePad, as far as buttons and sticks go.
#[derive(Debug, Clone, Copy, PartialEq, Eq, Structural)]
pub struct VpadStatus {
    pub hold: u32,
    pub trigger: u32,
    pub release: u32,
    pub left_stick: Stick,
    pub right_stick: Stick,
}

/// The buttons and stick of a Nunchuk attached to a Wii remote.
#[derive(Debug, Clone, Copy, PartialEq, Eq, Structural)]
pub struct NunchukStatus {
    pub hold: u32,
    pub trigger: u32,
    pub release: u32,
    pub stick: Stick,
}

/// The buttons and sticks of a Classic or Pro controller.
#[derive(Debug, Clone, Copy, PartialEq, Eq, Structural)]
pub struct DualStickStatus {
    pub hold: u32,
    pub trigger: u32,
    pub release: u32,
    pub left_stick: Stick,
    pub right_stick: Stick,
}

/// What is attached to, or built into, a Wii remote channel.
#[derive(Debug, Clone, Copy, PartialEq, Eq, Structural)]
pub enum Extension {
    Nunchuk(NunchukStatus),
    Classic(DualStickStatus),
    Pro(DualStickStatus),
    /// Any other extension type (none, Motion Plus, ...), with its native type code.
    Other(u8),
}

/// The native status record of a Wii remote channel, as far as buttons and sticks go.
#[derive(Debug, Clone, Copy, PartialEq, Eq, Structural)]
pub struct KpadStatus {
    pub hold: u32,
    pub trigger: u32,
    pub release: u32,
    pub extension: Extension,
}

/// The buttons of an extension's word, picked by `field` (0 hold, 1 trigger, 2 release).
pub open spec fn extension_buttons(e: Extension, field: int) -> Set<Button> {
    match e {
        Extension::Nunchuk(n) => decoded(Device::Nunchuk, pick(n.hold, n.trigger, n.release, field)),
        Extension::Classic(c) => decoded(Device::Classic, pick(c.hold, c.trigger, c.release, field)),
        Extension::Pro(p) => decoded(Device::Pro, pick(p.hold, p.trigger, p.release, field)),
        Extension::Other(_) => Set::empty(),
    }
}

/// One of three words.
pub open spec fn pick(a: u32, b: u32, c: u32, field: int) -> u32 {
    if field == 0 {
        a
    } else if field == 1 {
        b
    } else {
        c
    }
}

/// The left stick of an extension, if it has one.
pub open spec fn extension_left_stick(e: Extension) -> Option<Stick> {
    match e {
        Extension::Nunchuk(n) => Some(n.stick),
        Extension::Classic(c) => Some(c.left_stick),
        Extension::Pro(p) => Some(p.left_stick),
        Extension::Other(_) => None,
    }
}

/// The right stick of an extension, if it has one.
pub open spec fn extension_right_stick(e: Extension) -> Option<Stick> {
    match e {
        Extension::Classic(c) => Some(c.right_stick),
        Extension::Pro(p) => Some(p.right_stick),
        _ => None,
    }
}

/// The extension after [`KpadStatus::bitor_assign`]: each button word gains the bits of
/// the buttons of `rhs`, each stick that `rhs` has is written.
pub open spec fn extension_or(e: Extension, rhs: State) -> Extension {
    match e {
        Extension::Nunchuk(n) => Extension::Nunchuk(
            NunchukStatus {
                hold: n.hold | encoded(Device::Nunchuk, rhs.hold@),
                trigger: n.trigger | encoded(Device::Nunchuk, rhs.trigger@),
                release: n.release | encoded(Device::Nunchuk, rhs.release@),
                stick: overwrite(n.stick, rhs.left_stick),
            },
        ),
        Extension::Classic(c) => Extension::Classic(
            DualStickStatus {
                hold: c.hold | encoded(Device::Classic, rhs.hold@),
                trigger: c.trigger | encoded(Device::Classic, rhs.trigger@),
                release: c.release | encoded(Device::Classic, rhs.release@),
                left_stick: overwrite(c.left_stick, rhs.left_stick),
                right_stick: overwrite(c.right_stick, rhs.right_stick),
            },
        ),
        Extension::Pro(p) => Extension::Pro(
            DualStickStatus {
                hold: p.hold | encoded(Device::Pro, rhs.hold@),
                trigger: p.trigger | encoded(Device::Pro, rhs.trigger@),
                release: p.release | encoded(Device::Pro, rhs.release@),
                left_stick: overwrite(p.left_stick, rhs.left_stick),
                right_stick: overwrite(p.right_stick, rhs.right_stick),
            },
        ),
        Extension::Other(k) => Extension::Other(k),
    }
}

/// The extension after [`KpadStatus::bitand_assign`]: each button word becomes the bits of
/// the buttons of `rhs`, each stick becomes that of `rhs` or the centred stick.
pub open spec fn extension_set(e: Extension, rhs: State) -> Extension {
    match e {
        Extension::Nunchuk(n) => Extension::Nunchuk(
            NunchukStatus {
                hold: encoded(Device::Nunchuk, rhs.hold@),
                trigger: encoded(Device::Nunchuk, rhs.trigger@),
                release: encoded(Device::Nunchuk, rhs.release@),
                stick: stick_or_centered(rhs.left_stick),
            },
        ),
        Extension::Classic(c) => Extension::Classic(
            DualStickStatus {
                hold: encoded(Device::Classic, rhs.hold@),
                trigger: encoded(Device::Classic, rhs.trigger@),
                release: encoded(Device::Classic, rhs.release@),
                left_stick: stick_or_centered(rhs.left_stick),
                right_stick: stick_or_centered(rhs.right_stick),
            },
        ),
        Extension::Pro(p) => Extension::Pro(
            DualStickStatus {
                hold: encoded(Device::Pro, rhs.hold@),
                trigger: encoded(Device::Pro, rhs.trigger@),
                release: encoded(Device::Pro, rhs.release@),
                left_stick: stick_or_centered(rhs.left_stick),
                right_stick: stick_or_centered(rhs.right_stick),
            },
        ),
        Extension::Other(k) => Extension::Other(k),
    }
}

/// The stick if there is one, else the centred stick.
fn unwrap_stick(s: Option<Stick>) -> (r: Stick)
    ensures
        r == stick_or_centered(s),
{
    match s {
        Some(v) => v,
        None => Stick::centered(),
    }
}

/// `new` where it is present, else `old`.
fn choose_stick(old: Stick, new: Option<Stick>) -> (r: Stick)
    ensures
        r == overwrite(old, new),
{
    match new {
        Some(v) => v,
        None => old,
    }
}

/// The GamePad status of an input: the native words of its buttons, and its sticks or the
/// centred stick.
pub open spec fn vpad_status_of(s: State) -> VpadStatus {
    VpadStatus {
        hold: encoded(Device::Vpad, s.hold@),
        trigger: encoded(Device::Vpad, s.trigger@),
        release: encoded(Device::Vpad, s.release@),
        left_stick: stick_or_centered(s.left_stick),
        right_stick: stick_or_centered(s.right_stick),
    }
}

/// The buttons of a set that the GamePad has.
pub open spec fn vpad_buttons(s: Set<Button>) -> Set<Button> {
    s.filter(|b: Button| device_mask(Device::Vpad, b) != 0)
}

/// Reading back the GamePad status of an input gives its buttons that the GamePad has,
/// and its sticks, a missing one centred.
pub proof fn law_vpad_round_trip(s: State, r: State)
    requires
        is_vpad_input(r, vpad_status_of(s)),
    ensures
        r.hold@ == vpad_buttons(s.hold@),
        r.trigger@ == vpad_buttons(s.trigger@),
        r.release@ == vpad_buttons(s.release@),
        r.left_stick == Some(stick_or_centered(s.left_stick)),
        r.right_stick == Some(stick_or_centered(s.right_stick)),
{
    law_decode_encode(Device::Vpad, s.hold@);
    law_decode_encode(Device::Vpad, s.trigger@);
    law_decode_encode(Device::Vpad, s.release@);
}

/// `s` is the input that the GamePad status `v` holds: its buttons, and both sticks.
pub open spec fn is_vpad_input(s: State, v: VpadStatus) -> bool {
    &&& s.hold@ == decoded(Device::Vpad, v.hold)
    &&& s.trigger@ == decoded(Device::Vpad, v.trigger)
    &&& s.release@ == decoded(Device::Vpad, v.release)
    &&& s.left_stick == Some(v.left_stick)
    &&& s.right_stick == Some(v.right_stick)
}

/// `s` is the input that the Wii remote status `k` holds: the buttons of the remote and of
/// its extension together, and the sticks of the extension.
pub open spec fn is_kpad_input(s: State, k: KpadStatus) -> bool {
    &&& s.hold@ == decoded(Device::Kpad, k.hold).union(extension_buttons(k.extension, 0))
    &&& s.trigger@ == decoded(Device::Kpad, k.trigger).union(extension_buttons(k.extension, 1))
    &&& s.release@ == decoded(Device::Kpad, k.release).union(extension_buttons(k.extension, 2))
    &&& s.left_stick == extension_left_stick(k.extension)
    &&& s.right_stick == extension_right_stick(k.extension)
}

impl State {
    /// The input with nothing pressed and no stick.
    pub fn new() -> (r: State)
        ensures
            r.hold@ == Set::<Button>::empty(),
            r.trigger@ == Set::<Button>::empty(),
            r.release@ == Set::<Button>::empty(),
            r.left_stick is None,
            r.right_stick is None,
    {
        State {
            hold: ButtonSet::empty(),
            trigger: ButtonSet::empty(),
            release: ButtonSet::empty(),
            left_stick: None,
            right_stick: None,
        }
    }

    /// The native GamePad status for this input; a missing stick is centred.
    pub fn into_vpad(self) -> (r: VpadStatus)
        ensures
            r == vpad_status_of(self),
    {
        VpadStatus {
            hold: Button::into_vpad(self.hold),
            trigger: Button::into_vpad(self.trigger),
            release: Button::into_vpad(self.release),
            left_stick: unwrap_stick(self.left_stick),
            right_stick: unwrap_stick(self.right_stick),
        }
    }

    /// Combines `rhs` into `self`: the buttons are joined, a stick of `rhs` replaces that
    /// of `self`.
    pub fn bitor_assign(&mut self, rhs: State)
        ensures
            final(self).hold@ == old(self).hold@.union(rhs.hold@),
            final(self).trigger@ == old(self).trigger@.union(rhs.trigger@),
            final(self).release@ == old(self).release@.union(rhs.release@),
            final(self).left_stick == overwrite_opt(old(self).left_stick, rhs.left_stick),
            final(self).right_stick == overwrite_opt(old(self).right_stick, rhs.right_stick),
    {
        self.hold = self.hold.union(rhs.hold);
        self.trigger = self.trigger.union(rhs.trigger);
        self.release = self.release.union(rhs.release);
        if let Some(stick) = rhs.left_stick {
            self.left_stick = Some(stick);
        }
        if let Some(stick) = rhs.right_stick {
            self.right_stick = Some(stick);
        }
    }

    /// The input that a GamePad status holds; both sticks are present.
    pub fn from_vpad(value: VpadStatus) -> (r: State)
        ensures
            is_vpad_input(r, value),
    {
        State {
            hold: Button::from_vpad(value.hold),
            trigger: Button::from_vpad(value.trigger),
            release: Button::from_vpad(value.release),
            left_stick: Some(value.left_stick),
            right_stick: Some(value.right_stick),
        }
    }

    /// The input that a Wii remote status holds: the buttons of the remote and of its
    /// extension together, and the sticks of the extension.
    pub fn from_kpad(value: KpadStatus) -> (r: State)
        ensures
            is_kpad_input(r, value),
    {
        let mut s = State {
            hold: Button::from_kpad(value.hold),
            trigger: Button::from_kpad(value.trigger),
            release: Button::from_kpad(value.release),
            left_stick: None,
            right_stick: None,
        };
        match value.extension {
            Extension::Nunchuk(n) => {
                s.hold = s.hold.union(Button::from_nunchuk(n.hold));
                s.trigger = s.trigger.union(Button::from_nunchuk(n.trigger));
                s.release = s.release.union(Button::from_nunchuk(n.release));
                s.left_stick = Some(n.stick);
            },
            Extension::Classic(c) => {
                s.hold = s.hold.union(Button::from_classic(c.hold));
                s.trigger = s.trigger.union(Button::from_classic(c.trigger));
                s.release = s.release.union(Button::from_classic(c.release));
                s.left_stick = Some(c.left_stick);
                s.right_stick = Some(c.right_stick);
            },
            Extension::Pro(p) => {
                s.hold = s.hold.union(Button::from_pro(p.hold));
                s.trigger = s.trigger.union(Button::from_pro(p.trigger));
                s.release = s.release.union(Button::from_pro(p.release));
                s.left_stick = Some(p.left_stick);
                s.right_stick = Some(p.right_stick);
            },
            Extension::Other(_) => {
                assert(s.hold@.union(Set::empty()) =~= s.hold@);
                assert(s.trigger@.union(Set::empty()) =~= s.trigger@);
                assert(s.release@.union(Set::empty()) =~= s.release@);
            },
        }
        s
    }
}

impl Default for State {
    /// The input with nothing pressed and no stick.
    fn default() -> (r: State)
        ensures
            r.hold@ == Set::<Button>::empty(),
            r.trigger@ == Set::<Button>::empty(),
            r.release@ == Set::<Button>::empty(),
            r.left_stick is None,
            r.right_stick is None,
    {
        State::new()
    }
}

impl VpadStatus {
    /// Adds `rhs` to the status: its buttons are added, its sticks written where it has
    /// them.
    pub fn bitor_assign(&mut self, rhs: State)
        ensures
            final(self).hold == old(self).hold | encoded(Device::Vpad, rhs.hold@),
            final(self).trigger == old(self).trigger | encoded(Device::Vpad, rhs.trigger@),
            final(self).release == old(self).release | encoded(Device::Vpad, rhs.release@),
            final(self).left_stick == overwrite(old(self).left_stick, rhs.left_stick),
            final(self).right_stick == overwrite(old(self).right_stick, rhs.right_stick),
    {
        self.hold = self.hold | Button::into_vpad(rhs.hold);
        self.trigger = self.trigger | Button::into_vpad(rhs.trigger);
        self.release = self.release | Button::into_vpad(rhs.release);
        self.left_stick = choose_stick(self.left_stick, rhs.left_stick);
        self.right_stick = choose_stick(self.right_stick, rhs.right_stick);
    }

    /// Writes `rhs` over the status: the buttons become those of `rhs`, the sticks those of
    /// `rhs` or centred.
    pub fn bitand_assign(&mut self, rhs: State)
        ensures
            final(self).hold == encoded(Device::Vpad, rhs.hold@),
            final(self).trigger == encoded(Device::Vpad, rhs.trigger@),
            final(self).release == encoded(Device::Vpad, rhs.release@),
            final(self).left_stick == stick_or_centered(rhs.left_stick),
            final(self).right_stick == stick_or_centered(rhs.right_stick),
    {
        self.hold = Button::into_vpad(rhs.hold);
        self.trigger = Button::into_vpad(rhs.trigger);
        self.release = Button::into_vpad(rhs.release);
        self.left_stick = unwrap_stick(rhs.left_stick);
        self.right_stick = unwrap_stick(rhs.right_stick);
    }
}

impl KpadStatus {
    /// Adds `rhs` to the status: its buttons are added to the remote and to the extension,
    /// its sticks written into the extension where both have them.
    pub fn bitor_assign(&mut self, rhs: State)
        ensures
            final(self).hold == old(self).hold | encoded(Device::Kpad, rhs.hold@),
            final(self).trigger == old(self).trigger | encoded(Device::Kpad, rhs.trigger@),
            final(self).release == old(self).release | encoded(Device::Kpad, rhs.release@),
            final(self).extension == extension_or(old(self).extension, rhs),
            *final(self) == kpad_or(*old(self), rhs),
    {
        self.hold = self.hold | Button::into_kpad(rhs.hold);
        self.trigger = self.trigger | Button::into_kpad(rhs.trigger);
        self.release = self.release | Button::into_kpad(rhs.release);
        let ext = match self.extension {
            Extension::Nunchuk(n) => Extension::Nunchuk(
                NunchukStatus {
                    hold: n.hold | Button::into_nunchuk(rhs.hold),
                    trigger: n.trigger | Button::into_nunchuk(rhs.trigger),
                    release: n.release | Button::into_nunchuk(rhs.release),
                    stick: choose_stick(n.stick, rhs.left_stick),
                },
            ),
            Extension::Classic(c) => Extension::Classic(
                DualStickStatus {
                    hold: c.hold | Button::into_classic(rhs.hold),
                    trigger: c.trigger | Button::into_classic(rhs.trigger),
                    release: c.release | Button::into_classic(rhs.release),
                    left_stick: choose_stick(c.left_stick, rhs.left_stick),
                    right_stick: choose_stick(c.right_stick, rhs.right_stick),
                },
            ),
            Extension::Pro(p) => Extension::Pro(
                DualStickStatus {
                    hold: p.hold | Button::into_pro(rhs.hold),
                    trigger: p.trigger | Button::into_pro(rhs.trigger),
                    release: p.release | Button::into_pro(rhs.release),
                    left_stick: choose_stick(p.left_stick, rhs.left_stick),
                    right_stick: choose_stick(p.right_stick, rhs.right_stick),
                },
            ),
            Extension::Other(k) => Extension::Other(k),
        };
        self.extension = ext;
    }

    /// Writes `rhs` over the status: the buttons of the remote and of the extension become
    /// those of `rhs`, the sticks of the extension those of `rhs` or centred.
    pub fn bitand_assign(&mut self, rhs: State)
        ensures
            final(self).hold == encoded(Device::Kpad, rhs.hold@),
            final(self).trigger == encoded(Device::Kpad, rhs.trigger@),
            final(self).release == encoded(Device::Kpad, rhs.release@),
            final(self).extension == extension_set(old(self).extension, rhs),
            *final(self) == kpad_set(*old(self), rhs),
    {
        self.hold = Button::into_kpad(rhs.hold);
        self.trigger = Button::into_kpad(rhs.trigger);
        self.release = Button::into_kpad(rhs.release);
        let ext = match self.extension {
            Extension::Nunchuk(_) => Extension::Nunchuk(
                NunchukStatus {
                    hold: Button::into_nunchuk(rhs.hold),
                    trigger: Button::into_nunchuk(rhs.trigger),
                    release: Button::into_nunchuk(rhs.release),
                    stick: unwrap_stick(rhs.left_stick),
                },
            ),
            Extension::Classic(_) => Extension::Classic(
                DualStickStatus {
                    hold: Button::into_classic(rhs.hold),
                    trigger: Button::into_classic(rhs.trigger),
                    release: Button::into_classic(rhs.release),
                    left_stick: unwrap_stick(rhs.left_stick),
                    right_stick: unwrap_stick(rhs.right_stick),
                },
            ),
            Extension::Pro(_) => Extension::Pro(
                DualStickStatus {
                    hold: Button::into_pro(rhs.hold),
                    trigger: Button::into_pro(rhs.trigger),
                    release: Button::into_pro(rhs.release),
                    left_stick: unwrap_stick(rhs.left_stick),
                    right_stick: unwrap_stick(rhs.right_stick),
                },
            ),
            Extension::Other(k) => Extension::Other(k),
        };
        self.extension = ext;
    }
}

/// The status after [`KpadStatus::bitor_assign`]: every button word gains the bits of the
/// buttons of `rhs`, and the extension's sticks are written where `rhs` has them.
pub open spec fn kpad_or(k: KpadStatus, rhs: State) -> KpadStatus {
    KpadStatus {
        hold: k.hold | encoded(Device::Kpad, rhs.hold@),
        trigger: k.trigger | encoded(Device::Kpad, rhs.trigger@),
        release: k.release | encoded(Device::Kpad, rhs.release@),
        extension: extension_or(k.extension, rhs),
    }
}

/// The status after [`KpadStatus::bitand_assign`].
pub open spec fn kpad_set(k: KpadStatus, rhs: State) -> KpadStatus {
    KpadStatus {
        hold: encoded(Device::Kpad, rhs.hold@),
        trigger: encoded(Device::Kpad, rhs.trigger@),
        release: encoded(Device::Kpad, rhs.release@),
        extension: extension_set(k.extension, rhs),
    }
}

/// Whether the extension `e` has the button `b`.
pub open spec fn extension_has(e: Extension, b: Button) -> bool {
    match e {
        Extension::Nunchuk(_) => device_mask(Device::Nunchuk, b) != 0,
        Extension::Classic(_) => device_mask(Device::Classic, b) != 0,
        Extension::Pro(_) => device_mask(Device::Pro, b) != 0,
        Extension::Other(_) => false,
    }
}

/// Whether a Wii remote with the extension `e` has the button `b`, on the remote or on
/// the extension.
pub open spec fn kpad_has(e: Extension, b: Button) -> bool {
    device_mask(Device::Kpad, b) != 0 || extension_has(e, b)
}

/// One of the three button sets of an input, picked by `field` (0 hold, 1 trigger,
/// 2 release).
pub open spec fn pick_set(s: State, field: int) -> Set<Button> {
    if field == 0 {
        s.hold@
    } else if field == 1 {
        s.trigger@
    } else {
        s.release@
    }
}

/// The buttons of an extension after adding those of `rhs`: its own, and those of `rhs`
/// that it has.
proof fn lemma_extension_or_buttons(e: Extension, rhs: State, field: int)
    requires
        0 <= field <= 2,
    ensures
        extension_buttons(extension_or(e, rhs), field) == extension_buttons(e, field).union(
            pick_set(rhs, field).filter(|b: Button| extension_has(e, b)),
        ),
        extension_buttons(extension_set(e, rhs), field) == pick_set(rhs, field).filter(
            |b: Button| extension_has(e, b),
        ),
{
    let s = pick_set(rhs, field);
    match e {
        Extension::Nunchuk(n) => {
            let d = Device::Nunchuk;
            law_decoded_or(d, pick(n.hold, n.trigger, n.release, field), encoded(d, s));
            law_decode_encode(d, s);
        },
        Extension::Classic(c) => {
            let d = Device::Classic;
            law_decoded_or(d, pick(c.hold, c.trigger, c.release, field), encoded(d, s));
            law_decode_encode(d, s);
        },
        Extension::Pro(p) => {
            let d = Device::Pro;
            law_decoded_or(d, pick(p.hold, p.trigger, p.release, field), encoded(d, s));
            law_decode_encode(d, s);
        },
        Extension::Other(_) => {},
    }
    assert(extension_buttons(extension_or(e, rhs), field) =~= extension_buttons(e, field).union(
        s.filter(|b: Button| extension_has(e, b)),
    ));
    assert(extension_buttons(extension_set(e, rhs), field) =~= s.filter(
        |b: Button| extension_has(e, b),
    ));
}

/// The buttons read from a Wii remote status after adding those of `rhs` to its word `w`.
proof fn lemma_kpad_or_buttons(k: KpadStatus, rhs: State, w: u32, field: int)
    requires
        0 <= field <= 2,
    ensures
        decoded(Device::Kpad, w | encoded(Device::Kpad, pick_set(rhs, field))).union(
            extension_buttons(extension_or(k.extension, rhs), field),
        ) == decoded(Device::Kpad, w).union(extension_buttons(k.extension, field)).union(
            pick_set(rhs, field).filter(|b: Button| kpad_has(k.extension, b)),
        ),
        decoded(Device::Kpad, encoded(Device::Kpad, pick_set(rhs, field))).union(
            extension_buttons(extension_set(k.extension, rhs), field),
        ) == pick_set(rhs, field).filter(|b: Button| kpad_has(k.extension, b)),
{
    let s = pick_set(rhs, field);
    law_decoded_or(Device::Kpad, w, encoded(Device::Kpad, s));
    law_decode_encode(Device::Kpad, s);
    lemma_extension_or_buttons(k.extension, rhs, field);
    assert(decoded(Device::Kpad, w | encoded(Device::Kpad, s)).union(
        extension_buttons(extension_or(k.extension, rhs), field),
    ) =~= decoded(Device::Kpad, w).union(extension_buttons(k.extension, field)).union(
        s.filter(|b: Button| kpad_has(k.extension, b)),
    ));
    assert(decoded(Device::Kpad, encoded(Device::Kpad, s)).union(
        extension_buttons(extension_set(k.extension, rhs), field),
    ) =~= s.filter(|b: Button| kpad_has(k.extension, b)));
}

/// Adding an input to a Wii remote status and reading the status back: the buttons read
/// are those read before and those of `rhs` that the remote or its extension has; each
/// stick that the status has becomes that of `rhs` where `rhs` has one and stays as it was
/// otherwise (the left stick of `rhs` goes to the left stick, the right to the right).
pub proof fn law_kpad_or_read_back(k: KpadStatus, rhs: State, before: State, after: State)
    requires
        is_kpad_input(before, k),
        is_kpad_input(after, kpad_or(k, rhs)),
    ensures
        after.hold@ == before.hold@.union(rhs.hold@.filter(|b: Button| kpad_has(k.extension, b))),
        after.trigger@ == before.trigger@.union(
            rhs.trigger@.filter(|b: Button| kpad_has(k.extension, b)),
        ),
        after.release@ == before.release@.union(
            rhs.release@.filter(|b: Button| kpad_has(k.extension, b)),
        ),
        after.left_stick is Some <==> before.left_stick is Some,
        after.right_stick is Some <==> before.right_stick is Some,
        before.left_stick is Some && rhs.left_stick is Some ==> after.left_stick == rhs.left_stick,
        before.right_stick is Some && rhs.right_stick is Some ==> after.right_stick
            == rhs.right_stick,
        rhs.left_stick is None ==> after.left_stick == before.left_stick,
        rhs.right_stick is None ==> after.right_stick == before.right_stick,
{
    lemma_kpad_or_buttons(k, rhs, k.hold, 0);
    lemma_kpad_or_buttons(k, rhs, k.trigger, 1);
    lemma_kpad_or_buttons(k, rhs, k.release, 2);
}

/// Writing an input over a Wii remote status and reading the status back: the buttons read
/// are those of `rhs` that the remote or its extension has; each stick that the status has
/// becomes that of `rhs`, or the centred stick where `rhs` has none.
pub proof fn law_kpad_set_read_back(k: KpadStatus, rhs: State, before: State, after: State)
    requires
        is_kpad_input(before, k),
        is_kpad_input(after, kpad_set(k, rhs)),
    ensures
        after.hold@ == rhs.hold@.filter(|b: Button| kpad_has(k.extension, b)),
        after.trigger@ == rhs.trigger@.filter(|b: Button| kpad_has(k.extension, b)),
        after.release@ == rhs.release@.filter(|b: Button| kpad_has(k.extension, b)),
        after.left_stick is Some <==> before.left_stick is Some,
        after.right_stick is Some <==> before.right_stick is Some,
        before.left_stick is Some && rhs.left_stick is Some ==> after.left_stick == rhs.left_stick,
        before.right_stick is Some && rhs.right_stick is Some ==> after.right_stick
            == rhs.right_stick,
        before.left_stick is Some && rhs.left_stick is None ==> after.left_stick == Some(
            Stick { x_bits: 0, y_bits: 0 },
        ),
        before.right_stick is Some && rhs.right_stick is None ==> after.right_stick == Some(
            Stick { x_bits: 0, y_bits: 0 },
        ),
{
    lemma_kpad_or_buttons(k, rhs, k.hold, 0);
    lemma_kpad_or_buttons(k, rhs, k.trigger, 1);
    lemma_kpad_or_buttons(k, rhs, k.release, 2);
}

} // verus!
