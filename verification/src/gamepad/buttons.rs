//! The buttons of all controllers as one set, and their native bit masks.
use vstd::prelude::*;
use vstd::std_specs::convert::FromSpecImpl;

verus! {

/// A button of any controller.
#[derive(Debug, Clone, Copy, PartialEq, Eq, Structural)]
pub enum Button {
    /// The A button.
    A,
    /// The B button.
    B,
    /// The X button.
    X,
    /// The Y button.
    Y,
    /// Left on the control pad.
    Left,
    /// Right on the control pad.
    Right,
    /// Up on the control pad.
    Up,
    /// Down on the control pad.
    Down,
    /// The L button.
    L,
    /// The R button.
    R,
    /// The ZL button.
    ZL,
    /// The ZR button.
    ZR,
    /// The plus (start) button.
    Plus,
    /// The minus (select) button.
    Minus,
    /// The home button.
    Home,
    /// The sync button.
    Sync,
    /// Pressing the right stick.
    RStick,
    /// Pressing the left stick.
    LStick,
    /// The right stick pushed left.
    RStickLeft,
    /// The right stick pushed right.
    RStickRight,
    /// The right stick pushed up.
    RStickUp,
    /// The right stick pushed down.
    RStickDown,
    /// The left stick pushed left.
    LStickLeft,
    /// The left stick pushed right.
    LStickRight,
    /// The left stick pushed up.
    LStickUp,
    /// The left stick pushed down.
    LStickDown,
    /// The 1 button of a Wii remote.
    One,
    /// The 2 button of a Wii remote.
    Two,
    /// The Z button of a Nunchuk.
    Z,
    /// The C button of a Nunchuk.
    C,
}

/// The position of a button in [`Button`], from 0 to 29; it is the bit that stands for the
/// button in a [`ButtonSet`].
pub open spec fn button_index(b: Button) -> u32 {
    match b {
        Button::A => 0,
        Button::B => 1,
        Button::X => 2,
        Button::Y => 3,
        Button::Left => 4,
        Button::Right => 5,
        Button::Up => 6,
        Button::Down => 7,
        Button::L => 8,
        Button::R => 9,
        Button::ZL => 10,
        Button::ZR => 11,
        Button::Plus => 12,
        Button::Minus => 13,
        Button::Home => 14,
        Button::Sync => 15,
        Button::RStick => 16,
        Button::LStick => 17,
        Button::RStickLeft => 18,
        Button::RStickRight => 19,
        Button::RStickUp => 20,
        Button::RStickDown => 21,
        Button::LStickLeft => 22,
        Button::LStickRight => 23,
        Button::LStickUp => 24,
        Button::LStickDown => 25,
        Button::One => 26,
        Button::Two => 27,
        Button::Z => 28,
        Button::C => 29,
    }
}

/// The button at a position of [`Button`], see [`button_index`].
pub open spec fn button_at(i: u32) -> Button
    recommends
        i < 30,
{
    match i {
        0 => Button::A,
        1 => Button::B,
        2 => Button::X,
        3 => Button::Y,
        4 => Button::Left,
        5 => Button::Right,
        6 => Button::Up,
        7 => Button::Down,
        8 => Button::L,
        9 => Button::R,
        10 => Button::ZL,
        11 => Button::ZR,
        12 => Button::Plus,
        13 => Button::Minus,
        14 => Button::Home,
        15 => Button::Sync,
        16 => Button::RStick,
        17 => Button::LStick,
        18 => Button::RStickLeft,
        19 => Button::RStickRight,
        20 => Button::RStickUp,
        21 => Button::RStickDown,
        22 => Button::LStickLeft,
        23 => Button::LStickRight,
        24 => Button::LStickUp,
        25 => Button::LStickDown,
        26 => Button::One,
        27 => Button::Two,
        28 => Button::Z,
        _ => Button::C,
    }
}

/// A family of controllers, each with its own native button bits.
#[derive(Debug, Clone, Copy, PartialEq, Eq, Structural)]
pub enum Device {
    /// The Wii U GamePad (VPAD).
    Vpad,
    /// The core buttons of a Wii remote (KPAD / WPAD).
    Kpad,
    /// A Nunchuk attached to a Wii remote.
    Nunchuk,
    /// A Classic Controller attached to a Wii remote.
    Classic,
    /// A Wii U Pro Controller.
    Pro,
}

/// The mask of the button at position `i` on the Wii U GamePad (VPAD), 0 when it has none.
pub open spec fn vpad_mask_at(i: u32) -> u32 {
    if i == 0 {
        0x8000
    } else if i == 1 {
        0x4000
    } else if i == 2 {
        0x2000
    } else if i == 3 {
        0x1000
    } else if i == 4 {
        0x800
    } else if i == 5 {
        0x400
    } else if i == 6 {
        0x200
    } else if i == 7 {
        0x100
    } else if i == 8 {
        0x20
    } else if i == 9 {
        0x10
    } else if i == 10 {
        0x80
    } else if i == 11 {
        0x40
    } else if i == 12 {
        0x8
    } else if i == 13 {
        0x4
    } else if i == 14 {
        0x2
    } else if i == 15 {
        0x1
    } else if i == 16 {
        0x20000
    } else if i == 17 {
        0x40000
    } else if i == 18 {
        0x4000000
    } else if i == 19 {
        0x2000000
    } else if i == 20 {
        0x1000000
    } else if i == 21 {
        0x800000
    } else if i == 22 {
        0x40000000
    } else if i == 23 {
        0x20000000
    } else if i == 24 {
        0x10000000
    } else if i == 25 {
        0x8000000
    } else {
        0
    }
}

/// The mask of the button at position `i` on the core buttons of a Wii remote (KPAD / WPAD), 0 when it has none.
pub open spec fn kpad_mask_at(i: u32) -> u32 {
    if i == 0 {
        0x800
    } else if i == 1 {
        0x400
    } else if i == 4 {
        0x1
    } else if i == 5 {
        0x2
    } else if i == 6 {
        0x8
    } else if i == 7 {
        0x4
    } else if i == 12 {
        0x10
    } else if i == 13 {
        0x1000
    } else if i == 14 {
        0x8000
    } else if i == 26 {
        0x200
    } else if i == 27 {
        0x100
    } else if i == 28 {
        0x2000
    } else if i == 29 {
        0x4000
    } else {
        0
    }
}

/// The mask of the button at position `i` on a Nunchuk attached to a Wii remote, 0 when it has none.
pub open spec fn nunchuk_mask_at(i: u32) -> u32 {
    if i == 22 {
        0x1
    } else if i == 23 {
        0x2
    } else if i == 24 {
        0x8
    } else if i == 25 {
        0x4
    } else if i == 28 {
        0x2000
    } else if i == 29 {
        0x4000
    } else {
        0
    }
}

/// The mask of the button at position `i` on a Classic Controller attached to a Wii remote, 0 when it has none.
pub open spec fn classic_mask_at(i: u32) -> u32 {
    if i == 0 {
        0x10
    } else if i == 1 {
        0x40
    } else if i == 2 {
        0x8
    } else if i == 3 {
        0x20
    } else if i == 4 {
        0x2
    } else if i == 5 {
        0x8000
    } else if i == 6 {
        0x1
    } else if i == 7 {
        0x4000
    } else if i == 8 {
        0x2000
    } else if i == 9 {
        0x200
    } else if i == 10 {
        0x80
    } else if i == 11 {
        0x4
    } else if i == 12 {
        0x400
    } else if i == 13 {
        0x1000
    } else if i == 14 {
        0x800
    } else if i == 18 {
        0x100000
    } else if i == 19 {
        0x200000
    } else if i == 20 {
        0x800000
    } else if i == 21 {
        0x400000
    } else if i == 22 {
        0x10000
    } else if i == 23 {
        0x20000
    } else if i == 24 {
        0x80000
    } else if i == 25 {
        0x40000
    } else {
        0
    }
}

/// The mask of the button at position `i` on a Wii U Pro Controller, 0 when it has none.
pub open spec fn pro_mask_at(i: u32) -> u32 {
    if i == 0 {
        0x10
    } else if i == 1 {
        0x40
    } else if i == 2 {
        0x8
    } else if i == 3 {
        0x20
    } else if i == 4 {
        0x2
    } else if i == 5 {
        0x8000
    } else if i == 6 {
        0x1
    } else if i == 7 {
        0x4000
    } else if i == 8 {
        0x2000
    } else if i == 9 {
        0x200
    } else if i == 10 {
        0x80
    } else if i == 11 {
        0x4
    } else if i == 12 {
        0x400
    } else if i == 13 {
        0x1000
    } else if i == 14 {
        0x800
    } else if i == 16 {
        0x10000
    } else if i == 17 {
        0x20000
    } else if i == 18 {
        0x400000
    } else if i == 19 {
        0x800000
    } else if i == 20 {
        0x2000000
    } else if i == 21 {
        0x1000000
    } else if i == 22 {
        0x40000
    } else if i == 23 {
        0x80000
    } else if i == 24 {
        0x200000
    } else if i == 25 {
        0x100000
    } else {
        0
    }
}

/// The mask of the button at position `i` on a family of controllers.
pub open spec fn mask_at(d: Device, i: u32) -> u32 {
    match d {
        Device::Vpad => vpad_mask_at(i),
        Device::Kpad => kpad_mask_at(i),
        Device::Nunchuk => nunchuk_mask_at(i),
        Device::Classic => classic_mask_at(i),
        Device::Pro => pro_mask_at(i),
    }
}

/// The native bits that stand for a button on a family of controllers: the union of the
/// bits that the family maps to the button, 0 when it has none.
pub open spec fn device_mask(d: Device, b: Button) -> u32 {
    mask_at(d, button_index(b))
}

/// The masks of different buttons on the Wii U GamePad (VPAD) share no bit.
proof fn lemma_vpad_masks_disjoint()
    ensures
        forall|i: u32, j: u32|
            #![trigger vpad_mask_at(i), vpad_mask_at(j)]
            i < 30 && j < 30 && i != j ==> vpad_mask_at(i) & vpad_mask_at(j) == 0,
{
    assert(forall|i: u32, j: u32|
        #![trigger vpad_mask_at(i), vpad_mask_at(j)]
        i < 30 && j < 30 && i != j ==> vpad_mask_at(i) & vpad_mask_at(j) == 0) by (bit_vector);
}

/// The masks of different buttons on the core buttons of a Wii remote (KPAD / WPAD) share no bit.
proof fn lemma_kpad_masks_disjoint()
    ensures
        forall|i: u32, j: u32|
            #![trigger kpad_mask_at(i), kpad_mask_at(j)]
            i < 30 && j < 30 && i != j ==> kpad_mask_at(i) & kpad_mask_at(j) == 0,
{
    assert(forall|i: u32, j: u32|
        #![trigger kpad_mask_at(i), kpad_mask_at(j)]
        i < 30 && j < 30 && i != j ==> kpad_mask_at(i) & kpad_mask_at(j) == 0) by (bit_vector);
}

/// The masks of different buttons on a Nunchuk attached to a Wii remote share no bit.
proof fn lemma_nunchuk_masks_disjoint()
    ensures
        forall|i: u32, j: u32|
            #![trigger nunchuk_mask_at(i), nunchuk_mask_at(j)]
            i < 30 && j < 30 && i != j ==> nunchuk_mask_at(i) & nunchuk_mask_at(j) == 0,
{
    assert(forall|i: u32, j: u32|
        #![trigger nunchuk_mask_at(i), nunchuk_mask_at(j)]
        i < 30 && j < 30 && i != j ==> nunchuk_mask_at(i) & nunchuk_mask_at(j) == 0) by (bit_vector);
}

/// The masks of different buttons on a Classic Controller attached to a Wii remote share no bit.
proof fn lemma_classic_masks_disjoint()
    ensures
        forall|i: u32, j: u32|
            #![trigger classic_mask_at(i), classic_mask_at(j)]
            i < 30 && j < 30 && i != j ==> classic_mask_at(i) & classic_mask_at(j) == 0,
{
    assert(forall|i: u32, j: u32|
        #![trigger classic_mask_at(i), classic_mask_at(j)]
        i < 30 && j < 30 && i != j ==> classic_mask_at(i) & classic_mask_at(j) == 0) by (bit_vector);
}

/// The masks of different buttons on a Wii U Pro Controller share no bit.
proof fn lemma_pro_masks_disjoint()
    ensures
        forall|i: u32, j: u32|
            #![trigger pro_mask_at(i), pro_mask_at(j)]
            i < 30 && j < 30 && i != j ==> pro_mask_at(i) & pro_mask_at(j) == 0,
{
    assert(forall|i: u32, j: u32|
        #![trigger pro_mask_at(i), pro_mask_at(j)]
        i < 30 && j < 30 && i != j ==> pro_mask_at(i) & pro_mask_at(j) == 0) by (bit_vector);
}

/// The masks of different buttons on a family of controllers share no bit.
proof fn lemma_masks_disjoint(d: Device, i: u32, j: u32)
    requires
        i < 30,
        j < 30,
        i != j,
    ensures
        mask_at(d, i) & mask_at(d, j) == 0,
{
    match d {
        Device::Vpad => lemma_vpad_masks_disjoint(),
        Device::Kpad => lemma_kpad_masks_disjoint(),
        Device::Nunchuk => lemma_nunchuk_masks_disjoint(),
        Device::Classic => lemma_classic_masks_disjoint(),
        Device::Pro => lemma_pro_masks_disjoint(),
    }
}

/// The buttons that a native bit word of a family of controllers holds: those whose mask
/// shares a bit with it.
pub open spec fn decoded(d: Device, bits: u32) -> Set<Button> {
    Set::new(|b: Button| bits & device_mask(d, b) != 0)
}

/// The union of the masks of the buttons of `s` among the first `n` positions.
pub open spec fn encoded_upto(d: Device, s: Set<Button>, n: nat) -> u32
    decreases n,
{
    if n == 0 {
        0
    } else {
        let b = button_at((n - 1) as u32);
        encoded_upto(d, s, (n - 1) as nat) | if s.contains(b) {
            device_mask(d, b)
        } else {
            0
        }
    }
}

/// The native bit word of a family of controllers for a set of buttons: the union of
/// their masks.
pub open spec fn encoded(d: Device, s: Set<Button>) -> u32 {
    encoded_upto(d, s, 30)
}

/// The mask of a button on a family of controllers, see [`device_mask`].
pub fn mask(d: Device, b: Button) -> (r: u32)
    ensures
        r == device_mask(d, b),
{
    match d {
        Device::Vpad => match b {
            Button::A => 0x8000,
            Button::B => 0x4000,
            Button::X => 0x2000,
            Button::Y => 0x1000,
            Button::Left => 0x800,
            Button::Right => 0x400,
            Button::Up => 0x200,
            Button::Down => 0x100,
            Button::L => 0x20,
            Button::R => 0x10,
            Button::ZL => 0x80,
            Button::ZR => 0x40,
            Button::Plus => 0x8,
            Button::Minus => 0x4,
            Button::Home => 0x2,
            Button::Sync => 0x1,
            Button::RStick => 0x20000,
            Button::LStick => 0x40000,
            Button::RStickLeft => 0x4000000,
            Button::RStickRight => 0x2000000,
            Button::RStickUp => 0x1000000,
            Button::RStickDown => 0x800000,
            Button::LStickLeft => 0x40000000,
            Button::LStickRight => 0x20000000,
            Button::LStickUp => 0x10000000,
            Button::LStickDown => 0x8000000,
            _ => 0,
        },
        Device::Kpad => match b {
            Button::A => 0x800,
            Button::B => 0x400,
            Button::Left => 0x1,
            Button::Right => 0x2,
            Button::Up => 0x8,
            Button::Down => 0x4,
            Button::Plus => 0x10,
            Button::Minus => 0x1000,
            Button::Home => 0x8000,
            Button::One => 0x200,
            Button::Two => 0x100,
            Button::Z => 0x2000,
            Button::C => 0x4000,
            _ => 0,
        },
        Device::Nunchuk => match b {
            Button::LStickLeft => 0x1,
            Button::LStickRight => 0x2,
            Button::LStickUp => 0x8,
            Button::LStickDown => 0x4,
            Button::Z => 0x2000,
            Button::C => 0x4000,
            _ => 0,
        },
        Device::Classic => match b {
            Button::A => 0x10,
            Button::B => 0x40,
            Button::X => 0x8,
            Button::Y => 0x20,
            Button::Left => 0x2,
            Button::Right => 0x8000,
            Button::Up => 0x1,
            Button::Down => 0x4000,
            Button::L => 0x2000,
            Button::R => 0x200,
            Button::ZL => 0x80,
            Button::ZR => 0x4,
            Button::Plus => 0x400,
            Button::Minus => 0x1000,
            Button::Home => 0x800,
            Button::RStickLeft => 0x100000,
            Button::RStickRight => 0x200000,
            Button::RStickUp => 0x800000,
            Button::RStickDown => 0x400000,
            Button::LStickLeft => 0x10000,
            Button::LStickRight => 0x20000,
            Button::LStickUp => 0x80000,
            Button::LStickDown => 0x40000,
            _ => 0,
        },
        Device::Pro => match b {
            Button::A => 0x10,
            Button::B => 0x40,
            Button::X => 0x8,
            Button::Y => 0x20,
            Button::Left => 0x2,
            Button::Right => 0x8000,
            Button::Up => 0x1,
            Button::Down => 0x4000,
            Button::L => 0x2000,
            Button::R => 0x200,
            Button::ZL => 0x80,
            Button::ZR => 0x4,
            Button::Plus => 0x400,
            Button::Minus => 0x1000,
            Button::Home => 0x800,
            Button::RStick => 0x10000,
            Button::LStick => 0x20000,
            Button::RStickLeft => 0x400000,
            Button::RStickRight => 0x800000,
            Button::RStickUp => 0x2000000,
            Button::RStickDown => 0x1000000,
            Button::LStickLeft => 0x40000,
            Button::LStickRight => 0x80000,
            Button::LStickUp => 0x200000,
            Button::LStickDown => 0x100000,
            _ => 0,
        },
    }
}

/// The button at a position, see [`button_at`].
fn button_at_exec(i: u32) -> (r: Button)
    requires
        i < 30,
    ensures
        r == button_at(i),
        button_index(r) == i,
{
    match i {
        0 => Button::A,
        1 => Button::B,
        2 => Button::X,
        3 => Button::Y,
        4 => Button::Left,
        5 => Button::Right,
        6 => Button::Up,
        7 => Button::Down,
        8 => Button::L,
        9 => Button::R,
        10 => Button::ZL,
        11 => Button::ZR,
        12 => Button::Plus,
        13 => Button::Minus,
        14 => Button::Home,
        15 => Button::Sync,
        16 => Button::RStick,
        17 => Button::LStick,
        18 => Button::RStickLeft,
        19 => Button::RStickRight,
        20 => Button::RStickUp,
        21 => Button::RStickDown,
        22 => Button::LStickLeft,
        23 => Button::LStickRight,
        24 => Button::LStickUp,
        25 => Button::LStickDown,
        26 => Button::One,
        27 => Button::Two,
        28 => Button::Z,
        _ => Button::C,
    }
}

/// Each button sits at its own position.
pub proof fn lemma_button_index(b: Button)
    ensures
        button_index(b) < 30,
        button_at(button_index(b)) == b,
{
}

/// Setting bit `i` of `x` leaves every other bit as it was.
proof fn lemma_or_bit(x: u32, i: u32)
    requires
        i < 32,
    ensures
        forall|j: u32|
            j < 32 ==> (((x | (1u32 << i)) & (1u32 << j)) != 0) == (((x & (1u32 << j)) != 0) || j
                == i),
{
    assert(forall|j: u32|
        j < 32 ==> (((x | (1u32 << i)) & (1u32 << j)) != 0) == (((x & (1u32 << j)) != 0) || j
            == i)) by (bit_vector)
        requires
            i < 32,
    ;
}

/// A bit of `x | y` is set where it is set in `x` or in `y`.
proof fn lemma_or_and(x: u32, y: u32, m: u32)
    ensures
        ((x | y) & m != 0) == ((x & m != 0) || (y & m != 0)),
{
    assert(((x | y) & m != 0) == ((x & m != 0) || (y & m != 0))) by (bit_vector);
}

/// No bit is set in 0.
proof fn lemma_zero_and(m: u32)
    ensures
        0u32 & m == 0,
{
    assert(0u32 & m == 0) by (bit_vector);
}

/// A word shares all its bits with itself.
proof fn lemma_and_self(x: u32)
    ensures
        x & x == x,
{
    assert(x & x == x) by (bit_vector);
}

/// A bit pattern `m` meets the native word of the buttons of `s` among the first `n`
/// positions exactly where it meets the mask of one of them.
proof fn lemma_encoded_meets(d: Device, s: Set<Button>, n: nat, m: u32)
    requires
        n <= 30,
    ensures
        (encoded_upto(d, s, n) & m != 0) == (exists|j: u32|
            j < n && s.contains(button_at(j)) && #[trigger] (mask_at(d, j) & m) != 0),
    decreases n,
{
    if n == 0 {
        lemma_zero_and(m);
    } else {
        let k = (n - 1) as u32;
        lemma_encoded_meets(d, s, (n - 1) as nat, m);
        let b = button_at(k);
        lemma_button_index(b);
        assert(button_index(b) == k);
        let x: u32 = if s.contains(b) {
            device_mask(d, b)
        } else {
            0
        };
        lemma_or_and(encoded_upto(d, s, (n - 1) as nat), x, m);
        lemma_zero_and(m);
        if (encoded_upto(d, s, n) & m) != 0 {
            if (encoded_upto(d, s, (n - 1) as nat) & m) == 0 {
                assert(s.contains(button_at(k)) && (mask_at(d, k) & m) != 0);
            }
        }
        if exists|j: u32| j < n && s.contains(button_at(j)) && #[trigger] (mask_at(d, j) & m) != 0 {
            let j = choose|j: u32| j < n && s.contains(button_at(j)) && #[trigger] (mask_at(d, j) & m) != 0;
            if j == k {
                assert((x & m) != 0);
            }
        }
    }
}

/// Reading the union of two native words gives the buttons of either.
pub proof fn law_decoded_or(d: Device, x: u32, y: u32)
    ensures
        decoded(d, x | y) == decoded(d, x).union(decoded(d, y)),
{
    assert forall|b: Button| decoded(d, x | y).contains(b) == decoded(d, x).union(
        decoded(d, y),
    ).contains(b) by {
        lemma_or_and(x, y, device_mask(d, b));
    }
    assert(decoded(d, x | y) =~= decoded(d, x).union(decoded(d, y)));
}

/// Writing a set of buttons as a native word of a family of controllers and reading the
/// word back gives the buttons of the set that the family has.
pub proof fn law_decode_encode(d: Device, s: Set<Button>)
    ensures
        decoded(d, encoded(d, s)) == s.filter(|b: Button| device_mask(d, b) != 0),
{
    assert forall|b: Button| decoded(d, encoded(d, s)).contains(b) == (s.contains(b)
        && device_mask(d, b) != 0) by {
        lemma_button_index(b);
        let i = button_index(b);
        lemma_encoded_meets(d, s, 30, mask_at(d, i));
        if s.contains(b) && device_mask(d, b) != 0 {
            lemma_and_self(mask_at(d, i));
            assert(s.contains(button_at(i)) && (mask_at(d, i) & mask_at(d, i)) != 0);
        }
        if exists|j: u32|
            j < 30 && s.contains(button_at(j)) && #[trigger] (mask_at(d, j) & mask_at(d, i)) != 0 {
            let j = choose|j: u32|
                j < 30 && s.contains(button_at(j)) && #[trigger] (mask_at(d, j) & mask_at(d, i))
                    != 0;
            if j != i {
                lemma_masks_disjoint(d, j, i);
            } else {
                lemma_and_self(mask_at(d, i));
            }
        }
    }
    assert(decoded(d, encoded(d, s)) =~= s.filter(|b: Button| device_mask(d, b) != 0));
}

/// The encoding of the buttons of `{b}` among the first `n` positions: the mask of `b` once
/// its position is among them, nothing before.
proof fn lemma_encoded_single(d: Device, b: Button, n: nat)
    requires
        n <= 30,
    ensures
        encoded_upto(d, set![b], n) == if button_index(b) < n {
            device_mask(d, b)
        } else {
            0
        },
    decreases n,
{
    lemma_button_index(b);
    if n > 0 {
        lemma_encoded_single(d, b, (n - 1) as nat);
        let c = button_at((n - 1) as u32);
        let prev = encoded_upto(d, set![b], (n - 1) as nat);
        let m = device_mask(d, b);
        if c == b {
            assert(button_index(b) == n - 1);
            assert(prev == 0);
            assert(0u32 | m == m) by (bit_vector);
        } else {
            assert(!set![b].contains(c));
            assert(button_index(b) != n - 1);
            assert(prev | 0u32 == prev) by (bit_vector);
        }
    }
}

/// A native word of one button's bits reads as that button alone, and that button alone is
/// written as its bits: no other button shares a bit with it.
pub proof fn law_single_button(d: Device, b: Button)
    requires
        device_mask(d, b) != 0,
    ensures
        decoded(d, device_mask(d, b)) == set![b],
        encoded(d, set![b]) == device_mask(d, b),
{
    lemma_button_index(b);
    lemma_encoded_single(d, b, 30);
    let m = device_mask(d, b);
    assert forall|c: Button| decoded(d, m).contains(c) == set![b].contains(c) by {
        lemma_button_index(c);
        if c == b {
            lemma_and_self(m);
        } else {
            assert(button_index(c) != button_index(b));
            lemma_masks_disjoint(d, button_index(b), button_index(c));
        }
    }
    assert(decoded(d, m) =~= set![b]);
}

/// The native bits of each button on the GamePad (VPAD): A 0x8000 down to Sync 0x1, the
/// stick presses 0x20000 and 0x40000, and the stick emulation bits; a button that the
/// GamePad lacks has none.
pub proof fn law_vpad_native_masks()
    ensures
        device_mask(Device::Vpad, Button::A) == 0x8000,
        device_mask(Device::Vpad, Button::B) == 0x4000,
        device_mask(Device::Vpad, Button::X) == 0x2000,
        device_mask(Device::Vpad, Button::Y) == 0x1000,
        device_mask(Device::Vpad, Button::Left) == 0x800,
        device_mask(Device::Vpad, Button::Right) == 0x400,
        device_mask(Device::Vpad, Button::Up) == 0x200,
        device_mask(Device::Vpad, Button::Down) == 0x100,
        device_mask(Device::Vpad, Button::L) == 0x20,
        device_mask(Device::Vpad, Button::R) == 0x10,
        device_mask(Device::Vpad, Button::ZL) == 0x80,
        device_mask(Device::Vpad, Button::ZR) == 0x40,
        device_mask(Device::Vpad, Button::Plus) == 0x8,
        device_mask(Device::Vpad, Button::Minus) == 0x4,
        device_mask(Device::Vpad, Button::Home) == 0x2,
        device_mask(Device::Vpad, Button::Sync) == 0x1,
        device_mask(Device::Vpad, Button::RStick) == 0x20000,
        device_mask(Device::Vpad, Button::LStick) == 0x40000,
        device_mask(Device::Vpad, Button::RStickLeft) == 0x4000000,
        device_mask(Device::Vpad, Button::RStickRight) == 0x2000000,
        device_mask(Device::Vpad, Button::RStickUp) == 0x1000000,
        device_mask(Device::Vpad, Button::RStickDown) == 0x800000,
        device_mask(Device::Vpad, Button::LStickLeft) == 0x40000000,
        device_mask(Device::Vpad, Button::LStickRight) == 0x20000000,
        device_mask(Device::Vpad, Button::LStickUp) == 0x10000000,
        device_mask(Device::Vpad, Button::LStickDown) == 0x8000000,
        device_mask(Device::Vpad, Button::One) == 0,
        device_mask(Device::Vpad, Button::Two) == 0,
        device_mask(Device::Vpad, Button::Z) == 0,
        device_mask(Device::Vpad, Button::C) == 0,
{
}

/// The native bits of each button of a Wii remote's core buttons (WPAD); a button that
/// the remote lacks has none.
pub proof fn law_kpad_native_masks()
    ensures
        device_mask(Device::Kpad, Button::A) == 0x800,
        device_mask(Device::Kpad, Button::B) == 0x400,
        device_mask(Device::Kpad, Button::X) == 0,
        device_mask(Device::Kpad, Button::Y) == 0,
        device_mask(Device::Kpad, Button::Left) == 0x1,
        device_mask(Device::Kpad, Button::Right) == 0x2,
        device_mask(Device::Kpad, Button::Up) == 0x8,
        device_mask(Device::Kpad, Button::Down) == 0x4,
        device_mask(Device::Kpad, Button::L) == 0,
        device_mask(Device::Kpad, Button::R) == 0,
        device_mask(Device::Kpad, Button::ZL) == 0,
        device_mask(Device::Kpad, Button::ZR) == 0,
        device_mask(Device::Kpad, Button::Plus) == 0x10,
        device_mask(Device::Kpad, Button::Minus) == 0x1000,
        device_mask(Device::Kpad, Button::Home) == 0x8000,
        device_mask(Device::Kpad, Button::Sync) == 0,
        device_mask(Device::Kpad, Button::RStick) == 0,
        device_mask(Device::Kpad, Button::LStick) == 0,
        device_mask(Device::Kpad, Button::RStickLeft) == 0,
        device_mask(Device::Kpad, Button::RStickRight) == 0,
        device_mask(Device::Kpad, Button::RStickUp) == 0,
        device_mask(Device::Kpad, Button::RStickDown) == 0,
        device_mask(Device::Kpad, Button::LStickLeft) == 0,
        device_mask(Device::Kpad, Button::LStickRight) == 0,
        device_mask(Device::Kpad, Button::LStickUp) == 0,
        device_mask(Device::Kpad, Button::LStickDown) == 0,
        device_mask(Device::Kpad, Button::One) == 0x200,
        device_mask(Device::Kpad, Button::Two) == 0x100,
        device_mask(Device::Kpad, Button::Z) == 0x2000,
        device_mask(Device::Kpad, Button::C) == 0x4000,
{
}

/// The native bits of each button on a Nunchuk: its stick emulation bits and the Z and C
/// buttons; a button that it lacks has none.
pub proof fn law_nunchuk_native_masks()
    ensures
        device_mask(Device::Nunchuk, Button::A) == 0,
        device_mask(Device::Nunchuk, Button::B) == 0,
        device_mask(Device::Nunchuk, Button::X) == 0,
        device_mask(Device::Nunchuk, Button::Y) == 0,
        device_mask(Device::Nunchuk, Button::Left) == 0,
        device_mask(Device::Nunchuk, Button::Right) == 0,
        device_mask(Device::Nunchuk, Button::Up) == 0,
        device_mask(Device::Nunchuk, Button::Down) == 0,
        device_mask(Device::Nunchuk, Button::L) == 0,
        device_mask(Device::Nunchuk, Button::R) == 0,
        device_mask(Device::Nunchuk, Button::ZL) == 0,
        device_mask(Device::Nunchuk, Button::ZR) == 0,
        device_mask(Device::Nunchuk, Button::Plus) == 0,
        device_mask(Device::Nunchuk, Button::Minus) == 0,
        device_mask(Device::Nunchuk, Button::Home) == 0,
        device_mask(Device::Nunchuk, Button::Sync) == 0,
        device_mask(Device::Nunchuk, Button::RStick) == 0,
        device_mask(Device::Nunchuk, Button::LStick) == 0,
        device_mask(Device::Nunchuk, Button::RStickLeft) == 0,
        device_mask(Device::Nunchuk, Button::RStickRight) == 0,
        device_mask(Device::Nunchuk, Button::RStickUp) == 0,
        device_mask(Device::Nunchuk, Button::RStickDown) == 0,
        device_mask(Device::Nunchuk, Button::LStickLeft) == 0x1,
        device_mask(Device::Nunchuk, Button::LStickRight) == 0x2,
        device_mask(Device::Nunchuk, Button::LStickUp) == 0x8,
        device_mask(Device::Nunchuk, Button::LStickDown) == 0x4,
        device_mask(Device::Nunchuk, Button::One) == 0,
        device_mask(Device::Nunchuk, Button::Two) == 0,
        device_mask(Device::Nunchuk, Button::Z) == 0x2000,
        device_mask(Device::Nunchuk, Button::C) == 0x4000,
{
}

/// The native bits of each button on a Classic Controller, ZL and ZR on their own bits; a
/// button that it lacks has none.
pub proof fn law_classic_native_masks()
    ensures
        device_mask(Device::Classic, Button::A) == 0x10,
        device_mask(Device::Classic, Button::B) == 0x40,
        device_mask(Device::Classic, Button::X) == 0x8,
        device_mask(Device::Classic, Button::Y) == 0x20,
        device_mask(Device::Classic, Button::Left) == 0x2,
        device_mask(Device::Classic, Button::Right) == 0x8000,
        device_mask(Device::Classic, Button::Up) == 0x1,
        device_mask(Device::Classic, Button::Down) == 0x4000,
        device_mask(Device::Classic, Button::L) == 0x2000,
        device_mask(Device::Classic, Button::R) == 0x200,
        device_mask(Device::Classic, Button::ZL) == 0x80,
        device_mask(Device::Classic, Button::ZR) == 0x4,
        device_mask(Device::Classic, Button::Plus) == 0x400,
        device_mask(Device::Classic, Button::Minus) == 0x1000,
        device_mask(Device::Classic, Button::Home) == 0x800,
        device_mask(Device::Classic, Button::Sync) == 0,
        device_mask(Device::Classic, Button::RStick) == 0,
        device_mask(Device::Classic, Button::LStick) == 0,
        device_mask(Device::Classic, Button::RStickLeft) == 0x100000,
        device_mask(Device::Classic, Button::RStickRight) == 0x200000,
        device_mask(Device::Classic, Button::RStickUp) == 0x800000,
        device_mask(Device::Classic, Button::RStickDown) == 0x400000,
        device_mask(Device::Classic, Button::LStickLeft) == 0x10000,
        device_mask(Device::Classic, Button::LStickRight) == 0x20000,
        device_mask(Device::Classic, Button::LStickUp) == 0x80000,
        device_mask(Device::Classic, Button::LStickDown) == 0x40000,
        device_mask(Device::Classic, Button::One) == 0,
        device_mask(Device::Classic, Button::Two) == 0,
        device_mask(Device::Classic, Button::Z) == 0,
        device_mask(Device::Classic, Button::C) == 0,
{
}

/// The native bits of each button on a Wii U Pro Controller, ZL and ZR on their own bits;
/// a button that it lacks has none.
pub proof fn law_pro_native_masks()
    ensures
        device_mask(Device::Pro, Button::A) == 0x10,
        device_mask(Device::Pro, Button::B) == 0x40,
        device_mask(Device::Pro, Button::X) == 0x8,
        device_mask(Device::Pro, Button::Y) == 0x20,
        device_mask(Device::Pro, Button::Left) == 0x2,
        device_mask(Device::Pro, Button::Right) == 0x8000,
        device_mask(Device::Pro, Button::Up) == 0x1,
        device_mask(Device::Pro, Button::Down) == 0x4000,
        device_mask(Device::Pro, Button::L) == 0x2000,
        device_mask(Device::Pro, Button::R) == 0x200,
        device_mask(Device::Pro, Button::ZL) == 0x80,
        device_mask(Device::Pro, Button::ZR) == 0x4,
        device_mask(Device::Pro, Button::Plus) == 0x400,
        device_mask(Device::Pro, Button::Minus) == 0x1000,
        device_mask(Device::Pro, Button::Home) == 0x800,
        device_mask(Device::Pro, Button::Sync) == 0,
        device_mask(Device::Pro, Button::RStick) == 0x10000,
        device_mask(Device::Pro, Button::LStick) == 0x20000,
        device_mask(Device::Pro, Button::RStickLeft) == 0x400000,
        device_mask(Device::Pro, Button::RStickRight) == 0x800000,
        device_mask(Device::Pro, Button::RStickUp) == 0x2000000,
        device_mask(Device::Pro, Button::RStickDown) == 0x1000000,
        device_mask(Device::Pro, Button::LStickLeft) == 0x40000,
        device_mask(Device::Pro, Button::LStickRight) == 0x80000,
        device_mask(Device::Pro, Button::LStickUp) == 0x200000,
        device_mask(Device::Pro, Button::LStickDown) == 0x100000,
        device_mask(Device::Pro, Button::One) == 0,
        device_mask(Device::Pro, Button::Two) == 0,
        device_mask(Device::Pro, Button::Z) == 0,
        device_mask(Device::Pro, Button::C) == 0,
{
}

/// A set of buttons, as one bit per button.
#[derive(Debug, Clone, Copy, PartialEq, Eq, Structural)]
pub struct ButtonSet {
    bits: u32,
}

impl View for ButtonSet {
    type V = Set<Button>;

    closed spec fn view(&self) -> Set<Button> {
        Set::new(|b: Button| self.bits & (1u32 << button_index(b)) != 0)
    }
}

impl ButtonSet {
    /// The set with no button.
    pub fn empty() -> (r: ButtonSet)
        ensures
            r@ == Set::<Button>::empty(),
    {
        proof {
            assert forall|b: Button| !(0u32 & (1u32 << button_index(b)) != 0) by {
                lemma_zero_and(1u32 << button_index(b));
            }
        }
        let r = ButtonSet { bits: 0 };
        assert(r@ =~= Set::<Button>::empty());
        r
    }

    /// The set of the one button `b`, as bits.
    fn single_bits(b: Button) -> (r: ButtonSet)
        ensures
            r.bits == 0u32 | (1u32 << button_index(b)),
            r@ == set![b],
    {
        let i = button_index_exec(b);
        proof {
            lemma_button_index(b);
            lemma_or_bit(0, i);
            assert forall|c: Button| #[trigger] (0u32 & (1u32 << button_index(c))) == 0 by {
                lemma_zero_and(1u32 << button_index(c));
            }
            assert forall|c: Button| c != b implies button_index(c) != i by {
                lemma_button_index(c);
            }
        }
        let r = ButtonSet { bits: 0u32 | (1u32 << i) };
        assert(r@ =~= set![b]);
        r
    }

    /// The set of the one button `b`.
    pub fn single(b: Button) -> (r: ButtonSet)
        ensures
            r@ == set![b],
    {
        ButtonSet::single_bits(b)
    }

    /// Whether `b` is in the set.
    pub fn contains(&self, b: Button) -> (r: bool)
        ensures
            r == self@.contains(b),
    {
        let i = button_index_exec(b);
        proof {
            lemma_button_index(b);
        }
        self.bits & (1u32 << i) != 0
    }

    /// Whether the set has no button.
    pub fn is_empty(&self) -> (r: bool)
        ensures
            r == (self@ == Set::<Button>::empty()),
    {
        let mut i: u32 = 0;
        while i < 30
            invariant
                i <= 30,
                forall|j: u32| j < i ==> !self@.contains(#[trigger] button_at(j)),
            decreases 30 - i,
        {
            let b = button_at_exec(i);
            if self.contains(b) {
                assert(self@.contains(b));
                assert(self@ != Set::<Button>::empty());
                return false;
            }
            i = i + 1;
        }
        proof {
            assert forall|b: Button| !self@.contains(b) by {
                lemma_button_index(b);
                assert(!self@.contains(button_at(button_index(b))));
            }
            assert(self@ =~= Set::<Button>::empty());
        }
        true
    }

    /// The buttons in either set.
    pub fn union(self, other: ButtonSet) -> (r: ButtonSet)
        ensures
            r@ == self@.union(other@),
    {
        let r = ButtonSet { bits: self.bits | other.bits };
        proof {
            assert forall|b: Button| r@.contains(b) == (self@.contains(b) || other@.contains(b)) by {
                lemma_or_and(self.bits, other.bits, 1u32 << button_index(b));
            }
            assert(r@ =~= self@.union(other@));
        }
        r
    }

    /// The native bit word of a family of controllers for the set: the union of the masks
    /// of its buttons.
    pub fn encode(self, d: Device) -> (r: u32)
        ensures
            r == encoded(d, self@),
    {
        let mut r: u32 = 0;
        let mut i: u32 = 0;
        while i < 30
            invariant
                i <= 30,
                r == encoded_upto(d, self@, i as nat),
            decreases 30 - i,
        {
            let b = button_at_exec(i);
            if self.contains(b) {
                r = r | mask(d, b);
            } else {
                proof {
                    assert(r | 0u32 == r) by (bit_vector);
                }
            }
            i = i + 1;
        }
        r
    }

    /// The buttons that a native bit word of a family of controllers holds: each button
    /// whose mask shares a bit with `bits`.
    pub fn decode(d: Device, bits: u32) -> (r: ButtonSet)
        ensures
            r@ == decoded(d, bits),
    {
        let mut r: u32 = 0;
        let mut i: u32 = 0;
        proof {
            assert forall|j: u32| j < 32 implies #[trigger] (0u32 & (1u32 << j)) == 0 by {
                lemma_zero_and(1u32 << j);
            }
        }
        while i < 30
            invariant
                i <= 30,
                forall|j: u32|
                    j < 30 ==> ((r & (1u32 << j)) != 0) == (j < i && bits & device_mask(
                        d,
                        #[trigger] button_at(j),
                    ) != 0),
            decreases 30 - i,
        {
            let b = button_at_exec(i);
            if bits & mask(d, b) != 0 {
                proof {
                    lemma_or_bit(r, i);
                }
                r = r | (1u32 << i);
            }
            i = i + 1;
        }
        let s = ButtonSet { bits: r };
        proof {
            assert forall|b: Button| s@.contains(b) == decoded(d, bits).contains(b) by {
                lemma_button_index(b);
                assert(button_at(button_index(b)) == b);
            }
            assert(s@ =~= decoded(d, bits));
        }
        s
    }
}

/// The position of a button, see [`button_index`].
fn button_index_exec(b: Button) -> (r: u32)
    ensures
        r == button_index(b),
{
    match b {
        Button::A => 0,
        Button::B => 1,
        Button::X => 2,
        Button::Y => 3,
        Button::Left => 4,
        Button::Right => 5,
        Button::Up => 6,
        Button::Down => 7,
        Button::L => 8,
        Button::R => 9,
        Button::ZL => 10,
        Button::ZR => 11,
        Button::Plus => 12,
        Button::Minus => 13,
        Button::Home => 14,
        Button::Sync => 15,
        Button::RStick => 16,
        Button::LStick => 17,
        Button::RStickLeft => 18,
        Button::RStickRight => 19,
        Button::RStickUp => 20,
        Button::RStickDown => 21,
        Button::LStickLeft => 22,
        Button::LStickRight => 23,
        Button::LStickUp => 24,
        Button::LStickDown => 25,
        Button::One => 26,
        Button::Two => 27,
        Button::Z => 28,
        Button::C => 29,
    }
}

impl From<Button> for ButtonSet {
    /// The set of the one button.
    fn from(b: Button) -> (r: ButtonSet)
        ensures
            r@ == set![b],
    {
        ButtonSet::single_bits(b)
    }
}

impl FromSpecImpl<Button> for ButtonSet {
    open spec fn obeys_from_spec() -> bool {
        true
    }

    closed spec fn from_spec(b: Button) -> ButtonSet {
        ButtonSet { bits: 0u32 | (1u32 << button_index(b)) }
    }
}

impl Button {
    /// The set with no button pressed.
    pub fn none() -> (r: ButtonSet)
        ensures
            r@ == Set::<Button>::empty(),
    {
        ButtonSet::empty()
    }

    /// The buttons that a native Vpad bit word holds.
    pub fn from_vpad(buttons: u32) -> (r: ButtonSet)
        ensures
            r@ == decoded(Device::Vpad, buttons),
    {
        ButtonSet::decode(Device::Vpad, buttons)
    }

    /// The native Vpad bit word for a set of buttons.
    pub fn into_vpad(buttons: ButtonSet) -> (r: u32)
        ensures
            r == encoded(Device::Vpad, buttons@),
    {
        buttons.encode(Device::Vpad)
    }

    /// The buttons that a native Kpad bit word holds.
    pub fn from_kpad(buttons: u32) -> (r: ButtonSet)
        ensures
            r@ == decoded(Device::Kpad, buttons),
    {
        ButtonSet::decode(Device::Kpad, buttons)
    }

    /// The native Kpad bit word for a set of buttons.
    pub fn into_kpad(buttons: ButtonSet) -> (r: u32)
        ensures
            r == encoded(Device::Kpad, buttons@),
    {
        buttons.encode(Device::Kpad)
    }

    /// The buttons that a native Nunchuk bit word holds.
    pub fn from_nunchuk(buttons: u32) -> (r: ButtonSet)
        ensures
            r@ == decoded(Device::Nunchuk, buttons),
    {
        ButtonSet::decode(Device::Nunchuk, buttons)
    }

    /// The native Nunchuk bit word for a set of buttons.
    pub fn into_nunchuk(buttons: ButtonSet) -> (r: u32)
        ensures
            r == encoded(Device::Nunchuk, buttons@),
    {
        buttons.encode(Device::Nunchuk)
    }

    /// The buttons that a native Classic bit word holds.
    pub fn from_classic(buttons: u32) -> (r: ButtonSet)
        ensures
            r@ == decoded(Device::Classic, buttons),
    {
        ButtonSet::decode(Device::Classic, buttons)
    }

    /// The native Classic bit word for a set of buttons.
    pub fn into_classic(buttons: ButtonSet) -> (r: u32)
        ensures
            r == encoded(Device::Classic, buttons@),
    {
        buttons.encode(Device::Classic)
    }

    /// The buttons that a native Pro bit word holds.
    pub fn from_pro(buttons: u32) -> (r: ButtonSet)
        ensures
            r@ == decoded(Device::Pro, buttons),
    {
        ButtonSet::decode(Device::Pro, buttons)
    }

    /// The native Pro bit word for a set of buttons.
    pub fn into_pro(buttons: ButtonSet) -> (r: u32)
        ensures
            r == encoded(Device::Pro, buttons@),
    {
        buttons.encode(Device::Pro)
    }

}

} // verus!
