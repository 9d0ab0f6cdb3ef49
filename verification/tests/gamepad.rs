use lib::gamepad::pad::gamepads;
use lib::gamepad::{
    input_library, Button, ButtonSet, DualStickStatus, Extension, Gamepad, GamepadError,
    InputLibrary, KpadStatus, NunchukStatus, Port, RawStatus, State, Stick, VpadStatus,
};

fn set(buttons: &[Button]) -> ButtonSet {
    let mut s = Button::none();
    for b in buttons {
        s = s.union(ButtonSet::from(*b));
    }
    s
}

fn stick(x: u32, y: u32) -> Stick {
    Stick { x_bits: x, y_bits: y }
}

#[test]
fn none_is_empty() {
    assert_eq!(Button::none().is_empty(), true);
    assert!(!ButtonSet::single(Button::A).is_empty());
}

#[test]
fn vpad_single_buttons() {
    assert_eq!(Button::from_vpad(0x8000), Button::A.into());
    assert_eq!(Button::into_vpad(Button::A.into()), 0x8000);
    assert_eq!(Button::from_vpad(0x0001), ButtonSet::single(Button::Sync));
    assert_eq!(Button::into_vpad(ButtonSet::single(Button::LStickLeft)), 0x4000_0000);
}

#[test]
fn vpad_several_buttons() {
    let s = Button::from_vpad(0x8000 | 0x0020 | 0x0002_0000);
    assert!(s.contains(Button::A));
    assert!(s.contains(Button::L));
    assert!(s.contains(Button::RStick));
    assert!(!s.contains(Button::B));
    assert_eq!(s, set(&[Button::A, Button::L, Button::RStick]));
    assert_eq!(Button::into_vpad(s), 0x8000 | 0x0020 | 0x0002_0000);
}

#[test]
fn vpad_ignores_unmapped_bits() {
    // the TV button bit has no button of its own
    assert!(Button::from_vpad(0x0001_0000).is_empty());
    assert_eq!(Button::into_vpad(ButtonSet::single(Button::Z)), 0);
}

#[test]
fn kpad_buttons() {
    assert_eq!(Button::from_kpad(0x0800), Button::A.into());
    assert_eq!(Button::into_kpad(Button::A.into()), 0x0800);
    assert_eq!(Button::from_kpad(0x0200 | 0x0100), set(&[Button::One, Button::Two]));
    assert_eq!(Button::into_kpad(set(&[Button::Up, Button::Home])), 0x0008 | 0x8000);
}

#[test]
fn nunchuk_buttons() {
    assert_eq!(Button::from_nunchuk(0x2000), Button::Z.into());
    assert_eq!(Button::into_nunchuk(Button::Z.into()), 0x2000);
    assert_eq!(Button::from_nunchuk(0x0001 | 0x4000), set(&[Button::LStickLeft, Button::C]));
}

#[test]
fn classic_buttons() {
    assert_eq!(Button::from_classic(0x0010), Button::A.into());
    assert_eq!(Button::from_classic(0x0080), Button::ZL.into());
    assert_eq!(Button::from_classic(0x0004), Button::ZR.into());
    assert_eq!(Button::from_classic(0x0002), Button::Left.into());
    assert_eq!(Button::from_classic(0x8000), Button::Right.into());
    assert_eq!(Button::into_classic(Button::ZL.into()), 0x0080);
    assert_eq!(Button::into_classic(Button::ZR.into()), 0x0004);
    assert_eq!(Button::into_classic(Button::Left.into()), 0x0002);
    assert_eq!(Button::into_classic(Button::Right.into()), 0x8000);
}

#[test]
fn pro_buttons() {
    assert_eq!(Button::from_pro(0x0008), Button::X.into());
    assert_eq!(Button::into_pro(Button::X.into()), 0x0008);
    assert_eq!(Button::from_pro(0x0080 | 0x0004), set(&[Button::ZL, Button::ZR]));
    assert_eq!(Button::into_pro(set(&[Button::RStickUp, Button::LStick])), 0x0200_0000 | 0x0002_0000);
}

#[test]
fn vpad_round_trip() {
    let s = set(&[Button::B, Button::Down, Button::Minus, Button::RStickDown]);
    assert_eq!(Button::from_vpad(Button::into_vpad(s)), s);
}

#[test]
fn state_from_vpad_and_back() {
    let status = VpadStatus {
        hold: 0x8000,
        trigger: 0x4000,
        release: 0,
        left_stick: stick(1, 2),
        right_stick: stick(3, 4),
    };
    let state = State::from_vpad(status);
    assert_eq!(state.hold, Button::A.into());
    assert_eq!(state.trigger, Button::B.into());
    assert!(state.release.is_empty());
    assert_eq!(state.left_stick, Some(stick(1, 2)));
    assert_eq!(state.right_stick, Some(stick(3, 4)));
    assert_eq!(state.into_vpad(), status);
}

#[test]
fn state_into_vpad_centres_missing_sticks() {
    let mut state = State::new();
    state.hold = Button::X.into();
    let v = state.into_vpad();
    assert_eq!(v.hold, 0x2000);
    assert_eq!(v.left_stick, Stick::centered());
    assert_eq!(v.right_stick, stick(0, 0));
    let d = State::default();
    assert!(d.hold.is_empty() && d.left_stick.is_none());
}

#[test]
fn state_bitor_joins_buttons_and_overwrites_sticks() {
    let mut a = State::new();
    a.hold = Button::A.into();
    a.left_stick = Some(stick(1, 1));
    a.right_stick = Some(stick(2, 2));
    let mut b = State::new();
    b.hold = Button::B.into();
    b.left_stick = Some(stick(9, 9));
    a.bitor_assign(b);
    assert_eq!(a.hold, set(&[Button::A, Button::B]));
    assert_eq!(a.left_stick, Some(stick(9, 9)));
    assert_eq!(a.right_stick, Some(stick(2, 2)));
}

#[test]
fn vpad_status_bitor_and_bitand() {
    let mut v = VpadStatus {
        hold: 0x0001,
        trigger: 0,
        release: 0,
        left_stick: stick(5, 5),
        right_stick: stick(6, 6),
    };
    let mut s = State::new();
    s.hold = Button::A.into();
    s.right_stick = Some(stick(7, 7));
    v.bitor_assign(s);
    assert_eq!(v.hold, 0x8001);
    assert_eq!(v.left_stick, stick(5, 5));
    assert_eq!(v.right_stick, stick(7, 7));
    v.bitand_assign(s);
    assert_eq!(v.hold, 0x8000);
    assert_eq!(v.left_stick, Stick::centered());
    assert_eq!(v.right_stick, stick(7, 7));
}

#[test]
fn state_from_kpad_with_nunchuk() {
    let k = KpadStatus {
        hold: 0x0800,
        trigger: 0,
        release: 0x0010,
        extension: Extension::Nunchuk(NunchukStatus {
            hold: 0x2000,
            trigger: 0x4000,
            release: 0,
            stick: stick(8, 8),
        }),
    };
    let s = State::from_kpad(k);
    assert_eq!(s.hold, set(&[Button::A, Button::Z]));
    assert_eq!(s.trigger, set(&[Button::C]));
    assert_eq!(s.release, set(&[Button::Plus]));
    assert_eq!(s.left_stick, Some(stick(8, 8)));
    assert_eq!(s.right_stick, None);
}

#[test]
fn state_from_kpad_without_extension() {
    let k = KpadStatus { hold: 0x0001, trigger: 0, release: 0, extension: Extension::Other(0) };
    let s = State::from_kpad(k);
    assert_eq!(s.hold, set(&[Button::Left]));
    assert_eq!(s.left_stick, None);
}

#[test]
fn kpad_status_bitor_and_bitand_with_classic() {
    let classic = DualStickStatus {
        hold: 0x0010,
        trigger: 0,
        release: 0,
        left_stick: stick(1, 1),
        right_stick: stick(2, 2),
    };
    let mut k = KpadStatus { hold: 0, trigger: 0, release: 0, extension: Extension::Classic(classic) };
    let mut s = State::new();
    s.hold = set(&[Button::B, Button::Left]);
    s.left_stick = Some(stick(4, 4));
    k.bitor_assign(s);
    assert_eq!(k.hold, 0x0400 | 0x0001);
    match k.extension {
        Extension::Classic(c) => {
            assert_eq!(c.hold, 0x0010 | 0x0040 | 0x0002);
            assert_eq!(c.left_stick, stick(4, 4));
            assert_eq!(c.right_stick, stick(2, 2));
        }
        _ => panic!("the extension changed"),
    }
    k.bitand_assign(s);
    match k.extension {
        Extension::Classic(c) => {
            assert_eq!(c.hold, 0x0040 | 0x0002);
            assert_eq!(c.right_stick, Stick::centered());
        }
        _ => panic!("the extension changed"),
    }
}

#[test]
fn kpad_other_extension_is_left_alone() {
    let mut k = KpadStatus { hold: 0, trigger: 0, release: 0, extension: Extension::Other(5) };
    let mut s = State::new();
    s.hold = Button::Home.into();
    k.bitand_assign(s);
    assert_eq!(k.hold, 0x8000);
    assert_eq!(k.extension, Extension::Other(5));
}

#[test]
fn ports() {
    let all = Port::iter();
    assert_eq!(all.len(), 8);
    assert_eq!(all[0], Port::DRC);
    assert_eq!(all[7], Port::Port6);
    assert_eq!(Port::from_wpad(3), Port::Port3);
    assert_eq!(Port::from_vpad(0), Port::DRC);
    let c: u32 = Port::Port5.into();
    assert_eq!(c, 5);
    let d: u32 = Port::DRC.into();
    assert_eq!(d, 0);
}

#[test]
fn poll_outcomes() {
    let v = VpadStatus { hold: 0x8000, trigger: 0, release: 0, left_stick: stick(0, 0), right_stick: stick(0, 0) };
    let pad = Gamepad::new(Port::DRC);
    let ok = pad.poll(1, 0, RawStatus::Vpad(v)).unwrap();
    assert_eq!(ok.hold, Button::A.into());
    assert_eq!(pad.poll(0, -1, RawStatus::Vpad(v)), Err(GamepadError::NoSamples));
    assert_eq!(pad.poll(0, -2, RawStatus::Vpad(v)), Err(GamepadError::InvalidController));
    // a read of a sample succeeds whatever the code
    assert!(pad.poll(1, -1, RawStatus::Vpad(v)).is_ok());
    // no sample but a success code still reads the record
    assert!(pad.poll(0, 0, RawStatus::Vpad(v)).is_ok());
    let remote = Gamepad::new(Port::Port3);
    let k = KpadStatus { hold: 0x0800, trigger: 0, release: 0, extension: Extension::Other(0) };
    assert_eq!(remote.poll(1, 0, RawStatus::Kpad(k)).unwrap().hold, Button::A.into());
    assert_eq!(remote.poll(0, -4, RawStatus::Kpad(k)), Err(GamepadError::Busy));
}

#[test]
fn input_library_of_ports() {
    assert_eq!(input_library(Port::DRC), InputLibrary::Vpad);
    for p in [Port::Port0, Port::Port1, Port::Port2, Port::Port3, Port::Port4, Port::Port5, Port::Port6] {
        assert_eq!(input_library(p), InputLibrary::Kpad);
        assert_eq!(Gamepad::new(p).library, InputLibrary::Kpad);
    }
    assert_eq!(Gamepad::new(Port::DRC).library, InputLibrary::Vpad);
    let pads = gamepads(&vec![true, true, false, false, false, false, false, false]);
    assert_eq!(pads[0].library, InputLibrary::Vpad);
    assert_eq!(pads[1].library, InputLibrary::Kpad);
}

#[test]
fn gamepads_keep_ready_ports() {
    let pads = gamepads(&vec![true, false, true, false, false, false, false, true]);
    let ports: Vec<Port> = pads.iter().map(|g| g.port).collect();
    assert_eq!(ports, vec![Port::DRC, Port::Port1, Port::Port6]);
    assert_eq!(Gamepad::new(Port::Port2).port, Port::Port2);
}

#[test]
fn classic_round_trip_drops_what_it_lacks() {
    // the classic controller has no One button
    let s = set(&[Button::A, Button::Left, Button::ZL, Button::One]);
    assert_eq!(Button::from_classic(Button::into_classic(s)), set(&[Button::A, Button::Left, Button::ZL]));
    let t = set(&[Button::Up, Button::Home, Button::One]);
    assert_eq!(Button::from_kpad(Button::into_kpad(t)), t);
}
