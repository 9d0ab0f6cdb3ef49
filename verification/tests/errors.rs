use lib::dialog::{Controller, Language, Region};
use lib::errno::SystemError;
use lib::gamepad::GamepadError;
use lib::thread::ThreadError;

#[test]
fn errno_zero_is_no_error() {
    assert_eq!(SystemError::try_from(0), Ok(SystemError::Unknown(0)));
    assert_eq!(SystemError::from_errno(0), SystemError::Unknown(0));
}

#[test]
fn errno_known_numbers() {
    assert_eq!(SystemError::try_from(1), Err(SystemError::PermissionInvalid));
    assert_eq!(SystemError::try_from(2), Err(SystemError::NoEntry));
    assert_eq!(SystemError::try_from(11), Err(SystemError::NoMoreProcesses));
    assert_eq!(SystemError::try_from(16), Err(SystemError::Busy));
    assert_eq!(SystemError::try_from(22), Err(SystemError::InvalidArgument));
    assert_eq!(SystemError::try_from(88), Err(SystemError::FunctionNotImplemented));
    assert_eq!(SystemError::try_from(95), Err(SystemError::OperationNotSupportedOnSocket));
    assert_eq!(SystemError::try_from(104), Err(SystemError::ConnectionReset));
    assert_eq!(SystemError::try_from(116), Err(SystemError::TimedOut));
    assert_eq!(SystemError::try_from(134), Err(SystemError::NotSupported));
    assert_eq!(SystemError::try_from(142), Err(SystemError::OwnerDead));
    assert_eq!(SystemError::from_errno(17), SystemError::Exist);
}

#[test]
fn errno_unknown_numbers() {
    assert_eq!(SystemError::try_from(15), Err(SystemError::Unknown(15)));
    assert_eq!(SystemError::try_from(-1), Err(SystemError::Unknown(-1)));
    assert_eq!(SystemError::try_from(143), Err(SystemError::Unknown(143)));
    assert_eq!(SystemError::from_errno(9999), SystemError::Unknown(9999));
}

#[test]
fn gamepad_error_codes() {
    assert_eq!(GamepadError::try_from(0), Ok(GamepadError::Busy));
    assert_eq!(GamepadError::try_from(-1), Err(GamepadError::NoSamples));
    assert_eq!(GamepadError::try_from(-2), Err(GamepadError::InvalidController));
    assert_eq!(GamepadError::try_from(-3), Err(GamepadError::Uninitialized));
    assert_eq!(GamepadError::try_from(-4), Err(GamepadError::Busy));
    assert_eq!(GamepadError::try_from(-5), Err(GamepadError::Uninitialized));
    assert_eq!(GamepadError::try_from(7), Err(GamepadError::Uninitialized));
}

#[test]
fn dialog_codes() {
    let a: i32 = Language::Japanese.into();
    let b: i32 = Language::English.into();
    let c: i32 = Language::TraditionalChinese.into();
    assert_eq!((a, b, c), (0, 1, 11));
    let d: i32 = Controller::Wiimote0.into();
    let e: i32 = Controller::DrcGamepad.into();
    assert_eq!((d, e), (0, 4));
    let f: i32 = Region::Japan.into();
    let g: i32 = Region::USA.into();
    let h: i32 = Region::Taiwan.into();
    assert_eq!((f, g, h), (0, 1, 5));
}

#[test]
fn dialog_codes_are_distinct() {
    let langs = [
        Language::Japanese,
        Language::English,
        Language::French,
        Language::German,
        Language::Italian,
        Language::Spanish,
        Language::SimplifiedChinese,
        Language::Korean,
        Language::Dutch,
        Language::Portuguese,
        Language::Russian,
        Language::TraditionalChinese,
    ];
    let codes: Vec<i32> = langs.iter().map(|l| i32::from(*l)).collect();
    assert_eq!(codes, (0..12).collect::<Vec<i32>>());
}

#[test]
fn thread_error_variants() {
    assert_ne!(ThreadError::NullPointer, ThreadError::AllocationFailed);
    assert_eq!(ThreadError::InternalZeroByte(3), ThreadError::InternalZeroByte(3));
    assert_ne!(ThreadError::ThreadCreationFailed, ThreadError::InternalZeroByte(0));
}

#[test]
fn error_messages() {
    assert_eq!(SystemError::NoEntry.to_string(), "No such file or directory");
    assert_eq!(SystemError::NoMoreProcesses.to_string(), "No more processes | Operation would block");
    assert_eq!(SystemError::Unknown(77).to_string(), "Unkown error");
    assert_eq!(GamepadError::NoSamples.to_string(), "There was no sample new data available to write.");
    assert_eq!(GamepadError::Uninitialized.to_string(), "VPAD is uninitialized, need to call VPADInit().");
    assert_eq!(ThreadError::NullPointer.to_string(), "");
}
