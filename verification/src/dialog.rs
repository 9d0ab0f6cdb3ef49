//! Codes of the system dialogs (software keyboard and error viewer) for languages,
//! controllers and regions.
use vstd::prelude::*;
use vstd::std_specs::convert::FromSpecImpl;

verus! {

/// A display language of the system dialogs.
#[derive(Debug, Clone, Copy, PartialEq, Eq, Structural)]
pub enum Language {
    Japanese,
    English,
    French,
    German,
    Italian,
    Spanish,
    SimplifiedChinese,
    Korean,
    Dutch,
    Portuguese,
    Russian,
    TraditionalChinese,
}

/// The code that the dialogs use for a language: its place in the list, from 0.
pub open spec fn language_code(x: Language) -> i32 {
    match x {
        Language::Japanese => 0,
        Language::English => 1,
        Language::French => 2,
        Language::German => 3,
        Language::Italian => 4,
        Language::Spanish => 5,
        Language::SimplifiedChinese => 6,
        Language::Korean => 7,
        Language::Dutch => 8,
        Language::Portuguese => 9,
        Language::Russian => 10,
        Language::TraditionalChinese => 11,
    }
}

impl From<Language> for i32 {
    /// The code of the language.
    fn from(x: Language) -> (r: i32) {
        match x {
            Language::Japanese => 0,
            Language::English => 1,
            Language::French => 2,
            Language::German => 3,
            Language::Italian => 4,
            Language::Spanish => 5,
            Language::SimplifiedChinese => 6,
            Language::Korean => 7,
            Language::Dutch => 8,
            Language::Portuguese => 9,
            Language::Russian => 10,
            Language::TraditionalChinese => 11,
        }
    }
}

impl FromSpecImpl<Language> for i32 {
    open spec fn obeys_from_spec() -> bool {
        true
    }

    open spec fn from_spec(x: Language) -> i32 {
        language_code(x)
    }
}

/// The controller that operates a system dialog.
#[derive(Debug, Clone, Copy, PartialEq, Eq, Structural)]
pub enum Controller {
    Wiimote0,
    Wiimote1,
    Wiimote2,
    Wiimote3,
    DrcGamepad,
}

/// The code that the dialogs use for a controller: its place in the list, from 0.
pub open spec fn controller_code(x: Controller) -> i32 {
    match x {
        Controller::Wiimote0 => 0,
        Controller::Wiimote1 => 1,
        Controller::Wiimote2 => 2,
        Controller::Wiimote3 => 3,
        Controller::DrcGamepad => 4,
    }
}

impl From<Controller> for i32 {
    /// The code of the controller.
    fn from(x: Controller) -> (r: i32) {
        match x {
            Controller::Wiimote0 => 0,
            Controller::Wiimote1 => 1,
            Controller::Wiimote2 => 2,
            Controller::Wiimote3 => 3,
            Controller::DrcGamepad => 4,
        }
    }
}

impl FromSpecImpl<Controller> for i32 {
    open spec fn obeys_from_spec() -> bool {
        true
    }

    open spec fn from_spec(x: Controller) -> i32 {
        controller_code(x)
    }
}

/// A region setting of the system dialogs.
#[derive(Debug, Clone, Copy, PartialEq, Eq, Structural)]
pub enum Region {
    Japan,
    USA,
    Europe,
    China,
    Korea,
    Taiwan,
}

/// The code that the dialogs use for a region: its place in the list, from 0.
pub open spec fn region_code(x: Region) -> i32 {
    match x {
        Region::Japan => 0,
        Region::USA => 1,
        Region::Europe => 2,
        Region::China => 3,
        Region::Korea => 4,
        Region::Taiwan => 5,
    }
}

impl From<Region> for i32 {
    /// The code of the region.
    fn from(x: Region) -> (r: i32) {
        match x {
            Region::Japan => 0,
            Region::USA => 1,
            Region::Europe => 2,
            Region::China => 3,
            Region::Korea => 4,
            Region::Taiwan => 5,
        }
    }
}

impl FromSpecImpl<Region> for i32 {
    open spec fn obeys_from_spec() -> bool {
        true
    }

    open spec fn from_spec(x: Region) -> i32 {
        region_code(x)
    }
}

/// Different languages have different codes, and every code lies in `0..12`.
pub proof fn law_language_codes(a: Language, b: Language)
    ensures
        0 <= language_code(a) < 12,
        language_code(a) == language_code(b) ==> a == b,
{
}

/// Different controllers have different codes, and every code lies in `0..5`.
pub proof fn law_controller_codes(a: Controller, b: Controller)
    ensures
        0 <= controller_code(a) < 5,
        controller_code(a) == controller_code(b) ==> a == b,
{
}

/// Different regions have different codes, and every code lies in `0..6`.
pub proof fn law_region_codes(a: Region, b: Region)
    ensures
        0 <= region_code(a) < 6,
        region_code(a) == region_code(b) ==> a == b,
{
}

/// The native code of each language, controller and region of the dialogs.
pub proof fn law_native_dialog_codes()
    ensures
        language_code(Language::Japanese) == 0,
        language_code(Language::English) == 1,
        language_code(Language::French) == 2,
        language_code(Language::German) == 3,
        language_code(Language::Italian) == 4,
        language_code(Language::Spanish) == 5,
        language_code(Language::SimplifiedChinese) == 6,
        language_code(Language::Korean) == 7,
        language_code(Language::Dutch) == 8,
        language_code(Language::Portuguese) == 9,
        language_code(Language::Russian) == 10,
        language_code(Language::TraditionalChinese) == 11,
        controller_code(Controller::Wiimote0) == 0,
        controller_code(Controller::Wiimote1) == 1,
        controller_code(Controller::Wiimote2) == 2,
        controller_code(Controller::Wiimote3) == 3,
        controller_code(Controller::DrcGamepad) == 4,
        region_code(Region::Japan) == 0,
        region_code(Region::USA) == 1,
        region_code(Region::Europe) == 2,
        region_code(Region::China) == 3,
        region_code(Region::Korea) == 4,
        region_code(Region::Taiwan) == 5,
{
}

} // verus!
