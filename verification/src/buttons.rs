//! Physical inputs of a controller and their stable symbolic names.

use vstd::prelude::*;

verus! {

/// A digital input of the controller.
#[derive(Clone, Copy, Debug, PartialEq, Eq, Structural, Hash)]
pub enum Button {
    South,
    East,
    North,
    West,
    C,
    Z,
    LeftTrigger,
    LeftTrigger2,
    RightTrigger,
    RightTrigger2,
    Select,
    Start,
    Mode,
    LeftThumb,
    RightThumb,
    DPadUp,
    DPadDown,
    DPadLeft,
    DPadRight,
    Unknown,
}

/// An analog channel of the controller.
#[derive(Clone, Copy, Debug, PartialEq, Eq, Structural, Hash)]
pub enum Axis {
    LeftStickX,
    LeftStickY,
    LeftZ,
    RightStickX,
    RightStickY,
    RightZ,
    DPadX,
    DPadY,
    Unknown,
}

/// Whether two string slices hold the same characters.
pub(crate) fn same_text(a: &str, b: &str) -> (same: bool)
    ensures
        same == (a@ == b@),
{
    a.to_string() == b.to_string()
}

/// The name under which a button is written in a binding table.
///
/// The names do not follow the order of the device enumeration; the two upper
/// shoulder buttons are called bumpers, the two lower ones triggers. Buttons
/// without a name of their own are all written as `Unknown`.
pub open spec fn button_name(button: Button) -> Seq<char> {
    match button {
        Button::North => "North"@,
        Button::East => "East"@,
        Button::South => "South"@,
        Button::West => "West"@,
        Button::DPadUp => "DPadUp"@,
        Button::DPadRight => "DPadRight"@,
        Button::DPadDown => "DPadDown"@,
        Button::DPadLeft => "DPadLeft"@,
        Button::LeftTrigger2 => "LeftTrigger"@,
        Button::RightTrigger2 => "RightTrigger"@,
        Button::LeftTrigger => "LeftBumper"@,
        Button::RightTrigger => "RightBumper"@,
        Button::LeftThumb => "LeftThumb"@,
        Button::RightThumb => "RightThumb"@,
        Button::Start => "Start"@,
        Button::Select => "Select"@,
        _ => "Unknown"@,
    }
}

/// Whether a button has a name of its own.
pub open spec fn is_named(button: Button) -> bool {
    !(button is C || button is Z || button is Mode || button is Unknown)
}

/// The button that a name stands for; any unrecognised name stands for
/// `Button::Unknown`.
pub open spec fn button_of_name(name: Seq<char>) -> Button {
    if name == "North"@ {
        Button::North
    } else if name == "East"@ {
        Button::East
    } else if name == "South"@ {
        Button::South
    } else if name == "West"@ {
        Button::West
    } else if name == "DPadUp"@ {
        Button::DPadUp
    } else if name == "DPadRight"@ {
        Button::DPadRight
    } else if name == "DPadDown"@ {
        Button::DPadDown
    } else if name == "DPadLeft"@ {
        Button::DPadLeft
    } else if name == "LeftTrigger"@ {
        Button::LeftTrigger2
    } else if name == "RightTrigger"@ {
        Button::RightTrigger2
    } else if name == "LeftBumper"@ {
        Button::LeftTrigger
    } else if name == "RightBumper"@ {
        Button::RightTrigger
    } else if name == "LeftThumb"@ {
        Button::LeftThumb
    } else if name == "RightThumb"@ {
        Button::RightThumb
    } else if name == "Start"@ {
        Button::Start
    } else if name == "Select"@ {
        Button::Select
    } else {
        Button::Unknown
    }
}

pub fn serialize_button(button: &Button) -> (name: &'static str)
    ensures
        name@ == button_name(*button),
{
    match button {
        Button::North => "North",
        Button::East => "East",
        Button::South => "South",
        Button::West => "West",
        Button::DPadUp => "DPadUp",
        Button::DPadRight => "DPadRight",
        Button::DPadDown => "DPadDown",
        Button::DPadLeft => "DPadLeft",
        Button::LeftTrigger2 => "LeftTrigger",
        Button::RightTrigger2 => "RightTrigger",
        Button::LeftTrigger => "LeftBumper",
        Button::RightTrigger => "RightBumper",
        Button::LeftThumb => "LeftThumb",
        Button::RightThumb => "RightThumb",
        Button::Start => "Start",
        Button::Select => "Select",
        _ => "Unknown",
    }
}

pub fn deserialize_button(button: String) -> (found: Button)
    ensures
        found == button_of_name(button@),
{
    let name = button.as_str();
    if same_text(name, "North") {
        Button::North
    } else if same_text(name, "East") {
        Button::East
    } else if same_text(name, "South") {
        Button::South
    } else if same_text(name, "West") {
        Button::West
    } else if same_text(name, "DPadUp") {
        Button::DPadUp
    } else if same_text(name, "DPadRight") {
        Button::DPadRight
    } else if same_text(name, "DPadDown") {
        Button::DPadDown
    } else if same_text(name, "DPadLeft") {
        Button::DPadLeft
    } else if same_text(name, "LeftTrigger") {
        Button::LeftTrigger2
    } else if same_text(name, "RightTrigger") {
        Button::RightTrigger2
    } else if same_text(name, "LeftBumper") {
        Button::LeftTrigger
    } else if same_text(name, "RightBumper") {
        Button::RightTrigger
    } else if same_text(name, "LeftThumb") {
        Button::LeftThumb
    } else if same_text(name, "RightThumb") {
        Button::RightThumb
    } else if same_text(name, "Start") {
        Button::Start
    } else if same_text(name, "Select") {
        Button::Select
    } else {
        Button::Unknown
    }
}

/// The sixteen names and `Unknown` are pairwise different texts.
proof fn lemma_names_differ()
    ensures
        forall|a: Button, b: Button|
            is_named(a) && a != b ==> #[trigger] button_name(a) != #[trigger] button_name(b),
{
    reveal_strlit("North");
    reveal_strlit("East");
    reveal_strlit("South");
    reveal_strlit("West");
    reveal_strlit("DPadUp");
    reveal_strlit("DPadRight");
    reveal_strlit("DPadDown");
    reveal_strlit("DPadLeft");
    reveal_strlit("LeftTrigger");
    reveal_strlit("RightTrigger");
    reveal_strlit("LeftBumper");
    reveal_strlit("RightBumper");
    reveal_strlit("LeftThumb");
    reveal_strlit("RightThumb");
    reveal_strlit("Start");
    reveal_strlit("Select");
    reveal_strlit("Unknown");
    assert forall|a: Button, b: Button| is_named(a) && a != b implies #[trigger] button_name(a)
        != #[trigger] button_name(b) by {
        let x = button_name(a);
        let y = button_name(b);
        if x.len() == y.len() {
            assert(x[0] != y[0] || x[1] != y[1] || x[4] != y[4]);
        }
    }
}

/// A named button is found again from its name, and every button without a
/// name of its own comes back as `Button::Unknown`.
pub proof fn lemma_button_name_roundtrip(button: Button)
    ensures
        is_named(button) ==> button_of_name(button_name(button)) == button,
        !is_named(button) ==> button_of_name(button_name(button)) == Button::Unknown,
{
    lemma_names_differ();
    assert(button_name(Button::North) == "North"@);
    assert(button_name(Button::East) == "East"@);
    assert(button_name(Button::South) == "South"@);
    assert(button_name(Button::West) == "West"@);
    assert(button_name(Button::DPadUp) == "DPadUp"@);
    assert(button_name(Button::DPadRight) == "DPadRight"@);
    assert(button_name(Button::DPadDown) == "DPadDown"@);
    assert(button_name(Button::DPadLeft) == "DPadLeft"@);
    assert(button_name(Button::LeftTrigger2) == "LeftTrigger"@);
    assert(button_name(Button::RightTrigger2) == "RightTrigger"@);
    assert(button_name(Button::LeftTrigger) == "LeftBumper"@);
    assert(button_name(Button::RightTrigger) == "RightBumper"@);
    assert(button_name(Button::LeftThumb) == "LeftThumb"@);
    assert(button_name(Button::RightThumb) == "RightThumb"@);
    assert(button_name(Button::Start) == "Start"@);
    assert(button_name(Button::Select) == "Select"@);
    assert(button_name(Button::Unknown) == "Unknown"@);
}

} // verus!
