use xouse::buttons::{deserialize_button, serialize_button, Button};

const ALL: [Button; 20] = [
    Button::South,
    Button::East,
    Button::North,
    Button::West,
    Button::C,
    Button::Z,
    Button::LeftTrigger,
    Button::LeftTrigger2,
    Button::RightTrigger,
    Button::RightTrigger2,
    Button::Select,
    Button::Start,
    Button::Mode,
    Button::LeftThumb,
    Button::RightThumb,
    Button::DPadUp,
    Button::DPadDown,
    Button::DPadLeft,
    Button::DPadRight,
    Button::Unknown,
];

#[test]
fn shoulder_buttons_are_named_bumpers_and_triggers() {
    assert_eq!(serialize_button(&Button::LeftTrigger), "LeftBumper");
    assert_eq!(serialize_button(&Button::RightTrigger), "RightBumper");
    assert_eq!(serialize_button(&Button::LeftTrigger2), "LeftTrigger");
    assert_eq!(serialize_button(&Button::RightTrigger2), "RightTrigger");
}

#[test]
fn face_and_pad_buttons_keep_their_names() {
    assert_eq!(serialize_button(&Button::North), "North");
    assert_eq!(serialize_button(&Button::East), "East");
    assert_eq!(serialize_button(&Button::South), "South");
    assert_eq!(serialize_button(&Button::West), "West");
    assert_eq!(serialize_button(&Button::DPadUp), "DPadUp");
    assert_eq!(serialize_button(&Button::DPadRight), "DPadRight");
    assert_eq!(serialize_button(&Button::DPadDown), "DPadDown");
    assert_eq!(serialize_button(&Button::DPadLeft), "DPadLeft");
    assert_eq!(serialize_button(&Button::LeftThumb), "LeftThumb");
    assert_eq!(serialize_button(&Button::RightThumb), "RightThumb");
    assert_eq!(serialize_button(&Button::Start), "Start");
    assert_eq!(serialize_button(&Button::Select), "Select");
}

#[test]
fn buttons_without_a_name_are_written_as_unknown() {
    assert_eq!(serialize_button(&Button::C), "Unknown");
    assert_eq!(serialize_button(&Button::Z), "Unknown");
    assert_eq!(serialize_button(&Button::Mode), "Unknown");
    assert_eq!(serialize_button(&Button::Unknown), "Unknown");
}

#[test]
fn unrecognised_names_are_read_as_unknown() {
    assert_eq!(deserialize_button("Unknown".to_string()), Button::Unknown);
    assert_eq!(deserialize_button("".to_string()), Button::Unknown);
    assert_eq!(deserialize_button("north".to_string()), Button::Unknown);
    assert_eq!(deserialize_button("LeftTrigger2".to_string()), Button::Unknown);
}

#[test]
fn names_are_read_back_as_their_buttons() {
    assert_eq!(deserialize_button("LeftTrigger".to_string()), Button::LeftTrigger2);
    assert_eq!(deserialize_button("LeftBumper".to_string()), Button::LeftTrigger);
    assert_eq!(deserialize_button("RightTrigger".to_string()), Button::RightTrigger2);
    assert_eq!(deserialize_button("RightBumper".to_string()), Button::RightTrigger);
    assert_eq!(deserialize_button("Select".to_string()), Button::Select);
}

#[test]
fn every_button_round_trips_through_its_name() {
    for button in ALL {
        let back = deserialize_button(serialize_button(&button).to_string());
        let named = !matches!(button, Button::C | Button::Z | Button::Mode | Button::Unknown);
        if named {
            assert_eq!(back, button);
        } else {
            assert_eq!(back, Button::Unknown);
        }
    }
}
