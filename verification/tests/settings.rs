use xouse::actions::ActionInterface;
use xouse::bindings::ActionMap;
use xouse::config::{Config, Multiplier};
use xouse::lua::{log_line, read_global, write_global, LuaInterface, ScriptError, ScriptValue, Written};
use xouse::setup::MenuButton;

#[test]
fn fresh_configuration_has_the_documented_values() {
    let config = Config::default();
    assert_eq!(config.speed, 70_000);
    assert_eq!(config.speed_mult, Multiplier { up: 0, down: 0 });
    assert_eq!(config.speed_up, 3_000);
    assert_eq!(config.speed_down, 3_000);
    assert_eq!(config.speed_step, 5_000);
    assert_eq!(config.gamepad_id, None);
    assert_eq!(config.multiplier(), 1_000);
    assert_eq!(config.actions.serialize().len(), 10);
}

#[test]
fn a_loaded_configuration_starts_with_the_multiplier_at_one() {
    let config = Config::new(12_500, 2_000, 4_000, 250, ActionMap::new());
    assert_eq!(config.speed, 12_500);
    assert_eq!(config.speed_up, 2_000);
    assert_eq!(config.speed_down, 4_000);
    assert_eq!(config.speed_step, 250);
    assert_eq!(config.speed_mult, Multiplier { up: 0, down: 0 });
    assert_eq!(config.multiplier(), 1_000);
    assert_eq!(config.gamepad_id, None);
}

#[test]
fn the_multiplier_is_the_factor_applied_power_times() {
    let mut config = Config::default();
    config.speed_up = 1_500;
    let expected = [(0, 1_000), (1, 1_500), (2, 2_250), (3, 3_375), (-1, 666), (-2, 444)];
    for (power, gain) in expected {
        config.speed_mult.up = power;
        assert_eq!(config.multiplier(), gain);
    }
}

#[test]
fn the_multiplier_stays_within_its_limit() {
    let mut config = Config::default();
    config.speed_up = 1_000_000;
    config.speed_mult.up = 50;
    assert_eq!(config.multiplier(), i32::MAX);
    config.speed_up = 0;
    config.speed_mult.up = -1;
    assert_eq!(config.multiplier(), i32::MAX);
    config.speed_mult.up = 1;
    assert_eq!(config.multiplier(), 0);
    config.speed_up = -2_000;
    config.speed_mult.up = 3;
    assert_eq!(config.multiplier(), -8_000);
}

#[test]
fn a_script_reads_the_speed_and_nothing_else() {
    let mut config = Config::default();
    config.speed = 42_500;
    assert_eq!(read_global(&config, "speed"), Some(42_500));
    assert_eq!(read_global(&config, "speed_up"), None);
    assert_eq!(read_global(&config, ""), None);
}

#[test]
fn a_script_sets_the_speed_with_a_number_or_a_whole_number() {
    let mut config = Config::default();
    let written = write_global(&mut config, "speed", &ScriptValue::Number(12_345)).unwrap();
    assert_eq!(written, Written::Speed);
    assert_eq!(config.speed, 12_345);
    write_global(&mut config, "speed", &ScriptValue::Integer(90)).unwrap();
    assert_eq!(config.speed, 90_000);
    write_global(&mut config, "speed", &ScriptValue::Integer(i64::MAX)).unwrap();
    assert_eq!(config.speed, i32::MAX);
    write_global(&mut config, "speed", &ScriptValue::Integer(-3_000_000)).unwrap();
    assert_eq!(config.speed, i32::MIN);
}

#[test]
fn a_script_cannot_set_the_speed_to_a_text() {
    let mut config = Config::default();
    let refused =
        write_global(&mut config, "speed", &ScriptValue::Other("string".to_string())).unwrap_err();
    let ScriptError::Conversion { from, to, message } = refused;
    assert_eq!(from, "string");
    assert_eq!(to, "number");
    assert_eq!(message, "Expected a number or integer for speed");
    assert_eq!(config.speed, 70_000);
}

#[test]
fn other_globals_are_left_to_the_script() {
    let mut config = Config::default();
    let written = write_global(&mut config, "counter", &ScriptValue::Integer(1)).unwrap();
    assert_eq!(written, Written::Raw);
    let written = write_global(&mut config, "note", &ScriptValue::Other("table".to_string())).unwrap();
    assert_eq!(written, Written::Raw);
    assert_eq!(config.speed, 70_000);
}

#[test]
fn the_log_line_is_the_argument_or_a_note() {
    assert_eq!(log_line(Some("hello".to_string())), "hello");
    assert_eq!(log_line(None), "log called with no argument or nil");
}

#[test]
fn a_script_cannot_start_a_script() {
    let interface = ActionInterface::from(LuaInterface { window_visible: true, rumble: true });
    assert!(interface.window_visible);
    assert!(interface.rumble);
    assert!(!interface.lua);
}

#[test]
fn menu_entries_are_found_by_their_identifiers() {
    assert_eq!(MenuButton::Hide.id(), "hide");
    assert_eq!(MenuButton::Quit.id(), "quit");
    assert_eq!(MenuButton::try_from("hide"), Ok(MenuButton::Hide));
    assert_eq!(MenuButton::try_from("quit"), Ok(MenuButton::Quit));
    assert_eq!(MenuButton::try_from("Hide"), Err("Unknown menu button"));
    assert_eq!(MenuButton::try_from(""), Err("Unknown menu button"));
}

#[test]
fn a_snapshot_holds_what_the_configuration_holds() {
    let mut config = Config::default();
    config.speed = 1_234;
    config.speed_mult = Multiplier { up: 2, down: -1 };
    config.gamepad_id = Some(xouse::config::DeviceId(7));
    let copy = config.clone();
    assert_eq!(format!("{:?}", copy), format!("{:?}", config));
    config.speed = 1;
    assert_eq!(copy.speed, 1_234);
}

#[test]
fn both_factors_make_the_multiplier() {
    let mut config = Config::default();
    config.speed_up = 1_500;
    config.speed_down = 500;
    let expected = [((0, 0), 1_000), ((1, 1), 750), ((2, 1), 1_125), ((0, 2), 250), ((0, -1), 2_000), ((-1, -1), 1_332)];
    for ((up, down), gain) in expected {
        config.speed_mult = Multiplier { up, down };
        assert_eq!(config.multiplier(), gain);
    }
}
