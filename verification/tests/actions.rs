use xouse::actions::{
    Action, ActionError, ActionFn, ActionInterface, Effect, LuaScript, SimpleAction, SimpleActionFn,
    UpDownAction, UpDownActionFn,
};
use xouse::bindings::ActionMap;
use xouse::buttons::Button;
use xouse::config::{Config, Multiplier};
use xouse::keys::{Key, ModifierKey, MouseButton};

fn all_at_hand() -> ActionInterface {
    ActionInterface { window_visible: false, rumble: true, lua: true }
}

fn show(plan: &Vec<Effect>) -> Vec<String> {
    plan.iter().map(|effect| format!("{:?}", effect)).collect()
}

fn chord(key: Key, modifiers: Vec<ModifierKey>) -> Action {
    Action::UpDown(UpDownAction::KeyPress { key, modifiers })
}

#[test]
fn key_chord_presses_modifiers_in_order_and_releases_them_in_reverse() {
    let action = chord(Key::Tab, vec![ModifierKey::Ctrl, ModifierKey::Shift]);
    let mut config = Config::default();
    let down = action.down(&mut config, &all_at_hand()).unwrap();
    assert_eq!(
        show(&down),
        vec!["KeyPress(ControlLeft)", "KeyPress(ShiftLeft)", "KeyPress(Tab)"]
    );
    let up = action.up(&mut config, &all_at_hand()).unwrap();
    assert_eq!(
        show(&up),
        vec!["KeyRelease(Tab)", "KeyRelease(ShiftLeft)", "KeyRelease(ControlLeft)"]
    );
}

#[test]
fn key_chord_without_modifiers_is_one_key() {
    let action = chord(Key::Space, vec![]);
    let mut config = Config::default();
    assert_eq!(show(&action.down(&mut config, &all_at_hand()).unwrap()), vec!["KeyPress(Space)"]);
    assert_eq!(show(&action.up(&mut config, &all_at_hand()).unwrap()), vec!["KeyRelease(Space)"]);
}

#[test]
fn each_modifier_presses_its_left_key() {
    let action = chord(
        Key::KeyA,
        vec![ModifierKey::Alt, ModifierKey::Ctrl, ModifierKey::Win, ModifierKey::Shift],
    );
    let mut config = Config::default();
    assert_eq!(
        show(&action.down(&mut config, &all_at_hand()).unwrap()),
        vec![
            "KeyPress(Alt)",
            "KeyPress(ControlLeft)",
            "KeyPress(MetaLeft)",
            "KeyPress(ShiftLeft)",
            "KeyPress(KeyA)"
        ]
    );
    assert_eq!(Key::from(ModifierKey::Win), Key::MetaLeft);
}

#[test]
fn speed_decrement_at_exactly_one_step_is_clamped() {
    let mut config = Config::default();
    config.speed = 5_000;
    config.speed_step = 5_000;
    let plan = Action::Simple(SimpleAction::SpeedDec).down(&mut config, &all_at_hand()).unwrap();
    assert!(plan.is_empty());
    assert_eq!(config.speed, 5_000);
}

#[test]
fn speed_decrement_takes_one_step_from_a_larger_speed() {
    let mut config = Config::default();
    assert_eq!(config.speed, 70_000);
    SimpleAction::SpeedDec.call(&mut config, &all_at_hand()).unwrap();
    assert_eq!(config.speed, 65_000);
    config.speed = 5_001;
    SimpleAction::SpeedDec.call(&mut config, &all_at_hand()).unwrap();
    assert_eq!(config.speed, 1);
    SimpleAction::SpeedDec.call(&mut config, &all_at_hand()).unwrap();
    assert_eq!(config.speed, 1);
}

#[test]
fn speed_increment_adds_one_step_and_stops_at_the_top() {
    let mut config = Config::default();
    SimpleAction::SpeedInc.call(&mut config, &all_at_hand()).unwrap();
    assert_eq!(config.speed, 75_000);
    config.speed = i32::MAX - 1;
    SimpleAction::SpeedInc.call(&mut config, &all_at_hand()).unwrap();
    assert_eq!(config.speed, i32::MAX);
}

#[test]
fn simple_actions_do_nothing_on_release() {
    let mut config = Config::default();
    let plan = Action::Simple(SimpleAction::SpeedInc).up(&mut config, &all_at_hand()).unwrap();
    assert!(plan.is_empty());
    assert_eq!(config.speed, 70_000);
    let plan = Action::Simple(SimpleAction::Rumble).up(&mut config, &all_at_hand()).unwrap();
    assert!(plan.is_empty());
}

#[test]
fn speed_up_cycles_leave_the_multiplier_unchanged() {
    let mut config = Config::default();
    let action = Action::UpDown(UpDownAction::SpeedUp);
    for _ in 0..1000 {
        action.down(&mut config, &all_at_hand()).unwrap();
        assert_eq!(config.speed_mult, Multiplier { up: 1, down: 0 });
        assert_eq!(config.multiplier(), 3_000);
        action.up(&mut config, &all_at_hand()).unwrap();
        assert_eq!(config.speed_mult, Multiplier { up: 0, down: 0 });
        assert_eq!(config.multiplier(), 1_000);
    }
}

#[test]
fn speed_down_scales_by_its_own_factor_and_release_undoes_it() {
    let mut config = Config::default();
    config.speed_up = 3_000;
    config.speed_down = 2_000;
    let action = UpDownAction::SpeedDown;
    assert!(action.down(&mut config, &all_at_hand()).unwrap().is_empty());
    assert_eq!(config.speed_mult, Multiplier { up: 0, down: 1 });
    assert_eq!(config.multiplier(), 2_000);
    assert!(action.up(&mut config, &all_at_hand()).unwrap().is_empty());
    assert_eq!(config.speed_mult, Multiplier { up: 0, down: 0 });
    assert_eq!(config.multiplier(), 1_000);
    config.speed_down = 250;
    for _ in 0..1000 {
        action.down(&mut config, &all_at_hand()).unwrap();
        assert_eq!(config.multiplier(), 250);
        action.up(&mut config, &all_at_hand()).unwrap();
        assert_eq!(config.multiplier(), 1_000);
    }
    assert_eq!(config.speed, 70_000);
}

#[test]
fn speed_down_does_not_depend_on_the_speed_up_factor() {
    for speed_up in [1, 500, 3_000, 1_000_000] {
        let mut config = Config::default();
        config.speed_up = speed_up;
        config.speed_down = 500;
        Action::UpDown(UpDownAction::SpeedDown).down(&mut config, &all_at_hand()).unwrap();
        assert_eq!(config.multiplier(), 500);
    }
}

#[test]
fn speed_actions_held_together_release_in_any_order() {
    let mut config = Config::default();
    config.speed_down = 500;
    let up = Action::UpDown(UpDownAction::SpeedUp);
    let down = Action::UpDown(UpDownAction::SpeedDown);
    up.down(&mut config, &all_at_hand()).unwrap();
    up.down(&mut config, &all_at_hand()).unwrap();
    assert_eq!(config.multiplier(), 9_000);
    down.down(&mut config, &all_at_hand()).unwrap();
    assert_eq!(config.multiplier(), 4_500);
    up.up(&mut config, &all_at_hand()).unwrap();
    assert_eq!(config.multiplier(), 1_500);
    down.up(&mut config, &all_at_hand()).unwrap();
    assert_eq!(config.multiplier(), 3_000);
    up.up(&mut config, &all_at_hand()).unwrap();
    assert_eq!(config.speed_mult, Multiplier { up: 0, down: 0 });
    assert_eq!(config.multiplier(), 1_000);
}

#[test]
fn the_multiplier_power_stops_at_the_end_of_its_range() {
    let mut config = Config::default();
    config.speed_mult.up = i32::MAX;
    UpDownAction::SpeedUp.down(&mut config, &all_at_hand()).unwrap();
    assert_eq!(config.speed_mult.up, i32::MAX);
    config.speed_mult = Multiplier { up: 0, down: i32::MAX };
    UpDownAction::SpeedDown.down(&mut config, &all_at_hand()).unwrap();
    assert_eq!(config.speed_mult.down, i32::MAX);
    config.speed_mult = Multiplier { up: i32::MIN, down: i32::MIN };
    UpDownAction::SpeedUp.up(&mut config, &all_at_hand()).unwrap();
    UpDownAction::SpeedDown.up(&mut config, &all_at_hand()).unwrap();
    assert_eq!(config.speed_mult, Multiplier { up: i32::MIN, down: i32::MIN });
}

#[test]
fn rumble_without_a_trigger_is_an_error() {
    let mut config = Config::default();
    let nothing = ActionInterface { window_visible: false, rumble: false, lua: false };
    let error = Action::Simple(SimpleAction::Rumble).down(&mut config, &nothing).unwrap_err();
    assert!(matches!(&error, ActionError::Rumble(report) if report == "no rumbler"));
    assert_eq!(error.message(), "Rumble error: no rumbler");
    assert_eq!(config.speed, 70_000);
    assert_eq!(config.speed_mult, Multiplier { up: 0, down: 0 });
}

#[test]
fn rumble_with_a_trigger_asks_for_the_haptic_effect() {
    let mut config = Config::default();
    let plan = Action::Simple(SimpleAction::Rumble).down(&mut config, &all_at_hand()).unwrap();
    assert_eq!(show(&plan), vec!["Rumble"]);
}

#[test]
fn toggle_hides_a_showing_window_and_reveals_a_hidden_one_with_focus() {
    let mut config = Config::default();
    let showing = ActionInterface { window_visible: true, rumble: false, lua: false };
    let hidden = ActionInterface { window_visible: false, rumble: false, lua: false };
    let action = Action::Simple(SimpleAction::ToggleVis);
    assert_eq!(show(&action.down(&mut config, &showing).unwrap()), vec!["HideWindow"]);
    assert_eq!(
        show(&action.down(&mut config, &hidden).unwrap()),
        vec!["ShowWindow", "FocusWindow"]
    );
}

#[test]
fn click_presses_on_down_and_releases_on_up() {
    let mut config = Config::default();
    for (button, name) in
        [(MouseButton::Left, "Left"), (MouseButton::Right, "Right"), (MouseButton::Middle, "Middle")]
    {
        let action = Action::UpDown(UpDownAction::Click(button));
        assert_eq!(
            show(&action.down(&mut config, &all_at_hand()).unwrap()),
            vec![format!("MousePress({})", name)]
        );
        assert_eq!(
            show(&action.up(&mut config, &all_at_hand()).unwrap()),
            vec![format!("MouseRelease({})", name)]
        );
    }
}

#[test]
fn script_runs_on_press_only_and_only_with_a_host() {
    let mut config = Config::default();
    let action = Action::UpDown(UpDownAction::LuaScript { script: LuaScript("test.lua".to_string()) });
    let plan = action.down(&mut config, &all_at_hand()).unwrap();
    assert_eq!(plan.len(), 1);
    assert!(matches!(&plan[0], Effect::RunScript(script) if script.name() == "test.lua"));
    assert!(action.up(&mut config, &all_at_hand()).unwrap().is_empty());
    let no_host = ActionInterface { window_visible: false, rumble: true, lua: false };
    assert!(action.down(&mut config, &no_host).unwrap().is_empty());
}

#[test]
fn error_messages_name_their_kind() {
    assert_eq!(ActionError::Lua("x".to_string()).message(), "Lua error: x");
    assert_eq!(ActionError::Keypress("x".to_string()).message(), "Keypress error: x");
    assert_eq!(ActionError::Rumble("x".to_string()).message(), "Rumble error: x");
    assert_eq!(ActionError::Tauri("x".to_string()).message(), "Tauri error: x");
    assert_eq!(ActionError::Mouce("x".to_string()).message(), "Mouce error: x");
    assert_eq!(ActionError::Io("x".to_string()).message(), "IO error: x");
    assert_eq!(ActionError::Other("x".to_string()).message(), "Other error: x");
}

#[test]
fn lookup_of_an_unbound_button_is_empty_and_changes_nothing() {
    let table = ActionMap::default();
    let before = format!("{:?}", table);
    assert!(table.bindings_for(Button::West).is_empty());
    assert!(table.bindings_for(Button::Unknown).is_empty());
    assert_eq!(format!("{:?}", table), before);
    assert!(ActionMap::new().bindings_for(Button::South).is_empty());
}

#[test]
fn default_table_binds_ten_buttons() {
    let table = ActionMap::default();
    let names: Vec<String> = table.serialize().into_iter().map(|(name, _)| name).collect();
    assert_eq!(
        names,
        vec![
            "South",
            "East",
            "North",
            "DPadUp",
            "DPadDown",
            "RightBumper",
            "LeftBumper",
            "RightTrigger",
            "LeftTrigger",
            "Select"
        ]
    );
    assert_eq!(
        format!("{:?}", table.bindings_for(Button::DPadUp)),
        "[Simple(SpeedInc), Simple(Rumble)]"
    );
    assert_eq!(
        format!("{:?}", table.bindings_for(Button::LeftTrigger)),
        "[UpDown(KeyPress { key: Tab, modifiers: [Ctrl, Shift] }), Simple(Rumble)]"
    );
    assert_eq!(
        format!("{:?}", table.bindings_for(Button::South)),
        "[UpDown(LuaScript { script: LuaScript(\"test.lua\") })]"
    );
    assert_eq!(format!("{:?}", table.bindings_for(Button::Select)), "[Simple(ToggleVis)]");
    assert_eq!(format!("{:?}", table.bindings_for(Button::RightTrigger2)), "[UpDown(SpeedUp)]");
    assert_eq!(format!("{:?}", table.bindings_for(Button::East)), "[UpDown(Click(Right))]");
}

#[test]
fn insert_replaces_the_actions_of_a_bound_button() {
    let mut table = ActionMap::new();
    table.insert(Button::South, vec![Action::Simple(SimpleAction::SpeedInc)]);
    table.insert(Button::East, vec![Action::Simple(SimpleAction::Rumble)]);
    table.insert(Button::South, vec![Action::Simple(SimpleAction::SpeedDec)]);
    assert_eq!(format!("{:?}", table.bindings_for(Button::South)), "[Simple(SpeedDec)]");
    assert_eq!(format!("{:?}", table.bindings_for(Button::East)), "[Simple(Rumble)]");
    assert_eq!(table.serialize().len(), 2);
}

#[test]
fn named_bindings_with_unknown_names_collapse_to_unknown() {
    let named = vec![
        ("South".to_string(), vec![Action::Simple(SimpleAction::SpeedInc)]),
        ("Paddle".to_string(), vec![Action::Simple(SimpleAction::Rumble)]),
        ("Turbo".to_string(), vec![Action::Simple(SimpleAction::ToggleVis)]),
    ];
    let table = ActionMap::deserialize(&named);
    assert_eq!(format!("{:?}", table.bindings_for(Button::South)), "[Simple(SpeedInc)]");
    assert_eq!(format!("{:?}", table.bindings_for(Button::Unknown)), "[Simple(ToggleVis)]");
    let back: Vec<String> = table.serialize().into_iter().map(|(name, _)| name).collect();
    assert_eq!(back, vec!["South", "Unknown"]);
}

#[test]
fn table_round_trips_through_its_names() {
    let table = ActionMap::default();
    let again = ActionMap::deserialize(&table.serialize());
    assert_eq!(format!("{:?}", again), format!("{:?}", table));
}
