//! The catalogue of bindable actions and the per-button binding table.

use crate::config::{multiplier, Config, Multiplier};
use crate::fixed::clamp;
use crate::keys::{modifier_key, Key, ModifierKey, MouseButton};
use vstd::prelude::*;

verus! {

/// Reference to a script of the user, by the name of its file.
#[derive(Debug)]
pub struct LuaScript(pub String);

impl View for LuaScript {
    type V = Seq<char>;

    open spec fn view(&self) -> Seq<char> {
        self.0@
    }
}

impl LuaScript {
    /// The name of the file that holds the script.
    pub fn name(&self) -> (name: &str)
        ensures
            name@ == self@,
    {
        self.0.as_str()
    }
}

impl Clone for LuaScript {
    fn clone(&self) -> (copy: Self)
        ensures
            copy@ == self@,
    {
        LuaScript(self.0.clone())
    }
}

/// An action that fires once, when the button goes down.
#[derive(Clone, Copy, Debug, PartialEq, Eq, Structural)]
pub enum SimpleAction {
    SpeedInc,
    SpeedDec,
    Rumble,
    ToggleVis,
}

/// An action with one effect when the button goes down and the matching
/// effect when it comes up again.
#[derive(Debug)]
pub enum UpDownAction {
    Click(MouseButton),
    SpeedUp,
    SpeedDown,
    KeyPress { key: Key, modifiers: Vec<ModifierKey> },
    LuaScript { script: LuaScript },
}

/// What an `UpDownAction` holds, as plain values.
pub enum UpDownActionView {
    Click(MouseButton),
    SpeedUp,
    SpeedDown,
    KeyPress { key: Key, modifiers: Seq<ModifierKey> },
    LuaScript { script: Seq<char> },
}

impl View for UpDownAction {
    type V = UpDownActionView;

    open spec fn view(&self) -> UpDownActionView {
        match self {
            UpDownAction::Click(button) => UpDownActionView::Click(*button),
            UpDownAction::SpeedUp => UpDownActionView::SpeedUp,
            UpDownAction::SpeedDown => UpDownActionView::SpeedDown,
            UpDownAction::KeyPress { key, modifiers } => UpDownActionView::KeyPress {
                key: *key,
                modifiers: modifiers@,
            },
            UpDownAction::LuaScript { script } => UpDownActionView::LuaScript { script: script@ },
        }
    }
}

impl Clone for UpDownAction {
    fn clone(&self) -> (copy: Self)
        ensures
            copy@ == self@,
    {
        match self {
            UpDownAction::Click(button) => UpDownAction::Click(*button),
            UpDownAction::SpeedUp => UpDownAction::SpeedUp,
            UpDownAction::SpeedDown => UpDownAction::SpeedDown,
            UpDownAction::KeyPress { key, modifiers } => {
                let mut held: Vec<ModifierKey> = Vec::new();
                let mut i: usize = 0;
                while i < modifiers.len()
                    invariant
                        i <= modifiers.len(),
                        held@ == modifiers@.take(i as int),
                    decreases modifiers.len() - i,
                {
                    held.push(modifiers[i]);
                    i += 1;
                }
                assert(modifiers@.take(i as int) == modifiers@);
                UpDownAction::KeyPress { key: *key, modifiers: held }
            },
            UpDownAction::LuaScript { script } => UpDownAction::LuaScript { script: script.clone() },
        }
    }
}

/// A bindable action, in one of its two shapes.
#[derive(Debug)]
pub enum Action {
    /// Fires on press only.
    Simple(SimpleAction),
    /// Fires on press and on release.
    UpDown(UpDownAction),
}

/// What an `Action` holds, as plain values.
pub enum ActionView {
    Simple(SimpleAction),
    UpDown(UpDownActionView),
}

impl View for Action {
    type V = ActionView;

    open spec fn view(&self) -> ActionView {
        match self {
            Action::Simple(action) => ActionView::Simple(*action),
            Action::UpDown(action) => ActionView::UpDown(action@),
        }
    }
}

impl Clone for Action {
    fn clone(&self) -> (copy: Self)
        ensures
            copy@ == self@,
    {
        match self {
            Action::Simple(action) => Action::Simple(*action),
            Action::UpDown(action) => Action::UpDown(action.clone()),
        }
    }
}

/// The views of a list of actions, in the same order.
pub open spec fn action_views(actions: Seq<Action>) -> Seq<ActionView> {
    Seq::new(actions.len(), |i: int| actions[i]@)
}

/// Copies a list of actions, keeping their order.
pub fn clone_actions(actions: &Vec<Action>) -> (copy: Vec<Action>)
    ensures
        action_views(copy@) == action_views(actions@),
{
    let mut copy: Vec<Action> = Vec::new();
    let mut i: usize = 0;
    while i < actions.len()
        invariant
            i <= actions.len(),
            copy@.len() == i,
            forall|j: int| 0 <= j < i ==> (#[trigger] copy@[j])@ == actions@[j]@,
        decreases actions.len() - i,
    {
        copy.push(actions[i].clone());
        i += 1;
    }
    copy
}

/// One request to a collaborator outside the engine. The requests of a plan
/// are carried out in order; the first that fails ends the plan.
#[derive(Debug)]
pub enum Effect {
    /// Play the haptic effect.
    Rumble,
    /// Hide the window of the interface.
    HideWindow,
    /// Show the window of the interface.
    ShowWindow,
    /// Give the window of the interface the focus.
    FocusWindow,
    /// Hold a mouse button down.
    MousePress(MouseButton),
    /// Let a mouse button go.
    MouseRelease(MouseButton),
    /// Hold a key down.
    KeyPress(Key),
    /// Let a key go.
    KeyRelease(Key),
    /// Run the script that is referred to.
    RunScript(LuaScript),
}

/// What an `Effect` holds, as plain values.
pub enum EffectView {
    Rumble,
    HideWindow,
    ShowWindow,
    FocusWindow,
    MousePress(MouseButton),
    MouseRelease(MouseButton),
    KeyPress(Key),
    KeyRelease(Key),
    RunScript(Seq<char>),
}

impl View for Effect {
    type V = EffectView;

    open spec fn view(&self) -> EffectView {
        match self {
            Effect::Rumble => EffectView::Rumble,
            Effect::HideWindow => EffectView::HideWindow,
            Effect::ShowWindow => EffectView::ShowWindow,
            Effect::FocusWindow => EffectView::FocusWindow,
            Effect::MousePress(button) => EffectView::MousePress(*button),
            Effect::MouseRelease(button) => EffectView::MouseRelease(*button),
            Effect::KeyPress(key) => EffectView::KeyPress(*key),
            Effect::KeyRelease(key) => EffectView::KeyRelease(*key),
            Effect::RunScript(script) => EffectView::RunScript(script@),
        }
    }
}

/// The views of a plan, in the same order.
pub open spec fn effect_views(plan: Seq<Effect>) -> Seq<EffectView> {
    Seq::new(plan.len(), |i: int| plan[i]@)
}

/// What is at hand when an action runs, besides the configuration.
#[derive(Clone, Copy, Debug)]
pub struct ActionInterface {
    /// Whether the window of the interface is showing.
    pub window_visible: bool,
    /// Whether a haptic trigger is at hand.
    pub rumble: bool,
    /// Whether a script host is at hand.
    pub lua: bool,
}

/// Why an action failed. Each kind carries a report: that of the
/// collaborator that refused, or, for the rumble kind, that no haptic
/// trigger is at hand.
#[derive(Debug)]
pub enum ActionError {
    Lua(String),
    Keypress(String),
    Rumble(String),
    Tauri(String),
    Mouce(String),
    Io(String),
    Other(String),
}

/// What an `ActionError` holds, as plain values.
pub enum ActionErrorView {
    Lua(Seq<char>),
    Keypress(Seq<char>),
    Rumble(Seq<char>),
    Tauri(Seq<char>),
    Mouce(Seq<char>),
    Io(Seq<char>),
    Other(Seq<char>),
}

impl View for ActionError {
    type V = ActionErrorView;

    open spec fn view(&self) -> ActionErrorView {
        match self {
            ActionError::Lua(report) => ActionErrorView::Lua(report@),
            ActionError::Keypress(report) => ActionErrorView::Keypress(report@),
            ActionError::Rumble(report) => ActionErrorView::Rumble(report@),
            ActionError::Tauri(report) => ActionErrorView::Tauri(report@),
            ActionError::Mouce(report) => ActionErrorView::Mouce(report@),
            ActionError::Io(report) => ActionErrorView::Io(report@),
            ActionError::Other(report) => ActionErrorView::Other(report@),
        }
    }
}

impl ActionError {
    /// The kind of the error, as it is written before the report.
    pub open spec fn spec_kind(&self) -> Seq<char> {
        match self {
            ActionError::Lua(_) => "Lua error: "@,
            ActionError::Keypress(_) => "Keypress error: "@,
            ActionError::Rumble(_) => "Rumble error: "@,
            ActionError::Tauri(_) => "Tauri error: "@,
            ActionError::Mouce(_) => "Mouce error: "@,
            ActionError::Io(_) => "IO error: "@,
            ActionError::Other(_) => "Other error: "@,
        }
    }

    /// The report that the error carries.
    pub open spec fn spec_report(&self) -> Seq<char> {
        match self {
            ActionError::Lua(report) => report@,
            ActionError::Keypress(report) => report@,
            ActionError::Rumble(report) => report@,
            ActionError::Tauri(report) => report@,
            ActionError::Mouce(report) => report@,
            ActionError::Io(report) => report@,
            ActionError::Other(report) => report@,
        }
    }

    /// The error as a line of text: its kind, then its report.
    pub fn message(&self) -> (text: String)
        ensures
            text@ == self.spec_kind() + self.spec_report(),
    {
        match self {
            ActionError::Lua(report) => "Lua error: ".to_string().concat(report.as_str()),
            ActionError::Keypress(report) => "Keypress error: ".to_string().concat(report.as_str()),
            ActionError::Rumble(report) => "Rumble error: ".to_string().concat(report.as_str()),
            ActionError::Tauri(report) => "Tauri error: ".to_string().concat(report.as_str()),
            ActionError::Mouce(report) => "Mouce error: ".to_string().concat(report.as_str()),
            ActionError::Io(report) => "IO error: ".to_string().concat(report.as_str()),
            ActionError::Other(report) => "Other error: ".to_string().concat(report.as_str()),
        }
    }
}

/// A haptic trigger. The engine asks for the haptic effect with
/// `Effect::Rumble`; whoever carries the plan out plays it through this.
pub trait Rumbler {
    fn rumble(&self);
}

/// The key presses for the modifiers of a chord, in declared order.
pub open spec fn modifier_presses(modifiers: Seq<ModifierKey>) -> Seq<EffectView> {
    Seq::new(modifiers.len(), |i: int| EffectView::KeyPress(modifier_key(modifiers[i])))
}

/// The key releases for the modifiers of a chord, last declared first.
pub open spec fn modifier_releases(modifiers: Seq<ModifierKey>) -> Seq<EffectView> {
    Seq::new(
        modifiers.len(),
        |i: int| EffectView::KeyRelease(modifier_key(modifiers[modifiers.len() - 1 - i])),
    )
}

/// The plan of a simple action.
pub open spec fn simple_plan(action: SimpleAction, interface: ActionInterface) -> Seq<EffectView> {
    match action {
        SimpleAction::SpeedInc => Seq::empty(),
        SimpleAction::SpeedDec => Seq::empty(),
        SimpleAction::Rumble => seq![EffectView::Rumble],
        SimpleAction::ToggleVis => if interface.window_visible {
            seq![EffectView::HideWindow]
        } else {
            seq![EffectView::ShowWindow, EffectView::FocusWindow]
        },
    }
}

/// The configuration after a simple action: the speed one step up (held
/// within the range of the speed) or one step down. The step down is taken
/// only from a speed that is larger than the step.
pub open spec fn simple_config(action: SimpleAction, config: Config) -> Config {
    match action {
        SimpleAction::SpeedInc => Config {
            speed: clamp(config.speed + config.speed_step, i32::MIN as int, i32::MAX as int) as i32,
            ..config
        },
        SimpleAction::SpeedDec => if config.speed > config.speed_step {
            Config {
                speed: clamp(
                    config.speed - config.speed_step,
                    i32::MIN as int,
                    i32::MAX as int,
                ) as i32,
                ..config
            }
        } else {
            config
        },
        _ => config,
    }
}

/// The plan of the press of an up-down action.
pub open spec fn down_plan(action: UpDownActionView, interface: ActionInterface) -> Seq<
    EffectView,
> {
    match action {
        UpDownActionView::Click(button) => seq![EffectView::MousePress(button)],
        UpDownActionView::SpeedUp => Seq::empty(),
        UpDownActionView::SpeedDown => Seq::empty(),
        UpDownActionView::KeyPress { key, modifiers } => modifier_presses(modifiers).push(
            EffectView::KeyPress(key),
        ),
        UpDownActionView::LuaScript { script } => if interface.lua {
            seq![EffectView::RunScript(script)]
        } else {
            Seq::empty()
        },
    }
}

/// The plan of the release of an up-down action.
pub open spec fn up_plan(action: UpDownActionView) -> Seq<EffectView> {
    match action {
        UpDownActionView::Click(button) => seq![EffectView::MouseRelease(button)],
        UpDownActionView::KeyPress { key, modifiers } => seq![EffectView::KeyRelease(key)]
            + modifier_releases(modifiers),
        _ => Seq::empty(),
    }
}

/// `power` moved by `by`, held within the range of the power.
pub open spec fn shifted(power: i32, by: int) -> i32 {
    clamp(power + by, i32::MIN as int, i32::MAX as int) as i32
}

/// The configuration after the press of an up-down action: the speed-up
/// action applies the factor `speed_up` to the multiplier once more, the
/// speed-down action the factor `speed_down`.
pub open spec fn down_config(action: UpDownActionView, config: Config) -> Config {
    match action {
        UpDownActionView::SpeedUp => Config {
            speed_mult: Multiplier { up: shifted(config.speed_mult.up, 1), ..config.speed_mult },
            ..config
        },
        UpDownActionView::SpeedDown => Config {
            speed_mult: Multiplier { down: shifted(config.speed_mult.down, 1), ..config.speed_mult },
            ..config
        },
        _ => config,
    }
}

/// The configuration after the release of an up-down action: the factor
/// that its press applied is divided out again.
pub open spec fn up_config(action: UpDownActionView, config: Config) -> Config {
    match action {
        UpDownActionView::SpeedUp => Config {
            speed_mult: Multiplier { up: shifted(config.speed_mult.up, -1), ..config.speed_mult },
            ..config
        },
        UpDownActionView::SpeedDown => Config {
            speed_mult: Multiplier {
                down: shifted(config.speed_mult.down, -1),
                ..config.speed_mult
            },
            ..config
        },
        _ => config,
    }
}

fn shift(power: i32, up: bool) -> (moved: i32)
    ensures
        moved == shifted(power, if up { 1int } else { -1int }),
{
    if up {
        if power < i32::MAX {
            power + 1
        } else {
            power
        }
    } else {
        if power > i32::MIN {
            power - 1
        } else {
            power
        }
    }
}

fn add_clamped(a: i32, b: i32) -> (sum: i32)
    ensures
        sum == clamp(a + b, i32::MIN as int, i32::MAX as int),
{
    let wide: i64 = a as i64 + b as i64;
    if wide > i32::MAX as i64 {
        i32::MAX
    } else if wide < i32::MIN as i64 {
        i32::MIN
    } else {
        wide as i32
    }
}

fn sub_clamped(a: i32, b: i32) -> (difference: i32)
    ensures
        difference == clamp(a - b, i32::MIN as int, i32::MAX as int),
{
    let wide: i64 = a as i64 - b as i64;
    if wide > i32::MAX as i64 {
        i32::MAX
    } else if wide < i32::MIN as i64 {
        i32::MIN
    } else {
        wide as i32
    }
}

/// An action that has a press effect only.
pub trait SimpleActionFn {
    fn call(&self, config: &mut Config, state: &ActionInterface) -> Result<Vec<Effect>, ActionError>;
}

impl SimpleActionFn for SimpleAction {
    /// Runs the action: changes the configuration as `simple_config` says and
    /// returns the plan of `simple_plan`. The haptic action fails where no
    /// haptic trigger is at hand, and only then.
    fn call(&self, config: &mut Config, state: &ActionInterface) -> (outcome: Result<
        Vec<Effect>,
        ActionError,
    >)
        ensures
            *final(config) == simple_config(*self, *old(config)),
            match outcome {
                Ok(plan) => !(*self is Rumble && !state.rumble) && effect_views(plan@)
                    == simple_plan(*self, *state),
                Err(error) => *self is Rumble && !state.rumble && error@ == ActionErrorView::Rumble(
                    "no rumbler"@,
                ),
            },
    {
        let mut plan: Vec<Effect> = Vec::new();
        match self {
            SimpleAction::SpeedInc => {
                config.speed = add_clamped(config.speed, config.speed_step);
            },
            SimpleAction::SpeedDec => {
                if config.speed > config.speed_step {
                    config.speed = sub_clamped(config.speed, config.speed_step);
                }
            },
            SimpleAction::Rumble => {
                if state.rumble {
                    plan.push(Effect::Rumble);
                } else {
                    return Err(ActionError::Rumble("no rumbler".to_string()));
                }
            },
            SimpleAction::ToggleVis => {
                if state.window_visible {
                    plan.push(Effect::HideWindow);
                } else {
                    plan.push(Effect::ShowWindow);
                    plan.push(Effect::FocusWindow);
                }
            },
        }
        Ok(plan)
    }
}

/// An action with a press effect and a release effect.
pub trait UpDownActionFn {
    fn down(&self, config: &mut Config, state: &ActionInterface) -> Result<Vec<Effect>, ActionError>;

    fn up(&self, config: &mut Config, state: &ActionInterface) -> Result<Vec<Effect>, ActionError>;
}

impl UpDownActionFn for UpDownAction {
    /// The press: changes the configuration as `down_config` says and returns
    /// the plan of `down_plan`. It never fails by itself.
    fn down(&self, config: &mut Config, state: &ActionInterface) -> (outcome: Result<
        Vec<Effect>,
        ActionError,
    >)
        ensures
            *final(config) == down_config(self@, *old(config)),
            outcome is Ok,
            effect_views(outcome->Ok_0@) == down_plan(self@, *state),
    {
        let mut plan: Vec<Effect> = Vec::new();
        match self {
            UpDownAction::Click(button) => {
                plan.push(Effect::MousePress(*button));
            },
            UpDownAction::SpeedUp => {
                config.speed_mult.up = shift(config.speed_mult.up, true);
            },
            UpDownAction::SpeedDown => {
                config.speed_mult.down = shift(config.speed_mult.down, true);
            },
            UpDownAction::KeyPress { key, modifiers } => {
                let mut i: usize = 0;
                while i < modifiers.len()
                    invariant
                        i <= modifiers.len(),
                        plan@.len() == i,
                        forall|j: int|
                            0 <= j < i ==> (#[trigger] plan@[j])@ == EffectView::KeyPress(
                                modifier_key(modifiers@[j]),
                            ),
                    decreases modifiers.len() - i,
                {
                    plan.push(Effect::KeyPress(Key::from(modifiers[i])));
                    i += 1;
                }
                plan.push(Effect::KeyPress(*key));
                assert(effect_views(plan@) =~= down_plan(self@, *state));
            },
            UpDownAction::LuaScript { script } => {
                if state.lua {
                    plan.push(Effect::RunScript(script.clone()));
                }
            },
        }
        Ok(plan)
    }

    /// The release: changes the configuration as `up_config` says and returns
    /// the plan of `up_plan`. It never fails by itself.
    fn up(&self, config: &mut Config, state: &ActionInterface) -> (outcome: Result<
        Vec<Effect>,
        ActionError,
    >)
        ensures
            *final(config) == up_config(self@, *old(config)),
            outcome is Ok,
            effect_views(outcome->Ok_0@) == up_plan(self@),
    {
        let mut plan: Vec<Effect> = Vec::new();
        match self {
            UpDownAction::Click(button) => {
                plan.push(Effect::MouseRelease(*button));
            },
            UpDownAction::SpeedUp => {
                config.speed_mult.up = shift(config.speed_mult.up, false);
            },
            UpDownAction::SpeedDown => {
                config.speed_mult.down = shift(config.speed_mult.down, false);
            },
            UpDownAction::KeyPress { key, modifiers } => {
                plan.push(Effect::KeyRelease(*key));
                let mut left: usize = modifiers.len();
                while left > 0
                    invariant
                        left <= modifiers.len(),
                        plan@.len() == 1 + modifiers.len() - left,
                        plan@[0]@ == EffectView::KeyRelease(*key),
                        forall|j: int|
                            1 <= j < plan@.len() ==> (#[trigger] plan@[j])@ == EffectView::KeyRelease(
                                modifier_key(modifiers@[modifiers.len() - j]),
                            ),
                    decreases left,
                {
                    left -= 1;
                    plan.push(Effect::KeyRelease(Key::from(modifiers[left])));
                }
                assert(effect_views(plan@) =~= up_plan(self@));
            },
            UpDownAction::LuaScript { .. } => {},
        }
        Ok(plan)
    }
}

/// Whether the press of an action fails before it asks for anything: the
/// haptic action, where no haptic trigger is at hand.
pub open spec fn press_fails(action: ActionView, interface: ActionInterface) -> bool {
    action == ActionView::Simple(SimpleAction::Rumble) && !interface.rumble
}

/// The plan of the press of an action.
pub open spec fn press_plan(action: ActionView, interface: ActionInterface) -> Seq<EffectView> {
    match action {
        ActionView::Simple(simple) => simple_plan(simple, interface),
        ActionView::UpDown(paired) => down_plan(paired, interface),
    }
}

/// The configuration after the press of an action.
pub open spec fn press_config(action: ActionView, config: Config) -> Config {
    match action {
        ActionView::Simple(simple) => simple_config(simple, config),
        ActionView::UpDown(paired) => down_config(paired, config),
    }
}

/// The plan of the release of an action: a simple action has none.
pub open spec fn release_plan(action: ActionView) -> Seq<EffectView> {
    match action {
        ActionView::Simple(_) => Seq::empty(),
        ActionView::UpDown(paired) => up_plan(paired),
    }
}

/// The configuration after the release of an action: a simple action
/// leaves it as it is.
pub open spec fn release_config(action: ActionView, config: Config) -> Config {
    match action {
        ActionView::Simple(_) => config,
        ActionView::UpDown(paired) => up_config(paired, config),
    }
}

/// What every action answers to: a press and a release.
pub trait ActionFn {
    fn down(&self, config: &mut Config, interface: &ActionInterface) -> Result<
        Vec<Effect>,
        ActionError,
    >;

    fn up(&self, config: &mut Config, interface: &ActionInterface) -> Result<
        Vec<Effect>,
        ActionError,
    >;
}

impl ActionFn for Action {
    /// The press of the action. The configuration is changed as
    /// `press_config` says, also where the press fails. It fails exactly
    /// where `press_fails` says, with the rumble error "no rumbler"; otherwise the
    /// plan of `press_plan` is returned.
    fn down(&self, config: &mut Config, interface: &ActionInterface) -> (outcome: Result<
        Vec<Effect>,
        ActionError,
    >)
        ensures
            *final(config) == press_config(self@, *old(config)),
            match outcome {
                Ok(plan) => !press_fails(self@, *interface) && effect_views(plan@) == press_plan(
                    self@,
                    *interface,
                ),
                Err(error) => press_fails(self@, *interface) && error@ == ActionErrorView::Rumble(
                    "no rumbler"@,
                ),
            },
    {
        match self {
            Action::Simple(simple) => simple.call(config, interface),
            Action::UpDown(paired) => paired.down(config, interface),
        }
    }

    /// The release of the action. It never fails by itself: the
    /// configuration is changed as `release_config` says and the plan of
    /// `release_plan` is returned.
    fn up(&self, config: &mut Config, interface: &ActionInterface) -> (outcome: Result<
        Vec<Effect>,
        ActionError,
    >)
        ensures
            *final(config) == release_config(self@, *old(config)),
            outcome is Ok,
            effect_views(outcome->Ok_0@) == release_plan(self@),
    {
        match self {
            Action::Simple(_) => {
                let plan: Vec<Effect> = Vec::new();
                Ok(plan)
            },
            Action::UpDown(paired) => paired.up(config, interface),
        }
    }
}

/// The configuration after `times` presses of an action, each followed by
/// its release.
pub open spec fn after_cycles(action: ActionView, config: Config, times: nat) -> Config
    decreases times,
{
    if times == 0 {
        config
    } else {
        release_config(action, press_config(action, after_cycles(action, config, (times - 1) as nat)))
    }
}

/// Whether a press of the action moves the multiplier: not, where the power
/// is at the end of its range.
pub open spec fn press_in_range(action: ActionView, config: Config) -> bool {
    match action {
        ActionView::UpDown(UpDownActionView::SpeedUp) => config.speed_mult.up < i32::MAX,
        ActionView::UpDown(UpDownActionView::SpeedDown) => config.speed_mult.down < i32::MAX,
        _ => true,
    }
}

/// The release of an up-down action undoes its press exactly: the
/// configuration, and with it the multiplier, is what it was before.
pub proof fn lemma_release_undoes_press(action: UpDownActionView, config: Config)
    requires
        press_in_range(ActionView::UpDown(action), config),
    ensures
        up_config(action, down_config(action, config)) == config,
        multiplier(up_config(action, down_config(action, config))) == multiplier(config),
{
}

/// Any number of presses of an up-down action, each followed by its
/// release, leaves the configuration exactly as it was.
pub proof fn lemma_cycles_leave_config(action: UpDownActionView, config: Config, times: nat)
    requires
        press_in_range(ActionView::UpDown(action), config),
    ensures
        after_cycles(ActionView::UpDown(action), config, times) == config,
    decreases times,
{
    if times > 0 {
        lemma_cycles_leave_config(action, config, (times - 1) as nat);
        lemma_release_undoes_press(action, config);
    }
}

/// The request that takes back a request of a press: the release of the
/// same key or mouse button.
pub open spec fn taken_back(effect: EffectView) -> EffectView {
    match effect {
        EffectView::KeyPress(key) => EffectView::KeyRelease(key),
        EffectView::MousePress(button) => EffectView::MouseRelease(button),
        _ => effect,
    }
}

/// The release plan of a key chord or a click mirrors its press plan: it
/// takes back every request of the press, last request first.
pub proof fn lemma_release_mirrors_press(action: UpDownActionView, interface: ActionInterface)
    requires
        action is KeyPress || action is Click,
    ensures
        up_plan(action).len() == down_plan(action, interface).len(),
        forall|i: int|
            0 <= i < up_plan(action).len() ==> #[trigger] up_plan(action)[i] == taken_back(
                down_plan(action, interface)[down_plan(action, interface).len() - 1 - i],
            ),
{
}

/// A steady speed never turns negative by a step down: from a speed that is
/// not negative, with a step that is not negative, the step down leaves a
/// speed that is not negative.
pub proof fn lemma_step_down_stays_positive(config: Config)
    requires
        config.speed >= 0,
        config.speed_step >= 0,
    ensures
        simple_config(SimpleAction::SpeedDec, config).speed >= 0,
        config.speed == config.speed_step ==> simple_config(SimpleAction::SpeedDec, config) == config,
{
}

} // verus!
