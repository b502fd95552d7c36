//! What the script host decides: which globals a script may read and
//! write, and what a write of each kind of value does.
//!
//! A script sees one numeric property, `speed`, a logging function and a
//! rumble trigger, and nothing else of the engine.

use crate::actions::ActionInterface;
use crate::buttons::same_text;
use crate::config::Config;
use crate::fixed::{clamp, MILLI};
use vstd::prelude::*;
use vstd::std_specs::convert::FromSpecImpl;

verus! {

/// A value that a script assigns to a global.
#[derive(Debug)]
pub enum ScriptValue {
    /// A number, in thousandths.
    Number(i32),
    /// A whole number.
    Integer(i64),
    /// A value of any other type, by the name of its type.
    Other(String),
}

/// Why the host refused what a script did.
#[derive(Debug)]
pub enum ScriptError {
    /// A value of type `from` was assigned where one of type `to` belongs.
    Conversion { from: String, to: String, message: String },
}

/// What the host has to do after a write that it accepted.
#[derive(Clone, Copy, Debug, PartialEq, Eq, Structural)]
pub enum Written {
    /// The speed was set; nothing is left to do.
    Speed,
    /// The global is none of the engine's: store it in the script's own
    /// table.
    Raw,
}

/// What is at hand when a script runs: all that an action has, but for a
/// script host, so that a script cannot start a script.
#[derive(Clone, Copy, Debug)]
pub struct LuaInterface {
    /// Whether the window of the interface is showing.
    pub window_visible: bool,
    /// Whether a haptic trigger is at hand.
    pub rumble: bool,
}

impl From<LuaInterface> for ActionInterface {
    fn from(val: LuaInterface) -> (interface: ActionInterface) {
        ActionInterface { window_visible: val.window_visible, rumble: val.rumble, lua: false }
    }
}

impl FromSpecImpl<LuaInterface> for ActionInterface {
    open spec fn obeys_from_spec() -> bool {
        true
    }

    open spec fn from_spec(val: LuaInterface) -> ActionInterface {
        ActionInterface { window_visible: val.window_visible, rumble: val.rumble, lua: false }
    }
}

/// The speed that a written value stands for, in thousandths: a number as it
/// is, a whole number times one thousand, held within the range of the speed.
pub open spec fn written_speed(value: ScriptValue) -> Option<i32> {
    match value {
        ScriptValue::Number(speed) => Some(speed),
        ScriptValue::Integer(whole) => Some(
            clamp(whole * MILLI, i32::MIN as int, i32::MAX as int) as i32,
        ),
        ScriptValue::Other(_) => None,
    }
}

/// A script reads a global: `speed` gives the current speed, in thousandths,
/// and every other name gives nothing.
pub fn read_global(config: &Config, key: &str) -> (value: Option<i32>)
    ensures
        value == (if key@ == "speed"@ {
            Some(config.speed)
        } else {
            None
        }),
{
    if same_text(key, "speed") {
        Some(config.speed)
    } else {
        None
    }
}

/// A script assigns to a global. An assignment to `speed` sets the speed
/// where the value is a number or a whole number, and is refused with a
/// conversion error for a value of any other type; the configuration is then
/// left as it is. An assignment to any other name changes nothing here and
/// is left to the script's own table.
pub fn write_global(config: &mut Config, key: &str, value: &ScriptValue) -> (outcome: Result<
    Written,
    ScriptError,
>)
    ensures
        key@ != "speed"@ ==> outcome == Ok::<Written, ScriptError>(Written::Raw) && *final(config)
            == *old(config),
        key@ == "speed"@ ==> match written_speed(*value) {
            Some(speed) => outcome == Ok::<Written, ScriptError>(Written::Speed) && *final(config)
                == (Config { speed, ..*old(config) }),
            None => *final(config) == *old(config) && match outcome {
                Err(ScriptError::Conversion { from, to, message }) => from@ == value->Other_0@
                    && to@ == "number"@ && message@
                    == "Expected a number or integer for speed"@,
                Ok(_) => false,
            },
        },
{
    if !same_text(key, "speed") {
        return Ok(Written::Raw);
    }
    match value {
        ScriptValue::Number(speed) => {
            config.speed = *speed;
            Ok(Written::Speed)
        },
        ScriptValue::Integer(whole) => {
            let scaled: i128 = (*whole as i128) * (MILLI as i128);
            config.speed = if scaled > i32::MAX as i128 {
                i32::MAX
            } else if scaled < i32::MIN as i128 {
                i32::MIN
            } else {
                scaled as i32
            };
            Ok(Written::Speed)
        },
        ScriptValue::Other(kind) => Err(
            ScriptError::Conversion {
                from: kind.clone(),
                to: "number".to_string(),
                message: "Expected a number or integer for speed".to_string(),
            },
        ),
    }
}

/// The line that the logging function of a script writes: its argument, or
/// a note that there was none.
pub fn log_line(input: Option<String>) -> (line: String)
    ensures
        line@ == (match input {
            Some(text) => text@,
            None => "log called with no argument or nil"@,
        }),
{
    match input {
        Some(text) => text,
        None => "log called with no argument or nil".to_string(),
    }
}

} // verus!
