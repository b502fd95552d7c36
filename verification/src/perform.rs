//! The dispatcher: tracks the active controller, routes button transitions
//! to the bound actions, caches the sticks and turns them into motion once
//! per tick.
//!
//! The loop around it polls the device, carries out the plans and sleeps; it
//! hands every poll result and every event to the dispatcher and applies what
//! comes back.

use crate::actions::{action_views, Action};
use crate::buttons::{Axis, Button};
use crate::config::{multiplier, Config, DeviceId};
use crate::fixed::{
    div_toward_zero, lemma_product_bound, lemma_trunc_div_shrinks, trunc_div, MILLI,
};
use crate::motion::{
    carried, displacement, integer_and_fractional, whole_pixels, Vec2, POLL_TIME_MS, SUBPIXELS,
    UNIT_MULTIPLIER,
};
use vstd::prelude::*;

verus! {

/// Deflection beyond which the second stick scrolls: one half.
pub const SCROLL_THRESHOLD: i32 = 500;

/// Wheel units per tick at full deflection of the second stick, for drivers
/// that take the wheel as an amount: 3.2, in thousandths.
pub const WHEEL_RATE: i32 = 3_200;

/// What a controller reports.
#[derive(Clone, Copy, Debug, PartialEq, Eq, Structural)]
pub enum EventType {
    ButtonPressed(Button),
    ButtonReleased(Button),
    /// A new deflection of an axis, in thousandths.
    AxisChanged(Axis, i32),
    /// Anything else a controller may report.
    Other,
}

/// A report together with the controller it comes from.
#[derive(Clone, Copy, Debug, PartialEq, Eq, Structural)]
pub struct Event {
    pub id: DeviceId,
    pub event: EventType,
}

/// A direction of the scroll wheel.
#[derive(Clone, Copy, Debug, PartialEq, Eq, Structural)]
pub enum ScrollDirection {
    Up,
    Down,
    Right,
    Left,
}

/// What one tick asks of the pointer.
#[derive(Clone, Copy, Debug, PartialEq, Eq, Structural)]
pub struct Motion {
    /// The relative move in whole pixels; none where both parts are zero.
    pub pointer: Option<Vec2>,
    /// One notch of the vertical wheel, if any.
    pub scroll_vertical: Option<ScrollDirection>,
    /// One notch of the horizontal wheel, if any.
    pub scroll_horizontal: Option<ScrollDirection>,
}

/// What the loop has to do for an event.
#[derive(Debug)]
pub enum Routed {
    /// The event came from a controller that is not the active one.
    Ignored,
    /// A button went down: run the press of each action, in order.
    Press(Vec<Action>),
    /// A button came up: run the release of each action, in order.
    Release(Vec<Action>),
    /// A stick moved; its deflection is cached.
    Stick,
    /// Nothing to do.
    Nothing,
}

/// The cached sticks and the carried fractions of the pointer.
#[derive(Clone, Copy, Debug, PartialEq, Eq, Structural)]
pub struct Dispatcher {
    /// The stick that moves the pointer.
    pub l_stick: Vec2,
    /// The stick that scrolls.
    pub r_stick: Vec2,
    /// The fractions of a pixel carried to the next tick, in millionths.
    pub remainder: Vec2,
}

/// The dispatcher at rest: sticks centred, nothing carried.
pub open spec fn at_rest() -> Dispatcher {
    Dispatcher {
        l_stick: Vec2 { x: 0, y: 0 },
        r_stick: Vec2 { x: 0, y: 0 },
        remainder: Vec2 { x: 0, y: 0 },
    }
}

/// The active controller after a poll that found `first` as the first
/// connected controller: none where nothing is connected, the one found
/// where none was active, else the active one.
pub open spec fn polled_device(active: Option<DeviceId>, first: Option<DeviceId>) -> Option<
    DeviceId,
> {
    match (first, active) {
        (None, _) => None,
        (Some(id), None) => Some(id),
        (Some(_), Some(id)) => Some(id),
    }
}

/// The dispatcher after a poll: at rest where nothing is connected, else as
/// it was.
pub open spec fn polled(state: Dispatcher, first: Option<DeviceId>) -> Dispatcher {
    if first is None {
        at_rest()
    } else {
        state
    }
}

/// Whether an event is dropped: a controller is active and the event comes
/// from another one.
pub open spec fn dropped(active: Option<DeviceId>, event: Event) -> bool {
    active is Some && active->Some_0 != event.id
}

/// The dispatcher with a new deflection of one axis cached. Only the four
/// axes of the two sticks are cached.
pub open spec fn with_axis(state: Dispatcher, axis: Axis, value: i32) -> Dispatcher {
    match axis {
        Axis::LeftStickX => Dispatcher { l_stick: Vec2 { x: value, ..state.l_stick }, ..state },
        Axis::LeftStickY => Dispatcher { l_stick: Vec2 { y: value, ..state.l_stick }, ..state },
        Axis::RightStickX => Dispatcher { r_stick: Vec2 { x: value, ..state.r_stick }, ..state },
        Axis::RightStickY => Dispatcher { r_stick: Vec2 { y: value, ..state.r_stick }, ..state },
        _ => state,
    }
}

/// The dispatcher after an event that is not dropped.
pub open spec fn routed_state(state: Dispatcher, event: Event) -> Dispatcher {
    match event.event {
        EventType::AxisChanged(axis, value) => with_axis(state, axis, value),
        _ => state,
    }
}

/// The horizontal displacement that a tick splits, in millionths of a pixel:
/// that of the first stick, plus what was carried.
pub open spec fn pending_x(state: Dispatcher, config: Config) -> int {
    displacement(
        state.l_stick.x as int,
        config.speed as int,
        multiplier(config),
        POLL_TIME_MS as int,
    ) + state.remainder.x
}

/// The vertical displacement that a tick splits. The stick is inverted: up
/// on the stick is up on the screen, where the vertical coordinate falls.
pub open spec fn pending_y(state: Dispatcher, config: Config) -> int {
    displacement(
        -(state.l_stick.y as int),
        config.speed as int,
        multiplier(config),
        POLL_TIME_MS as int,
    ) + state.remainder.y
}

/// The dispatcher after a tick: the sticks as they were, the new fractions
/// carried.
pub open spec fn ticked(state: Dispatcher, config: Config) -> Dispatcher {
    Dispatcher {
        remainder: Vec2 {
            x: carried(pending_x(state, config)) as i32,
            y: carried(pending_y(state, config)) as i32,
        },
        ..state
    }
}

/// The notch that a deflection of the second stick asks for: one in the
/// positive direction beyond the threshold, one in the negative direction
/// beyond its negative, else none.
pub open spec fn scroll_of(value: i32, positive: ScrollDirection, negative: ScrollDirection)
    -> Option<ScrollDirection> {
    if value > SCROLL_THRESHOLD {
        Some(positive)
    } else if value < -SCROLL_THRESHOLD {
        Some(negative)
    } else {
        None
    }
}

/// What a tick asks of the pointer.
pub open spec fn motion_of(state: Dispatcher, config: Config) -> Motion {
    let dx = whole_pixels(pending_x(state, config)) as i32;
    let dy = whole_pixels(pending_y(state, config)) as i32;
    Motion {
        pointer: if dx != 0 || dy != 0 {
            Some(Vec2 { x: dx, y: dy })
        } else {
            None
        },
        scroll_vertical: scroll_of(state.r_stick.y, ScrollDirection::Up, ScrollDirection::Down),
        scroll_horizontal: scroll_of(state.r_stick.x, ScrollDirection::Right, ScrollDirection::Left),
    }
}

/// The amount by which a deflection of the second stick turns the wheel in
/// one tick, for drivers that take the wheel as an amount: the whole part of
/// deflection times wheel rate times multiplier. The fraction is dropped,
/// not carried.
pub open spec fn wheel_amount(value: int, gain: int) -> int {
    whole_pixels(trunc_div(value * WHEEL_RATE * gain, MILLI as int))
}

fn wheel_of(value: i32, gain: i32) -> (amount: i32)
    ensures
        amount == wheel_amount(value as int, gain as int),
{
    let ghost bound: int = 0x8000_0000;
    proof {
        lemma_product_bound(value as int, WHEEL_RATE as int, bound, 3_200);
        lemma_product_bound(value * WHEEL_RATE, gain as int, bound * 3_200, bound);
        assert(bound * 3_200 * bound < 0x1_0000_0000_0000_0000_0000) by (nonlinear_arith)
            requires
                bound == 0x8000_0000,
        ;
    }
    let product: i128 = (value as i128) * (WHEEL_RATE as i128) * (gain as i128);
    let scaled = div_toward_zero(product, MILLI as i128);
    integer_and_fractional(scaled).0
}

fn pending(axis: i128, speed: i32, gain: i32, carry: i32) -> (num: i128)
    requires
        -0x8000_0000 <= axis <= 0x8000_0000,
    ensures
        num == displacement(axis as int, speed as int, gain as int, POLL_TIME_MS as int) + carry,
{
    let ghost bound: int = 0x8000_0000;
    proof {
        lemma_product_bound(axis as int, speed as int, bound, bound);
        lemma_product_bound(axis * speed, gain as int, bound * bound, bound);
        lemma_product_bound(axis * speed * gain, UNIT_MULTIPLIER as int, bound * bound * bound, 20);
        lemma_product_bound(
            axis * speed * gain * UNIT_MULTIPLIER,
            POLL_TIME_MS as int,
            bound * bound * bound * 20,
            1,
        );
        assert(bound * bound * bound * 20 * 1 == 0x2_8000_0000_0000_0000_0000_0000) by (nonlinear_arith)
            requires
                bound == 0x8000_0000,
        ;
    }
    let product: i128 = axis * (speed as i128) * (gain as i128) * (UNIT_MULTIPLIER as i128) * (
    POLL_TIME_MS as i128);
    let raw = div_toward_zero(product, SUBPIXELS as i128);
    assert(-0x2_8000_0000_0000_0000_0000_0000 <= raw <= 0x2_8000_0000_0000_0000_0000_0000) by {
        lemma_trunc_div_shrinks(product as int, SUBPIXELS as int);
    }
    raw + carry as i128
}

fn scroll(value: i32, positive: ScrollDirection, negative: ScrollDirection) -> (notch: Option<
    ScrollDirection,
>)
    ensures
        notch == scroll_of(value, positive, negative),
{
    if value > SCROLL_THRESHOLD {
        Some(positive)
    } else if value < -SCROLL_THRESHOLD {
        Some(negative)
    } else {
        None
    }
}

impl Dispatcher {
    /// The fractions carried are always less than a pixel.
    pub open spec fn wf(&self) -> bool {
        -SUBPIXELS < self.remainder.x < SUBPIXELS && -SUBPIXELS < self.remainder.y < SUBPIXELS
    }

    /// A dispatcher at rest.
    pub fn new() -> (state: Self)
        ensures
            state == at_rest(),
            state.wf(),
    {
        Dispatcher {
            l_stick: Vec2 { x: 0, y: 0 },
            r_stick: Vec2 { x: 0, y: 0 },
            remainder: Vec2 { x: 0, y: 0 },
        }
    }

    /// Takes the result of a poll: `first` is the first connected controller,
    /// if there is one. Where nothing is connected, the active controller is
    /// forgotten and sticks and carried fractions go back to zero. Where a
    /// controller is found and none was active, it becomes the active one.
    /// Returns whether a controller is connected.
    pub fn poll(&mut self, config: &mut Config, first: Option<DeviceId>) -> (connected: bool)
        ensures
            connected == first is Some,
            *final(self) == polled(*old(self), first),
            *final(config) == (Config {
                gamepad_id: polled_device(old(config).gamepad_id, first),
                ..*old(config)
            }),
    {
        match first {
            None => {
                config.gamepad_id = None;
                self.l_stick = Vec2 { x: 0, y: 0 };
                self.r_stick = Vec2 { x: 0, y: 0 };
                self.remainder = Vec2 { x: 0, y: 0 };
                false
            },
            Some(id) => {
                if config.gamepad_id.is_none() {
                    config.gamepad_id = Some(id);
                }
                true
            },
        }
    }

    /// Takes one event. An event of a controller other than the active one
    /// is ignored and changes nothing. Any other event makes its controller
    /// the active one where none was; a button transition hands out the
    /// actions bound to the button, and a stick movement is cached.
    pub fn route(&mut self, config: &mut Config, event: &Event) -> (routed: Routed)
        ensures
            dropped(old(config).gamepad_id, *event) ==> routed is Ignored && *final(self) == *old(
                self,
            ) && *final(config) == *old(config),
            !dropped(old(config).gamepad_id, *event) ==> {
                &&& *final(self) == routed_state(*old(self), *event)
                &&& *final(config) == (Config { gamepad_id: Some(event.id), ..*old(config) })
                &&& match event.event {
                    EventType::ButtonPressed(button) => routed matches Routed::Press(actions)
                        && action_views(actions@) == old(config).actions.spec_bindings_for(button),
                    EventType::ButtonReleased(button) => routed matches Routed::Release(actions)
                        && action_views(actions@) == old(config).actions.spec_bindings_for(button),
                    EventType::AxisChanged(_, _) => routed is Stick,
                    EventType::Other => routed is Nothing,
                }
            },
    {
        match config.gamepad_id {
            Some(id) => {
                if event.id != id {
                    return Routed::Ignored;
                }
            },
            None => {
                config.gamepad_id = Some(event.id);
            },
        }
        match event.event {
            EventType::ButtonPressed(button) => Routed::Press(config.actions.bindings_for(button)),
            EventType::ButtonReleased(button) => Routed::Release(
                config.actions.bindings_for(button),
            ),
            EventType::AxisChanged(axis, value) => {
                match axis {
                    Axis::LeftStickX => {
                        self.l_stick.x = value;
                    },
                    Axis::LeftStickY => {
                        self.l_stick.y = value;
                    },
                    Axis::RightStickX => {
                        self.r_stick.x = value;
                    },
                    Axis::RightStickY => {
                        self.r_stick.y = value;
                    },
                    _ => {},
                }
                Routed::Stick
            },
            EventType::Other => Routed::Nothing,
        }
    }

    /// The wheel amounts of one tick, horizontal and vertical, for drivers
    /// that take the wheel as an amount rather than notch by notch. Without
    /// an active controller there are none.
    pub fn wheel(&self, config: &Config) -> (amounts: Option<Vec2>)
        ensures
            config.gamepad_id is None ==> amounts is None,
            config.gamepad_id is Some ==> amounts == Some(
                Vec2 {
                    x: wheel_amount(
                        self.r_stick.x as int,
                        multiplier(*config),
                    ) as i32,
                    y: wheel_amount(
                        self.r_stick.y as int,
                        multiplier(*config),
                    ) as i32,
                },
            ),
    {
        if config.gamepad_id.is_none() {
            return None;
        }
        let gain = config.multiplier();
        Some(Vec2 { x: wheel_of(self.r_stick.x, gain), y: wheel_of(self.r_stick.y, gain) })
    }

    /// One tick of motion. Without an active controller nothing moves and
    /// nothing changes. With one, the first stick gives the pointer move of
    /// `motion_of`, the fractions are carried as `ticked` says, and the
    /// second stick gives the scroll notches.
    pub fn tick(&mut self, config: &Config) -> (motion: Option<Motion>)
        ensures
            config.gamepad_id is Some ==> final(self).wf(),
            config.gamepad_id is None ==> motion is None && *final(self) == *old(self),
            config.gamepad_id is Some ==> motion == Some(motion_of(*old(self), *config))
                && *final(self) == ticked(*old(self), *config),
    {
        if config.gamepad_id.is_none() {
            return None;
        }
        let gain = config.multiplier();
        let new_x = pending(self.l_stick.x as i128, config.speed, gain, self.remainder.x);
        let new_y = pending(-(self.l_stick.y as i128), config.speed, gain, self.remainder.y);
        let (dx, x_rem) = integer_and_fractional(new_x);
        let (dy, y_rem) = integer_and_fractional(new_y);
        self.remainder.x = x_rem;
        self.remainder.y = y_rem;
        let pointer = if dx != 0 || dy != 0 {
            Some(Vec2 { x: dx, y: dy })
        } else {
            None
        };
        Some(
            Motion {
                pointer,
                scroll_vertical: scroll(self.r_stick.y, ScrollDirection::Up, ScrollDirection::Down),
                scroll_horizontal: scroll(
                    self.r_stick.x,
                    ScrollDirection::Right,
                    ScrollDirection::Left,
                ),
            },
        )
    }
}

/// After a poll that finds nothing connected the dispatcher is at rest, and
/// no controller is active; when a controller is found again it becomes the
/// active one, and the first tick after that moves the pointer by the
/// displacement of that tick alone, with nothing carried into it.
pub proof fn lemma_reconnect_starts_from_rest(
    state: Dispatcher,
    config: Config,
    active: Option<DeviceId>,
    id: DeviceId,
)
    ensures
        polled(state, None) == at_rest(),
        polled_device(active, None) is None,
        polled(polled(state, None), Some(id)) == at_rest(),
        polled_device(polled_device(active, None), Some(id)) == Some(id),
        pending_x(at_rest(), config) == 0,
        pending_y(at_rest(), config) == 0,
        forall|axis: Axis, value: i32|
            pending_x(#[trigger] with_axis(at_rest(), axis, value), config) == displacement(
                with_axis(at_rest(), axis, value).l_stick.x as int,
                config.speed as int,
                multiplier(config),
                POLL_TIME_MS as int,
            ),
{
    assert(0 * config.speed * multiplier(config)
        * UNIT_MULTIPLIER * POLL_TIME_MS == 0) by (nonlinear_arith);
    assert((-0) * config.speed * multiplier(config)
        * UNIT_MULTIPLIER * POLL_TIME_MS == 0) by (nonlinear_arith);
}

} // verus!
