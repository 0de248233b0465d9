//! Controller state shared between a backend and the updaters it drives.

use vstd::prelude::*;
use crate::geometry::Vector2;

verus! {

/// The state of one button over two consecutive polls.
#[derive(Clone, Copy, PartialEq, Eq, Hash, Debug, Structural)]
pub enum Button {
    Normal,
    JustPressed,
    BeingHeld,
    JustReleased,
}

impl Button {
    /// Whether the button is down at this poll.
    pub open spec fn pressed(self) -> bool {
        self == Button::JustPressed || self == Button::BeingHeld
    }

    pub fn is_pressed(&self) -> (down: bool)
        ensures
            down == self.pressed(),
    {
        match self {
            Button::JustPressed | Button::BeingHeld => true,
            _ => false,
        }
    }

    pub fn is_not_pressed(&self) -> (up: bool)
        ensures
            up == !self.pressed(),
    {
        !self.is_pressed()
    }
}

impl From<bool> for Button {
    fn from(state: bool) -> (button: Self) {
        if state {
            Button::BeingHeld
        } else {
            Button::Normal
        }
    }
}

impl vstd::std_specs::convert::FromSpecImpl<bool> for Button {
    open spec fn obeys_from_spec() -> bool {
        true
    }

    /// A button known only to be down counts as held, one known only to be
    /// up as at rest.
    open spec fn from_spec(state: bool) -> Self {
        if state {
            Button::BeingHeld
        } else {
            Button::Normal
        }
    }
}

/// The number by which a backend tells its joysticks apart.
pub type JoystickId = u32;

/// A direction of the directional pad.
#[derive(Clone, Copy, PartialEq, Eq, Hash, Debug, Structural)]
pub enum Dpad {
    Up,
    Right,
    Bottom,
    Left,
}

impl Dpad {
    /// The unit step in this direction on a screen, where y grows downwards.
    pub open spec fn on_screen(self) -> Vector2 {
        match self {
            Dpad::Up => Vector2 { x: 0, y: -1i64 },
            Dpad::Right => Vector2 { x: 1, y: 0 },
            Dpad::Bottom => Vector2 { x: 0, y: 1 },
            Dpad::Left => Vector2 { x: -1i64, y: 0 },
        }
    }

    /// The unit step in this direction in a plane where y grows upwards.
    pub open spec fn in_plane(self) -> Vector2 {
        match self {
            Dpad::Up => Vector2 { x: 0, y: 1 },
            Dpad::Right => Vector2 { x: 1, y: 0 },
            Dpad::Bottom => Vector2 { x: 0, y: -1i64 },
            Dpad::Left => Vector2 { x: -1i64, y: 0 },
        }
    }
}

impl From<Dpad> for Vector2 {
    fn from(direction: Dpad) -> (step: Self) {
        match direction {
            Dpad::Up => Vector2::new(0, -1),
            Dpad::Right => Vector2::new(1, 0),
            Dpad::Bottom => Vector2::new(0, 1),
            Dpad::Left => Vector2::new(-1, 0),
        }
    }
}

impl vstd::std_specs::convert::FromSpecImpl<Dpad> for Vector2 {
    open spec fn obeys_from_spec() -> bool {
        true
    }

    open spec fn from_spec(direction: Dpad) -> Self {
        direction.on_screen()
    }
}

impl<'a> From<&'a Dpad> for Vector2 {
    fn from(direction: &'a Dpad) -> (step: Self) {
        match direction {
            Dpad::Up => Vector2::new(0, 1),
            Dpad::Right => Vector2::new(1, 0),
            Dpad::Bottom => Vector2::new(0, -1),
            Dpad::Left => Vector2::new(-1, 0),
        }
    }
}

impl<'a> vstd::std_specs::convert::FromSpecImpl<&'a Dpad> for Vector2 {
    open spec fn obeys_from_spec() -> bool {
        true
    }

    open spec fn from_spec(direction: &'a Dpad) -> Self {
        direction.in_plane()
    }
}

/// What a stick pushed all the way along an axis reads on that axis, and a
/// trigger pressed all the way as its pressure.
pub const FULL_DEFLECTION: i64 = 1000;

/// All that one poll reads off a joystick. Axes and trigger pressures are in
/// thousandths: a stick at rest reads 0 on both axes, a stick pushed all the
/// way reads [`FULL_DEFLECTION`] or its negative, a trigger half pressed
/// reads 500.
#[derive(Clone, Copy, PartialEq, Eq, Debug)]
pub struct Joystick {
    pub left_axis: Vector2,
    pub left_axis_button: Button,
    pub right_axis: Vector2,
    pub right_axis_button: Button,
    pub d_pad: Option<Dpad>,
    pub a: Button,
    pub b: Button,
    pub x: Button,
    pub y: Button,
    pub left_bumper: Button,
    pub left_trigger: Button,
    pub left_trigger_pressure: i64,
    pub right_bumper: Button,
    pub right_trigger: Button,
    pub right_trigger_pressure: i64,
    pub start: Button,
    pub back: Button,
}

impl Joystick {
    /// The joystick that nobody touches: both sticks centred, the pad and
    /// every button at rest, no pressure on either trigger.
    pub open spec fn at_rest() -> Joystick {
        Joystick {
            left_axis: Vector2 { x: 0, y: 0 },
            left_axis_button: Button::Normal,
            right_axis: Vector2 { x: 0, y: 0 },
            right_axis_button: Button::Normal,
            d_pad: None,
            a: Button::Normal,
            b: Button::Normal,
            x: Button::Normal,
            y: Button::Normal,
            left_bumper: Button::Normal,
            left_trigger: Button::Normal,
            left_trigger_pressure: 0,
            right_bumper: Button::Normal,
            right_trigger: Button::Normal,
            right_trigger_pressure: 0,
            start: Button::Normal,
            back: Button::Normal,
        }
    }
}

impl Default for Joystick {
    fn default() -> (joystick: Self)
        ensures
            joystick == Joystick::at_rest(),
    {
        Joystick {
            left_axis: Vector2::zeros(),
            left_axis_button: Button::Normal,
            right_axis: Vector2::zeros(),
            right_axis_button: Button::Normal,
            d_pad: None,
            a: Button::Normal,
            b: Button::Normal,
            x: Button::Normal,
            y: Button::Normal,
            left_bumper: Button::Normal,
            left_trigger: Button::Normal,
            left_trigger_pressure: 0,
            right_bumper: Button::Normal,
            right_trigger: Button::Normal,
            right_trigger_pressure: 0,
            start: Button::Normal,
            back: Button::Normal,
        }
    }
}

/// A source of joystick readings, such as a backend that polls the devices.
pub trait JoystickProvider {
    /// What the joystick with the given number reads now.
    fn joystick(&self, id: JoystickId) -> Joystick;

    /// The numbers of the joysticks that can be read.
    fn available_joysticks(&self) -> Vec<JoystickId>;
}

} // verus!
