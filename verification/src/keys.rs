//! The key and button model: numeric codes of the platform input
//! layer, the fixed fifteen-entry controller button catalog, and the
//! raw event triple that crosses every device boundary.

use vstd::prelude::*;

verus! {

// Event types of the platform input layer.
/// Synchronization marker events.
pub const EV_SYN: u16 = 0;
/// Key press/release/repeat events.
pub const EV_KEY: u16 = 1;

// Event values of a key event.
/// The key was released.
pub const VALUE_RELEASE: i32 = 0;
/// The key was pressed.
pub const VALUE_PRESS: i32 = 1;
/// The key is auto-repeating while held.
pub const VALUE_REPEAT: i32 = 2;

// Key codes of the platform input numbering, for the keys the default
// mapping and the keyboard probe speak of.
pub const KEY_TAB: u16 = 15;
pub const KEY_Q: u16 = 16;
pub const KEY_W: u16 = 17;
pub const KEY_E: u16 = 18;
pub const KEY_I: u16 = 23;
pub const KEY_ENTER: u16 = 28;
pub const KEY_LEFTCTRL: u16 = 29;
pub const KEY_A: u16 = 30;
pub const KEY_S: u16 = 31;
pub const KEY_D: u16 = 32;
pub const KEY_J: u16 = 36;
pub const KEY_K: u16 = 37;
pub const KEY_L: u16 = 38;
pub const KEY_LEFTSHIFT: u16 = 42;
pub const KEY_LEFTALT: u16 = 56;
pub const KEY_SPACE: u16 = 57;
pub const KEY_UP: u16 = 103;
pub const KEY_LEFT: u16 = 105;
pub const KEY_RIGHT: u16 = 106;
pub const KEY_DOWN: u16 = 108;

/// One of the fifteen buttons every virtual controller exposes.
#[derive(Clone, Copy, Debug, PartialEq, Eq, Structural)]
pub enum ButtonCode {
    A,
    B,
    X,
    Y,
    LeftShoulder,
    RightShoulder,
    Select,
    Start,
    Guide,
    LeftThumb,
    RightThumb,
    DpadUp,
    DpadDown,
    DpadLeft,
    DpadRight,
}

/// The platform key code a button is emitted under.
pub open spec fn spec_button_code(b: ButtonCode) -> u16 {
    match b {
        ButtonCode::A => 304,
        ButtonCode::B => 305,
        ButtonCode::X => 307,
        ButtonCode::Y => 308,
        ButtonCode::LeftShoulder => 310,
        ButtonCode::RightShoulder => 311,
        ButtonCode::Select => 314,
        ButtonCode::Start => 315,
        ButtonCode::Guide => 316,
        ButtonCode::LeftThumb => 317,
        ButtonCode::RightThumb => 318,
        ButtonCode::DpadUp => 544,
        ButtonCode::DpadDown => 545,
        ButtonCode::DpadLeft => 546,
        ButtonCode::DpadRight => 547,
    }
}

/// The catalog order of the fifteen buttons: face buttons, shoulders,
/// the special row, thumbs, then the four D-pad directions.
pub open spec fn spec_button_catalog() -> Seq<ButtonCode> {
    seq![
        ButtonCode::A,
        ButtonCode::B,
        ButtonCode::X,
        ButtonCode::Y,
        ButtonCode::LeftShoulder,
        ButtonCode::RightShoulder,
        ButtonCode::Select,
        ButtonCode::Start,
        ButtonCode::Guide,
        ButtonCode::LeftThumb,
        ButtonCode::RightThumb,
        ButtonCode::DpadUp,
        ButtonCode::DpadDown,
        ButtonCode::DpadLeft,
        ButtonCode::DpadRight,
    ]
}

/// The human label the binding prompts show for a button.
pub open spec fn spec_button_label(b: ButtonCode) -> Seq<char> {
    match b {
        ButtonCode::A => "A Button"@,
        ButtonCode::B => "B Button"@,
        ButtonCode::X => "X Button"@,
        ButtonCode::Y => "Y Button"@,
        ButtonCode::LeftShoulder => "Left Shoulder"@,
        ButtonCode::RightShoulder => "Right Shoulder"@,
        ButtonCode::Select => "Select Button"@,
        ButtonCode::Start => "Start Button"@,
        ButtonCode::Guide => "Guide Button"@,
        ButtonCode::LeftThumb => "Left Thumb"@,
        ButtonCode::RightThumb => "Right Thumb"@,
        ButtonCode::DpadUp => "D-Pad Up"@,
        ButtonCode::DpadDown => "D-Pad Down"@,
        ButtonCode::DpadLeft => "D-Pad Left"@,
        ButtonCode::DpadRight => "D-Pad Right"@,
    }
}

impl ButtonCode {
    /// The platform key code this button is emitted under.
    pub fn code(&self) -> (r: u16)
        ensures
            r == spec_button_code(*self),
    {
        match self {
            ButtonCode::A => 304,
            ButtonCode::B => 305,
            ButtonCode::X => 307,
            ButtonCode::Y => 308,
            ButtonCode::LeftShoulder => 310,
            ButtonCode::RightShoulder => 311,
            ButtonCode::Select => 314,
            ButtonCode::Start => 315,
            ButtonCode::Guide => 316,
            ButtonCode::LeftThumb => 317,
            ButtonCode::RightThumb => 318,
            ButtonCode::DpadUp => 544,
            ButtonCode::DpadDown => 545,
            ButtonCode::DpadLeft => 546,
            ButtonCode::DpadRight => 547,
        }
    }

    /// The human label the binding prompts show for this button.
    pub fn label(&self) -> (r: &'static str)
        ensures
            r@ == spec_button_label(*self),
    {
        match self {
            ButtonCode::A => "A Button",
            ButtonCode::B => "B Button",
            ButtonCode::X => "X Button",
            ButtonCode::Y => "Y Button",
            ButtonCode::LeftShoulder => "Left Shoulder",
            ButtonCode::RightShoulder => "Right Shoulder",
            ButtonCode::Select => "Select Button",
            ButtonCode::Start => "Start Button",
            ButtonCode::Guide => "Guide Button",
            ButtonCode::LeftThumb => "Left Thumb",
            ButtonCode::RightThumb => "Right Thumb",
            ButtonCode::DpadUp => "D-Pad Up",
            ButtonCode::DpadDown => "D-Pad Down",
            ButtonCode::DpadLeft => "D-Pad Left",
            ButtonCode::DpadRight => "D-Pad Right",
        }
    }
}

/// The full button catalog, in its fixed order.
pub fn button_catalog() -> (r: Vec<ButtonCode>)
    ensures
        r@ == spec_button_catalog(),
{
    let r: Vec<ButtonCode> = vec![
        ButtonCode::A,
        ButtonCode::B,
        ButtonCode::X,
        ButtonCode::Y,
        ButtonCode::LeftShoulder,
        ButtonCode::RightShoulder,
        ButtonCode::Select,
        ButtonCode::Start,
        ButtonCode::Guide,
        ButtonCode::LeftThumb,
        ButtonCode::RightThumb,
        ButtonCode::DpadUp,
        ButtonCode::DpadDown,
        ButtonCode::DpadLeft,
        ButtonCode::DpadRight,
    ];
    proof {
        assert(r@ =~= spec_button_catalog());
    }
    r
}

/// The raw event triple that crosses every device boundary:
/// event type, key code, and value (release, press or repeat).
#[derive(Clone, Copy, Debug, PartialEq, Eq, Structural)]
pub struct RawEvent {
    pub etype: u16,
    pub code: u16,
    pub value: i32,
}

impl RawEvent {
    /// Whether this is a key event (as opposed to a synchronization
    /// marker or other non-key event).
    pub open spec fn spec_is_key(self) -> bool {
        self.etype == EV_KEY
    }

    /// Builds a key event for a key code and value.
    pub fn key(code: u16, value: i32) -> (r: RawEvent)
        ensures
            r == (RawEvent { etype: EV_KEY, code, value }),
    {
        RawEvent { etype: EV_KEY, code, value }
    }

    /// Whether this is a key event.
    pub fn is_key(&self) -> (r: bool)
        ensures
            r == self.spec_is_key(),
    {
        self.etype == EV_KEY
    }
}

} // verus!
