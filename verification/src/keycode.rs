//! The names a keymap is written in.

use vstd::prelude::*;
use crate::action::KeyAction;
use crate::report::modifier_bit;

verus! {

/// What [`Keycodes::try_into`] says of a key that has no code of its own in a
/// report.
pub const NOT_A_USB_KEY: &'static str = "Can't convert non usb key code";

/// The keys a keymap can name.
#[allow(non_camel_case_types)]
#[derive(Clone, Copy, Debug, PartialEq, Eq, Structural)]
pub enum Keycodes {
    /// Usage 0x00 of the HID keyboard page.
    KC_NO,
    /// Usage 0x04 of the HID keyboard page.
    KC_A,
    /// Usage 0x05 of the HID keyboard page.
    KC_B,
    /// Usage 0x06 of the HID keyboard page.
    KC_C,
    /// Usage 0x07 of the HID keyboard page.
    KC_D,
    /// Usage 0x08 of the HID keyboard page.
    KC_E,
    /// Usage 0x09 of the HID keyboard page.
    KC_F,
    /// Usage 0x0A of the HID keyboard page.
    KC_G,
    /// Usage 0x0B of the HID keyboard page.
    KC_H,
    /// Usage 0x0C of the HID keyboard page.
    KC_I,
    /// Usage 0x0D of the HID keyboard page.
    KC_J,
    /// Usage 0x0E of the HID keyboard page.
    KC_K,
    /// Usage 0x0F of the HID keyboard page.
    KC_L,
    /// Usage 0x10 of the HID keyboard page.
    KC_M,
    /// Usage 0x11 of the HID keyboard page.
    KC_N,
    /// Usage 0x12 of the HID keyboard page.
    KC_O,
    /// Usage 0x13 of the HID keyboard page.
    KC_P,
    /// Usage 0x14 of the HID keyboard page.
    KC_Q,
    /// Usage 0x15 of the HID keyboard page.
    KC_R,
    /// Usage 0x16 of the HID keyboard page.
    KC_S,
    /// Usage 0x17 of the HID keyboard page.
    KC_T,
    /// Usage 0x18 of the HID keyboard page.
    KC_U,
    /// Usage 0x19 of the HID keyboard page.
    KC_V,
    /// Usage 0x1A of the HID keyboard page.
    KC_W,
    /// Usage 0x1B of the HID keyboard page.
    KC_X,
    /// Usage 0x1C of the HID keyboard page.
    KC_Y,
    /// Usage 0x1D of the HID keyboard page.
    KC_Z,
    /// Usage 0x1E of the HID keyboard page.
    KC_1,
    /// Usage 0x1F of the HID keyboard page.
    KC_2,
    /// Usage 0x20 of the HID keyboard page.
    KC_3,
    /// Usage 0x21 of the HID keyboard page.
    KC_4,
    /// Usage 0x22 of the HID keyboard page.
    KC_5,
    /// Usage 0x23 of the HID keyboard page.
    KC_6,
    /// Usage 0x24 of the HID keyboard page.
    KC_7,
    /// Usage 0x25 of the HID keyboard page.
    KC_8,
    /// Usage 0x26 of the HID keyboard page.
    KC_9,
    /// Usage 0x27 of the HID keyboard page.
    KC_0,
    /// Usage 0x28 of the HID keyboard page.
    KC_ENTER,
    /// Usage 0x29 of the HID keyboard page.
    KC_ESCAPE,
    /// Usage 0x2A of the HID keyboard page.
    KC_BACKSPACE,
    /// Usage 0x2B of the HID keyboard page.
    KC_TAB,
    /// Usage 0x2C of the HID keyboard page.
    KC_SPACE,
    /// Usage 0x2D of the HID keyboard page.
    KC_MINUS,
    /// Usage 0x2E of the HID keyboard page.
    KC_EQUAL,
    /// Usage 0x2F of the HID keyboard page.
    KC_LEFT_BRACKET,
    /// Usage 0x30 of the HID keyboard page.
    KC_RIGHT_BRACKET,
    /// Usage 0x31 of the HID keyboard page.
    KC_BACKSLASH,
    /// Usage 0x33 of the HID keyboard page.
    KC_SEMICOLON,
    /// Usage 0x34 of the HID keyboard page.
    KC_QUOTE,
    /// Usage 0x35 of the HID keyboard page.
    KC_GRAVE,
    /// Usage 0x36 of the HID keyboard page.
    KC_COMMA,
    /// Usage 0x37 of the HID keyboard page.
    KC_DOT,
    /// Usage 0x38 of the HID keyboard page.
    KC_SLASH,
    /// Usage 0x39 of the HID keyboard page.
    KC_CAPS_LOCK,
    /// Usage 0x7F of the HID keyboard page.
    KC_MUTE,
    /// Usage 0x80 of the HID keyboard page.
    KC_VOLUP,
    /// Usage 0x81 of the HID keyboard page.
    KC_VOLDOWN,
    /// Usage 0xE0 of the HID keyboard page.
    KC_LEFT_CTRL,
    /// Usage 0xE1 of the HID keyboard page.
    KC_LEFT_SHIFT,
    /// Usage 0xE2 of the HID keyboard page.
    KC_LEFT_ALT,
    /// Usage 0xE3 of the HID keyboard page.
    KC_LEFT_GUI,
    /// Usage 0xE4 of the HID keyboard page.
    KC_RIGHT_CTRL,
    /// Usage 0xE5 of the HID keyboard page.
    KC_RIGHT_SHIFT,
    /// Usage 0xE6 of the HID keyboard page.
    KC_RIGHT_ALT,
    /// Usage 0xE7 of the HID keyboard page.
    KC_RIGHT_GUI,
    /// Usage 0x65 of the HID keyboard page.
    KC_APP,
    /// Switches to the layer of the given number.
    KC_LAYER(u8),
    /// A position of the grid that has no key.
    KC_NO_KEY,
}

impl Keycodes {
    /// The usage of the key on the HID keyboard page; a layer key and a
    /// position without a key have none.
    pub open spec fn usage(self) -> Option<u8> {
        match self {
            Keycodes::KC_NO => Some(0x00u8),
            Keycodes::KC_A => Some(0x04u8),
            Keycodes::KC_B => Some(0x05u8),
            Keycodes::KC_C => Some(0x06u8),
            Keycodes::KC_D => Some(0x07u8),
            Keycodes::KC_E => Some(0x08u8),
            Keycodes::KC_F => Some(0x09u8),
            Keycodes::KC_G => Some(0x0Au8),
            Keycodes::KC_H => Some(0x0Bu8),
            Keycodes::KC_I => Some(0x0Cu8),
            Keycodes::KC_J => Some(0x0Du8),
            Keycodes::KC_K => Some(0x0Eu8),
            Keycodes::KC_L => Some(0x0Fu8),
            Keycodes::KC_M => Some(0x10u8),
            Keycodes::KC_N => Some(0x11u8),
            Keycodes::KC_O => Some(0x12u8),
            Keycodes::KC_P => Some(0x13u8),
            Keycodes::KC_Q => Some(0x14u8),
            Keycodes::KC_R => Some(0x15u8),
            Keycodes::KC_S => Some(0x16u8),
            Keycodes::KC_T => Some(0x17u8),
            Keycodes::KC_U => Some(0x18u8),
            Keycodes::KC_V => Some(0x19u8),
            Keycodes::KC_W => Some(0x1Au8),
            Keycodes::KC_X => Some(0x1Bu8),
            Keycodes::KC_Y => Some(0x1Cu8),
            Keycodes::KC_Z => Some(0x1Du8),
            Keycodes::KC_1 => Some(0x1Eu8),
            Keycodes::KC_2 => Some(0x1Fu8),
            Keycodes::KC_3 => Some(0x20u8),
            Keycodes::KC_4 => Some(0x21u8),
            Keycodes::KC_5 => Some(0x22u8),
            Keycodes::KC_6 => Some(0x23u8),
            Keycodes::KC_7 => Some(0x24u8),
            Keycodes::KC_8 => Some(0x25u8),
            Keycodes::KC_9 => Some(0x26u8),
            Keycodes::KC_0 => Some(0x27u8),
            Keycodes::KC_ENTER => Some(0x28u8),
            Keycodes::KC_ESCAPE => Some(0x29u8),
            Keycodes::KC_BACKSPACE => Some(0x2Au8),
            Keycodes::KC_TAB => Some(0x2Bu8),
            Keycodes::KC_SPACE => Some(0x2Cu8),
            Keycodes::KC_MINUS => Some(0x2Du8),
            Keycodes::KC_EQUAL => Some(0x2Eu8),
            Keycodes::KC_LEFT_BRACKET => Some(0x2Fu8),
            Keycodes::KC_RIGHT_BRACKET => Some(0x30u8),
            Keycodes::KC_BACKSLASH => Some(0x31u8),
            Keycodes::KC_SEMICOLON => Some(0x33u8),
            Keycodes::KC_QUOTE => Some(0x34u8),
            Keycodes::KC_GRAVE => Some(0x35u8),
            Keycodes::KC_COMMA => Some(0x36u8),
            Keycodes::KC_DOT => Some(0x37u8),
            Keycodes::KC_SLASH => Some(0x38u8),
            Keycodes::KC_CAPS_LOCK => Some(0x39u8),
            Keycodes::KC_MUTE => Some(0x7Fu8),
            Keycodes::KC_VOLUP => Some(0x80u8),
            Keycodes::KC_VOLDOWN => Some(0x81u8),
            Keycodes::KC_LEFT_CTRL => Some(0xE0u8),
            Keycodes::KC_LEFT_SHIFT => Some(0xE1u8),
            Keycodes::KC_LEFT_ALT => Some(0xE2u8),
            Keycodes::KC_LEFT_GUI => Some(0xE3u8),
            Keycodes::KC_RIGHT_CTRL => Some(0xE4u8),
            Keycodes::KC_RIGHT_SHIFT => Some(0xE5u8),
            Keycodes::KC_RIGHT_ALT => Some(0xE6u8),
            Keycodes::KC_RIGHT_GUI => Some(0xE7u8),
            Keycodes::KC_APP => Some(0x65u8),
            Keycodes::KC_LAYER(_) => None,
            Keycodes::KC_NO_KEY => None,
        }
    }

    /// Whether a usage is one that [`Keycodes::try_into`] converts: no key,
    /// a letter, a digit, mute, volume up or volume down.
    pub open spec fn converts(usage: u8) -> bool {
        usage == 0x00 || (0x04 <= usage && usage <= 0x27) || (0x7F <= usage && usage <= 0x81)
    }

    /// The action of the key in a keymap: a layer key switches to its layer,
    /// no key and a position without a key do nothing, a modifier sets its
    /// bit, and every other key is an ordinary key with its usage.
    pub open spec fn action(self) -> KeyAction {
        match self {
            Keycodes::KC_LAYER(layer) => KeyAction::SwitchLayer(layer as usize),
            _ => match self.usage() {
                None => KeyAction::NoOp,
                Some(usage) => if usage == 0 {
                    KeyAction::NoOp
                } else if 0xE0 <= usage {
                    KeyAction::Modifier(modifier_bit(usage))
                } else {
                    KeyAction::Plain(usage)
                },
            },
        }
    }

    /// Computes [`Keycodes::usage`].
    pub fn to_usage(self) -> (usage: Option<u8>)
        ensures
            usage == self.usage(),
    {
        match self {
            Keycodes::KC_NO => Some(0x00),
            Keycodes::KC_A => Some(0x04),
            Keycodes::KC_B => Some(0x05),
            Keycodes::KC_C => Some(0x06),
            Keycodes::KC_D => Some(0x07),
            Keycodes::KC_E => Some(0x08),
            Keycodes::KC_F => Some(0x09),
            Keycodes::KC_G => Some(0x0A),
            Keycodes::KC_H => Some(0x0B),
            Keycodes::KC_I => Some(0x0C),
            Keycodes::KC_J => Some(0x0D),
            Keycodes::KC_K => Some(0x0E),
            Keycodes::KC_L => Some(0x0F),
            Keycodes::KC_M => Some(0x10),
            Keycodes::KC_N => Some(0x11),
            Keycodes::KC_O => Some(0x12),
            Keycodes::KC_P => Some(0x13),
            Keycodes::KC_Q => Some(0x14),
            Keycodes::KC_R => Some(0x15),
            Keycodes::KC_S => Some(0x16),
            Keycodes::KC_T => Some(0x17),
            Keycodes::KC_U => Some(0x18),
            Keycodes::KC_V => Some(0x19),
            Keycodes::KC_W => Some(0x1A),
            Keycodes::KC_X => Some(0x1B),
            Keycodes::KC_Y => Some(0x1C),
            Keycodes::KC_Z => Some(0x1D),
            Keycodes::KC_1 => Some(0x1E),
            Keycodes::KC_2 => Some(0x1F),
            Keycodes::KC_3 => Some(0x20),
            Keycodes::KC_4 => Some(0x21),
            Keycodes::KC_5 => Some(0x22),
            Keycodes::KC_6 => Some(0x23),
            Keycodes::KC_7 => Some(0x24),
            Keycodes::KC_8 => Some(0x25),
            Keycodes::KC_9 => Some(0x26),
            Keycodes::KC_0 => Some(0x27),
            Keycodes::KC_ENTER => Some(0x28),
            Keycodes::KC_ESCAPE => Some(0x29),
            Keycodes::KC_BACKSPACE => Some(0x2A),
            Keycodes::KC_TAB => Some(0x2B),
            Keycodes::KC_SPACE => Some(0x2C),
            Keycodes::KC_MINUS => Some(0x2D),
            Keycodes::KC_EQUAL => Some(0x2E),
            Keycodes::KC_LEFT_BRACKET => Some(0x2F),
            Keycodes::KC_RIGHT_BRACKET => Some(0x30),
            Keycodes::KC_BACKSLASH => Some(0x31),
            Keycodes::KC_SEMICOLON => Some(0x33),
            Keycodes::KC_QUOTE => Some(0x34),
            Keycodes::KC_GRAVE => Some(0x35),
            Keycodes::KC_COMMA => Some(0x36),
            Keycodes::KC_DOT => Some(0x37),
            Keycodes::KC_SLASH => Some(0x38),
            Keycodes::KC_CAPS_LOCK => Some(0x39),
            Keycodes::KC_MUTE => Some(0x7F),
            Keycodes::KC_VOLUP => Some(0x80),
            Keycodes::KC_VOLDOWN => Some(0x81),
            Keycodes::KC_LEFT_CTRL => Some(0xE0),
            Keycodes::KC_LEFT_SHIFT => Some(0xE1),
            Keycodes::KC_LEFT_ALT => Some(0xE2),
            Keycodes::KC_LEFT_GUI => Some(0xE3),
            Keycodes::KC_RIGHT_CTRL => Some(0xE4),
            Keycodes::KC_RIGHT_SHIFT => Some(0xE5),
            Keycodes::KC_RIGHT_ALT => Some(0xE6),
            Keycodes::KC_RIGHT_GUI => Some(0xE7),
            Keycodes::KC_APP => Some(0x65),
            Keycodes::KC_LAYER(_) => None,
            Keycodes::KC_NO_KEY => None,
        }
    }

    /// Computes [`Keycodes::action`].
    pub fn to_action(self) -> (action: KeyAction)
        ensures
            action == self.action(),
    {
        match self {
            Keycodes::KC_LAYER(layer) => KeyAction::SwitchLayer(layer as usize),
            Keycodes::KC_NO => KeyAction::NoOp,
            Keycodes::KC_NO_KEY => KeyAction::NoOp,
            Keycodes::KC_LEFT_CTRL => KeyAction::Modifier(0x01),
            Keycodes::KC_LEFT_SHIFT => KeyAction::Modifier(0x02),
            Keycodes::KC_LEFT_ALT => KeyAction::Modifier(0x04),
            Keycodes::KC_LEFT_GUI => KeyAction::Modifier(0x08),
            Keycodes::KC_RIGHT_CTRL => KeyAction::Modifier(0x10),
            Keycodes::KC_RIGHT_SHIFT => KeyAction::Modifier(0x20),
            Keycodes::KC_RIGHT_ALT => KeyAction::Modifier(0x40),
            Keycodes::KC_RIGHT_GUI => KeyAction::Modifier(0x80),
            _ => match self.to_usage() {
                Some(usage) => KeyAction::Plain(usage),
                None => KeyAction::NoOp,
            },
        }
    }
}

impl TryInto<u8> for Keycodes {
    type Error = &'static str;

    /// The code of the key in a report, for the keys that [`Keycodes::converts`]
    /// names; for every other key the message [`NOT_A_USB_KEY`].
    fn try_into(self) -> (r: Result<u8, &'static str>) {
        match self {
            Keycodes::KC_NO => Ok(0x00),
            Keycodes::KC_A => Ok(0x04),
            Keycodes::KC_B => Ok(0x05),
            Keycodes::KC_C => Ok(0x06),
            Keycodes::KC_D => Ok(0x07),
            Keycodes::KC_E => Ok(0x08),
            Keycodes::KC_F => Ok(0x09),
            Keycodes::KC_G => Ok(0x0A),
            Keycodes::KC_H => Ok(0x0B),
            Keycodes::KC_I => Ok(0x0C),
            Keycodes::KC_J => Ok(0x0D),
            Keycodes::KC_K => Ok(0x0E),
            Keycodes::KC_L => Ok(0x0F),
            Keycodes::KC_M => Ok(0x10),
            Keycodes::KC_N => Ok(0x11),
            Keycodes::KC_O => Ok(0x12),
            Keycodes::KC_P => Ok(0x13),
            Keycodes::KC_Q => Ok(0x14),
            Keycodes::KC_R => Ok(0x15),
            Keycodes::KC_S => Ok(0x16),
            Keycodes::KC_T => Ok(0x17),
            Keycodes::KC_U => Ok(0x18),
            Keycodes::KC_V => Ok(0x19),
            Keycodes::KC_W => Ok(0x1A),
            Keycodes::KC_X => Ok(0x1B),
            Keycodes::KC_Y => Ok(0x1C),
            Keycodes::KC_Z => Ok(0x1D),
            Keycodes::KC_1 => Ok(0x1E),
            Keycodes::KC_2 => Ok(0x1F),
            Keycodes::KC_3 => Ok(0x20),
            Keycodes::KC_4 => Ok(0x21),
            Keycodes::KC_5 => Ok(0x22),
            Keycodes::KC_6 => Ok(0x23),
            Keycodes::KC_7 => Ok(0x24),
            Keycodes::KC_8 => Ok(0x25),
            Keycodes::KC_9 => Ok(0x26),
            Keycodes::KC_0 => Ok(0x27),
            Keycodes::KC_MUTE => Ok(0x7F),
            Keycodes::KC_VOLUP => Ok(0x80),
            Keycodes::KC_VOLDOWN => Ok(0x81),
            _ => Err(NOT_A_USB_KEY),
        }
    }
}

impl vstd::std_specs::convert::TryIntoSpecImpl<u8> for Keycodes {
    open spec fn obeys_try_into_spec() -> bool {
        true
    }

    open spec fn try_into_spec(self) -> Result<u8, &'static str> {
        match self.usage() {
            Some(usage) => if Keycodes::converts(usage) {
                Ok(usage)
            } else {
                Err(NOT_A_USB_KEY)
            },
            None => Err(NOT_A_USB_KEY),
        }
    }
}

} // verus!
