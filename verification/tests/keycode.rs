use keyboard_rs::action::KeyAction;
use keyboard_rs::keycode::Keycodes;
use keyboard_rs::keycode::NOT_A_USB_KEY;

fn convert(key: Keycodes) -> Result<u8, &'static str> {
    key.try_into()
}

#[test]
fn letters_convert_to_their_usage() {
    assert_eq!(convert(Keycodes::KC_A), Ok(0x04));
    assert_eq!(convert(Keycodes::KC_M), Ok(0x10));
    assert_eq!(convert(Keycodes::KC_Z), Ok(0x1d));
}

#[test]
fn digits_convert_to_their_usage() {
    assert_eq!(convert(Keycodes::KC_1), Ok(0x1e));
    assert_eq!(convert(Keycodes::KC_9), Ok(0x26));
    assert_eq!(convert(Keycodes::KC_0), Ok(0x27));
}

#[test]
fn no_key_and_the_volume_keys_convert() {
    assert_eq!(convert(Keycodes::KC_NO), Ok(0x00));
    assert_eq!(convert(Keycodes::KC_MUTE), Ok(0x7f));
    assert_eq!(convert(Keycodes::KC_VOLUP), Ok(0x80));
    assert_eq!(convert(Keycodes::KC_VOLDOWN), Ok(0x81));
}

#[test]
fn other_keys_do_not_convert() {
    assert_eq!(convert(Keycodes::KC_ENTER), Err("Can't convert non usb key code"));
    assert_eq!(convert(Keycodes::KC_CAPS_LOCK), Err("Can't convert non usb key code"));
    assert_eq!(convert(Keycodes::KC_LEFT_SHIFT), Err("Can't convert non usb key code"));
    assert_eq!(convert(Keycodes::KC_APP), Err("Can't convert non usb key code"));
    assert_eq!(convert(Keycodes::KC_LAYER(1)), Err("Can't convert non usb key code"));
    assert_eq!(convert(Keycodes::KC_NO_KEY), Err(NOT_A_USB_KEY));
}

#[test]
fn usages_follow_the_keyboard_page() {
    assert_eq!(Keycodes::KC_A.to_usage(), Some(0x04));
    assert_eq!(Keycodes::KC_ENTER.to_usage(), Some(0x28));
    assert_eq!(Keycodes::KC_BACKSLASH.to_usage(), Some(0x31));
    assert_eq!(Keycodes::KC_SEMICOLON.to_usage(), Some(0x33));
    assert_eq!(Keycodes::KC_CAPS_LOCK.to_usage(), Some(0x39));
    assert_eq!(Keycodes::KC_APP.to_usage(), Some(0x65));
    assert_eq!(Keycodes::KC_LEFT_CTRL.to_usage(), Some(0xE0));
    assert_eq!(Keycodes::KC_RIGHT_GUI.to_usage(), Some(0xE7));
    assert_eq!(Keycodes::KC_LAYER(3).to_usage(), None);
    assert_eq!(Keycodes::KC_NO_KEY.to_usage(), None);
}

#[test]
fn keys_become_actions() {
    assert_eq!(Keycodes::KC_A.to_action(), KeyAction::Plain(0x04));
    assert_eq!(Keycodes::KC_SPACE.to_action(), KeyAction::Plain(0x2C));
    assert_eq!(Keycodes::KC_VOLUP.to_action(), KeyAction::Plain(0x80));
    assert_eq!(Keycodes::KC_NO.to_action(), KeyAction::NoOp);
    assert_eq!(Keycodes::KC_NO_KEY.to_action(), KeyAction::NoOp);
    assert_eq!(Keycodes::KC_LAYER(2).to_action(), KeyAction::SwitchLayer(2));
}

#[test]
fn modifiers_become_their_bit() {
    assert_eq!(Keycodes::KC_LEFT_CTRL.to_action(), KeyAction::Modifier(0x01));
    assert_eq!(Keycodes::KC_LEFT_SHIFT.to_action(), KeyAction::Modifier(0x02));
    assert_eq!(Keycodes::KC_LEFT_ALT.to_action(), KeyAction::Modifier(0x04));
    assert_eq!(Keycodes::KC_LEFT_GUI.to_action(), KeyAction::Modifier(0x08));
    assert_eq!(Keycodes::KC_RIGHT_CTRL.to_action(), KeyAction::Modifier(0x10));
    assert_eq!(Keycodes::KC_RIGHT_SHIFT.to_action(), KeyAction::Modifier(0x20));
    assert_eq!(Keycodes::KC_RIGHT_ALT.to_action(), KeyAction::Modifier(0x40));
    assert_eq!(Keycodes::KC_RIGHT_GUI.to_action(), KeyAction::Modifier(0x80));
}
