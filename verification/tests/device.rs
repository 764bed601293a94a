use key_mapper::device::{discover_keyboards, InputDevice};
use key_mapper::error::AppError;
use key_mapper::keys::{KEY_LEFTALT, KEY_LEFTCTRL, KEY_LEFTSHIFT};

fn device(name: &str, keys: Option<Vec<u16>>) -> InputDevice {
    InputDevice::new(format!("/dev/input/{}", name), name.to_string(), keys)
}

#[test]
fn probe_accepts_full_modifier_set() {
    assert!(InputDevice::is_keyboard(&Some(vec![
        KEY_LEFTCTRL,
        KEY_LEFTSHIFT,
        KEY_LEFTALT,
        17,
        30,
    ])));
}

#[test]
fn probe_rejects_missing_modifier() {
    assert!(!InputDevice::is_keyboard(&Some(vec![KEY_LEFTCTRL, KEY_LEFTSHIFT])));
    assert!(!InputDevice::is_keyboard(&Some(vec![])));
    assert!(!InputDevice::is_keyboard(&None));
}

#[test]
fn new_records_classification() {
    let kbd = device("event0", Some(vec![KEY_LEFTCTRL, KEY_LEFTSHIFT, KEY_LEFTALT]));
    assert!(kbd.is_keyboard);
    assert_eq!(kbd.name, "event0");
    assert_eq!(kbd.path, "/dev/input/event0");

    let mouse = device("event1", Some(vec![0x110]));
    assert!(!mouse.is_keyboard);
}

#[test]
fn discovery_keeps_keyboards_in_order() {
    let devices = vec![
        device("mouse", Some(vec![0x110])),
        device("kbd-a", Some(vec![KEY_LEFTCTRL, KEY_LEFTSHIFT, KEY_LEFTALT])),
        device("gamepad", None),
        device("kbd-b", Some(vec![KEY_LEFTCTRL, KEY_LEFTSHIFT, KEY_LEFTALT, 17])),
    ];
    let keyboards = discover_keyboards(devices).expect("two keyboards present");
    let names: Vec<&str> = keyboards.iter().map(|d| d.name.as_str()).collect();
    assert_eq!(names, vec!["kbd-a", "kbd-b"]);
}

#[test]
fn discovery_without_keyboards_fails() {
    let devices = vec![device("mouse", Some(vec![0x110])), device("pad", None)];
    match discover_keyboards(devices) {
        Err(AppError::NoKeyboardsFound) => {}
        other => panic!("expected NoKeyboardsFound, got {:?}", other.map(|v| v.len())),
    }
    match discover_keyboards(Vec::new()) {
        Err(AppError::NoKeyboardsFound) => {}
        other => panic!("expected NoKeyboardsFound, got {:?}", other.map(|v| v.len())),
    }
}

#[test]
fn error_descriptions_are_stable() {
    assert_eq!(AppError::NoKeyboardsFound.describe(), "no keyboard devices found");
    assert_eq!(
        AppError::DeviceBusy.describe(),
        "the input device is held by another process"
    );
}
