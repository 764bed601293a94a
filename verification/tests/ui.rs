use key_mapper::ui::UI;

#[test]
fn digits_parse_and_letters_do_not() {
    let ui = UI::new();
    assert_eq!(ui.digit_of('0'), Some(0));
    assert_eq!(ui.digit_of('7'), Some(7));
    assert_eq!(ui.digit_of('9'), Some(9));
    assert_eq!(ui.digit_of('a'), None);
    assert_eq!(ui.digit_of(' '), None);
}

#[test]
fn device_selection_is_one_based_and_bounded() {
    let ui = UI::new();
    assert_eq!(ui.select_device('1', 3), Some(0));
    assert_eq!(ui.select_device('3', 3), Some(2));
    assert_eq!(ui.select_device('4', 3), None);
    assert_eq!(ui.select_device('0', 3), None);
    assert_eq!(ui.select_device('x', 3), None);
    assert_eq!(ui.select_device('1', 0), None);
}

#[test]
fn menu_accepts_one_through_four() {
    let ui = UI::new();
    assert_eq!(ui.menu_choice('1'), Some(1));
    assert_eq!(ui.menu_choice('4'), Some(4));
    assert_eq!(ui.menu_choice('5'), None);
    assert_eq!(ui.menu_choice('0'), None);
    assert_eq!(ui.menu_choice('q'), None);
}

#[test]
fn yes_no_accepts_both_cases() {
    let ui = UI::new();
    assert_eq!(ui.parse_yes_no('y'), Some(true));
    assert_eq!(ui.parse_yes_no('Y'), Some(true));
    assert_eq!(ui.parse_yes_no('n'), Some(false));
    assert_eq!(ui.parse_yes_no('N'), Some(false));
    assert_eq!(ui.parse_yes_no('m'), None);
}
