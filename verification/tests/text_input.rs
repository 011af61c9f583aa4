use glass_core::text_input::{
    key_down_dispatch, key_up_dispatch, BrowserKeyDispatch, BrowserTextInputState, Keystroke,
    Modifiers,
};

fn keystroke(key: &str, key_char: Option<&str>, modifiers: Modifiers) -> Keystroke {
    Keystroke {
        key: key.to_string(),
        key_char: key_char.map(str::to_string),
        modifiers,
    }
}

#[test]
fn printable_keys_use_browser_route_when_page_is_not_editable() {
    let keystroke = keystroke("e", Some("e"), Modifiers::default());
    assert_eq!(key_down_dispatch(&keystroke, false, false), BrowserKeyDispatch::Browser);
    assert_eq!(key_up_dispatch(&keystroke, false, false), BrowserKeyDispatch::Browser);
}

#[test]
fn printable_keys_use_text_input_when_page_is_editable() {
    let keystroke = keystroke("e", Some("e"), Modifiers::default());
    assert_eq!(key_down_dispatch(&keystroke, true, false), BrowserKeyDispatch::TextInput);
    assert_eq!(key_up_dispatch(&keystroke, true, false), BrowserKeyDispatch::TextInput);
}

#[test]
fn navigation_keys_still_reach_browser_when_page_is_editable() {
    let keystroke = keystroke("left", None, Modifiers::default());
    assert_eq!(key_down_dispatch(&keystroke, true, false), BrowserKeyDispatch::Browser);
    assert_eq!(key_up_dispatch(&keystroke, true, false), BrowserKeyDispatch::Browser);
}

#[test]
fn command_shortcuts_stay_in_app_dispatch() {
    let keystroke = keystroke("c", Some("c"), Modifiers::command());
    assert_eq!(key_down_dispatch(&keystroke, true, false), BrowserKeyDispatch::App);
    assert_eq!(key_up_dispatch(&keystroke, true, false), BrowserKeyDispatch::App);
}

#[test]
fn function_printable_shortcuts_stay_in_app_dispatch() {
    let keystroke = keystroke(
        "e",
        Some("e"),
        Modifiers {
            function: true,
            ..Modifiers::default()
        },
    );
    assert_eq!(key_down_dispatch(&keystroke, true, false), BrowserKeyDispatch::App);
    assert_eq!(key_up_dispatch(&keystroke, true, false), BrowserKeyDispatch::App);
}

#[test]
fn composing_keys_stay_in_text_input_route() {
    let keystroke = keystroke("e", Some("e"), Modifiers::default());
    assert_eq!(key_down_dispatch(&keystroke, true, true), BrowserKeyDispatch::TextInput);
    assert_eq!(key_up_dispatch(&keystroke, true, true), BrowserKeyDispatch::TextInput);
}

#[test]
fn dead_keys_stay_in_text_input_route_for_editable_fields() {
    let keystroke = keystroke("dead-acute", None, Modifiers::default());
    assert_eq!(key_down_dispatch(&keystroke, true, false), BrowserKeyDispatch::TextInput);
    assert_eq!(key_up_dispatch(&keystroke, true, false), BrowserKeyDispatch::TextInput);
}

#[test]
fn control_shortcuts_stay_in_app_dispatch() {
    let keystroke = keystroke(
        "a",
        Some("a"),
        Modifiers {
            control: true,
            ..Modifiers::default()
        },
    );
    assert_eq!(key_down_dispatch(&keystroke, false, false), BrowserKeyDispatch::App);
}

#[test]
fn function_navigation_keys_are_not_app_shortcuts() {
    let keystroke = keystroke(
        "left",
        None,
        Modifiers {
            function: true,
            ..Modifiers::default()
        },
    );
    assert_eq!(key_down_dispatch(&keystroke, true, false), BrowserKeyDispatch::Browser);
}

#[test]
fn composing_overrides_non_editable_page() {
    let keystroke = keystroke("enter", None, Modifiers::default());
    assert_eq!(key_down_dispatch(&keystroke, false, true), BrowserKeyDispatch::TextInput);
    assert_eq!(key_down_dispatch(&keystroke, true, false), BrowserKeyDispatch::Browser);
}

#[test]
fn text_input_is_active_while_editable_or_composing() {
    let editable = BrowserTextInputState { editable: true };
    let plain = BrowserTextInputState::default();
    assert!(editable.is_active(false));
    assert!(plain.is_active(true));
    assert!(!plain.is_active(false));
}
