//! Routing of key presses between the app, the page and the page's text input.

use vstd::prelude::*;
use crate::text::str_eq;

verus! {

/// Whether the focused page element takes text.
#[derive(Clone, Copy, Debug, Default, PartialEq, Eq, Structural)]
pub struct BrowserTextInputState {
    pub editable: bool,
}

impl BrowserTextInputState {
    /// Text input is active while the element is editable or text is being composed.
    pub fn is_active(self, has_marked_text: bool) -> (r: bool)
        ensures
            r == (self.editable || has_marked_text),
    {
        self.editable || has_marked_text
    }
}

/// Where a key press goes.
#[derive(Clone, Copy, Debug, PartialEq, Eq, Structural)]
pub enum BrowserKeyDispatch {
    App,
    Browser,
    TextInput,
}

/// The modifier keys held during a key press.
#[derive(Clone, Copy, Debug, Default, PartialEq, Eq, Structural)]
pub struct Modifiers {
    pub control: bool,
    pub alt: bool,
    pub shift: bool,
    pub platform: bool,
    pub function: bool,
}

impl Modifiers {
    /// The modifiers of a command-key press (the platform key).
    pub fn command() -> (m: Self)
        ensures
            m == (Modifiers { control: false, alt: false, shift: false, platform: true, function: false }),
    {
        Modifiers { control: false, alt: false, shift: false, platform: true, function: false }
    }
}

/// A key press: the key's name, the character it types if any, and the modifiers held.
#[derive(Clone, Debug, PartialEq, Eq)]
pub struct Keystroke {
    pub key: String,
    pub key_char: Option<String>,
    pub modifiers: Modifiers,
}

/// The keys that keep reaching the page even while an editable element has focus.
pub open spec fn browser_keys() -> Seq<Seq<char>> {
    seq![
        "enter"@, "backspace"@, "tab"@, "delete"@, "escape"@, "space"@,
        "left"@, "right"@, "up"@, "down"@, "home"@, "end"@, "pageup"@, "pagedown"@,
        "f1"@, "f2"@, "f3"@, "f4"@, "f5"@, "f6"@, "f7"@, "f8"@, "f9"@, "f10"@, "f11"@, "f12"@,
    ]
}

/// Whether a key press goes to the page's text input.
pub open spec fn spec_should_use_text_input(k: Keystroke, editable: bool, composing: bool) -> bool {
    if composing {
        true
    } else if !editable {
        false
    } else if k.key_char is Some {
        true
    } else {
        !browser_keys().contains(k.key@)
    }
}

/// Where a key press goes: app shortcuts first, then the text input, else the page.
pub open spec fn spec_key_dispatch(k: Keystroke, editable: bool, composing: bool) -> BrowserKeyDispatch {
    if k.modifiers.platform || k.modifiers.control || (k.modifiers.function && k.key_char is Some) {
        BrowserKeyDispatch::App
    } else if spec_should_use_text_input(k, editable, composing) {
        BrowserKeyDispatch::TextInput
    } else {
        BrowserKeyDispatch::Browser
    }
}

fn is_browser_key(key: &str) -> (r: bool)
    ensures
        r == browser_keys().contains(key@),
{
    let names: [&str; 26] = [
        "enter", "backspace", "tab", "delete", "escape", "space",
        "left", "right", "up", "down", "home", "end", "pageup", "pagedown",
        "f1", "f2", "f3", "f4", "f5", "f6", "f7", "f8", "f9", "f10", "f11", "f12",
    ];
    let ghost views = names@.map_values(|s: &str| s@);
    assert(views =~= browser_keys());
    let mut i: usize = 0;
    while i < 26
        invariant
            i <= 26,
            names@.len() == 26,
            views == names@.map_values(|s: &str| s@),
            views == browser_keys(),
            forall|j: int| 0 <= j < i ==> views[j] != key@,
        decreases 26 - i,
    {
        if str_eq(names[i], key) {
            assert(views[i as int] == key@);
            return true;
        }
        i = i + 1;
    }
    assert(!views.contains(key@));
    false
}

fn should_use_text_input(keystroke: &Keystroke, editable: bool, composing: bool) -> (r: bool)
    ensures
        r == spec_should_use_text_input(*keystroke, editable, composing),
{
    if composing {
        return true;
    }
    if !editable {
        return false;
    }
    if keystroke.key_char.is_some() {
        return true;
    }
    !is_browser_key(keystroke.key.as_str())
}

fn dispatch(keystroke: &Keystroke, editable: bool, composing: bool) -> (r: BrowserKeyDispatch)
    ensures
        r == spec_key_dispatch(*keystroke, editable, composing),
{
    if keystroke.modifiers.platform || keystroke.modifiers.control
        || (keystroke.modifiers.function && keystroke.key_char.is_some())
    {
        BrowserKeyDispatch::App
    } else if should_use_text_input(keystroke, editable, composing) {
        BrowserKeyDispatch::TextInput
    } else {
        BrowserKeyDispatch::Browser
    }
}

/// Where a key-down goes.
pub fn key_down_dispatch(keystroke: &Keystroke, text_input_editable: bool, text_input_composing: bool) -> (r: BrowserKeyDispatch)
    ensures
        r == spec_key_dispatch(*keystroke, text_input_editable, text_input_composing),
{
    dispatch(keystroke, text_input_editable, text_input_composing)
}

/// Where a key-up goes.
pub fn key_up_dispatch(keystroke: &Keystroke, text_input_editable: bool, text_input_composing: bool) -> (r: BrowserKeyDispatch)
    ensures
        r == spec_key_dispatch(*keystroke, text_input_editable, text_input_composing),
{
    dispatch(keystroke, text_input_editable, text_input_composing)
}

} // verus!
