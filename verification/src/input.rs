//! Input-event translation: browser-style key codes become
//! platform-neutral key identifiers, and one remote key press becomes
//! the exact action sequence the platform layer must simulate — held
//! modifiers pressed in the fixed order ctrl, alt, shift, meta, the
//! resolved key pressed and released, then the modifiers released in
//! reverse order. A code with no mapping and no fallback is a silent
//! no-op, so unmapped keys of heterogeneous client keyboards never
//! surface as errors. The caller simulates each action and waits
//! [`INPUT_EVENT_DELAY_MS`] between actions; that pause lets the
//! platform's input queue keep up and is part of the contract, not a
//! tuning knob.

use vstd::prelude::*;

verus! {

/// Milliseconds to wait after simulating each action.
pub const INPUT_EVENT_DELAY_MS: u64 = 5;

/// Relies on `str`'s `PartialEq`: equality of the text, and equal text
/// decodes to equal character sequences.
pub assume_specification[ <str as PartialEq<str>>::eq ](a: &str, b: &str) -> (r: bool)
    ensures
        r == (a@ == b@),
;

/// A platform-neutral key identifier.
#[derive(Clone, Copy, PartialEq, Eq, Structural, Debug)]
pub enum KeyId {
    KeyA,
    KeyB,
    KeyC,
    KeyD,
    KeyE,
    KeyF,
    KeyG,
    KeyH,
    KeyI,
    KeyJ,
    KeyK,
    KeyL,
    KeyM,
    KeyN,
    KeyO,
    KeyP,
    KeyQ,
    KeyR,
    KeyS,
    KeyT,
    KeyU,
    KeyV,
    KeyW,
    KeyX,
    KeyY,
    KeyZ,
    Num0,
    Num1,
    Num2,
    Num3,
    Num4,
    Num5,
    Num6,
    Num7,
    Num8,
    Num9,
    F1,
    F2,
    F3,
    F4,
    F5,
    F6,
    F7,
    F8,
    F9,
    F10,
    F11,
    F12,
    Return,
    Escape,
    Backspace,
    Tab,
    Space,
    Delete,
    Insert,
    Home,
    End,
    PageUp,
    PageDown,
    UpArrow,
    DownArrow,
    LeftArrow,
    RightArrow,
    ShiftLeft,
    ControlLeft,
    Alt,
    MetaLeft,
}

/// A mouse button.
#[derive(Clone, Copy, PartialEq, Eq, Structural, Debug)]
pub enum MouseButton {
    Left,
    Right,
    Middle,
}

/// One primitive action for the platform layer to simulate.
#[derive(Clone, Copy, PartialEq, Eq, Structural, Debug)]
pub enum InputAction {
    KeyPress(KeyId),
    KeyRelease(KeyId),
    ButtonPress(MouseButton),
    ButtonRelease(MouseButton),
    MouseMove { x: i64, y: i64 },
    Wheel { dx: i64, dy: i64 },
}

/// The key a browser `(key, code)` pair names, or `None` for codes with
/// no mapping. Left and right modifier codes collapse to one key each; a
/// bare space in `key` is the fallback for keyboards whose space bar
/// reports an unknown code.
pub open spec fn spec_key_of(key: Seq<char>, code: Seq<char>) -> Option<KeyId> {
    if code == "KeyA"@ {
        Some(KeyId::KeyA)
    } else if code == "KeyB"@ {
        Some(KeyId::KeyB)
    } else if code == "KeyC"@ {
        Some(KeyId::KeyC)
    } else if code == "KeyD"@ {
        Some(KeyId::KeyD)
    } else if code == "KeyE"@ {
        Some(KeyId::KeyE)
    } else if code == "KeyF"@ {
        Some(KeyId::KeyF)
    } else if code == "KeyG"@ {
        Some(KeyId::KeyG)
    } else if code == "KeyH"@ {
        Some(KeyId::KeyH)
    } else if code == "KeyI"@ {
        Some(KeyId::KeyI)
    } else if code == "KeyJ"@ {
        Some(KeyId::KeyJ)
    } else if code == "KeyK"@ {
        Some(KeyId::KeyK)
    } else if code == "KeyL"@ {
        Some(KeyId::KeyL)
    } else if code == "KeyM"@ {
        Some(KeyId::KeyM)
    } else if code == "KeyN"@ {
        Some(KeyId::KeyN)
    } else if code == "KeyO"@ {
        Some(KeyId::KeyO)
    } else if code == "KeyP"@ {
        Some(KeyId::KeyP)
    } else if code == "KeyQ"@ {
        Some(KeyId::KeyQ)
    } else if code == "KeyR"@ {
        Some(KeyId::KeyR)
    } else if code == "KeyS"@ {
        Some(KeyId::KeyS)
    } else if code == "KeyT"@ {
        Some(KeyId::KeyT)
    } else if code == "KeyU"@ {
        Some(KeyId::KeyU)
    } else if code == "KeyV"@ {
        Some(KeyId::KeyV)
    } else if code == "KeyW"@ {
        Some(KeyId::KeyW)
    } else if code == "KeyX"@ {
        Some(KeyId::KeyX)
    } else if code == "KeyY"@ {
        Some(KeyId::KeyY)
    } else if code == "KeyZ"@ {
        Some(KeyId::KeyZ)
    } else if code == "Digit0"@ {
        Some(KeyId::Num0)
    } else if code == "Digit1"@ {
        Some(KeyId::Num1)
    } else if code == "Digit2"@ {
        Some(KeyId::Num2)
    } else if code == "Digit3"@ {
        Some(KeyId::Num3)
    } else if code == "Digit4"@ {
        Some(KeyId::Num4)
    } else if code == "Digit5"@ {
        Some(KeyId::Num5)
    } else if code == "Digit6"@ {
        Some(KeyId::Num6)
    } else if code == "Digit7"@ {
        Some(KeyId::Num7)
    } else if code == "Digit8"@ {
        Some(KeyId::Num8)
    } else if code == "Digit9"@ {
        Some(KeyId::Num9)
    } else if code == "F1"@ {
        Some(KeyId::F1)
    } else if code == "F2"@ {
        Some(KeyId::F2)
    } else if code == "F3"@ {
        Some(KeyId::F3)
    } else if code == "F4"@ {
        Some(KeyId::F4)
    } else if code == "F5"@ {
        Some(KeyId::F5)
    } else if code == "F6"@ {
        Some(KeyId::F6)
    } else if code == "F7"@ {
        Some(KeyId::F7)
    } else if code == "F8"@ {
        Some(KeyId::F8)
    } else if code == "F9"@ {
        Some(KeyId::F9)
    } else if code == "F10"@ {
        Some(KeyId::F10)
    } else if code == "F11"@ {
        Some(KeyId::F11)
    } else if code == "F12"@ {
        Some(KeyId::F12)
    } else if code == "Enter"@ || code == "NumpadEnter"@ {
        Some(KeyId::Return)
    } else if code == "Escape"@ {
        Some(KeyId::Escape)
    } else if code == "Backspace"@ {
        Some(KeyId::Backspace)
    } else if code == "Tab"@ {
        Some(KeyId::Tab)
    } else if code == "Space"@ {
        Some(KeyId::Space)
    } else if code == "Delete"@ {
        Some(KeyId::Delete)
    } else if code == "Insert"@ {
        Some(KeyId::Insert)
    } else if code == "Home"@ {
        Some(KeyId::Home)
    } else if code == "End"@ {
        Some(KeyId::End)
    } else if code == "PageUp"@ {
        Some(KeyId::PageUp)
    } else if code == "PageDown"@ {
        Some(KeyId::PageDown)
    } else if code == "ArrowUp"@ {
        Some(KeyId::UpArrow)
    } else if code == "ArrowDown"@ {
        Some(KeyId::DownArrow)
    } else if code == "ArrowLeft"@ {
        Some(KeyId::LeftArrow)
    } else if code == "ArrowRight"@ {
        Some(KeyId::RightArrow)
    } else if code == "ShiftLeft"@ || code == "ShiftRight"@ {
        Some(KeyId::ShiftLeft)
    } else if code == "ControlLeft"@ || code == "ControlRight"@ {
        Some(KeyId::ControlLeft)
    } else if code == "AltLeft"@ || code == "AltRight"@ {
        Some(KeyId::Alt)
    } else if code == "MetaLeft"@ || code == "MetaRight"@ {
        Some(KeyId::MetaLeft)
    } else if key == " "@ {
        Some(KeyId::Space)
    } else {
        None
    }
}

/// Resolves a browser key code to a key identifier.
pub fn js_key_to_key(key: &str, code: &str) -> (r: Option<KeyId>)
    ensures
        r == spec_key_of(key@, code@),
{
    if code.eq("KeyA") {
        Some(KeyId::KeyA)
    } else if code.eq("KeyB") {
        Some(KeyId::KeyB)
    } else if code.eq("KeyC") {
        Some(KeyId::KeyC)
    } else if code.eq("KeyD") {
        Some(KeyId::KeyD)
    } else if code.eq("KeyE") {
        Some(KeyId::KeyE)
    } else if code.eq("KeyF") {
        Some(KeyId::KeyF)
    } else if code.eq("KeyG") {
        Some(KeyId::KeyG)
    } else if code.eq("KeyH") {
        Some(KeyId::KeyH)
    } else if code.eq("KeyI") {
        Some(KeyId::KeyI)
    } else if code.eq("KeyJ") {
        Some(KeyId::KeyJ)
    } else if code.eq("KeyK") {
        Some(KeyId::KeyK)
    } else if code.eq("KeyL") {
        Some(KeyId::KeyL)
    } else if code.eq("KeyM") {
        Some(KeyId::KeyM)
    } else if code.eq("KeyN") {
        Some(KeyId::KeyN)
    } else if code.eq("KeyO") {
        Some(KeyId::KeyO)
    } else if code.eq("KeyP") {
        Some(KeyId::KeyP)
    } else if code.eq("KeyQ") {
        Some(KeyId::KeyQ)
    } else if code.eq("KeyR") {
        Some(KeyId::KeyR)
    } else if code.eq("KeyS") {
        Some(KeyId::KeyS)
    } else if code.eq("KeyT") {
        Some(KeyId::KeyT)
    } else if code.eq("KeyU") {
        Some(KeyId::KeyU)
    } else if code.eq("KeyV") {
        Some(KeyId::KeyV)
    } else if code.eq("KeyW") {
        Some(KeyId::KeyW)
    } else if code.eq("KeyX") {
        Some(KeyId::KeyX)
    } else if code.eq("KeyY") {
        Some(KeyId::KeyY)
    } else if code.eq("KeyZ") {
        Some(KeyId::KeyZ)
    } else if code.eq("Digit0") {
        Some(KeyId::Num0)
    } else if code.eq("Digit1") {
        Some(KeyId::Num1)
    } else if code.eq("Digit2") {
        Some(KeyId::Num2)
    } else if code.eq("Digit3") {
        Some(KeyId::Num3)
    } else if code.eq("Digit4") {
        Some(KeyId::Num4)
    } else if code.eq("Digit5") {
        Some(KeyId::Num5)
    } else if code.eq("Digit6") {
        Some(KeyId::Num6)
    } else if code.eq("Digit7") {
        Some(KeyId::Num7)
    } else if code.eq("Digit8") {
        Some(KeyId::Num8)
    } else if code.eq("Digit9") {
        Some(KeyId::Num9)
    } else if code.eq("F1") {
        Some(KeyId::F1)
    } else if code.eq("F2") {
        Some(KeyId::F2)
    } else if code.eq("F3") {
        Some(KeyId::F3)
    } else if code.eq("F4") {
        Some(KeyId::F4)
    } else if code.eq("F5") {
        Some(KeyId::F5)
    } else if code.eq("F6") {
        Some(KeyId::F6)
    } else if code.eq("F7") {
        Some(KeyId::F7)
    } else if code.eq("F8") {
        Some(KeyId::F8)
    } else if code.eq("F9") {
        Some(KeyId::F9)
    } else if code.eq("F10") {
        Some(KeyId::F10)
    } else if code.eq("F11") {
        Some(KeyId::F11)
    } else if code.eq("F12") {
        Some(KeyId::F12)
    } else if code.eq("Enter") || code.eq("NumpadEnter") {
        Some(KeyId::Return)
    } else if code.eq("Escape") {
        Some(KeyId::Escape)
    } else if code.eq("Backspace") {
        Some(KeyId::Backspace)
    } else if code.eq("Tab") {
        Some(KeyId::Tab)
    } else if code.eq("Space") {
        Some(KeyId::Space)
    } else if code.eq("Delete") {
        Some(KeyId::Delete)
    } else if code.eq("Insert") {
        Some(KeyId::Insert)
    } else if code.eq("Home") {
        Some(KeyId::Home)
    } else if code.eq("End") {
        Some(KeyId::End)
    } else if code.eq("PageUp") {
        Some(KeyId::PageUp)
    } else if code.eq("PageDown") {
        Some(KeyId::PageDown)
    } else if code.eq("ArrowUp") {
        Some(KeyId::UpArrow)
    } else if code.eq("ArrowDown") {
        Some(KeyId::DownArrow)
    } else if code.eq("ArrowLeft") {
        Some(KeyId::LeftArrow)
    } else if code.eq("ArrowRight") {
        Some(KeyId::RightArrow)
    } else if code.eq("ShiftLeft") || code.eq("ShiftRight") {
        Some(KeyId::ShiftLeft)
    } else if code.eq("ControlLeft") || code.eq("ControlRight") {
        Some(KeyId::ControlLeft)
    } else if code.eq("AltLeft") || code.eq("AltRight") {
        Some(KeyId::Alt)
    } else if code.eq("MetaLeft") || code.eq("MetaRight") {
        Some(KeyId::MetaLeft)
    } else if key.eq(" ") {
        Some(KeyId::Space)
    } else {
        None
    }
}

/// The held modifiers in the fixed press order: ctrl, alt, shift, meta.
pub open spec fn spec_modifier_keys(ctrl: bool, alt: bool, shift: bool, meta: bool) -> Seq<KeyId> {
    (if ctrl { seq![KeyId::ControlLeft] } else { Seq::empty() })
    + (if alt { seq![KeyId::Alt] } else { Seq::empty() })
    + (if shift { seq![KeyId::ShiftLeft] } else { Seq::empty() })
    + (if meta { seq![KeyId::MetaLeft] } else { Seq::empty() })
}

/// The action sequence of one remote key press: the held modifiers
/// pressed in order, the resolved key pressed and released (nothing, for
/// an unmapped code), the modifiers released in reverse order.
pub open spec fn spec_key_sequence(
    key: Seq<char>,
    code: Seq<char>,
    ctrl: bool,
    alt: bool,
    shift: bool,
    meta: bool,
) -> Seq<InputAction> {
    let mods = spec_modifier_keys(ctrl, alt, shift, meta);
    let presses = Seq::new(mods.len(), |i: int| InputAction::KeyPress(mods[i]));
    let releases = Seq::new(mods.len(), |i: int| InputAction::KeyRelease(mods.reverse()[i]));
    let middle = match spec_key_of(key, code) {
        Some(k) => seq![InputAction::KeyPress(k), InputAction::KeyRelease(k)],
        None => Seq::empty(),
    };
    presses + middle + releases
}

/// Builds the action sequence of one remote key press.
pub fn remote_key_press(
    key: &str,
    code: &str,
    ctrl: bool,
    alt: bool,
    shift: bool,
    meta: bool,
) -> (r: Vec<InputAction>)
    ensures
        r@ == spec_key_sequence(key@, code@, ctrl, alt, shift, meta),
{
    let mut mods: Vec<KeyId> = Vec::new();
    if ctrl {
        mods.push(KeyId::ControlLeft);
    }
    if alt {
        mods.push(KeyId::Alt);
    }
    if shift {
        mods.push(KeyId::ShiftLeft);
    }
    if meta {
        mods.push(KeyId::MetaLeft);
    }
    proof {
        assert(mods@ =~= spec_modifier_keys(ctrl, alt, shift, meta));
    }
    let ghost modseq = mods@;
    let ghost goal = spec_key_sequence(key@, code@, ctrl, alt, shift, meta);
    let mut r: Vec<InputAction> = Vec::new();
    let n = mods.len();
    let mut i: usize = 0;
    while i < n
        invariant
            n == modseq.len(),
            modseq == mods@,
            i <= n,
            r@.len() == i,
            forall|j: int| 0 <= j < i ==> r@[j] == InputAction::KeyPress(modseq[j]),
        decreases n - i,
    {
        r.push(InputAction::KeyPress(mods[i]));
        i = i + 1;
    }
    match js_key_to_key(key, code) {
        Some(k) => {
            r.push(InputAction::KeyPress(k));
            r.push(InputAction::KeyRelease(k));
        },
        None => {},
    }
    let ghost mid_len = r@.len() - n;
    let mut j: usize = 0;
    while j < n
        invariant
            n == modseq.len(),
            modseq == mods@,
            goal == spec_key_sequence(key@, code@, ctrl, alt, shift, meta),
            goal.len() == n + mid_len + n,
            j <= n,
            r@.len() == n + mid_len + j,
            mid_len == (match spec_key_of(key@, code@) {
                Some(k) => 2int,
                None => 0int,
            }),
            forall|p: int| 0 <= p < n + mid_len ==> r@[p] == goal[p],
            forall|p: int|
                n + mid_len <= p < r@.len() ==> r@[p] == InputAction::KeyRelease(
                    modseq[2 * n + mid_len - 1 - p],
                ),
        decreases n - j,
    {
        r.push(InputAction::KeyRelease(mods[n - 1 - j]));
        j = j + 1;
    }
    proof {
        assert(r@ =~= goal);
    }
    r
}

/// The button a name picks; anything unknown is the left button.
pub open spec fn spec_button_of(name: Seq<char>) -> MouseButton {
    if name == "right"@ {
        MouseButton::Right
    } else if name == "middle"@ {
        MouseButton::Middle
    } else {
        MouseButton::Left
    }
}

/// A click: press, then release, of the named button.
pub fn remote_mouse_click(button: &str) -> (r: Vec<InputAction>)
    ensures
        r@ == seq![
            InputAction::ButtonPress(spec_button_of(button@)),
            InputAction::ButtonRelease(spec_button_of(button@)),
        ],
{
    let b = if button.eq("right") {
        MouseButton::Right
    } else if button.eq("middle") {
        MouseButton::Middle
    } else {
        MouseButton::Left
    };
    let mut r: Vec<InputAction> = Vec::new();
    r.push(InputAction::ButtonPress(b));
    r.push(InputAction::ButtonRelease(b));
    proof {
        assert(r@ =~= seq![
            InputAction::ButtonPress(spec_button_of(button@)),
            InputAction::ButtonRelease(spec_button_of(button@)),
        ]);
    }
    r
}

/// An absolute mouse move.
pub fn remote_mouse_move(x: i64, y: i64) -> (r: InputAction)
    ensures
        r == (InputAction::MouseMove { x, y }),
{
    InputAction::MouseMove { x, y }
}

/// A scroll by signed deltas, passed through unmodified.
pub fn remote_mouse_scroll(delta_x: i64, delta_y: i64) -> (r: InputAction)
    ensures
        r == (InputAction::Wheel { dx: delta_x, dy: delta_y }),
{
    InputAction::Wheel { dx: delta_x, dy: delta_y }
}

} // verus!
