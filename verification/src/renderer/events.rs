//! Input vocabulary of the renderer and its conversion from windowing-system input.
//!
//! The windowing system's values are first written as the plain types of this module
//! (a logical key, a pointer button, a modifier state, a physical size); the functions
//! here decide what the widgets receive.
use vstd::prelude::*;

verus! {

/// Size in whole pixels, as widgets see it.
#[derive(Clone, Copy, Debug, PartialEq, Eq, Structural)]
pub struct Size {
    pub width: i32,
    pub height: i32,
}

/// Point in whole pixels.
#[derive(Clone, Copy, Debug, PartialEq, Eq, Structural)]
pub struct Point {
    pub x: i32,
    pub y: i32,
}

/// Size of a window surface in physical pixels, as the windowing system reports it.
#[derive(Clone, Copy, Debug, PartialEq, Eq, Structural)]
pub struct PhysicalSize {
    pub width: u32,
    pub height: u32,
}

/// `v` as an `i32`, saturating at `i32::MAX`.
pub open spec fn saturate_i32(v: u32) -> i32 {
    if v <= i32::MAX {
        v as i32
    } else {
        i32::MAX
    }
}

/// Saturation keeps every size that fits an `i32` and caps the others at `i32::MAX`.
pub proof fn law_saturate_keeps_fitting(v: u32)
    ensures
        0 <= saturate_i32(v) <= i32::MAX,
        v <= i32::MAX ==> saturate_i32(v) == v,
        v > i32::MAX ==> saturate_i32(v) == i32::MAX,
{
}

/// Converts a physical size to a widget size, saturating each side at `i32::MAX`.
pub fn size_from_physical(size: PhysicalSize) -> (r: Size)
    ensures
        r.width == saturate_i32(size.width),
        r.height == saturate_i32(size.height),
{
    let w: i32 = if size.width <= 0x7fff_ffff {
        size.width as i32
    } else {
        0x7fff_ffff
    };
    let h: i32 = if size.height <= 0x7fff_ffff {
        size.height as i32
    } else {
        0x7fff_ffff
    };
    Size { width: w, height: h }
}

/// Pressed or released.
#[derive(Clone, Copy, Debug, PartialEq, Eq, Structural)]
pub enum ButtonState {
    Pressed,
    Released,
}

/// A pointer button as the windowing system names it.
#[derive(Clone, Copy, Debug, PartialEq, Eq, Structural)]
pub enum PointerButton {
    Left,
    Right,
    Middle,
    Back,
    Forward,
    /// Any other button, by its platform number.
    Other(u16),
}

/// A mouse button known to widgets.
#[derive(Clone, Copy, Debug, PartialEq, Eq, Structural)]
pub enum MouseButton {
    Left,
    Right,
    Middle,
    Back,
    Forward,
}

/// A set of mouse buttons.
#[derive(Clone, Copy, Debug, PartialEq, Eq, Structural)]
pub struct MouseButtons {
    pub left: bool,
    pub right: bool,
    pub middle: bool,
    pub back: bool,
    pub forward: bool,
}

impl MouseButtons {
    /// The empty set.
    pub fn empty() -> (r: MouseButtons)
        ensures
            r == (MouseButtons { left: false, right: false, middle: false, back: false, forward: false }),
    {
        MouseButtons { left: false, right: false, middle: false, back: false, forward: false }
    }

    /// True when `b` is in the set.
    pub open spec fn has(&self, b: MouseButton) -> bool {
        match b {
            MouseButton::Left => self.left,
            MouseButton::Right => self.right,
            MouseButton::Middle => self.middle,
            MouseButton::Back => self.back,
            MouseButton::Forward => self.forward,
        }
    }

    /// True when `b` is in the set.
    pub fn contains(&self, b: MouseButton) -> (r: bool)
        ensures
            r == self.has(b),
    {
        match b {
            MouseButton::Left => self.left,
            MouseButton::Right => self.right,
            MouseButton::Middle => self.middle,
            MouseButton::Back => self.back,
            MouseButton::Forward => self.forward,
        }
    }

    /// True when no button is in the set.
    pub fn is_empty(&self) -> (r: bool)
        ensures
            r == !(self.left || self.right || self.middle || self.back || self.forward),
    {
        !(self.left || self.right || self.middle || self.back || self.forward)
    }

    /// The union of two sets.
    pub fn union(self, other: MouseButtons) -> (r: MouseButtons)
        ensures
            r == (MouseButtons {
                left: self.left || other.left,
                right: self.right || other.right,
                middle: self.middle || other.middle,
                back: self.back || other.back,
                forward: self.forward || other.forward,
            }),
    {
        MouseButtons {
            left: self.left || other.left,
            right: self.right || other.right,
            middle: self.middle || other.middle,
            back: self.back || other.back,
            forward: self.forward || other.forward,
        }
    }

    /// This set without the buttons of `other`.
    pub fn difference(self, other: MouseButtons) -> (r: MouseButtons)
        ensures
            r == (MouseButtons {
                left: self.left && !other.left,
                right: self.right && !other.right,
                middle: self.middle && !other.middle,
                back: self.back && !other.back,
                forward: self.forward && !other.forward,
            }),
    {
        MouseButtons {
            left: self.left && !other.left,
            right: self.right && !other.right,
            middle: self.middle && !other.middle,
            back: self.back && !other.back,
            forward: self.forward && !other.forward,
        }
    }
}

/// The set holding just the widget button that `btn` names; empty for other buttons.
pub open spec fn button_set(btn: PointerButton) -> MouseButtons {
    MouseButtons {
        left: btn == PointerButton::Left,
        right: btn == PointerButton::Right,
        middle: btn == PointerButton::Middle,
        back: btn == PointerButton::Back,
        forward: btn == PointerButton::Forward,
    }
}

/// Maps a pointer button to the set holding the corresponding widget button; buttons
/// without a widget counterpart map to the empty set.
pub fn mouse_button_from_winit(btn: PointerButton) -> (r: MouseButtons)
    ensures
        r == button_set(btn),
{
    let e = MouseButtons::empty();
    match btn {
        PointerButton::Left => MouseButtons { left: true, ..e },
        PointerButton::Right => MouseButtons { right: true, ..e },
        PointerButton::Middle => MouseButtons { middle: true, ..e },
        PointerButton::Back => MouseButtons { back: true, ..e },
        PointerButton::Forward => MouseButtons { forward: true, ..e },
        PointerButton::Other(_) => e,
    }
}

/// Keyboard modifier state as the windowing system reports it.
#[derive(Clone, Copy, Debug, PartialEq, Eq, Structural)]
pub struct ModifiersState {
    pub shift: bool,
    pub control: bool,
    pub alt: bool,
    pub super_key: bool,
}

impl ModifiersState {
    /// No modifier held.
    pub fn empty() -> (r: ModifiersState)
        ensures
            r == (ModifiersState { shift: false, control: false, alt: false, super_key: false }),
    {
        ModifiersState { shift: false, control: false, alt: false, super_key: false }
    }
}

/// The keyboard modifiers widgets see.
#[derive(Clone, Copy, Debug, PartialEq, Eq, Structural)]
pub struct KeyModifiers {
    pub shift: bool,
    pub ctrl: bool,
    pub alt: bool,
    pub meta: bool,
}

impl KeyModifiers {
    /// No modifier.
    pub fn empty() -> (r: KeyModifiers)
        ensures
            r == (KeyModifiers { shift: false, ctrl: false, alt: false, meta: false }),
    {
        KeyModifiers { shift: false, ctrl: false, alt: false, meta: false }
    }
}

/// Maps the windowing system's modifier state: shift to Shift, control to Ctrl, alt to
/// Alt, and the super key to Meta.
pub fn modifiers_from_winit(mods: ModifiersState) -> (r: KeyModifiers)
    ensures
        r == (KeyModifiers { shift: mods.shift, ctrl: mods.control, alt: mods.alt, meta: mods.super_key }),
{
    let mut result = KeyModifiers::empty();
    if mods.shift {
        result.shift = true;
    }
    if mods.control {
        result.ctrl = true;
    }
    if mods.alt {
        result.alt = true;
    }
    if mods.super_key {
        result.meta = true;
    }
    result
}

/// Kind of a mouse event.
#[derive(Clone, Copy, Debug, PartialEq, Eq, Structural)]
pub enum MouseEventKind {
    Press,
    Release,
}

/// A mouse button event as widgets receive it.
#[derive(Clone, Copy, Debug, PartialEq, Eq, Structural)]
pub struct MouseEvent {
    /// Position within the window.
    pub pos: Point,
    /// Position on the screen (the window position is used).
    pub global_pos: Point,
    /// The button that changed.
    pub button: MouseButtons,
    /// All buttons held after the change.
    pub buttons: MouseButtons,
    /// Keyboard modifiers (none are reported with mouse events).
    pub modifiers: KeyModifiers,
    /// Press or release.
    pub kind: MouseEventKind,
}

/// The mouse event for a button change at `pos` with `current_buttons` held.
pub open spec fn spec_mouse_event(
    state: ButtonState,
    button: PointerButton,
    pos: Point,
    current_buttons: MouseButtons,
) -> MouseEvent {
    MouseEvent {
        pos,
        global_pos: pos,
        button: button_set(button),
        buttons: current_buttons,
        modifiers: KeyModifiers { shift: false, ctrl: false, alt: false, meta: false },
        kind: match state {
            ButtonState::Pressed => MouseEventKind::Press,
            ButtonState::Released => MouseEventKind::Release,
        },
    }
}

/// True when the pointer button `p` is the widget button `b`.
pub open spec fn names_button(p: PointerButton, b: MouseButton) -> bool {
    match (p, b) {
        (PointerButton::Left, MouseButton::Left) => true,
        (PointerButton::Right, MouseButton::Right) => true,
        (PointerButton::Middle, MouseButton::Middle) => true,
        (PointerButton::Back, MouseButton::Back) => true,
        (PointerButton::Forward, MouseButton::Forward) => true,
        _ => false,
    }
}

/// A converted mouse event sits at the cursor position it was built from, both
/// within the window and as its global position; it reports exactly the changed
/// widget button, the held buttons it was given, no keyboard modifier, and a press
/// exactly for a pressed button.
pub proof fn law_mouse_event_fields(state: ButtonState, button: PointerButton, pos: Point, held: MouseButtons)
    ensures
        spec_mouse_event(state, button, pos, held).pos == pos,
        spec_mouse_event(state, button, pos, held).global_pos == pos,
        spec_mouse_event(state, button, pos, held).buttons == held,
        forall|b: MouseButton| #[trigger] spec_mouse_event(state, button, pos, held).button.has(b) == names_button(button, b),
        !spec_mouse_event(state, button, pos, held).modifiers.shift,
        !spec_mouse_event(state, button, pos, held).modifiers.ctrl,
        !spec_mouse_event(state, button, pos, held).modifiers.alt,
        !spec_mouse_event(state, button, pos, held).modifiers.meta,
        (spec_mouse_event(state, button, pos, held).kind == MouseEventKind::Press) == (state == ButtonState::Pressed),
{
    assert forall|b: MouseButton| #[trigger] spec_mouse_event(state, button, pos, held).button.has(b) == names_button(
        button,
        b,
    ) by {
        match b {
            MouseButton::Left => {},
            MouseButton::Right => {},
            MouseButton::Middle => {},
            MouseButton::Back => {},
            MouseButton::Forward => {},
        }
    }
}

/// Builds the mouse event for a button change at `pos` (already in whole pixels).
pub fn mouse_event_from_parts(
    state: ButtonState,
    button: PointerButton,
    pos: Point,
    current_buttons: MouseButtons,
) -> (r: MouseEvent)
    ensures
        r == spec_mouse_event(state, button, pos, current_buttons),
{
    let kind = match state {
        ButtonState::Pressed => MouseEventKind::Press,
        ButtonState::Released => MouseEventKind::Release,
    };
    MouseEvent {
        pos,
        global_pos: pos,
        button: mouse_button_from_winit(button),
        buttons: current_buttons,
        modifiers: KeyModifiers::empty(),
        kind,
    }
}
/// A key known to widgets.
#[derive(Clone, Copy, Debug, PartialEq, Eq, Structural)]
pub enum Key {
    A,
    B,
    C,
    D,
    E,
    F,
    G,
    H,
    I,
    J,
    K,
    L,
    M,
    N,
    O,
    P,
    Q,
    R,
    S,
    T,
    U,
    V,
    W,
    X,
    Y,
    Z,
    Num0,
    Num1,
    Num2,
    Num3,
    Num4,
    Num5,
    Num6,
    Num7,
    Num8,
    Num9,
    Return,
    Escape,
    Backspace,
    Tab,
    Space,
    Delete,
    Insert,
    Home,
    End,
    PageUp,
    PageDown,
    Left,
    Right,
    Up,
    Down,
    F1,
    F2,
    F3,
    F4,
    F5,
    F6,
    F7,
    F8,
    F9,
    F10,
    F11,
    F12,
}
/// A named (non-character) key of the windowing system that widgets understand;
/// every other named key is `Unmapped`.
#[derive(Clone, Copy, Debug, PartialEq, Eq, Structural)]
pub enum NamedKey {
    Enter,
    Escape,
    Backspace,
    Tab,
    Space,
    Delete,
    Insert,
    Home,
    End,
    PageUp,
    PageDown,
    ArrowLeft,
    ArrowRight,
    ArrowUp,
    ArrowDown,
    F1,
    F2,
    F3,
    F4,
    F5,
    F6,
    F7,
    F8,
    F9,
    F10,
    F11,
    F12,
    Unmapped,
}
/// A logical key as the windowing system reports it.
#[derive(Debug)]
pub enum LogicalKey {
    /// A key that produces text.
    Character(String),
    /// A named key.
    Named(NamedKey),
    /// A key the system could not identify.
    Unidentified,
}

/// The letter key at position `i` of the alphabet.
pub open spec fn letter_key(i: int) -> Key
    recommends
        0 <= i < 26,
{
    if i == 0 {
        Key::A
    } else if i == 1 {
        Key::B
    } else if i == 2 {
        Key::C
    } else if i == 3 {
        Key::D
    } else if i == 4 {
        Key::E
    } else if i == 5 {
        Key::F
    } else if i == 6 {
        Key::G
    } else if i == 7 {
        Key::H
    } else if i == 8 {
        Key::I
    } else if i == 9 {
        Key::J
    } else if i == 10 {
        Key::K
    } else if i == 11 {
        Key::L
    } else if i == 12 {
        Key::M
    } else if i == 13 {
        Key::N
    } else if i == 14 {
        Key::O
    } else if i == 15 {
        Key::P
    } else if i == 16 {
        Key::Q
    } else if i == 17 {
        Key::R
    } else if i == 18 {
        Key::S
    } else if i == 19 {
        Key::T
    } else if i == 20 {
        Key::U
    } else if i == 21 {
        Key::V
    } else if i == 22 {
        Key::W
    } else if i == 23 {
        Key::X
    } else if i == 24 {
        Key::Y
    } else {
        Key::Z
    }
}

/// The digit key of `d`.
pub open spec fn digit_key(d: int) -> Key
    recommends
        0 <= d < 10,
{
    if d == 0 {
        Key::Num0
    } else if d == 1 {
        Key::Num1
    } else if d == 2 {
        Key::Num2
    } else if d == 3 {
        Key::Num3
    } else if d == 4 {
        Key::Num4
    } else if d == 5 {
        Key::Num5
    } else if d == 6 {
        Key::Num6
    } else if d == 7 {
        Key::Num7
    } else if d == 8 {
        Key::Num8
    } else {
        Key::Num9
    }
}

/// The key a one-character text maps to: a letter (either case) or a decimal digit.
pub open spec fn char_key(c: char) -> Option<Key> {
    if 'a' <= c <= 'z' {
        Some(letter_key(c as int - 'a' as int))
    } else if 'A' <= c <= 'Z' {
        Some(letter_key(c as int - 'A' as int))
    } else if '0' <= c <= '9' {
        Some(digit_key(c as int - '0' as int))
    } else {
        None
    }
}

/// Letters map to keys without regard to case, different letters to different keys,
/// and different digits to different keys, none of them a letter key.
pub proof fn law_character_keys_distinct(c: char, d: char)
    ensures
        'a' <= c <= 'z' ==> char_key(c) is Some && char_key(c) == char_key(((c as int) - 32) as char),
        ('a' <= c <= 'z' || '0' <= c <= '9') && ('a' <= d <= 'z' || '0' <= d <= '9') && c != d ==> char_key(c)
            != char_key(d),
{
    if 'a' <= c <= 'z' {
        assert('A' <= ((c as int) - 32) as char <= 'Z');
    }
}

/// The key a named key maps to.
pub open spec fn named_key(n: NamedKey) -> Option<Key> {
    match n {
        NamedKey::Enter => Some(Key::Return),
        NamedKey::Escape => Some(Key::Escape),
        NamedKey::Backspace => Some(Key::Backspace),
        NamedKey::Tab => Some(Key::Tab),
        NamedKey::Space => Some(Key::Space),
        NamedKey::Delete => Some(Key::Delete),
        NamedKey::Insert => Some(Key::Insert),
        NamedKey::Home => Some(Key::Home),
        NamedKey::End => Some(Key::End),
        NamedKey::PageUp => Some(Key::PageUp),
        NamedKey::PageDown => Some(Key::PageDown),
        NamedKey::ArrowLeft => Some(Key::Left),
        NamedKey::ArrowRight => Some(Key::Right),
        NamedKey::ArrowUp => Some(Key::Up),
        NamedKey::ArrowDown => Some(Key::Down),
        NamedKey::F1 => Some(Key::F1),
        NamedKey::F2 => Some(Key::F2),
        NamedKey::F3 => Some(Key::F3),
        NamedKey::F4 => Some(Key::F4),
        NamedKey::F5 => Some(Key::F5),
        NamedKey::F6 => Some(Key::F6),
        NamedKey::F7 => Some(Key::F7),
        NamedKey::F8 => Some(Key::F8),
        NamedKey::F9 => Some(Key::F9),
        NamedKey::F10 => Some(Key::F10),
        NamedKey::F11 => Some(Key::F11),
        NamedKey::F12 => Some(Key::F12),
        NamedKey::Unmapped => None,
    }
}

/// The key a logical key maps to: texts of exactly one letter or digit, and the
/// named keys listed in [`NamedKey`]; `None` for everything else.
pub open spec fn spec_key(key: LogicalKey) -> Option<Key> {
    match key {
        LogicalKey::Character(s) => if s@.len() == 1 {
            char_key(s@[0])
        } else {
            None
        },
        LogicalKey::Named(n) => named_key(n),
        LogicalKey::Unidentified => None,
    }
}

fn letter_key_exec(i: u32) -> (r: Key)
    requires
        i < 26,
    ensures
        r == letter_key(i as int),
{
    match i {
        0 => Key::A,
        1 => Key::B,
        2 => Key::C,
        3 => Key::D,
        4 => Key::E,
        5 => Key::F,
        6 => Key::G,
        7 => Key::H,
        8 => Key::I,
        9 => Key::J,
        10 => Key::K,
        11 => Key::L,
        12 => Key::M,
        13 => Key::N,
        14 => Key::O,
        15 => Key::P,
        16 => Key::Q,
        17 => Key::R,
        18 => Key::S,
        19 => Key::T,
        20 => Key::U,
        21 => Key::V,
        22 => Key::W,
        23 => Key::X,
        24 => Key::Y,
        _ => Key::Z,
    }
}

fn digit_key_exec(d: u32) -> (r: Key)
    requires
        d < 10,
    ensures
        r == digit_key(d as int),
{
    match d {
        0 => Key::Num0,
        1 => Key::Num1,
        2 => Key::Num2,
        3 => Key::Num3,
        4 => Key::Num4,
        5 => Key::Num5,
        6 => Key::Num6,
        7 => Key::Num7,
        8 => Key::Num8,
        _ => Key::Num9,
    }
}

/// Maps one character to its key.
fn key_from_char(c: char) -> (r: Option<Key>)
    ensures
        r == char_key(c),
{
    if 'a' <= c && c <= 'z' {
        Some(letter_key_exec((c as u32) - ('a' as u32)))
    } else if 'A' <= c && c <= 'Z' {
        Some(letter_key_exec((c as u32) - ('A' as u32)))
    } else if '0' <= c && c <= '9' {
        Some(digit_key_exec((c as u32) - ('0' as u32)))
    } else {
        None
    }
}

/// Maps a logical key to the key widgets see.
pub fn key_from_winit(key: &LogicalKey) -> (r: Option<Key>)
    ensures
        r == spec_key(*key),
{
    match key {
        LogicalKey::Character(s) => {
            let t = s.as_str();
            if t.unicode_len() == 1 {
                key_from_char(t.get_char(0))
            } else {
                None
            }
        },
        LogicalKey::Named(n) => match n {
            NamedKey::Enter => Some(Key::Return),
            NamedKey::Escape => Some(Key::Escape),
            NamedKey::Backspace => Some(Key::Backspace),
            NamedKey::Tab => Some(Key::Tab),
            NamedKey::Space => Some(Key::Space),
            NamedKey::Delete => Some(Key::Delete),
            NamedKey::Insert => Some(Key::Insert),
            NamedKey::Home => Some(Key::Home),
            NamedKey::End => Some(Key::End),
            NamedKey::PageUp => Some(Key::PageUp),
            NamedKey::PageDown => Some(Key::PageDown),
            NamedKey::ArrowLeft => Some(Key::Left),
            NamedKey::ArrowRight => Some(Key::Right),
            NamedKey::ArrowUp => Some(Key::Up),
            NamedKey::ArrowDown => Some(Key::Down),
            NamedKey::F1 => Some(Key::F1),
            NamedKey::F2 => Some(Key::F2),
            NamedKey::F3 => Some(Key::F3),
            NamedKey::F4 => Some(Key::F4),
            NamedKey::F5 => Some(Key::F5),
            NamedKey::F6 => Some(Key::F6),
            NamedKey::F7 => Some(Key::F7),
            NamedKey::F8 => Some(Key::F8),
            NamedKey::F9 => Some(Key::F9),
            NamedKey::F10 => Some(Key::F10),
            NamedKey::F11 => Some(Key::F11),
            NamedKey::F12 => Some(Key::F12),
            NamedKey::Unmapped => None,
        },
        LogicalKey::Unidentified => None,
    }
}

/// Kind of a key event.
#[derive(Clone, Copy, Debug, PartialEq, Eq, Structural)]
pub enum KeyEventKind {
    Press,
    Release,
}

/// A key event as widgets receive it.
#[derive(Debug)]
pub struct KeyEvent {
    /// The key.
    pub key: Key,
    /// The text the key produced (empty when none).
    pub text: String,
    /// Modifiers held.
    pub modifiers: KeyModifiers,
    /// True for auto-repeat events.
    pub repeat: bool,
    /// Press or release.
    pub kind: KeyEventKind,
}

/// Builds the key event for a keyboard input; `None` when the key has no widget key.
pub fn key_event_from_parts(
    logical_key: &LogicalKey,
    text: Option<&str>,
    state: ButtonState,
    repeat: bool,
    modifiers: KeyModifiers,
) -> (r: Option<KeyEvent>)
    ensures
        r is Some <==> spec_key(*logical_key) is Some,
        r matches Some(e) ==> {
            &&& e.key == spec_key(*logical_key)->0
            &&& e.text@ == (match text {
                Some(t) => t@,
                None => Seq::<char>::empty(),
            })
            &&& e.modifiers == modifiers
            &&& e.repeat == repeat
            &&& e.kind == (match state {
                ButtonState::Pressed => KeyEventKind::Press,
                ButtonState::Released => KeyEventKind::Release,
            })
        },
{
    let key = match key_from_winit(logical_key) {
        Some(k) => k,
        None => {
            return None;
        },
    };
    let text = match text {
        Some(t) => t.to_owned(),
        None => String::new(),
    };
    let kind = match state {
        ButtonState::Pressed => KeyEventKind::Press,
        ButtonState::Released => KeyEventKind::Release,
    };
    Some(KeyEvent { key, text, modifiers, repeat, kind })
}

} // verus!
