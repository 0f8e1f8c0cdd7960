//! Per-process registry of live windows and the routing of window events to them.
//!
//! The registry keeps the windows' identities in an insertion-ordered set; the
//! surfaces and widget roots belonging to each window stay with the caller, keyed by
//! the same identity. [`dispatch_window_event`] decides what each window event
//! becomes; the caller then runs the action on the window's root.
use indexmap::IndexSet;
use vstd::prelude::*;

use crate::renderer::error::RendererError;
use crate::renderer::events::{
    button_set, key_event_from_parts, names_button, MouseButton, modifiers_from_winit, mouse_button_from_winit,
    mouse_event_from_parts, size_from_physical, spec_key, spec_mouse_event, ButtonState, KeyEvent,
    KeyEventKind, KeyModifiers, LogicalKey, ModifiersState, MouseButtons, MouseEvent, PhysicalSize,
    PointerButton, Point, Size, saturate_i32,
};
use crate::seq_util::{lemma_without_excludes, lemma_without_no_duplicates, without};

verus! {

#[verifier::external_type_specification]
#[verifier::external_body]
#[verifier::reject_recursive_types(T)]
#[verifier::reject_recursive_types(S)]
pub struct ExIndexSet<T, S>(IndexSet<T, S>);

/// The members of a window-id set, in insertion order.
pub uninterp spec fn set_order(s: IndexSet<u64>) -> Seq<u64>;

/// `IndexSet::new`: an empty set.
#[verifier::external_body]
fn set_new() -> (r: IndexSet<u64>)
    ensures
        set_order(r) == Seq::<u64>::empty(),
{
    IndexSet::new()
}

/// `IndexSet::insert`: appends `v` when absent and returns `true`; leaves the set
/// (and the position of `v`) unchanged and returns `false` when present.
#[verifier::external_body]
fn set_insert(s: &mut IndexSet<u64>, v: u64) -> (r: bool)
    ensures
        r == !set_order(*old(s)).contains(v),
        set_order(*final(s)) == if r {
            set_order(*old(s)).push(v)
        } else {
            set_order(*old(s))
        },
{
    s.insert(v)
}

/// `IndexSet::shift_remove`: removes `v` keeping the order of the others and returns
/// whether it was present.
#[verifier::external_body]
fn set_shift_remove(s: &mut IndexSet<u64>, v: u64) -> (r: bool)
    ensures
        r == set_order(*old(s)).contains(v),
        set_order(*final(s)) == without(set_order(*old(s)), v),
{
    s.shift_remove(&v)
}

/// `IndexSet::contains`: whether `v` is a member.
#[verifier::external_body]
fn set_contains(s: &IndexSet<u64>, v: u64) -> (r: bool)
    ensures
        r == set_order(*s).contains(v),
{
    s.contains(&v)
}

/// `IndexSet::len`: the number of members.
#[verifier::external_body]
fn set_len(s: &IndexSet<u64>) -> (r: usize)
    ensures
        r == set_order(*s).len(),
{
    s.len()
}

/// `IndexSet::get_index`: the member at position `i`, `None` past the end.
#[verifier::external_body]
fn set_get_index(s: &IndexSet<u64>, i: usize) -> (r: Option<u64>)
    ensures
        r == if i < set_order(*s).len() {
            Some(set_order(*s)[i as int])
        } else {
            None::<u64>
        },
{
    s.get_index(i).copied()
}

/// Opaque identifier of a live window.
#[derive(Clone, Copy, Debug, PartialEq, Eq, Hash, Structural)]
pub struct WindowId(pub u64);

/// Registry of live windows: their identities in creation order, the quit policy,
/// and whether an event-loop callback is running (windows can only be created then).
pub struct WindowRegistry {
    windows: IndexSet<u64>,
    quit_on_last_window_closed: bool,
    active: bool,
}

impl WindowRegistry {
    /// No window is listed twice.
    #[verifier::type_invariant]
    spec fn windows_distinct(&self) -> bool {
        set_order(self.windows).no_duplicates()
    }

    /// The live windows, in creation order.
    pub closed spec fn order(&self) -> Seq<u64> {
        set_order(self.windows)
    }

    /// The quit policy.
    pub closed spec fn spec_quit(&self) -> bool {
        self.quit_on_last_window_closed
    }

    /// True inside an event-loop callback.
    pub closed spec fn spec_active(&self) -> bool {
        self.active
    }

    /// An empty registry with the given quit policy, outside any callback.
    pub fn new(quit_on_last_window_closed: bool) -> (r: WindowRegistry)
        ensures
            r.order() == Seq::<u64>::empty(),
            r.order().no_duplicates(),
            r.spec_quit() == quit_on_last_window_closed,
            !r.spec_active(),
    {
        WindowRegistry { windows: set_new(), quit_on_last_window_closed, active: false }
    }

    /// Marks the start of an event-loop callback.
    pub fn arm(&mut self)
        ensures
            final(self).spec_active(),
            final(self).order() == old(self).order(),
            final(self).spec_quit() == old(self).spec_quit(),
    {
        proof {
            use_type_invariant(&*self);
        }
        self.active = true;
    }

    /// Marks the end of an event-loop callback.
    pub fn disarm(&mut self)
        ensures
            !final(self).spec_active(),
            final(self).order() == old(self).order(),
            final(self).spec_quit() == old(self).spec_quit(),
    {
        proof {
            use_type_invariant(&*self);
        }
        self.active = false;
    }

    /// Checks that a window may be created now: only inside an event-loop callback.
    pub fn check_can_create(&self) -> (r: Result<(), RendererError>)
        ensures
            self.spec_active() ==> r is Ok,
            !self.spec_active() ==> r == Err::<(), RendererError>(RendererError::OutsideCallback),
    {
        if !self.active {
            return Err(RendererError::OutsideCallback);
        }
        Ok(())
    }

    /// Records a newly created window (a known window keeps its position).
    pub fn insert_window(&mut self, id: WindowId)
        ensures
            final(self).order() == if old(self).order().contains(id.0) {
                old(self).order()
            } else {
                old(self).order().push(id.0)
            },
            final(self).order().no_duplicates(),
            final(self).spec_quit() == old(self).spec_quit(),
            final(self).spec_active() == old(self).spec_active(),
    {
        proof {
            use_type_invariant(&*self);
        }
        let ghost before = set_order(self.windows);
        let mut w = set_new();
        std::mem::swap(&mut w, &mut self.windows);
        set_insert(&mut w, id.0);
        proof {
            let after = set_order(w);
            if !before.contains(id.0) {
                assert forall|i: int, j: int| 0 <= i < after.len() && 0 <= j < after.len() && i != j implies after[i]
                    != after[j] by {
                    if i < before.len() && j < before.len() {
                    } else if i < before.len() {
                        assert(before.contains(before[i]));
                    } else if j < before.len() {
                        assert(before.contains(before[j]));
                    }
                }
            }
        }
        self.windows = w;
    }

    /// Whether `id` is a live window.
    pub fn contains(&self, id: WindowId) -> (r: bool)
        ensures
            r == self.order().contains(id.0),
    {
        set_contains(&self.windows, id.0)
    }

    /// Number of live windows.
    pub fn len(&self) -> (r: usize)
        ensures
            r == self.order().len(),
    {
        set_len(&self.windows)
    }

    /// True when no window is live.
    pub fn is_empty(&self) -> (r: bool)
        ensures
            r == (self.order().len() == 0),
    {
        set_len(&self.windows) == 0
    }

    /// The live windows, in creation order.
    pub fn windows(&self) -> (r: Vec<WindowId>)
        ensures
            r@.len() == self.order().len(),
            forall|i: int| 0 <= i < r@.len() ==> #[trigger] r@[i].0 == self.order()[i],
    {
        let n = set_len(&self.windows);
        let mut r: Vec<WindowId> = Vec::new();
        let mut i: usize = 0;
        while i < n
            invariant
                i <= n,
                n == self.order().len(),
                r@.len() == i,
                forall|k: int| 0 <= k < i ==> #[trigger] r@[k].0 == self.order()[k],
            decreases n - i,
        {
            let w = set_get_index(&self.windows, i).unwrap();
            r.push(WindowId(w));
            i = i + 1;
        }
        r
    }

    /// Removes `id` (keeping the order of the others); returns whether it was live.
    fn remove_window(&mut self, id: WindowId) -> (r: bool)
        ensures
            r == old(self).order().contains(id.0),
            final(self).order() == without(old(self).order(), id.0),
            final(self).spec_quit() == old(self).spec_quit(),
            final(self).spec_active() == old(self).spec_active(),
    {
        proof {
            use_type_invariant(&*self);
            lemma_without_no_duplicates(set_order(self.windows), id.0);
        }
        let mut w = set_new();
        std::mem::swap(&mut w, &mut self.windows);
        let r = set_shift_remove(&mut w, id.0);
        self.windows = w;
        r
    }
}

/// Pointer and keyboard state carried between window events.
#[derive(Clone, Copy, Debug, PartialEq, Eq, Structural)]
pub struct InputState {
    /// Buttons currently held.
    pub pressed_buttons: MouseButtons,
    /// Last reported cursor position, in whole pixels.
    pub cursor: Point,
    /// Last reported modifier state.
    pub modifiers: ModifiersState,
}

impl InputState {
    /// No button held, cursor at the origin, no modifier.
    pub fn new() -> (r: InputState)
        ensures
            r.pressed_buttons == MouseButtons::spec_empty(),
            r.cursor == (Point { x: 0, y: 0 }),
            r.modifiers == (ModifiersState { shift: false, control: false, alt: false, super_key: false }),
    {
        InputState { pressed_buttons: MouseButtons::empty(), cursor: Point { x: 0, y: 0 }, modifiers: ModifiersState::empty() }
    }
}

/// A window event as the windowing system reports it.
#[derive(Debug)]
pub enum WindowEvent {
    /// The user asked to close the window.
    CloseRequested,
    /// The window surface changed size.
    Resized(PhysicalSize),
    /// The window must be repainted.
    RedrawRequested,
    /// A pointer button changed state.
    MouseInput { state: ButtonState, button: PointerButton },
    /// The cursor moved (position already in whole pixels).
    CursorMoved(Point),
    /// The modifier state changed.
    ModifiersChanged(ModifiersState),
    /// A key changed state.
    KeyboardInput { key: LogicalKey, text: Option<String>, state: ButtonState, repeat: bool },
    /// Any other event; ignored.
    Other,
}

/// What the caller does with a routed window event.
#[derive(Debug)]
pub enum WindowAction {
    /// Nothing.
    Nothing,
    /// The last live window closed: run the user's last-window hook, then exit the
    /// event loop when `exit` holds.
    LastWindowClosed { exit: bool },
    /// Tell the window's root its new size.
    Resize(WindowId, Size),
    /// Repaint the window.
    Redraw(WindowId),
    /// Deliver a mouse press to the window's root.
    MousePress(WindowId, MouseEvent),
    /// Deliver a mouse release to the window's root.
    MouseRelease(WindowId, MouseEvent),
    /// Deliver a key press to the window's root.
    KeyPress(WindowId, KeyEvent),
    /// Deliver a key release to the window's root.
    KeyRelease(WindowId, KeyEvent),
}

impl MouseButtons {
    /// The empty set.
    pub open spec fn spec_empty() -> MouseButtons {
        MouseButtons { left: false, right: false, middle: false, back: false, forward: false }
    }
}

/// The held buttons after `button` changed to `state`.
pub open spec fn buttons_after(held: MouseButtons, state: ButtonState, button: PointerButton) -> MouseButtons {
    let b = button_set(button);
    match state {
        ButtonState::Pressed => MouseButtons {
            left: held.left || b.left,
            right: held.right || b.right,
            middle: held.middle || b.middle,
            back: held.back || b.back,
            forward: held.forward || b.forward,
        },
        ButtonState::Released => MouseButtons {
            left: held.left && !b.left,
            right: held.right && !b.right,
            middle: held.middle && !b.middle,
            back: held.back && !b.back,
            forward: held.forward && !b.forward,
        },
    }
}

/// A press adds exactly the pressed widget button to the held set and a release removes
/// exactly the released one; every other button keeps its state.
pub proof fn law_held_buttons_track_presses(held: MouseButtons, button: PointerButton, b: MouseButton)
    ensures
        buttons_after(held, ButtonState::Pressed, button).has(b) == (held.has(b) || names_button(button, b)),
        buttons_after(held, ButtonState::Released, button).has(b) == (held.has(b) && !names_button(button, b)),
{
}

/// Routes one event for `window`: updates the registry and input state and returns
/// the action to run. Events for windows that are not live are dropped (the input
/// state is still updated).
pub fn dispatch_window_event(
    registry: &mut WindowRegistry,
    input: &mut InputState,
    window: WindowId,
    event: WindowEvent,
) -> (r: WindowAction)
    ensures
        final(registry).spec_quit() == old(registry).spec_quit(),
        final(registry).spec_active() == old(registry).spec_active(),
        old(registry).order().no_duplicates(),
        final(registry).order().no_duplicates(),
        match event {
            WindowEvent::CloseRequested => {
                &&& final(registry).order() == without(old(registry).order(), window.0)
                &&& *final(input) == *old(input)
                &&& if old(registry).order().contains(window.0) && final(registry).order().len() == 0 {
                    r matches WindowAction::LastWindowClosed { exit } && exit == old(registry).spec_quit()
                } else {
                    r is Nothing
                }
            },
            WindowEvent::Resized(size) => {
                &&& final(registry).order() == old(registry).order()
                &&& *final(input) == *old(input)
                &&& if old(registry).order().contains(window.0) {
                    r matches WindowAction::Resize(w, s) && w == window && s.width == saturate_i32(size.width)
                        && s.height == saturate_i32(size.height)
                } else {
                    r is Nothing
                }
            },
            WindowEvent::RedrawRequested => {
                &&& final(registry).order() == old(registry).order()
                &&& *final(input) == *old(input)
                &&& if old(registry).order().contains(window.0) {
                    r matches WindowAction::Redraw(w) && w == window
                } else {
                    r is Nothing
                }
            },
            WindowEvent::MouseInput { state, button } => {
                let held = buttons_after(old(input).pressed_buttons, state, button);
                let ev = spec_mouse_event(state, button, old(input).cursor, held);
                &&& final(registry).order() == old(registry).order()
                &&& *final(input) == InputState { pressed_buttons: held, ..*old(input) }
                &&& if !old(registry).order().contains(window.0) {
                    r is Nothing
                } else if state == ButtonState::Pressed {
                    r matches WindowAction::MousePress(w, e) && w == window && e == ev
                } else {
                    r matches WindowAction::MouseRelease(w, e) && w == window && e == ev
                }
            },
            WindowEvent::CursorMoved(p) => {
                &&& final(registry).order() == old(registry).order()
                &&& *final(input) == InputState { cursor: p, ..*old(input) }
                &&& r is Nothing
            },
            WindowEvent::ModifiersChanged(m) => {
                &&& final(registry).order() == old(registry).order()
                &&& *final(input) == InputState { modifiers: m, ..*old(input) }
                &&& r is Nothing
            },
            WindowEvent::KeyboardInput { key, text, state, repeat } => {
                &&& final(registry).order() == old(registry).order()
                &&& *final(input) == *old(input)
                &&& if !old(registry).order().contains(window.0) || spec_key(key) is None {
                    r is Nothing
                } else {
                    let kind = match state {
                        ButtonState::Pressed => KeyEventKind::Press,
                        ButtonState::Released => KeyEventKind::Release,
                    };
                    let ok = |w: WindowId, e: KeyEvent|
                        w == window && e.key == spec_key(key)->0 && e.text@ == (match text {
                            Some(t) => t@,
                            None => Seq::<char>::empty(),
                        }) && e.repeat == repeat && e.kind == kind && e.modifiers == (KeyModifiers {
                            shift: old(input).modifiers.shift,
                            ctrl: old(input).modifiers.control,
                            alt: old(input).modifiers.alt,
                            meta: old(input).modifiers.super_key,
                        });
                    if state == ButtonState::Pressed {
                        r matches WindowAction::KeyPress(w, e) && ok(w, e)
                    } else {
                        r matches WindowAction::KeyRelease(w, e) && ok(w, e)
                    }
                }
            },
            WindowEvent::Other => {
                &&& final(registry).order() == old(registry).order()
                &&& *final(input) == *old(input)
                &&& r is Nothing
            },
        },
{
    proof {
        use_type_invariant(&*registry);
        lemma_without_no_duplicates(registry.order(), window.0);
    }
    match event {
        WindowEvent::CloseRequested => {
            let was_live = registry.remove_window(window);
            if was_live && registry.is_empty() {
                WindowAction::LastWindowClosed { exit: registry.quit_on_last_window_closed }
            } else {
                WindowAction::Nothing
            }
        },
        WindowEvent::Resized(size) => {
            if registry.contains(window) {
                WindowAction::Resize(window, size_from_physical(size))
            } else {
                WindowAction::Nothing
            }
        },
        WindowEvent::RedrawRequested => {
            if registry.contains(window) {
                WindowAction::Redraw(window)
            } else {
                WindowAction::Nothing
            }
        },
        WindowEvent::MouseInput { state, button } => {
            let btn = mouse_button_from_winit(button);
            match state {
                ButtonState::Pressed => {
                    input.pressed_buttons = input.pressed_buttons.union(btn);
                },
                ButtonState::Released => {
                    input.pressed_buttons = input.pressed_buttons.difference(btn);
                },
            }
            if registry.contains(window) {
                let evt = mouse_event_from_parts(state, button, input.cursor, input.pressed_buttons);
                match state {
                    ButtonState::Pressed => WindowAction::MousePress(window, evt),
                    ButtonState::Released => WindowAction::MouseRelease(window, evt),
                }
            } else {
                WindowAction::Nothing
            }
        },
        WindowEvent::CursorMoved(p) => {
            input.cursor = p;
            WindowAction::Nothing
        },
        WindowEvent::ModifiersChanged(m) => {
            input.modifiers = m;
            WindowAction::Nothing
        },
        WindowEvent::KeyboardInput { key, text, state, repeat } => {
            let mods = modifiers_from_winit(input.modifiers);
            if !registry.contains(window) {
                return WindowAction::Nothing;
            }
            let t: Option<&str> = match &text {
                Some(s) => Some(s.as_str()),
                None => None,
            };
            match key_event_from_parts(&key, t, state, repeat, mods) {
                Some(evt) => match state {
                    ButtonState::Pressed => WindowAction::KeyPress(window, evt),
                    ButtonState::Released => WindowAction::KeyRelease(window, evt),
                },
                None => WindowAction::Nothing,
            }
        },
        WindowEvent::Other => WindowAction::Nothing,
    }
}

/// Closing a window removes it and keeps every other live window; closing the only
/// live window leaves none.
pub proof fn law_close_window(order: Seq<u64>, window: u64)
    requires
        order.no_duplicates(),
        order.contains(window),
    ensures
        !without(order, window).contains(window),
        forall|w: u64| w != window ==> (without(order, window).contains(w) <==> order.contains(w)),
        order.len() == 1 ==> without(order, window).len() == 0,
{
    lemma_without_excludes(order, window);
    if order.len() == 1 {
        assert(order[0] == window);
        assert(order.drop_last().len() == 0);
        assert(without(order.drop_last(), window).len() == 0);
    }
}

} // verus!
