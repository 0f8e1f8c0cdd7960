use quartzite::application::ApplicationError;
use quartzite::renderer::application_builder::WindowedApplicationBuilder;
use quartzite::renderer::error::{PaintError, RendererError};
use quartzite::renderer::events::{
    key_event_from_parts, key_from_winit, modifiers_from_winit, mouse_button_from_winit, mouse_event_from_parts,
    size_from_physical, ButtonState, Key, KeyEventKind, KeyModifiers, LogicalKey, ModifiersState, MouseButton,
    MouseButtons, MouseEventKind, NamedKey, PhysicalSize, Point, PointerButton, Size,
};
use quartzite::renderer::painter_state::PainterStack;
use quartzite::renderer::render_harness::{check_extent, readback_layout, unpad_rows};
use quartzite::renderer::window_registry::{
    dispatch_window_event, InputState, WindowAction, WindowEvent, WindowId, WindowRegistry,
};

// ── builder ─────────────────────────────────────────────────────────────────

#[test]
fn default_builder_has_quit_on_last_window_closed_true() {
    let builder = WindowedApplicationBuilder::new();
    assert!(builder.quits_on_last_window_closed());
}

#[test]
fn builder_opt_out() {
    let builder = WindowedApplicationBuilder::new().quit_on_last_window_closed(false);
    assert!(!builder.quits_on_last_window_closed());
}

#[test]
fn builder_any_thread_is_independent_of_quit_policy() {
    let builder = WindowedApplicationBuilder::new().with_any_thread(true);
    assert!(builder.any_thread());
    assert!(builder.quits_on_last_window_closed());
    assert!(!WindowedApplicationBuilder::new().any_thread());
}

#[test]
fn multi_window_tests_skipped_on_non_linux() {
    println!("multi_window: display-dependent window tests need a display server; skipping");
}

#[test]
fn xvfb_smoke_skipped() {
    println!("xvfb_smoke: needs a virtual display; skipping");
}

// ── errors ──────────────────────────────────────────────────────────────────

#[test]
fn paint_error_display() {
    let e = RendererError::Paint(PaintError::SurfaceLost);
    assert_eq!(e.message(), "rendering surface lost");
}

#[test]
fn paint_device_lost_display() {
    let e = RendererError::Paint(PaintError::DeviceLost);
    assert_eq!(e.message(), "GPU device lost");
}

#[test]
fn renderer_error_wraps_application_error() {
    let e = RendererError::Application(ApplicationError::AlreadyExists);
    assert_eq!(e.message(), "Application already exists");
}

#[test]
fn paint_error_other_carries_its_text() {
    assert_eq!(PaintError::Other("zero-extent render target").message(), "zero-extent render target");
}

// ── event conversion ────────────────────────────────────────────────────────

#[test]
fn size_from_physical_normal() {
    assert_eq!(size_from_physical(PhysicalSize { width: 800, height: 600 }), Size { width: 800, height: 600 });
}

#[test]
fn size_from_physical_saturates_width() {
    assert_eq!(
        size_from_physical(PhysicalSize { width: u32::MAX, height: 0 }),
        Size { width: i32::MAX, height: 0 }
    );
}

#[test]
fn size_from_physical_saturates_height() {
    assert_eq!(
        size_from_physical(PhysicalSize { width: 0, height: u32::MAX }),
        Size { width: 0, height: i32::MAX }
    );
}

#[test]
fn mouse_button_maps() {
    let cases = [
        (PointerButton::Left, MouseButton::Left),
        (PointerButton::Right, MouseButton::Right),
        (PointerButton::Middle, MouseButton::Middle),
        (PointerButton::Back, MouseButton::Back),
        (PointerButton::Forward, MouseButton::Forward),
    ];
    for (btn, expected) in cases {
        let set = mouse_button_from_winit(btn);
        assert!(set.contains(expected));
        for (_, other) in cases {
            if other != expected {
                assert!(!set.contains(other));
            }
        }
    }
}

#[test]
fn mouse_button_other_maps_to_empty() {
    assert!(mouse_button_from_winit(PointerButton::Other(99)).is_empty());
}

#[test]
fn mouse_event_pressed() {
    let ev = mouse_event_from_parts(
        ButtonState::Pressed,
        PointerButton::Left,
        Point { x: 10, y: 20 },
        MouseButtons::empty(),
    );
    assert_eq!(ev.kind, MouseEventKind::Press);
    assert!(ev.button.contains(MouseButton::Left));
    assert_eq!(ev.pos, Point { x: 10, y: 20 });
}

#[test]
fn mouse_event_released() {
    let ev = mouse_event_from_parts(
        ButtonState::Released,
        PointerButton::Right,
        Point { x: 5, y: 15 },
        mouse_button_from_winit(PointerButton::Right),
    );
    assert_eq!(ev.kind, MouseEventKind::Release);
    assert!(ev.button.contains(MouseButton::Right));
}

fn chr(s: &str) -> LogicalKey {
    LogicalKey::Character(s.to_string())
}

#[test]
fn character_key_maps() {
    let letters = [
        Key::A, Key::B, Key::C, Key::D, Key::E, Key::F, Key::G, Key::H, Key::I, Key::J, Key::K, Key::L, Key::M,
        Key::N, Key::O, Key::P, Key::Q, Key::R, Key::S, Key::T, Key::U, Key::V, Key::W, Key::X, Key::Y, Key::Z,
    ];
    for (i, key) in letters.iter().enumerate() {
        let lower = char::from(b'a' + i as u8).to_string();
        let upper = char::from(b'A' + i as u8).to_string();
        assert_eq!(key_from_winit(&chr(&lower)), Some(*key));
        assert_eq!(key_from_winit(&chr(&upper)), Some(*key));
    }
    let digits = [
        Key::Num0, Key::Num1, Key::Num2, Key::Num3, Key::Num4, Key::Num5, Key::Num6, Key::Num7, Key::Num8, Key::Num9,
    ];
    for (i, key) in digits.iter().enumerate() {
        let d = char::from(b'0' + i as u8).to_string();
        assert_eq!(key_from_winit(&chr(&d)), Some(*key));
    }
}

#[test]
fn character_key_unmapped_returns_none() {
    assert_eq!(key_from_winit(&chr("!")), None);
}

#[test]
fn multi_char_text_is_unmapped() {
    assert_eq!(key_from_winit(&chr("ab")), None);
    assert_eq!(key_from_winit(&chr("")), None);
}

#[test]
fn named_key_maps() {
    let cases = [
        (NamedKey::Enter, Key::Return),
        (NamedKey::Escape, Key::Escape),
        (NamedKey::Backspace, Key::Backspace),
        (NamedKey::Tab, Key::Tab),
        (NamedKey::Space, Key::Space),
        (NamedKey::Delete, Key::Delete),
        (NamedKey::Insert, Key::Insert),
        (NamedKey::Home, Key::Home),
        (NamedKey::End, Key::End),
        (NamedKey::PageUp, Key::PageUp),
        (NamedKey::PageDown, Key::PageDown),
        (NamedKey::ArrowLeft, Key::Left),
        (NamedKey::ArrowRight, Key::Right),
        (NamedKey::ArrowUp, Key::Up),
        (NamedKey::ArrowDown, Key::Down),
        (NamedKey::F1, Key::F1),
        (NamedKey::F2, Key::F2),
        (NamedKey::F3, Key::F3),
        (NamedKey::F4, Key::F4),
        (NamedKey::F5, Key::F5),
        (NamedKey::F6, Key::F6),
        (NamedKey::F7, Key::F7),
        (NamedKey::F8, Key::F8),
        (NamedKey::F9, Key::F9),
        (NamedKey::F10, Key::F10),
        (NamedKey::F11, Key::F11),
        (NamedKey::F12, Key::F12),
    ];
    for (named, expected) in cases {
        assert_eq!(key_from_winit(&LogicalKey::Named(named)), Some(expected));
    }
}

#[test]
fn named_key_unmapped_returns_none() {
    assert_eq!(key_from_winit(&LogicalKey::Named(NamedKey::Unmapped)), None);
}

#[test]
fn unidentified_key_returns_none() {
    assert_eq!(key_from_winit(&LogicalKey::Unidentified), None);
}

fn mods(shift: bool, control: bool, alt: bool, super_key: bool) -> ModifiersState {
    ModifiersState { shift, control, alt, super_key }
}

#[test]
fn modifiers_empty() {
    assert_eq!(modifiers_from_winit(ModifiersState::empty()), KeyModifiers::empty());
}

#[test]
fn modifiers_shift() {
    let m = modifiers_from_winit(mods(true, false, false, false));
    assert!(m.shift);
    assert!(!m.ctrl);
}

#[test]
fn modifiers_ctrl() {
    let m = modifiers_from_winit(mods(false, true, false, false));
    assert!(m.ctrl);
    assert!(!m.shift);
}

#[test]
fn modifiers_alt() {
    let m = modifiers_from_winit(mods(false, false, true, false));
    assert!(m.alt);
}

#[test]
fn modifiers_meta() {
    let m = modifiers_from_winit(mods(false, false, false, true));
    assert!(m.meta);
}

#[test]
fn modifiers_combined_shift_ctrl() {
    let m = modifiers_from_winit(mods(true, true, false, false));
    assert!(m.shift);
    assert!(m.ctrl);
    assert!(!m.alt);
}

#[test]
fn key_event_parts_mapped_pressed() {
    let ev = key_event_from_parts(&chr("a"), Some("a"), ButtonState::Pressed, false, KeyModifiers::empty());
    let ev = ev.expect("should map 'a'");
    assert_eq!(ev.key, Key::A);
    assert_eq!(ev.text, "a");
    assert_eq!(ev.kind, KeyEventKind::Press);
    assert!(!ev.repeat);
}

#[test]
fn key_event_parts_released() {
    let ev = key_event_from_parts(
        &LogicalKey::Named(NamedKey::Enter),
        None,
        ButtonState::Released,
        false,
        KeyModifiers::empty(),
    );
    let ev = ev.expect("Enter should map");
    assert_eq!(ev.kind, KeyEventKind::Release);
    assert_eq!(ev.text, "");
}

#[test]
fn key_event_parts_repeat_propagates() {
    let ev = key_event_from_parts(&chr("b"), None, ButtonState::Pressed, true, KeyModifiers::empty())
        .expect("should map");
    assert!(ev.repeat);
}

#[test]
fn key_event_parts_unmapped_returns_none() {
    let result = key_event_from_parts(
        &LogicalKey::Named(NamedKey::Unmapped),
        None,
        ButtonState::Pressed,
        false,
        KeyModifiers::empty(),
    );
    assert!(result.is_none());
}

#[test]
fn key_event_parts_modifiers_propagate() {
    let shift = KeyModifiers { shift: true, ..KeyModifiers::empty() };
    let ev = key_event_from_parts(&chr("c"), None, ButtonState::Pressed, false, shift).expect("should map");
    assert!(ev.modifiers.shift);
}

// ── window registry and event routing ───────────────────────────────────────

#[test]
fn try_create_window_outside_callback_returns_err() {
    let registry = WindowRegistry::new(true);
    assert_eq!(registry.check_can_create(), Err(RendererError::OutsideCallback));
}

#[test]
fn window_creation_allowed_inside_callback() {
    let mut registry = WindowRegistry::new(true);
    registry.arm();
    assert_eq!(registry.check_can_create(), Ok(()));
    registry.disarm();
    assert_eq!(registry.check_can_create(), Err(RendererError::OutsideCallback));
}

#[test]
fn new_registry_is_empty() {
    let registry = WindowRegistry::new(true);
    assert!(registry.is_empty());
    assert_eq!(registry.windows().len(), 0);
}

#[test]
fn ac1_ac2_open_two_windows_registry_lists_both() {
    let mut registry = WindowRegistry::new(true);
    registry.insert_window(WindowId(1));
    registry.insert_window(WindowId(2));
    registry.insert_window(WindowId(1));
    assert_eq!(registry.len(), 2);
    assert_eq!(registry.windows(), vec![WindowId(1), WindowId(2)]);
}

fn registry_with(quit: bool, ids: &[u64]) -> WindowRegistry {
    let mut registry = WindowRegistry::new(quit);
    for id in ids {
        registry.insert_window(WindowId(*id));
    }
    registry
}

#[test]
fn close_non_last_window_leaves_other_entry() {
    let mut registry = registry_with(true, &[1, 2]);
    let mut input = InputState::new();
    assert_eq!(registry.len(), 2);
    let action = dispatch_window_event(&mut registry, &mut input, WindowId(1), WindowEvent::CloseRequested);
    assert!(matches!(action, WindowAction::Nothing));
    assert_eq!(registry.len(), 1);
    assert!(registry.contains(WindowId(2)));
    assert!(!registry.contains(WindowId(1)));
}

#[test]
fn close_last_window_with_quit_true_signals_exit() {
    let mut registry = registry_with(true, &[42]);
    let mut input = InputState::new();
    let action = dispatch_window_event(&mut registry, &mut input, WindowId(42), WindowEvent::CloseRequested);
    assert!(matches!(action, WindowAction::LastWindowClosed { exit: true }));
    assert!(registry.is_empty());
}

#[test]
fn close_last_window_with_quit_false_does_not_signal_exit() {
    let mut registry = registry_with(false, &[99]);
    let mut input = InputState::new();
    let action = dispatch_window_event(&mut registry, &mut input, WindowId(99), WindowEvent::CloseRequested);
    assert!(matches!(action, WindowAction::LastWindowClosed { exit: false }));
}

#[test]
fn resized_event_routes_to_correct_root() {
    let mut registry = registry_with(true, &[10, 20]);
    let mut input = InputState::new();
    let action = dispatch_window_event(
        &mut registry,
        &mut input,
        WindowId(10),
        WindowEvent::Resized(PhysicalSize { width: 800, height: 600 }),
    );
    match action {
        WindowAction::Resize(w, s) => {
            assert_eq!(w, WindowId(10));
            assert_eq!(s, Size { width: 800, height: 600 });
        },
        other => panic!("expected a resize of window 10, got {other:?}"),
    }
}

#[test]
fn event_for_unknown_window_id_is_silently_dropped() {
    let mut registry = registry_with(true, &[1]);
    let mut input = InputState::new();
    let action = dispatch_window_event(
        &mut registry,
        &mut input,
        WindowId(999),
        WindowEvent::Resized(PhysicalSize { width: 100, height: 100 }),
    );
    assert!(matches!(action, WindowAction::Nothing));
    assert_eq!(registry.windows(), vec![WindowId(1)]);
}

#[test]
fn mouse_input_pressed_increments_press_count() {
    let mut registry = registry_with(false, &[7]);
    let mut input = InputState::new();
    let action = dispatch_window_event(
        &mut registry,
        &mut input,
        WindowId(7),
        WindowEvent::MouseInput { state: ButtonState::Pressed, button: PointerButton::Left },
    );
    match action {
        WindowAction::MousePress(w, e) => {
            assert_eq!(w, WindowId(7));
            assert_eq!(e.kind, MouseEventKind::Press);
            assert!(e.buttons.contains(MouseButton::Left));
        },
        other => panic!("expected a press, got {other:?}"),
    }
    assert!(input.pressed_buttons.contains(MouseButton::Left));
}

#[test]
fn mouse_input_released_increments_release_count() {
    let mut registry = registry_with(false, &[7]);
    let mut input = InputState::new();
    let press = dispatch_window_event(
        &mut registry,
        &mut input,
        WindowId(7),
        WindowEvent::MouseInput { state: ButtonState::Pressed, button: PointerButton::Left },
    );
    assert!(matches!(press, WindowAction::MousePress(..)));
    let release = dispatch_window_event(
        &mut registry,
        &mut input,
        WindowId(7),
        WindowEvent::MouseInput { state: ButtonState::Released, button: PointerButton::Left },
    );
    match release {
        WindowAction::MouseRelease(w, e) => {
            assert_eq!(w, WindowId(7));
            assert!(e.button.contains(MouseButton::Left));
            assert!(e.buttons.is_empty());
        },
        other => panic!("expected a release, got {other:?}"),
    }
    assert!(input.pressed_buttons.is_empty());
}

#[test]
fn cursor_moved_updates_cursor_position() {
    let mut registry = registry_with(false, &[7]);
    let mut input = InputState::new();
    let moved = dispatch_window_event(&mut registry, &mut input, WindowId(7), WindowEvent::CursorMoved(Point { x: 50, y: 60 }));
    assert!(matches!(moved, WindowAction::Nothing));
    assert_eq!(input.cursor, Point { x: 50, y: 60 });
    let press = dispatch_window_event(
        &mut registry,
        &mut input,
        WindowId(7),
        WindowEvent::MouseInput { state: ButtonState::Pressed, button: PointerButton::Left },
    );
    match press {
        WindowAction::MousePress(_, e) => assert_eq!(e.pos, Point { x: 50, y: 60 }),
        other => panic!("expected a press, got {other:?}"),
    }
    assert!(registry.contains(WindowId(7)));
}

#[test]
fn modifiers_changed_does_not_panic() {
    let mut registry = registry_with(false, &[7]);
    let mut input = InputState::new();
    let action = dispatch_window_event(
        &mut registry,
        &mut input,
        WindowId(7),
        WindowEvent::ModifiersChanged(ModifiersState::empty()),
    );
    assert!(matches!(action, WindowAction::Nothing));
}

#[test]
fn keyboard_input_carries_current_modifiers() {
    let mut registry = registry_with(false, &[7]);
    let mut input = InputState::new();
    dispatch_window_event(&mut registry, &mut input, WindowId(7), WindowEvent::ModifiersChanged(mods(false, true, false, false)));
    let action = dispatch_window_event(
        &mut registry,
        &mut input,
        WindowId(7),
        WindowEvent::KeyboardInput {
            key: chr("q"),
            text: Some("q".to_string()),
            state: ButtonState::Pressed,
            repeat: false,
        },
    );
    match action {
        WindowAction::KeyPress(w, e) => {
            assert_eq!(w, WindowId(7));
            assert_eq!(e.key, Key::Q);
            assert_eq!(e.text, "q");
            assert!(e.modifiers.ctrl);
        },
        other => panic!("expected a key press, got {other:?}"),
    }
}

#[test]
fn redraw_of_live_window_is_forwarded() {
    let mut registry = registry_with(false, &[3]);
    let mut input = InputState::new();
    let action = dispatch_window_event(&mut registry, &mut input, WindowId(3), WindowEvent::RedrawRequested);
    assert!(matches!(action, WindowAction::Redraw(WindowId(3))));
}

// ── render target ───────────────────────────────────────────────────────────

#[test]
fn new_zero_width_returns_err() {
    let err = check_extent(0, 64).unwrap_err();
    assert!(matches!(err, RendererError::Paint(PaintError::Other("zero-extent render target"))));
}

#[test]
fn new_zero_height_returns_err() {
    let err = check_extent(64, 0).unwrap_err();
    assert!(matches!(err, RendererError::Paint(PaintError::Other("zero-extent render target"))));
}

#[test]
fn new_zero_both_returns_err() {
    let err = check_extent(0, 0).unwrap_err();
    assert!(matches!(err, RendererError::Paint(PaintError::Other("zero-extent render target"))));
}

#[test]
fn nonzero_extent_is_accepted() {
    assert_eq!(check_extent(64, 64), Ok(()));
}

#[test]
fn readback_layout_pads_rows() {
    let l = readback_layout(64, 64);
    assert_eq!(l.unpadded_bytes_per_row, 256);
    assert_eq!(l.bytes_per_row, 256);
    assert_eq!(l.buffer_size, 256 * 64);
    let l = readback_layout(3, 2);
    assert_eq!(l.unpadded_bytes_per_row, 12);
    assert_eq!(l.bytes_per_row, 256);
    assert_eq!(l.buffer_size, 512);
}

#[test]
fn unpad_rows_drops_padding() {
    let mut data = vec![0u8; 16];
    for (i, b) in data.iter_mut().enumerate() {
        *b = i as u8;
    }
    // Two rows of one pixel (4 bytes) with an 8-byte pitch.
    let pixels = unpad_rows(&data, 1, 2, 8);
    assert_eq!(pixels, vec![0, 1, 2, 3, 8, 9, 10, 11]);
}

// ── painter save/restore stack ──────────────────────────────────────────────

#[test]
fn painter_starts_with_identity_transform_and_no_clips() {
    let p = PainterStack::new((0i32, 0i32));
    assert_eq!(p.stack_state(), (1, 0));
    assert_eq!(p.current(), (0, 0));
}

#[test]
fn save_then_restore_round_trip() {
    let mut p = PainterStack::new((0i32, 0i32));
    assert_eq!(p.stack_state(), (1, 0));
    p.save();
    assert_eq!(p.stack_state(), (2, 0));
    p.restore();
    assert_eq!(p.stack_state(), (1, 0));
}

#[test]
fn translate_modifies_top_only() {
    let mut p = PainterStack::new((0i32, 0i32));
    p.save();
    p.set_current((10, 0));
    assert_eq!(p.stack_state(), (2, 0));
    p.save();
    p.set_current((15, 5));
    assert_eq!(p.stack_state(), (3, 0));
    p.restore();
    assert_eq!(p.stack_state(), (2, 0));
    assert_eq!(p.current(), (10, 0));
    p.restore();
    assert_eq!(p.stack_state(), (1, 0));
    assert_eq!(p.current(), (0, 0));
}

#[test]
fn clip_rect_increments_active_clip_count() {
    let mut p = PainterStack::new((0i32, 0i32));
    p.save();
    p.add_clip();
    assert_eq!(p.stack_state(), (2, 1));
    p.add_clip();
    assert_eq!(p.stack_state(), (2, 2));
    assert_eq!(p.restore(), 2);
    assert_eq!(p.stack_state(), (1, 0));
}

#[test]
fn restore_at_base_frame_is_no_op() {
    let mut p = PainterStack::new((0i32, 0i32));
    assert_eq!(p.restore(), 0);
    assert_eq!(p.stack_state(), (1, 0));
    assert_eq!(p.restore(), 0);
    assert_eq!(p.stack_state(), (1, 0));
}

#[test]
fn clip_layers_of_outer_frames_are_counted() {
    let mut p = PainterStack::new((0i32, 0i32));
    p.add_clip();
    p.save();
    assert_eq!(p.stack_state(), (2, 1));
    p.add_clip();
    assert_eq!(p.stack_state(), (2, 2));
    assert_eq!(p.restore(), 1);
    assert_eq!(p.stack_state(), (1, 1));
}

#[test]
fn debug_does_not_panic() {
    let id = WindowId(3);
    let copy = id;
    assert_eq!(format!("{id:?}"), format!("{copy:?}"));
}

#[test]
fn ac7_builder_exists_and_build_works() {
    let builder = WindowedApplicationBuilder::new().quit_on_last_window_closed(true).with_any_thread(true);
    assert!(builder.quits_on_last_window_closed());
    assert!(builder.any_thread());
}

#[test]
fn close_request_on_empty_registry_does_nothing() {
    let mut registry = WindowRegistry::new(true);
    let mut input = InputState::new();
    let action = dispatch_window_event(&mut registry, &mut input, WindowId(5), WindowEvent::CloseRequested);
    assert!(matches!(action, WindowAction::Nothing));
    assert!(registry.is_empty());
}

#[test]
fn second_close_of_last_window_does_nothing() {
    let mut registry = registry_with(true, &[8]);
    let mut input = InputState::new();
    let first = dispatch_window_event(&mut registry, &mut input, WindowId(8), WindowEvent::CloseRequested);
    assert!(matches!(first, WindowAction::LastWindowClosed { exit: true }));
    let second = dispatch_window_event(&mut registry, &mut input, WindowId(8), WindowEvent::CloseRequested);
    assert!(matches!(second, WindowAction::Nothing));
}
