use osxrdp::input::injector::{check_accessibility_permission, InputInjector};
use osxrdp::input::keyboard::{post, scancode_to_cg as scancode_with_flags, InputError};
use osxrdp::input::{
    KeyAction, KeyboardEvent, MacInputHandler, MouseAction, MouseEvent, PointerButton, PointerKind,
};
use osxrdp::keyboard;
use osxrdp::keyboard::scancode_to_cg;
use osxrdp::rdp::{Event, MouseButton, RdpSession};
use osxrdp::session::{handle, SessionStep};

#[test]
fn key_codes_are_those_of_the_system() {
    assert_eq!(keyboard::ANSI_GRAVE, 0x32);
    assert_eq!(keyboard::ANSI_1, 0x12);
    assert_eq!(keyboard::ANSI_2, 0x13);
    assert_eq!(keyboard::ANSI_3, 0x14);
    assert_eq!(keyboard::ANSI_4, 0x15);
    assert_eq!(keyboard::ANSI_5, 0x17);
    assert_eq!(keyboard::ANSI_6, 0x16);
    assert_eq!(keyboard::ANSI_7, 0x1a);
    assert_eq!(keyboard::ANSI_8, 0x1c);
    assert_eq!(keyboard::ANSI_9, 0x19);
    assert_eq!(keyboard::ANSI_0, 0x1d);
    assert_eq!(keyboard::ANSI_MINUS, 0x1b);
    assert_eq!(keyboard::ANSI_EQUAL, 0x18);
    assert_eq!(keyboard::DELETE, 0x33);
    assert_eq!(keyboard::TAB, 0x30);
    assert_eq!(keyboard::ANSI_Q, 0x0c);
    assert_eq!(keyboard::ANSI_W, 0x0d);
    assert_eq!(keyboard::ANSI_E, 0x0e);
    assert_eq!(keyboard::ANSI_R, 0x0f);
    assert_eq!(keyboard::ANSI_T, 0x11);
    assert_eq!(keyboard::ANSI_Y, 0x10);
    assert_eq!(keyboard::ANSI_U, 0x20);
    assert_eq!(keyboard::ANSI_I, 0x22);
    assert_eq!(keyboard::ANSI_O, 0x1f);
    assert_eq!(keyboard::ANSI_P, 0x23);
    assert_eq!(keyboard::ANSI_LEFT_BRACKET, 0x21);
    assert_eq!(keyboard::ANSI_RIGHT_BRACKET, 0x1e);
    assert_eq!(keyboard::ANSI_BACKSLASH, 0x2a);
    assert_eq!(keyboard::CAPS_LOCK, 0x39);
    assert_eq!(keyboard::ANSI_A, 0x00);
    assert_eq!(keyboard::ANSI_S, 0x01);
    assert_eq!(keyboard::ANSI_D, 0x02);
    assert_eq!(keyboard::ANSI_F, 0x03);
    assert_eq!(keyboard::ANSI_G, 0x05);
    assert_eq!(keyboard::ANSI_H, 0x04);
    assert_eq!(keyboard::ANSI_J, 0x26);
    assert_eq!(keyboard::ANSI_K, 0x28);
    assert_eq!(keyboard::ANSI_L, 0x25);
    assert_eq!(keyboard::ANSI_SEMICOLON, 0x29);
    assert_eq!(keyboard::ANSI_QUOTE, 0x27);
    assert_eq!(keyboard::RETURN, 0x24);
    assert_eq!(keyboard::ANSI_KEYPAD_ENTER, 0x4c);
    assert_eq!(keyboard::SHIFT, 0x38);
    assert_eq!(keyboard::ANSI_Z, 0x06);
    assert_eq!(keyboard::ANSI_X, 0x07);
    assert_eq!(keyboard::ANSI_C, 0x08);
    assert_eq!(keyboard::ANSI_V, 0x09);
    assert_eq!(keyboard::ANSI_B, 0x0b);
    assert_eq!(keyboard::ANSI_N, 0x2d);
    assert_eq!(keyboard::ANSI_M, 0x2e);
    assert_eq!(keyboard::ANSI_COMMA, 0x2b);
    assert_eq!(keyboard::ANSI_PERIOD, 0x2f);
    assert_eq!(keyboard::ANSI_SLASH, 0x2c);
    assert_eq!(keyboard::RIGHT_SHIFT, 0x3c);
    assert_eq!(keyboard::CONTROL, 0x3b);
    assert_eq!(keyboard::RIGHT_CONTROL, 0x3e);
    assert_eq!(keyboard::OPTION, 0x3a);
    assert_eq!(keyboard::RIGHT_OPTION, 0x3d);
    assert_eq!(keyboard::SPACE, 0x31);
    assert_eq!(keyboard::COMMAND, 0x37);
    assert_eq!(keyboard::RIGHT_COMMAND, 0x36);
    assert_eq!(keyboard::ESCAPE, 0x35);
    assert_eq!(keyboard::F1, 0x7a);
    assert_eq!(keyboard::F2, 0x78);
    assert_eq!(keyboard::F3, 0x63);
    assert_eq!(keyboard::F4, 0x76);
    assert_eq!(keyboard::F5, 0x60);
    assert_eq!(keyboard::F6, 0x61);
    assert_eq!(keyboard::F7, 0x62);
    assert_eq!(keyboard::F8, 0x64);
    assert_eq!(keyboard::F9, 0x65);
    assert_eq!(keyboard::F10, 0x6d);
    assert_eq!(keyboard::F11, 0x67);
    assert_eq!(keyboard::F12, 0x6f);
    assert_eq!(keyboard::F13, 0x69);
    assert_eq!(keyboard::F14, 0x6b);
    assert_eq!(keyboard::F15, 0x71);
    assert_eq!(keyboard::HOME, 0x73);
    assert_eq!(keyboard::UP_ARROW, 0x7e);
    assert_eq!(keyboard::PAGE_UP, 0x74);
    assert_eq!(keyboard::LEFT_ARROW, 0x7b);
    assert_eq!(keyboard::RIGHT_ARROW, 0x7c);
    assert_eq!(keyboard::END, 0x77);
    assert_eq!(keyboard::DOWN_ARROW, 0x7d);
    assert_eq!(keyboard::PAGE_DOWN, 0x79);
    assert_eq!(keyboard::HELP, 0x72);
    assert_eq!(keyboard::FORWARD_DELETE, 0x75);
    assert_eq!(keyboard::ANSI_KEYPAD_CLEAR, 0x47);
    assert_eq!(keyboard::ANSI_KEYPAD_MINUS, 0x4e);
    assert_eq!(keyboard::ANSI_KEYPAD_MULTIPLY, 0x43);
    assert_eq!(keyboard::ANSI_KEYPAD_DIVIDE, 0x4b);
    assert_eq!(keyboard::ANSI_KEYPAD_PLUS, 0x45);
    assert_eq!(keyboard::ANSI_KEYPAD_7, 0x59);
    assert_eq!(keyboard::ANSI_KEYPAD_8, 0x5b);
    assert_eq!(keyboard::ANSI_KEYPAD_9, 0x5c);
    assert_eq!(keyboard::ANSI_KEYPAD_4, 0x56);
    assert_eq!(keyboard::ANSI_KEYPAD_6, 0x58);
    assert_eq!(keyboard::ANSI_KEYPAD_1, 0x53);
    assert_eq!(keyboard::ANSI_KEYPAD_2, 0x54);
    assert_eq!(keyboard::ANSI_KEYPAD_3, 0x55);
    assert_eq!(keyboard::ANSI_KEYPAD_0, 0x52);
    assert_eq!(keyboard::ANSI_KEYPAD_DECIMAL, 0x41);
    assert_eq!(keyboard::F16, 0x6a);
}

#[test]
fn every_mapped_scancode() {
    let table: Vec<(u8, Option<bool>, u16)> = vec![
        (0x29, None, 0x32),
        (0x02, None, 0x12),
        (0x03, None, 0x13),
        (0x04, None, 0x14),
        (0x05, None, 0x15),
        (0x06, None, 0x17),
        (0x07, None, 0x16),
        (0x08, None, 0x1a),
        (0x09, None, 0x1c),
        (0x0A, None, 0x19),
        (0x0B, None, 0x1d),
        (0x0C, None, 0x1b),
        (0x0D, None, 0x18),
        (0x0E, None, 0x33),
        (0x0F, None, 0x30),
        (0x10, None, 0x0c),
        (0x11, None, 0x0d),
        (0x12, None, 0x0e),
        (0x13, None, 0x0f),
        (0x14, None, 0x11),
        (0x15, None, 0x10),
        (0x16, None, 0x20),
        (0x17, None, 0x22),
        (0x18, None, 0x1f),
        (0x19, None, 0x23),
        (0x1A, None, 0x21),
        (0x1B, None, 0x1e),
        (0x2B, None, 0x2a),
        (0x3A, None, 0x39),
        (0x1E, None, 0x00),
        (0x1F, None, 0x01),
        (0x20, None, 0x02),
        (0x21, None, 0x03),
        (0x22, None, 0x05),
        (0x23, None, 0x04),
        (0x24, None, 0x26),
        (0x25, None, 0x28),
        (0x26, None, 0x25),
        (0x27, None, 0x29),
        (0x28, None, 0x27),
        (0x1C, Some(false), 0x24),
        (0x1C, Some(true), 0x4c),
        (0x2A, None, 0x38),
        (0x2C, None, 0x06),
        (0x2D, None, 0x07),
        (0x2E, None, 0x08),
        (0x2F, None, 0x09),
        (0x30, None, 0x0b),
        (0x31, None, 0x2d),
        (0x32, None, 0x2e),
        (0x33, None, 0x2b),
        (0x34, None, 0x2f),
        (0x35, Some(false), 0x2c),
        (0x36, None, 0x3c),
        (0x1D, Some(false), 0x3b),
        (0x1D, Some(true), 0x3e),
        (0x38, Some(false), 0x3a),
        (0x38, Some(true), 0x3d),
        (0x39, None, 0x31),
        (0x5B, None, 0x37),
        (0x5C, None, 0x36),
        (0x01, None, 0x35),
        (0x3B, None, 0x7a),
        (0x3C, None, 0x78),
        (0x3D, None, 0x63),
        (0x3E, None, 0x76),
        (0x3F, None, 0x60),
        (0x40, None, 0x61),
        (0x41, None, 0x62),
        (0x42, None, 0x64),
        (0x43, None, 0x65),
        (0x44, None, 0x6d),
        (0x57, None, 0x67),
        (0x58, None, 0x6f),
        (0x64, None, 0x69),
        (0x65, None, 0x6b),
        (0x66, None, 0x71),
        (0x47, Some(true), 0x73),
        (0x48, Some(true), 0x7e),
        (0x49, Some(true), 0x74),
        (0x4B, Some(true), 0x7b),
        (0x4D, Some(true), 0x7c),
        (0x4F, Some(true), 0x77),
        (0x50, Some(true), 0x7d),
        (0x51, Some(true), 0x79),
        (0x52, Some(true), 0x72),
        (0x53, Some(true), 0x75),
        (0x45, None, 0x47),
        (0x4A, None, 0x4e),
        (0x37, Some(false), 0x43),
        (0x35, Some(true), 0x4b),
        (0x4E, None, 0x45),
        (0x4C, None, 0x4c),
        (0x47, Some(false), 0x59),
        (0x48, Some(false), 0x5b),
        (0x49, Some(false), 0x5c),
        (0x4B, Some(false), 0x56),
        (0x4D, Some(false), 0x58),
        (0x4F, Some(false), 0x53),
        (0x50, Some(false), 0x54),
        (0x51, Some(false), 0x55),
        (0x52, Some(false), 0x52),
        (0x53, Some(false), 0x41),
        (0x37, Some(true), 0x69),
        (0x46, None, 0x6a),
    ];
    for code in 0..=255u8 {
        for extended in [false, true] {
            let want = table
                .iter()
                .find(|(c, e, _)| *c == code && e.map_or(true, |e| e == extended))
                .map(|row| row.2);
            assert_eq!(scancode_to_cg(code, extended), want, "{code:x} {extended}");
        }
    }
}

#[test]
fn every_scancode_with_flags() {
    let table: Vec<(u16, Option<bool>, u16)> = vec![
        (0x02, None, 18),
        (0x03, None, 19),
        (0x04, None, 20),
        (0x05, None, 21),
        (0x06, None, 23),
        (0x07, None, 22),
        (0x08, None, 26),
        (0x09, None, 28),
        (0x0A, None, 25),
        (0x0B, None, 29),
        (0x10, None, 12),
        (0x11, None, 13),
        (0x12, None, 14),
        (0x13, None, 15),
        (0x14, None, 17),
        (0x15, None, 16),
        (0x16, None, 32),
        (0x17, None, 34),
        (0x18, None, 31),
        (0x19, None, 35),
        (0x1E, None, 0),
        (0x1F, None, 1),
        (0x20, None, 2),
        (0x21, None, 3),
        (0x22, None, 5),
        (0x23, None, 4),
        (0x24, None, 38),
        (0x25, None, 40),
        (0x26, None, 37),
        (0x2C, None, 6),
        (0x2D, None, 7),
        (0x2E, None, 8),
        (0x2F, None, 9),
        (0x30, None, 11),
        (0x31, None, 45),
        (0x32, None, 46),
        (0x01, None, 53),
        (0x0E, None, 51),
        (0x0F, None, 48),
        (0x1C, Some(false), 36),
        (0x1C, Some(true), 76),
        (0x39, None, 49),
        (0x2A, None, 56),
        (0x36, None, 60),
        (0x1D, Some(false), 59),
        (0x1D, Some(true), 62),
        (0x38, Some(false), 58),
        (0x38, Some(true), 61),
        (0x5B, None, 55),
        (0x5C, None, 54),
        (0x48, Some(true), 126),
        (0x50, Some(true), 125),
        (0x4B, Some(true), 123),
        (0x4D, Some(true), 124),
        (0x47, Some(true), 115),
        (0x4F, Some(true), 119),
        (0x49, Some(true), 116),
        (0x51, Some(true), 121),
        (0x52, Some(true), 117),
        (0x3B, None, 122),
        (0x3C, None, 120),
        (0x3D, None, 99),
        (0x3E, None, 118),
        (0x3F, None, 96),
        (0x40, None, 97),
        (0x41, None, 98),
        (0x42, None, 100),
        (0x43, None, 101),
        (0x44, None, 109),
        (0x57, None, 103),
        (0x58, None, 111),
    ];
    for scancode in 0..=300u16 {
        for flags in [0u16, 0x0100, 0x8000, 0x8100] {
            let extended = flags & 0x0100 != 0;
            let want = table
                .iter()
                .find(|(c, e, _)| *c == scancode && e.map_or(true, |e| e == extended))
                .map(|row| row.2);
            assert_eq!(scancode_with_flags(scancode, flags).ok(), want, "{scancode:x} {flags:x}");
        }
    }
}

fn pointer(kind: PointerKind, x: i128, y: i128, button: PointerButton) -> MouseAction {
    MouseAction::Pointer { kind, x, y, button }
}

#[test]
fn unmapped_keys() {
    for (code, extended) in [(0x00u8, false), (0x35, true), (0x54, false), (0x5d, true), (0xff, false)] {
        let mapped = scancode_to_cg(code, extended);
        assert_eq!(mapped.is_some(), code == 0x35, "{code:x}");
    }
}

#[test]
fn number_pad_and_navigation_keys() {
    assert_eq!(scancode_to_cg(0x47, true), Some(0x73));
    assert_eq!(scancode_to_cg(0x47, false), Some(0x59));
    for code in 0x47..=0x53u8 {
        if ![0x4a, 0x4c, 0x4e].contains(&code) {
            assert_ne!(scancode_to_cg(code, true), scancode_to_cg(code, false));
        }
    }
    for code in 0..=255u8 {
        for extended in [false, true] {
            assert!(scancode_to_cg(code, extended).map_or(true, |k| k < 0x80));
        }
    }
}

#[test]
fn keys_go_down_and_up() {
    let mut h = MacInputHandler::new();
    let down = h.keyboard(KeyboardEvent::Pressed { code: 0x1e, extended: false });
    assert_eq!(down, KeyAction::Key { code: 0x00, down: true });
    let up = h.keyboard(KeyboardEvent::Released { code: 0x1e, extended: false });
    assert_eq!(up, KeyAction::Key { code: 0x00, down: false });
    let none = h.keyboard(KeyboardEvent::Pressed { code: 0x7f, extended: false });
    assert_eq!(none, KeyAction::Unmapped);
    let text = h.keyboard(KeyboardEvent::UnicodePressed(0x20ac));
    assert_eq!(text, KeyAction::Text { unit: 0x20ac, down: true });
    let text = h.keyboard(KeyboardEvent::UnicodeReleased(0x20ac));
    assert_eq!(text, KeyAction::Text { unit: 0x20ac, down: false });
    assert_eq!(h.keyboard(KeyboardEvent::Synchronize), KeyAction::Nothing);
    assert_eq!(h, MacInputHandler::new());
}

#[test]
fn buttons_act_where_the_pointer_is() {
    let mut h = MacInputHandler::new();
    assert_eq!(
        h.mouse(MouseEvent::Move { x: 300, y: 65535 }),
        pointer(PointerKind::MouseMoved, 300, 65535, PointerButton::Left)
    );
    for (event, kind, button) in [
        (MouseEvent::LeftPressed, PointerKind::LeftMouseDown, PointerButton::Left),
        (MouseEvent::LeftReleased, PointerKind::LeftMouseUp, PointerButton::Left),
        (MouseEvent::RightPressed, PointerKind::RightMouseDown, PointerButton::Right),
        (MouseEvent::RightReleased, PointerKind::RightMouseUp, PointerButton::Right),
        (MouseEvent::MiddlePressed, PointerKind::OtherMouseDown, PointerButton::Center),
        (MouseEvent::MiddleReleased, PointerKind::OtherMouseUp, PointerButton::Center),
    ] {
        assert_eq!(h.mouse(event), pointer(kind, 300, 65535, button));
    }
    for event in [
        MouseEvent::Button4Pressed,
        MouseEvent::Button4Released,
        MouseEvent::Button5Pressed,
        MouseEvent::Button5Released,
    ] {
        assert_eq!(h.mouse(event), MouseAction::Nothing);
    }
}

#[test]
fn relative_moves_add_up() {
    let mut h = MacInputHandler::new();
    h.mouse(MouseEvent::Move { x: 10, y: 20 });
    assert_eq!(
        h.mouse(MouseEvent::RelMove { dx: -15, dy: 5 }),
        pointer(PointerKind::MouseMoved, -5, 25, PointerButton::Left)
    );
    // Only sixteen bits of a move count.
    assert_eq!(
        h.mouse(MouseEvent::RelMove { dx: 65535, dy: 0x18000 }),
        pointer(PointerKind::MouseMoved, -6, 25 - 32768, PointerButton::Left)
    );
}

#[test]
fn far_moves_round_as_floating_point_does() {
    let mut h = MacInputHandler::new();
    let start: i128 = (1 << 53) - 5;
    h.cursor_x = start;
    h.cursor_y = -(1 << 69);
    let (mut x, mut y) = (start as f64, -(2f64.powi(69)));
    for (dx, dy) in [(1i16, -1i16), (7, -32768), (3, 32767), (-1, 5), (32767, -7), (1, 1), (-32768, 0)] {
        h.mouse(MouseEvent::RelMove { dx: dx as i32, dy: dy as i32 });
        x += f64::from(dx);
        y += f64::from(dy);
        assert_eq!((h.cursor_x as f64, h.cursor_y as f64), (x, y));
        assert_eq!((h.cursor_x, h.cursor_y), (x as i128, y as i128));
    }
}

#[test]
fn scrolling_goes_by_whole_notches() {
    let mut h = MacInputHandler::new();
    for v in [0i16, 119, 120, -119, -120, -121, 239, 240, i16::MAX, i16::MIN] {
        assert_eq!(
            h.mouse(MouseEvent::VerticalScroll { value: v }),
            MouseAction::Scroll { lines: i32::from(v) / 120 }
        );
    }
    for v in [i32::MIN, -1, 0, 12345, i32::MAX] {
        assert_eq!(
            h.mouse(MouseEvent::Scroll { dx: 7, dy: v }),
            MouseAction::Scroll { lines: v / 120 }
        );
    }
}

#[test]
fn injected_keys() {
    assert!(check_accessibility_permission().is_ok());
    let i = InputInjector::new().unwrap();
    assert_eq!(i.key_event(0x1e, true, 0), Ok(()));
    let e = i.key_event(0x47, true, 0x0200).unwrap_err();
    assert_eq!(e, InputError::UnmappedScancode { scancode: 0x47, extended: false });
    assert_eq!(e.message(), "unmapped scancode 0x47 extended=false");
    let e = i.key_event(0x0, true, 0x0100).unwrap_err();
    assert_eq!(e.message(), "unmapped scancode 0x00 extended=true");
    assert_eq!(scancode_with_flags(0x47, 0x0100), Ok(115));
    assert_eq!(scancode_with_flags(0x1c, 0), Ok(36));
    assert_eq!(scancode_with_flags(0x1c, 0xffff), Ok(76));
    assert_eq!(i.move_mouse(1, 2), Ok(()));
    assert_eq!(i.mouse_button(MouseButton::Middle, true, 1, 2), Ok(()));
    assert_eq!(post(0, true), Ok(()));
}

#[test]
fn session_ends_on_disconnect_or_error() {
    let i = InputInjector::new().unwrap();
    assert_eq!(handle(&i, Event::MouseMove { x: 1, y: 1 }), Ok(SessionStep::Continue));
    let press = Event::MouseButton { button: MouseButton::Left, pressed: true, x: 1, y: 1 };
    assert_eq!(handle(&i, press), Ok(SessionStep::Continue));
    let key = Event::Key { scancode: 0x10, pressed: false, flags: 0 };
    assert_eq!(handle(&i, key), Ok(SessionStep::Continue));
    let bad = Event::Key { scancode: 0x99, pressed: false, flags: 0 };
    assert_eq!(
        handle(&i, bad),
        Err(InputError::UnmappedScancode { scancode: 0x99, extended: false })
    );
    assert_eq!(handle(&i, Event::Disconnect), Ok(SessionStep::Finished));
}

#[test]
fn sessions_have_a_fixed_size() {
    let s = RdpSession::accept("stream");
    assert_eq!((s.desktop_width(), s.desktop_height()), (1920, 1080));
    assert_eq!(s.stream, "stream");
}
