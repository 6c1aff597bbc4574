//! Keyboard and mouse input from the client.
pub mod injector;
pub mod keyboard;
pub mod mouse;

use crate::binary64::{nearest, round_to_53_bits, MANTISSA_HIGH};
use crate::keyboard::{key_for, scancode_to_cg};
use vstd::prelude::*;

verus! {

/// A keyboard event of the client.
#[derive(Debug, Clone, Copy, PartialEq, Eq, Structural)]
pub enum KeyboardEvent {
    Pressed { code: u8, extended: bool },
    Released { code: u8, extended: bool },
    UnicodePressed(u16),
    UnicodeReleased(u16),
    /// The state of the lock keys; macOS keeps it by itself.
    Synchronize,
}

/// A mouse event of the client.
#[derive(Debug, Clone, Copy, PartialEq, Eq, Structural)]
pub enum MouseEvent {
    Move { x: u16, y: u16 },
    RightPressed,
    RightReleased,
    LeftPressed,
    LeftReleased,
    MiddlePressed,
    MiddleReleased,
    Button4Pressed,
    Button4Released,
    Button5Pressed,
    Button5Released,
    VerticalScroll { value: i16 },
    Scroll { dx: i32, dy: i32 },
    RelMove { dx: i32, dy: i32 },
}

/// A keyboard event to post.
#[derive(Debug, Clone, Copy, PartialEq, Eq, Structural)]
pub enum KeyAction {
    /// A key goes down or up.
    Key { code: u16, down: bool },
    /// A UTF-16 code unit is typed, with key code 0.
    Text { unit: u16, down: bool },
    /// The key has no equivalent.
    Unmapped,
    Nothing,
}

#[derive(Debug, Clone, Copy, PartialEq, Eq, Structural)]
pub enum PointerKind {
    MouseMoved,
    LeftMouseDown,
    LeftMouseUp,
    RightMouseDown,
    RightMouseUp,
    OtherMouseDown,
    OtherMouseUp,
}

#[derive(Debug, Clone, Copy, PartialEq, Eq, Structural)]
pub enum PointerButton {
    Left,
    Right,
    Center,
}

/// A mouse event to post.
#[derive(Debug, Clone, Copy, PartialEq, Eq, Structural)]
pub enum MouseAction {
    Pointer { kind: PointerKind, x: i128, y: i128, button: PointerButton },
    /// Scroll vertically by whole lines.
    Scroll { lines: i32 },
    Nothing,
}

/// Keeps track of the pointer and decides which events to post.
///
/// The pointer's coordinates are whole numbers that a binary64 can hold.
#[derive(Debug, Clone, Copy, PartialEq, Eq, Structural)]
pub struct MacInputHandler {
    /// Last known pointer position — needed for button-click events that don't
    /// carry a position.
    pub cursor_x: i128,
    pub cursor_y: i128,
}

/// What is typed for a keyboard event.
pub open spec fn key_action(event: KeyboardEvent) -> KeyAction {
    match event {
        KeyboardEvent::Pressed { code, extended } => match key_for(code, extended) {
            Some(code) => KeyAction::Key { code, down: true },
            None => KeyAction::Unmapped,
        },
        KeyboardEvent::Released { code, extended } => match key_for(code, extended) {
            Some(code) => KeyAction::Key { code, down: false },
            None => KeyAction::Unmapped,
        },
        KeyboardEvent::UnicodePressed(unit) => KeyAction::Text { unit, down: true },
        KeyboardEvent::UnicodeReleased(unit) => KeyAction::Text { unit, down: false },
        KeyboardEvent::Synchronize => KeyAction::Nothing,
    }
}

/// `v / d` rounded towards zero.
pub open spec fn quotient_to_zero(v: int, d: int) -> int {
    if v >= 0 {
        v / d
    } else {
        -((-v) / d)
    }
}

/// A coordinate moved by `d`, in double precision.
pub open spec fn moved(c: int, d: int) -> int {
    let sum = c + d;
    if sum >= 0 {
        nearest(sum as nat, 1) as int
    } else {
        -nearest((-sum) as nat, 1)
    }
}

/// The coordinates that moving the pointer can lead to.
pub open spec fn reachable(c: int) -> bool {
    -0x20_0000_0000_0000_0000 <= c <= 0x20_0000_0000_0000_0000
}

/// The pointer after a mouse event.
pub open spec fn pointer_after(x: int, y: int, event: MouseEvent) -> (int, int) {
    match event {
        MouseEvent::Move { x, y } => (x as int, y as int),
        MouseEvent::RelMove { dx, dy } => (moved(x, dx as i16 as int), moved(y, dy as i16 as int)),
        _ => (x, y),
    }
}

/// The kind of pointer event and the button for a mouse event; `None` where no
/// pointer event is posted.
pub open spec fn pointer_event(event: MouseEvent) -> Option<(PointerKind, PointerButton)> {
    match event {
        MouseEvent::Move { .. } | MouseEvent::RelMove { .. } => Some(
            (PointerKind::MouseMoved, PointerButton::Left),
        ),
        MouseEvent::LeftPressed => Some((PointerKind::LeftMouseDown, PointerButton::Left)),
        MouseEvent::LeftReleased => Some((PointerKind::LeftMouseUp, PointerButton::Left)),
        MouseEvent::RightPressed => Some((PointerKind::RightMouseDown, PointerButton::Right)),
        MouseEvent::RightReleased => Some((PointerKind::RightMouseUp, PointerButton::Right)),
        MouseEvent::MiddlePressed => Some((PointerKind::OtherMouseDown, PointerButton::Center)),
        MouseEvent::MiddleReleased => Some((PointerKind::OtherMouseUp, PointerButton::Center)),
        _ => None,
    }
}

/// The lines to scroll for a mouse event: a notch of the wheel is 120 units.
pub open spec fn scroll_lines(event: MouseEvent) -> Option<int> {
    match event {
        MouseEvent::VerticalScroll { value } => Some(quotient_to_zero(value as int, 120)),
        MouseEvent::Scroll { dx, dy } => Some(quotient_to_zero(dy as int, 120)),
        _ => None,
    }
}

fn divide_to_zero(v: i32) -> (r: i32)
    ensures
        r == quotient_to_zero(v as int, 120),
{
    if v >= 0 {
        v / 120
    } else {
        let magnitude: i64 = -(v as i64);
        -((magnitude / 120) as i32)
    }
}

fn move_by(c: i128, d: i16) -> (r: i128)
    requires
        reachable(c as int),
    ensures
        r == moved(c as int, d as int),
        reachable(r as int),
{
    let sum: i128 = c + d as i128;
    if sum >= 0 {
        round_to_53_bits(sum as u128) as i128
    } else {
        -(round_to_53_bits((-sum) as u128) as i128)
    }
}

impl MacInputHandler {
    /// The coordinates are ones that moving the pointer can lead to.
    pub open spec fn wf(&self) -> bool {
        reachable(self.cursor_x as int) && reachable(self.cursor_y as int)
    }

    pub fn new() -> (h: Self)
        ensures
            h == (MacInputHandler { cursor_x: 0, cursor_y: 0 }),
            h.wf(),
    {
        MacInputHandler { cursor_x: 0, cursor_y: 0 }
    }

    /// Decides what to post for a keyboard event.
    pub fn keyboard(&mut self, event: KeyboardEvent) -> (action: KeyAction)
        ensures
            action == key_action(event),
            *final(self) == *old(self),
    {
        match event {
            KeyboardEvent::Pressed { code, extended } => match scancode_to_cg(code, extended) {
                Some(code) => KeyAction::Key { code, down: true },
                None => KeyAction::Unmapped,
            },
            KeyboardEvent::Released { code, extended } => match scancode_to_cg(code, extended) {
                Some(code) => KeyAction::Key { code, down: false },
                None => KeyAction::Unmapped,
            },
            KeyboardEvent::UnicodePressed(unit) => KeyAction::Text { unit, down: true },
            KeyboardEvent::UnicodeReleased(unit) => KeyAction::Text { unit, down: false },
            KeyboardEvent::Synchronize => KeyAction::Nothing,
        }
    }

    fn post_mouse(&self, kind: PointerKind, button: PointerButton) -> (action: MouseAction)
        ensures
            action == (MouseAction::Pointer { kind, x: self.cursor_x, y: self.cursor_y, button }),
    {
        MouseAction::Pointer { kind, x: self.cursor_x, y: self.cursor_y, button }
    }

    /// Takes note of where the pointer is and decides what to post for a mouse
    /// event.
    pub fn mouse(&mut self, event: MouseEvent) -> (action: MouseAction)
        requires
            old(self).wf(),
        ensures
            final(self).wf(),
            (final(self).cursor_x as int, final(self).cursor_y as int) == pointer_after(
                old(self).cursor_x as int,
                old(self).cursor_y as int,
                event,
            ),
            action == match (pointer_event(event), scroll_lines(event)) {
                (Some((kind, button)), _) => MouseAction::Pointer {
                    kind,
                    x: final(self).cursor_x,
                    y: final(self).cursor_y,
                    button,
                },
                (None, Some(lines)) => MouseAction::Scroll { lines: lines as i32 },
                (None, None) => MouseAction::Nothing,
            },
    {
        match event {
            MouseEvent::Move { x, y } => {
                self.cursor_x = x as i128;
                self.cursor_y = y as i128;
                self.post_mouse(PointerKind::MouseMoved, PointerButton::Left)
            },
            MouseEvent::LeftPressed => self.post_mouse(
                PointerKind::LeftMouseDown,
                PointerButton::Left,
            ),
            MouseEvent::LeftReleased => self.post_mouse(
                PointerKind::LeftMouseUp,
                PointerButton::Left,
            ),
            MouseEvent::RightPressed => self.post_mouse(
                PointerKind::RightMouseDown,
                PointerButton::Right,
            ),
            MouseEvent::RightReleased => self.post_mouse(
                PointerKind::RightMouseUp,
                PointerButton::Right,
            ),
            MouseEvent::MiddlePressed => self.post_mouse(
                PointerKind::OtherMouseDown,
                PointerButton::Center,
            ),
            MouseEvent::MiddleReleased => self.post_mouse(
                PointerKind::OtherMouseUp,
                PointerButton::Center,
            ),
            // value > 0 = scroll up, value < 0 = scroll down
            MouseEvent::VerticalScroll { value } => MouseAction::Scroll {
                lines: divide_to_zero(value as i32),
            },
            MouseEvent::Scroll { dx: _, dy } => MouseAction::Scroll { lines: divide_to_zero(dy) },
            MouseEvent::RelMove { dx, dy } => {
                self.cursor_x = move_by(self.cursor_x, dx as i16);
                self.cursor_y = move_by(self.cursor_y, dy as i16);
                self.post_mouse(PointerKind::MouseMoved, PointerButton::Left)
            },
            // Extended buttons (Button4/5) — not commonly needed, skip.
            MouseEvent::Button4Pressed
            | MouseEvent::Button4Released
            | MouseEvent::Button5Pressed
            | MouseEvent::Button5Released => MouseAction::Nothing,
        }
    }
}

/// A key that was pressed is released by the same key code.
pub proof fn law_release_matches_press(code: u8, extended: bool)
    ensures
        match key_action(KeyboardEvent::Pressed { code, extended }) {
            KeyAction::Key { code: k, down } => {
                &&& down
                &&& key_action(KeyboardEvent::Released { code, extended }) == (KeyAction::Key {
                    code: k,
                    down: false,
                })
            },
            other => key_action(KeyboardEvent::Released { code, extended }) == other,
        },
{
}

/// Only moves change where the pointer is: buttons act where it was left.
pub proof fn law_buttons_act_where_pointer_is(x: int, y: int, event: MouseEvent)
    requires
        !(event is Move) && !(event is RelMove),
    ensures
        pointer_after(x, y, event) == (x, y),
{
}

/// Relative moves add up exactly as long as the pointer stays within the whole
/// numbers that a binary64 holds.
pub proof fn law_small_moves_are_exact(c: int, d: int)
    requires
        -MANTISSA_HIGH < c + d < MANTISSA_HIGH,
    ensures
        moved(c, d) == c + d,
{
}

/// The wheel scrolls by whole notches of 120 units, rounded towards zero, in the
/// direction in which it was turned; the horizontal direction does not count.
pub proof fn law_wheel_scrolls_whole_notches(value: i16, dx: i32, dy: i32)
    ensures
        scroll_lines(MouseEvent::VerticalScroll { value }) matches Some(lines) && {
            let left = value - 120 * lines;
            &&& value >= 0 ==> 0 <= left < 120
            &&& value <= 0 ==> -120 < left <= 0
        },
        scroll_lines(MouseEvent::Scroll { dx, dy }) matches Some(lines) && {
            let left = dy - 120 * lines;
            &&& dy >= 0 ==> 0 <= left < 120
            &&& dy <= 0 ==> -120 < left <= 0
        },
{
}

/// A pointer event is posted exactly for moves and for the left, right and middle
/// button, with the button that was used, going down where it was pressed and up
/// where it was released; scrolling posts none.
pub proof fn law_pointer_events(event: MouseEvent)
    ensures
        ({
            let posted = pointer_event(event);
            &&& posted is Some ==> scroll_lines(event) is None
            &&& posted is None <==> event is VerticalScroll || event is Scroll || event
                is Button4Pressed || event is Button4Released || event is Button5Pressed || event
                is Button5Released
            &&& scroll_lines(event) is Some <==> event is VerticalScroll || event is Scroll
            &&& posted matches Some((kind, button)) ==> {
                &&& kind is MouseMoved <==> event is Move || event is RelMove
                &&& kind is LeftMouseDown <==> event is LeftPressed
                &&& kind is LeftMouseUp <==> event is LeftReleased
                &&& kind is RightMouseDown <==> event is RightPressed
                &&& kind is RightMouseUp <==> event is RightReleased
                &&& kind is OtherMouseDown <==> event is MiddlePressed
                &&& kind is OtherMouseUp <==> event is MiddleReleased
                &&& button is Right <==> event is RightPressed || event is RightReleased
                &&& button is Center <==> event is MiddlePressed || event is MiddleReleased
            }
        }),
{
}

/// A move puts the pointer where it says, wherever it was.
pub proof fn law_move_is_absolute(from_x: int, from_y: int, x: u16, y: u16)
    ensures
        pointer_after(from_x, from_y, MouseEvent::Move { x, y }) == (x as int, y as int),
{
}

/// Relative moves add to each coordinate for itself, and moves there and back
/// lead back, as long as they fit 16 bits and the pointer stays within the whole
/// numbers that a binary64 holds.
pub proof fn law_relative_moves_add_up(x: int, y: int, dx: i32, dy: i32)
    requires
        i16::MIN < dx <= i16::MAX,
        i16::MIN < dy <= i16::MAX,
        -MANTISSA_HIGH < x < MANTISSA_HIGH,
        -MANTISSA_HIGH < y < MANTISSA_HIGH,
        -MANTISSA_HIGH < x + dx < MANTISSA_HIGH,
        -MANTISSA_HIGH < y + dy < MANTISSA_HIGH,
    ensures
        pointer_after(x, y, MouseEvent::RelMove { dx, dy }) == (x + dx, y + dy),
        pointer_after(
            x + dx,
            y + dy,
            MouseEvent::RelMove { dx: (-dx) as i32, dy: (-dy) as i32 },
        ) == (x, y),
{
    law_small_moves_are_exact(x, dx as int);
    law_small_moves_are_exact(y, dy as int);
    law_small_moves_are_exact(x + dx, -dx as int);
    law_small_moves_are_exact(y + dy, -dy as int);
}

/// A character is typed as it came, down where it was pressed and up where it was
/// released, whichever it is. The state of the lock keys types nothing. A key
/// types no character, and one without an equivalent nothing.
pub proof fn law_characters_are_typed_as_they_came(unit: u16, code: u8, extended: bool)
    ensures
        key_action(KeyboardEvent::UnicodePressed(unit)) matches KeyAction::Text { unit: u, down }
            && u == unit && down,
        key_action(KeyboardEvent::UnicodeReleased(unit)) matches KeyAction::Text { unit: u, down }
            && u == unit && !down,
        key_action(KeyboardEvent::Synchronize) is Nothing,
        match key_for(code, extended) {
            Some(k) => key_action(KeyboardEvent::Pressed { code, extended }) == (KeyAction::Key {
                code: k,
                down: true,
            }),
            None => key_action(KeyboardEvent::Pressed { code, extended }) is Unmapped,
        },
{
}

/// Moves in opposite directions are mirror images, however far they lead.
pub proof fn law_moves_mirror(c: int, d: int)
    ensures
        moved(-c, -d) == -moved(c, d),
        c + d > 0 ==> moved(c, d) >= 0,
{
    assert(nearest(0, 1) == 0);
}

} // verus!
