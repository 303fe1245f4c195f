//! What the host does with the input events a client sends: the pointer
//! position and button change, the scroll steps, and the text of a key.
use vstd::prelude::*;

verus! {

/// A mouse button that the host can press.
#[derive(Debug, Clone, Copy, PartialEq, Eq, Structural)]
pub enum MouseButton {
    Left,
    Right,
    Middle,
}

/// What happens to a mouse button.
#[derive(Debug, Clone, Copy, PartialEq, Eq, Structural)]
pub enum ButtonDirection {
    Press,
    Release,
    Click,
}

/// A scroll direction.
#[derive(Debug, Clone, Copy, PartialEq, Eq, Structural)]
pub enum ScrollAxis {
    Vertical,
    Horizontal,
}

/// A button and what happens to it.
#[derive(Debug, Clone, Copy, PartialEq, Eq, Structural)]
pub struct ButtonChange {
    pub button: MouseButton,
    pub direction: ButtonDirection,
}

/// The effect of one mouse event: the pointer moves to (`x`, `y`), then
/// the button, if any, changes.
#[derive(Debug, Clone, Copy, PartialEq, Eq, Structural)]
pub struct MouseAction {
    pub x: i32,
    pub y: i32,
    pub button: Option<ButtonChange>,
}

/// The button that a wire number names: `0` left, `1` right, `2` middle.
pub open spec fn button_of(button: u8) -> Option<MouseButton> {
    if button == 0 {
        Some(MouseButton::Left)
    } else if button == 1 {
        Some(MouseButton::Right)
    } else if button == 2 {
        Some(MouseButton::Middle)
    } else {
        None
    }
}

/// The change that a wire state names: `0` press, `1` release, any other
/// a click.
pub open spec fn direction_of(state: u8) -> ButtonDirection {
    if state == 0 {
        ButtonDirection::Press
    } else if state == 1 {
        ButtonDirection::Release
    } else {
        ButtonDirection::Click
    }
}

/// The effect of a mouse event at (`x`, `y`) with a button number and a
/// state number; an unknown button only moves the pointer.
pub fn mouse_action(x: i32, y: i32, button: u8, state: u8) -> (r: MouseAction)
    ensures
        r.x == x,
        r.y == y,
        r.button == (match button_of(button) {
            Some(b) => Some(ButtonChange { button: b, direction: direction_of(state) }),
            None => None,
        }),
{
    let b = if button == 0 {
        Some(MouseButton::Left)
    } else if button == 1 {
        Some(MouseButton::Right)
    } else if button == 2 {
        Some(MouseButton::Middle)
    } else {
        None
    };
    let d = if state == 0 {
        ButtonDirection::Press
    } else if state == 1 {
        ButtonDirection::Release
    } else {
        ButtonDirection::Click
    };
    let click = match b {
        Some(btn) => Some(ButtonChange { button: btn, direction: d }),
        None => None,
    };
    MouseAction { x, y, button: click }
}

/// The scroll steps of a scroll event: the vertical amount, then the
/// horizontal one, each only where it is not zero.
pub open spec fn scroll_plan(delta_x: i32, delta_y: i32) -> Seq<(ScrollAxis, i32)> {
    (if delta_y != 0 {
        seq![(ScrollAxis::Vertical, delta_y)]
    } else {
        Seq::empty()
    }) + (if delta_x != 0 {
        seq![(ScrollAxis::Horizontal, delta_x)]
    } else {
        Seq::empty()
    })
}

/// The scroll steps the host performs for a scroll event.
pub fn scroll_steps(delta_x: i32, delta_y: i32) -> (r: Vec<(ScrollAxis, i32)>)
    ensures
        r@ == scroll_plan(delta_x, delta_y),
{
    let mut r: Vec<(ScrollAxis, i32)> = Vec::new();
    if delta_y != 0 {
        r.push((ScrollAxis::Vertical, delta_y));
    }
    if delta_x != 0 {
        r.push((ScrollAxis::Horizontal, delta_x));
    }
    assert(r@ =~= scroll_plan(delta_x, delta_y));
    r
}

/// The numbers that name a character: Unicode scalar values, which leave
/// out the surrogates.
pub open spec fn is_scalar_value(v: u32) -> bool {
    v <= 0x10FFFF && !(0xD800 <= v <= 0xDFFF)
}

/// `char::from_u32`: the character with the given number, where the number
/// is a Unicode scalar value, as its documentation states.
#[verifier::external_body]
fn char_from_u32(v: u32) -> (r: Option<char>)
    ensures
        r is Some <==> is_scalar_value(v),
        r matches Some(c) ==> c as u32 == v,
{
    std::char::from_u32(v)
}

/// The character a key event types: the key code read as a Unicode scalar
/// value; codes that name no character type nothing.
pub fn key_text(keycode: u32) -> (r: Option<char>)
    ensures
        r is Some <==> is_scalar_value(keycode),
        r matches Some(c) ==> c as u32 == keycode,
{
    char_from_u32(keycode)
}

} // verus!
