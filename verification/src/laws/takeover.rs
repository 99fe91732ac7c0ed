//! What the local user's own input becomes.
use vstd::prelude::*;

use crate::model::{Action, Button, Modifier, Point};
use crate::number::Binary64;
use crate::ui::view::{click_button, drag_action, key_action, key_name, scroll_action, text_action};

verus! {

/// A modifier goes with a key exactly if the user holds it, and goes with it once; nothing is
/// pressed while the user has not taken over.
pub proof fn keys_go_with_the_modifiers_that_are_held(
    enabled: bool,
    key: Option<String>,
    ctrl: bool,
    alt: bool,
    shift: bool,
    meta: bool,
    r: Option<Action>,
)
    requires
        call_ensures(key_action, (enabled, key, ctrl, alt, shift, meta), r),
    ensures
        r is Some <==> enabled && key is Some,
        r is Some ==> {
            &&& r->0 matches Action::Key { key: pressed, modifiers }
            &&& pressed@ == key->0@
            &&& modifiers@.contains(Modifier::Ctrl) == ctrl
            &&& modifiers@.contains(Modifier::Alt) == alt
            &&& modifiers@.contains(Modifier::Shift) == shift
            &&& modifiers@.contains(Modifier::Super) == meta
            &&& modifiers@.no_duplicates()
        },
{
    if r is Some {
        let m = r->0->modifiers@;
        let c: int = if ctrl { 1 } else { 0 };
        let a: int = if alt { 1 } else { 0 };
        let s: int = if shift { 1 } else { 0 };
        assert(ctrl ==> m[0] == Modifier::Ctrl);
        assert(alt ==> m[c] == Modifier::Alt);
        assert(shift ==> m[c + a] == Modifier::Shift);
        assert(meta ==> m[c + a + s] == Modifier::Super);
        assert forall|i: int| 0 <= i < m.len() implies {
            ||| #[trigger] m[i] == Modifier::Ctrl && ctrl && i == 0
            ||| m[i] == Modifier::Alt && alt && i == c
            ||| m[i] == Modifier::Shift && shift && i == c + a
            ||| m[i] == Modifier::Super && meta && i == c + a + s
        } by {}
    }
}

/// A drag by hand begins where the user pressed and ends where the user let go; one that is too
/// short is a click of the left button where it began. Nothing comes of it where the user has
/// not taken over, was cancelled, or left the picture.
pub proof fn drags_by_hand_keep_their_direction(
    enabled: bool,
    cancelled: bool,
    from: Option<Point>,
    to: Option<Point>,
    short: bool,
    r: Option<Action>,
)
    requires
        call_ensures(drag_action, (enabled, cancelled, from, to, short), r),
    ensures
        r is Some <==> enabled && !cancelled && from is Some && to is Some,
        r matches Some(Action::Drag { from: a, to: b }) ==> !short && Some(a) == from && Some(b)
            == to,
        r matches Some(Action::Click { at, button }) ==> short && Some(at) == from && button
            == Button::Left,
        r matches Some(a) ==> a is Drag || a is Click,
{
}

/// The second button is the middle one and the third the right one. The first clicks through
/// drags, and no button does anything where the user has not taken over.
pub proof fn buttons_are_told_apart(enabled: bool, number: u32, r: Option<Button>)
    requires
        call_ensures(click_button, (enabled, number), r),
    ensures
        r is Some <==> enabled && number != 1,
        r == Some(Button::Middle) <==> enabled && number == 2,
        r == Some(Button::Right) <==> enabled && number == 3,
{
}

/// The wheel turns where the pointer is, by what the user turned it each way.
pub proof fn the_wheel_keeps_its_axes(
    enabled: bool,
    at: Option<Point>,
    dx: Binary64,
    dy: Binary64,
    r: Option<Action>,
)
    requires
        call_ensures(scroll_action, (enabled, at, dx, dy), r),
    ensures
        r is Some <==> enabled && at is Some,
        r matches Some(a) ==> {
            &&& a matches Action::Scroll { at: place, dx: across, dy: down }
            &&& Some(place) == at
            &&& across == dx
            &&& down == dy
        },
{
}

/// A key that writes a character goes by that character, unless it is a control character;
/// every other key goes by its own name.
pub proof fn keys_go_by_what_they_write(
    written: Option<char>,
    name: Option<&str>,
    r: Option<String>,
)
    requires
        call_ensures(key_name, (written, name), r),
    ensures
        written matches Some(c) ==> (0x20 <= (c as u32) < 0x7f || c as u32 >= 0xa0 ==> (
        r matches Some(s) && s@ == seq![c])),
        (written matches Some(c) ==> (c as u32) < 0x20 || 0x7f <= (c as u32) < 0xa0) ==> {
            &&& r is Some == name is Some
            &&& r matches Some(s) ==> s@ == name->0@
        },
{
}

/// A text is typed as it was written, and an empty one not at all.
pub proof fn texts_are_typed_as_written(enabled: bool, text: &str, r: Option<Action>)
    requires
        call_ensures(text_action, (enabled, text), r),
    ensures
        r is Some <==> enabled && text@.len() > 0,
        r matches Some(a) ==> a matches Action::Text { text: typed } && typed@ == text@,
{
}

} // verus!
