//! What virtual input does to the pointer, the buttons and the keys.
use vstd::prelude::*;

use crate::backend::input::{
    drag_moves, key_symbol, modifier_mask, plan, steps_view, InputStep, StepView,
};
use crate::model::{Action, Button, ErrorCode, Fault, Modifier, Point};
use crate::number::Binary64;

verus! {

/// Where a step puts the pointer, if it moves it: a place in thirtieths of the units of the
/// coordinates' values.
pub open spec fn put(step: InputStep) -> Option<(int, int)> {
    match step {
        InputStep::Move(at) => Some((30 * at.x.value(), 30 * at.y.value())),
        InputStep::MoveBetween { from, to, nth } => Some(
            (
                (30 - nth) * from.x.value() + nth * to.x.value(),
                (30 - nth) * from.y.value() + nth * to.y.value(),
            ),
        ),
        _ => None,
    }
}

/// Whether a step is the last one before another that moves the pointer.
pub open spec fn last_move(steps: Seq<InputStep>, i: int, before: int) -> bool {
    &&& 0 <= i < before <= steps.len()
    &&& put(steps[i]) is Some
    &&& forall|j: int| i < j < before ==> put(#[trigger] steps[j]) is None
}

proof fn lemma_moves(from: Point, to: Point, n: nat)
    requires
        n <= 30,
    ensures
        drag_moves(from, to, n).len() == 4 * n,
        forall|k: int|
            #![trigger drag_moves(from, to, n)[4 * k]]
            #![trigger drag_moves(from, to, n)[4 * k + 1]]
            0 <= k < n ==> {
                &&& drag_moves(from, to, n)[4 * k] is Check
                &&& drag_moves(from, to, n)[4 * k + 1] == (StepView::MoveBetween {
                    from,
                    to,
                    nth: (k + 1) as u32,
                })
                &&& drag_moves(from, to, n)[4 * k + 2] is Sync
                &&& drag_moves(from, to, n)[4 * k + 3] is Sleep
            },
    decreases n,
{
    if n > 0 {
        let m = (n - 1) as nat;
        lemma_moves(from, to, m);
        let before = drag_moves(from, to, m);
        let all = drag_moves(from, to, n);
        assert forall|k: int| 0 <= k < n implies {
            &&& #[trigger] all[4 * k] is Check
            &&& all[4 * k + 1] == (StepView::MoveBetween { from, to, nth: (k + 1) as u32 })
            &&& all[4 * k + 2] is Sync
            &&& all[4 * k + 3] is Sleep
        } by {
            if k < m {
                assert(all[4 * k] == before[4 * k]);
                assert(all[4 * k + 1] == before[4 * k + 1]);
                assert(all[4 * k + 2] == before[4 * k + 2]);
                assert(all[4 * k + 3] == before[4 * k + 3]);
            }
        }
    }
}

/// A drag presses the left button where it begins, moves in thirty equal parts to where it ends,
/// and lets the button go there.
pub proof fn drags_go_from_their_start_to_their_end(
    from: Point,
    to: Point,
    r: Result<Vec<InputStep>, Fault>,
)
    requires
        call_ensures(plan, (&Action::Drag { from, to },), r),
    ensures
        r matches Ok(v) && v@.len() == 125 && {
            &&& forall|i: int|
                0 <= i < 125 ==> {
                    &&& (#[trigger] v@[i] is Press <==> i == 2)
                    &&& (v@[i] is Release <==> i == 124)
                }
            &&& v@[2] == InputStep::Press(272)
            &&& v@[124] == InputStep::Release(272)
            &&& forall|i: int| #[trigger]
                last_move(v@, i, 2) ==> put(v@[i]) == Some(
                    (30 * from.x.value(), 30 * from.y.value()),
                )
            &&& forall|i: int| #[trigger]
                last_move(v@, i, 124) ==> put(v@[i]) == Some(
                    (30 * to.x.value(), 30 * to.y.value()),
                )
            &&& forall|k: int|
                1 <= k <= 30 ==> #[trigger] put(v@[4 * k + 1]) == Some(
                    (
                        30 * from.x.value() + k * (to.x.value() - from.x.value()),
                        30 * from.y.value() + k * (to.y.value() - from.y.value()),
                    ),
                )
            &&& v@[0] == InputStep::Move(from)
            &&& v@[121] == InputStep::MoveBetween { from, to, nth: 30 }
        },
{
    lemma_moves(from, to, 30);
    let v = r->Ok_0@;
    let m = drag_moves(from, to, 30);
    assert(steps_view(v).len() == 125);
    assert(forall|i: int| 0 <= i < 125 ==> steps_view(v)[i] == (#[trigger] v[i])@);
    assert forall|i: int| 0 <= i < 125 implies {
        &&& (#[trigger] v[i] is Press <==> i == 2)
        &&& (v[i] is Release <==> i == 124)
        &&& (put(v[i]) is Some <==> i == 0 || (4 <= i < 124 && i % 4 == 1))
    } by {
        if 4 <= i < 124 {
            let k = (i - 4) / 4;
            assert(i == 4 + 4 * k || i == 4 + 4 * k + 1 || i == 4 + 4 * k + 2 || i == 4 + 4 * k + 3);
            assert(v[i]@ == m[i - 4]);
            assert(m[4 * k] is Check);
        }
    }
    assert forall|k: int| 1 <= k <= 30 implies #[trigger] put(v[4 * k + 1]) == Some(
        (
            30 * from.x.value() + k * (to.x.value() - from.x.value()),
            30 * from.y.value() + k * (to.y.value() - from.y.value()),
        ),
    ) by {
        assert(m[4 * (k - 1) + 1] == v[4 * k + 1]@);
        assert(v[4 * k + 1] == InputStep::MoveBetween { from, to, nth: k as u32 });
        let (a, b, c, d) = (from.x.value(), to.x.value(), from.y.value(), to.y.value());
        assert((30 - k) * a + k * b == 30 * a + k * (b - a)) by (nonlinear_arith);
        assert((30 - k) * c + k * d == 30 * c + k * (d - c)) by (nonlinear_arith);
    }
    assert forall|i: int| #[trigger] last_move(v, i, 124) implies put(v[i]) == Some(
        (30 * to.x.value(), 30 * to.y.value()),
    ) by {
        assert(put(v[4 * 30int + 1]) is Some);
        assert(i == 121);
    }
    assert(v[4 * 30int + 1]@ == m[4 * 29int + 1]);
    assert(v[0]@ == StepView::Move(from));
}

/// A click moves the pointer to its place, and there presses and lets go its own button.
pub proof fn clicks_press_their_button_in_their_place(
    at: Point,
    button: Button,
    r: Result<Vec<InputStep>, Fault>,
)
    requires
        call_ensures(plan, (&Action::Click { at, button },), r),
    ensures
        r matches Ok(v) && v@.len() == 8 && {
            let code: u32 = match button {
                Button::Left => 272,
                Button::Right => 273,
                Button::Middle => 274,
            };
            &&& v@[0] == InputStep::Move(at)
            &&& v@[3] == InputStep::Press(code)
            &&& v@[7] == InputStep::Release(code)
            &&& v@[1] is Sync && v@[2] is Check && v@[4] is Sync && v@[6] is Check
            &&& v@[5] == InputStep::Sleep(20)
        },
{
    let v = r->Ok_0@;
    assert(steps_view(v).len() == 8);
    assert(forall|i: int| 0 <= i < 8 ==> steps_view(v)[i] == (#[trigger] v[i])@);
}

/// A scroll turns the wheel at its place: upright by its vertical distance and sideways by its
/// horizontal one, neither of them for nothing.
pub proof fn scrolls_turn_the_wheel_by_their_distances(
    at: Point,
    dx: Binary64,
    dy: Binary64,
    r: Result<Vec<InputStep>, Fault>,
)
    requires
        call_ensures(plan, (&Action::Scroll { at, dx, dy },), r),
    ensures
        r matches Ok(v) && {
            let still_x = dx.number() && dx.value() == 0;
            let still_y = dy.number() && dy.value() == 0;
            &&& v@.len() == 7 - (if still_x { 1int } else { 0 }) - (if still_y { 1int } else { 0 })
            &&& v@[0] == InputStep::Move(at)
            &&& v@[3] is Wheel
            &&& v@.last() is Frame
            &&& !still_y ==> v@[4] == InputStep::Vertical(dy)
            &&& !still_x ==> v@[v@.len() - 2] == InputStep::Horizontal(dx)
            &&& forall|i: int| 0 <= i < v@.len() ==> {
                &&& (#[trigger] v@[i] matches InputStep::Vertical(d) ==> d == dy && !still_y)
                &&& (v@[i] matches InputStep::Horizontal(d) ==> d == dx && !still_x)
                &&& !(v@[i] is Press) && !(v@[i] is KeyDown)
            }
        },
{
    let v = r->Ok_0@;
    assert(steps_view(v).len() == v.len());
    assert(forall|i: int| 0 <= i < v.len() ==> steps_view(v)[i] == (#[trigger] v[i])@);
}

/// Whether a bit of a set of modifiers is set: an even quotient means that it is not.
pub open spec fn bit(mask: u32, weight: u32) -> bool {
    mask / weight % 2 == 1
}

proof fn lemma_mask(v: Seq<Modifier>)
    ensures
        bit(modifier_mask(v), 1) == v.contains(Modifier::Shift),
        bit(modifier_mask(v), 4) == v.contains(Modifier::Ctrl),
        bit(modifier_mask(v), 8) == v.contains(Modifier::Alt),
        bit(modifier_mask(v), 64) == v.contains(Modifier::Super),
        !bit(modifier_mask(v), 2),
        !bit(modifier_mask(v), 16),
        !bit(modifier_mask(v), 32),
        modifier_mask(v) < 128,
    decreases v.len(),
{
    if v.len() > 0 {
        let rest = v.drop_last();
        lemma_mask(rest);
        let m: u32 = modifier_mask(rest);
        let last = v.last();
        assert(v =~= rest.push(last));
        assert forall|x: Modifier| v.contains(x) == (rest.contains(x) || x == last) by {
            if rest.contains(x) {
                let i = choose|i: int| 0 <= i < rest.len() && rest[i] == x;
                assert(v[i] == x);
            }
            if x == last {
                assert(v[v.len() - 1] == x);
            }
            if v.contains(x) && x != last {
                let i = choose|i: int| 0 <= i < v.len() && v[i] == x;
                assert(rest[i] == x);
            }
        }
        assert(forall|n: u32, w: u32|
            #![trigger n | w]
            (w == 1 || w == 4 || w == 8 || w == 64) && n < 128 ==> {
                &&& (n | w) < 128
                &&& (n | w) / 1 % 2 == (if w == 1 { 1u32 } else { n / 1 % 2 })
                &&& (n | w) / 2 % 2 == n / 2 % 2
                &&& (n | w) / 4 % 2 == (if w == 4 { 1u32 } else { n / 4 % 2 })
                &&& (n | w) / 8 % 2 == (if w == 8 { 1u32 } else { n / 8 % 2 })
                &&& (n | w) / 16 % 2 == n / 16 % 2
                &&& (n | w) / 32 % 2 == n / 32 % 2
                &&& (n | w) / 64 % 2 == (if w == 64 { 1u32 } else { n / 64 % 2 })
            }) by (bit_vector);
        match last {
            Modifier::Shift => {
                assert(modifier_mask(v) == m | 1);
            },
            Modifier::Ctrl => {
                assert(modifier_mask(v) == m | 4);
            },
            Modifier::Alt => {
                assert(modifier_mask(v) == m | 8);
            },
            Modifier::Super => {
                assert(modifier_mask(v) == m | 64);
            },
        }
    } else {
        assert(forall|x: Modifier| !v.contains(x));
        assert(modifier_mask(v) == 0);
    }
}

/// A key is pressed and let go while exactly its own modifiers are held, and afterwards none is.
pub proof fn keys_are_pressed_with_their_modifiers(
    key: String,
    modifiers: Vec<Modifier>,
    r: Result<Vec<InputStep>, Fault>,
)
    requires
        call_ensures(plan, (&Action::Key { key, modifiers },), r),
        r is Ok,
    ensures
        r matches Ok(v) && v@.len() == 10 && {
            &&& v@[0] is Keymap
            &&& v@[3] matches InputStep::Modifiers(mask)
            &&& mask < 128
            &&& bit(mask, 1) == modifiers@.contains(Modifier::Shift)
            &&& bit(mask, 4) == modifiers@.contains(Modifier::Ctrl)
            &&& bit(mask, 8) == modifiers@.contains(Modifier::Alt)
            &&& bit(mask, 64) == modifiers@.contains(Modifier::Super)
            &&& !bit(mask, 2) && !bit(mask, 16) && !bit(mask, 32)
            &&& v@[5] == InputStep::KeyDown(30)
            &&& v@[8] == InputStep::KeyUp(30)
            &&& v@[9] == InputStep::Modifiers(0)
            &&& v@[1] is Sync && v@[2] is Check && v@[4] is Sync && v@[6] is Sync
            &&& v@[7] == InputStep::Sleep(2)
        },
{
    let v = r->Ok_0@;
    assert(steps_view(v).len() == 10);
    assert(forall|i: int| 0 <= i < 10 ==> steps_view(v)[i] == (#[trigger] v[i])@);
    lemma_mask(modifiers@);
}

/// The keys that go by a name, as programs know them.
pub open spec fn key_names() -> Seq<Seq<char>> {
    seq![
        "Return"@, "Escape"@, "Tab"@, "space"@, "BackSpace"@, "Delete"@, "Insert"@, "Home"@,
        "End"@, "Page_Up"@, "Page_Down"@, "Left"@, "Right"@, "Up"@, "Down"@, "F1"@, "F2"@, "F3"@,
        "F4"@, "F5"@, "F6"@, "F7"@, "F8"@, "F9"@, "F10"@, "F11"@, "F12"@
    ]
}

/// A key of one character always has a symbol; of longer names, those of the named keys stand
/// for themselves, four more stand for one of these, and all others are refused.
pub proof fn keys_are_known_by_their_names(key: &str, r: Result<String, Fault>)
    requires
        call_ensures(key_symbol, (key,), r),
    ensures
        key@.len() == 1 ==> r is Ok,
        key@.len() != 1 ==> {
            &&& forall|i: int|
                0 <= i < 27 && key@ == #[trigger] key_names()[i] ==> (r matches Ok(s) && s@ == key@)
            &&& key@ == "Enter"@ ==> (r matches Ok(s) && s@ == "Return"@)
            &&& key@ == "Esc"@ ==> (r matches Ok(s) && s@ == "Escape"@)
            &&& key@ == "Space"@ ==> (r matches Ok(s) && s@ == "space"@)
            &&& key@ == "Backspace"@ ==> (r matches Ok(s) && s@ == "BackSpace"@)
            &&& r matches Ok(s) ==> exists|i: int| 0 <= i < 27 && s@ == #[trigger] key_names()[i]
            &&& r matches Err(e) ==> e.code == ErrorCode::Unsupported
            && e.message@ == "未知按键名称"@
        },
{
    reveal_strlit("Enter");
    reveal_strlit("Esc");
    reveal_strlit("Space");
    reveal_strlit("Backspace");
    reveal_strlit("Return");
    reveal_strlit("Escape");
    reveal_strlit("Tab");
    reveal_strlit("space");
    reveal_strlit("BackSpace");
    reveal_strlit("Delete");
    reveal_strlit("Insert");
    reveal_strlit("Home");
    reveal_strlit("End");
    let n = key_names();
    assert(n.len() == 27);
    if key@.len() != 1 && r is Ok {
        let s = r->Ok_0@;
        assert(s == n[0] || s == n[1] || s == n[2] || s == n[3] || s == n[4] || s == n[5] || s
            == n[6] || s == n[7] || s == n[8] || s == n[9] || s == n[10] || s == n[11] || s == n[12]
            || s == n[13] || s == n[14] || s == n[15] || s == n[16] || s == n[17] || s == n[18] || s
            == n[19] || s == n[20] || s == n[21] || s == n[22] || s == n[23] || s == n[24] || s
            == n[25] || s == n[26]);
    }
    distinct_names(key@);
}

proof fn distinct_names(key: Seq<char>)
    ensures
        key == "Enter"@ || key == "Esc"@ || key == "Space"@ || key == "Backspace"@ ==> forall|i: int|
            0 <= i < 27 ==> key != #[trigger] key_names()[i],
        "Enter"@ != "Esc"@,
        "Enter"@ != "Space"@,
        "Enter"@ != "Backspace"@,
        "Esc"@ != "Space"@,
        "Esc"@ != "Backspace"@,
        "Space"@ != "Backspace"@,
{
    reveal_strlit("Enter");
    reveal_strlit("Esc");
    reveal_strlit("Space");
    reveal_strlit("Backspace");
    reveal_strlit("Return");
    reveal_strlit("Escape");
    reveal_strlit("Tab");
    reveal_strlit("space");
    reveal_strlit("BackSpace");
    reveal_strlit("Delete");
    reveal_strlit("Insert");
    reveal_strlit("Home");
    reveal_strlit("End");
    reveal_strlit("Page_Up");
    reveal_strlit("Page_Down");
    reveal_strlit("Left");
    reveal_strlit("Right");
    reveal_strlit("Up");
    reveal_strlit("Down");
    reveal_strlit("F1");
    reveal_strlit("F2");
    reveal_strlit("F3");
    reveal_strlit("F4");
    reveal_strlit("F5");
    reveal_strlit("F6");
    reveal_strlit("F7");
    reveal_strlit("F8");
    reveal_strlit("F9");
    reveal_strlit("F10");
    reveal_strlit("F11");
    reveal_strlit("F12");
    let n = key_names();
    if key == "Enter"@ || key == "Esc"@ || key == "Space"@ || key == "Backspace"@ {
        assert forall|i: int| 0 <= i < 27 implies key != #[trigger] n[i] by {
            assert(n[i].len() != key.len() || n[i][0] != key[0] || n[i][1] != key[1] || n[i][2]
                != key[2] || n[i][4] != key[4]);
        }
    }
    assert("Enter"@[1] == 'n' && "Esc"@[1] == 's');
    assert("Enter"@[0] == 'E' && "Space"@[0] == 'S' && "Backspace"@[0] == 'B' && "Esc"@[0] == 'E');
}

} // verus!
