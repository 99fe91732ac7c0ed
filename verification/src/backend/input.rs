//! Virtual input: key symbols, keymaps, and the events that an action consists of.
use vstd::prelude::*;

use crate::model::{fault, Action, Button, ErrorCode, Fault, FaultView, Modifier, Point};
use crate::number::Binary64;
use crate::text::{
    chars_of, decimal, digit, numeral, same, texts, to_base, to_upper_hex, upper_hex, zero_fill,
    zero_filled,
};

verus! {

/// Name of the key symbol that types a character.
pub open spec fn char_symbol_of(c: char) -> Seq<char> {
    if c as u32 <= 255 {
        "0x"@ + numeral(c as nat, 16)
    } else {
        "U"@ + zero_filled(upper_hex(numeral(c as nat, 16)), 4)
    }
}

/// Name of the key symbol that types a character.
pub fn char_symbol(c: char) -> (r: String)
    ensures
        r@ == char_symbol_of(c),
{
    let code: u32 = c as u32;
    let digits = to_base(code as u64, 16);
    if code <= 255 {
        let mut out = "0x".to_owned();
        out.append(digits.as_str());
        out
    } else {
        let mut out = "U".to_owned();
        out.append(zero_fill(to_upper_hex(digits.as_str()).as_str(), 4).as_str());
        out
    }
}

/// The name that the keymap has for a key.
pub open spec fn renamed(key: Seq<char>) -> Seq<char> {
    if key == "Enter"@ {
        "Return"@
    } else if key == "Esc"@ {
        "Escape"@
    } else if key == "Space"@ {
        "space"@
    } else if key == "Backspace"@ {
        "BackSpace"@
    } else {
        key
    }
}

/// Keys known by name.
pub open spec fn named_key(key: Seq<char>) -> bool {
    ||| key == "Return"@
    ||| key == "Escape"@
    ||| key == "Tab"@
    ||| key == "space"@
    ||| key == "BackSpace"@
    ||| key == "Delete"@
    ||| key == "Insert"@
    ||| key == "Home"@
    ||| key == "End"@
    ||| key == "Page_Up"@
    ||| key == "Page_Down"@
    ||| key == "Left"@
    ||| key == "Right"@
    ||| key == "Up"@
    ||| key == "Down"@
    ||| key == "F1"@
    ||| key == "F2"@
    ||| key == "F3"@
    ||| key == "F4"@
    ||| key == "F5"@
    ||| key == "F6"@
    ||| key == "F7"@
    ||| key == "F8"@
    ||| key == "F9"@
    ||| key == "F10"@
    ||| key == "F11"@
    ||| key == "F12"@
}

/// Name of the key symbol for a key: a single character, or a known name.
pub open spec fn key_symbol_of(key: Seq<char>) -> Option<Seq<char>> {
    if key.len() == 1 {
        Some(char_symbol_of(key[0]))
    } else if named_key(renamed(key)) {
        Some(renamed(key))
    } else {
        None
    }
}

fn is_named_key(key: &str) -> (r: bool)
    ensures
        r == named_key(key@),
{
    same(key, "Return") || same(key, "Escape") || same(key, "Tab") || same(key, "space") || same(
        key,
        "BackSpace",
    ) || same(key, "Delete") || same(key, "Insert") || same(key, "Home") || same(key, "End")
        || same(key, "Page_Up") || same(key, "Page_Down") || same(key, "Left") || same(key, "Right")
        || same(key, "Up") || same(key, "Down") || same(key, "F1") || same(key, "F2") || same(
        key,
        "F3",
    ) || same(key, "F4") || same(key, "F5") || same(key, "F6") || same(key, "F7") || same(key, "F8")
        || same(key, "F9") || same(key, "F10") || same(key, "F11") || same(key, "F12")
}

/// Name of the key symbol for a key.
pub fn key_symbol(key: &str) -> (r: Result<String, Fault>)
    ensures
        match key_symbol_of(key@) {
            Some(symbol) => r matches Ok(s) && s@ == symbol,
            None => r matches Err(e) && e.says(ErrorCode::Unsupported, "未知按键名称"@),
        },
{
    let all = chars_of(key);
    if all.len() == 1 {
        return Ok(char_symbol(all[0]));
    }
    let name = if same(key, "Enter") {
        "Return"
    } else if same(key, "Esc") {
        "Escape"
    } else if same(key, "Space") {
        "space"
    } else if same(key, "Backspace") {
        "BackSpace"
    } else {
        key
    };
    if is_named_key(name) {
        Ok(name.to_owned())
    } else {
        Err(Fault::unsupported("未知按键名称"))
    }
}

/// Name of the key symbol for a character of a text.
pub open spec fn text_symbol_of(c: char) -> Seq<char> {
    if c == '\n' {
        "Return"@
    } else if c == '\t' {
        "Tab"@
    } else {
        char_symbol_of(c)
    }
}

fn text_symbol(c: char) -> (r: String)
    ensures
        r@ == text_symbol_of(c),
{
    if c == '\n' {
        "Return".to_owned()
    } else if c == '\t' {
        "Tab".to_owned()
    } else {
        char_symbol(c)
    }
}

/// The name of key number `i` in a keymap.
pub open spec fn key_name(i: nat) -> Seq<char> {
    "<K"@ + zero_filled(numeral(i, 10), 3) + ">"@
}

/// The line that gives key number `i` its code.
pub open spec fn code_line(i: nat) -> Seq<char> {
    key_name(i) + " = "@ + numeral(i + 38, 10) + ";\n"@
}

/// The line that gives key number `i` its symbol.
pub open spec fn symbol_line(i: nat, symbol: Seq<char>) -> Seq<char> {
    "key "@ + key_name(i) + " { [ "@ + symbol + " ] };\n"@
}

/// The lines of codes for the first `n` keys.
pub open spec fn code_lines(n: nat) -> Seq<char>
    decreases n,
{
    if n == 0 {
        Seq::empty()
    } else {
        code_lines((n - 1) as nat) + code_line((n - 1) as nat)
    }
}

/// The lines of symbols for some keys.
pub open spec fn symbol_lines(symbols: Seq<Seq<char>>) -> Seq<char>
    decreases symbols.len(),
{
    if symbols.len() == 0 {
        Seq::empty()
    } else {
        symbol_lines(symbols.drop_last()) + symbol_line(
            (symbols.len() - 1) as nat,
            symbols.last(),
        )
    }
}

/// A keymap whose keys type the given symbols, beside the modifiers.
pub open spec fn keymap_of(symbols: Seq<Seq<char>>) -> Seq<char> {
    "xkb_keymap { xkb_keycodes \"mcp\" { minimum=8; maximum=255; "@ + code_lines(symbols.len())
        + " <LFSH>=250; <LCTL>=251; <LALT>=252; <LWIN>=253; }; xkb_types \"mcp\" { include \"complete\" }; xkb_compatibility \"mcp\" { include \"complete\" }; xkb_symbols \"mcp\" { "@
        + symbol_lines(symbols)
        + " key <LFSH> { [ Shift_L ] }; key <LCTL> { [ Control_L ] }; key <LALT> { [ Alt_L ] }; key <LWIN> { [ Super_L ] }; modifier_map Shift { <LFSH> }; modifier_map Control { <LCTL> }; modifier_map Mod1 { <LALT> }; modifier_map Mod4 { <LWIN> }; }; };\0"@
}

fn push_key_name(out: &mut String, i: usize)
    ensures
        final(out)@ == old(out)@ + key_name(i as nat),
{
    out.append("<K");
    out.append(zero_fill(decimal(i as u64).as_str(), 3).as_str());
    out.append(">");
    assert(out@ =~= old(out)@ + key_name(i as nat));
}

/// Writes a keymap whose keys type the given symbols.
pub fn make_keymap(symbols: &Vec<String>) -> (r: String)
    requires
        symbols@.len() + 38 <= usize::MAX,
    ensures
        r@ == keymap_of(texts(symbols@)),
{
    let mut codes = String::new();
    let mut keys = String::new();
    let ghost all = texts(symbols@);
    let mut i: usize = 0;
    while i < symbols.len()
        invariant
            i <= symbols@.len(),
            symbols@.len() + 38 <= usize::MAX,
            all == texts(symbols@),
            codes@ == code_lines(i as nat),
            keys@ == symbol_lines(all.take(i as int)),
        decreases symbols@.len() - i,
    {
        let ghost codes_was = codes@;
        let ghost keys_was = keys@;
        push_key_name(&mut codes, i);
        codes.append(" = ");
        codes.append(decimal((i + 38) as u64).as_str());
        codes.append(";\n");
        keys.append("key ");
        push_key_name(&mut keys, i);
        keys.append(" { [ ");
        keys.append(symbols[i].as_str());
        keys.append(" ] };\n");
        proof {
            assert(codes@ =~= codes_was + code_line(i as nat));
            assert(keys@ =~= keys_was + symbol_line(i as nat, all[i as int]));
            assert(all.take(i + 1).drop_last() =~= all.take(i as int));
        }
        i = i + 1;
    }
    assert(all.take(all.len() as int) =~= all);
    let mut out = "xkb_keymap { xkb_keycodes \"mcp\" { minimum=8; maximum=255; ".to_owned();
    out.append(codes.as_str());
    out.append(
        " <LFSH>=250; <LCTL>=251; <LALT>=252; <LWIN>=253; }; xkb_types \"mcp\" { include \"complete\" }; xkb_compatibility \"mcp\" { include \"complete\" }; xkb_symbols \"mcp\" { ",
    );
    out.append(keys.as_str());
    out.append(
        " key <LFSH> { [ Shift_L ] }; key <LCTL> { [ Control_L ] }; key <LALT> { [ Alt_L ] }; key <LWIN> { [ Super_L ] }; modifier_map Shift { <LFSH> }; modifier_map Control { <LCTL> }; modifier_map Mod1 { <LALT> }; modifier_map Mod4 { <LWIN> }; }; };\0",
    );
    out
}

/// One step of an action.
#[derive(Debug)]
pub enum InputStep {
    /// Stop if the action was cancelled.
    Check,
    /// Wait until the compositor has seen everything, and stop if the target changed.
    Sync,
    /// Wait some milliseconds.
    Sleep(u64),
    /// Move the pointer to a place.
    Move(Point),
    /// Move the pointer to the given thirtieth of the way between two places.
    MoveBetween { from: Point, to: Point, nth: u32 },
    Press(u32),
    Release(u32),
    /// What follows comes from a wheel.
    Wheel,
    Vertical(Binary64),
    Horizontal(Binary64),
    /// The events of the pointer so far belong together.
    Frame,
    Keymap(String),
    KeyDown(u32),
    KeyUp(u32),
    Modifiers(u32),
}

/// A step by its values.
pub enum StepView {
    Check,
    Sync,
    Sleep(u64),
    Move(Point),
    MoveBetween { from: Point, to: Point, nth: u32 },
    Press(u32),
    Release(u32),
    Wheel,
    Vertical(Binary64),
    Horizontal(Binary64),
    Frame,
    Keymap(Seq<char>),
    KeyDown(u32),
    KeyUp(u32),
    Modifiers(u32),
}

impl View for InputStep {
    type V = StepView;

    open spec fn view(&self) -> StepView {
        match *self {
            InputStep::Check => StepView::Check,
            InputStep::Sync => StepView::Sync,
            InputStep::Sleep(n) => StepView::Sleep(n),
            InputStep::Move(at) => StepView::Move(at),
            InputStep::MoveBetween { from, to, nth } => StepView::MoveBetween { from, to, nth },
            InputStep::Press(b) => StepView::Press(b),
            InputStep::Release(b) => StepView::Release(b),
            InputStep::Wheel => StepView::Wheel,
            InputStep::Vertical(d) => StepView::Vertical(d),
            InputStep::Horizontal(d) => StepView::Horizontal(d),
            InputStep::Frame => StepView::Frame,
            InputStep::Keymap(text) => StepView::Keymap(text@),
            InputStep::KeyDown(k) => StepView::KeyDown(k),
            InputStep::KeyUp(k) => StepView::KeyUp(k),
            InputStep::Modifiers(m) => StepView::Modifiers(m),
        }
    }
}

/// Steps by their values.
pub open spec fn steps_view(v: Seq<InputStep>) -> Seq<StepView> {
    v.map_values(|s: InputStep| s@)
}

/// Code of a mouse button.
pub open spec fn button_code_of(button: Button) -> u32 {
    match button {
        Button::Left => 0x110,
        Button::Right => 0x111,
        Button::Middle => 0x112,
    }
}

/// Bit of a modifier.
pub open spec fn modifier_bit(m: Modifier) -> u32 {
    match m {
        Modifier::Shift => 1,
        Modifier::Ctrl => 4,
        Modifier::Alt => 8,
        Modifier::Super => 64,
    }
}

/// The bits of some modifiers together.
pub open spec fn modifier_mask(v: Seq<Modifier>) -> u32
    decreases v.len(),
{
    if v.len() == 0 {
        0
    } else {
        modifier_mask(v.drop_last()) | modifier_bit(v.last())
    }
}

/// Steps of a drag in all.
pub const DRAG_STEPS: u32 = 30;

/// Most characters typed with one keymap.
pub const CHUNK: usize = 200;

/// Code of the first key of a keymap, as input events count.
pub const FIRST_KEY: u32 = 30;

/// The first `n` stops on the way of a drag.
pub open spec fn drag_moves(from: Point, to: Point, n: nat) -> Seq<StepView>
    decreases n,
{
    if n == 0 {
        Seq::empty()
    } else {
        drag_moves(from, to, (n - 1) as nat) + seq![
            StepView::Check,
            StepView::MoveBetween { from, to, nth: n as u32 },
            StepView::Sync,
            StepView::Sleep(10),
        ]
    }
}

/// Typing key number `i` of a keymap.
pub open spec fn stroke(i: nat) -> Seq<StepView> {
    seq![
        StepView::Check,
        StepView::KeyDown((FIRST_KEY + i) as u32),
        StepView::Sync,
        StepView::Sleep(2),
        StepView::KeyUp((FIRST_KEY + i) as u32),
        StepView::Sync,
        StepView::Sleep(2),
    ]
}

/// Typing the first `n` keys of a keymap.
pub open spec fn strokes(n: nat) -> Seq<StepView>
    decreases n,
{
    if n == 0 {
        Seq::empty()
    } else {
        strokes((n - 1) as nat) + stroke((n - 1) as nat)
    }
}

/// Key symbols of some characters.
pub open spec fn symbols_of(chunk: Seq<char>) -> Seq<Seq<char>> {
    chunk.map_values(|c: char| text_symbol_of(c))
}

/// Typing some characters with one keymap.
pub open spec fn chunk_plan(chunk: Seq<char>) -> Seq<StepView> {
    seq![StepView::Check, StepView::Keymap(keymap_of(symbols_of(chunk))), StepView::Sync] + strokes(
        chunk.len(),
    )
}

/// Typing a text, a keymap for every two hundred characters.
pub open spec fn text_plan(chars: Seq<char>) -> Seq<StepView>
    decreases chars.len(),
{
    if chars.len() == 0 {
        Seq::empty()
    } else if chars.len() <= CHUNK {
        chunk_plan(chars)
    } else {
        chunk_plan(chars.take(CHUNK as int)) + text_plan(chars.skip(CHUNK as int))
    }
}

/// Whether a wheel distance is worth an event.
pub open spec fn scrolls(d: Binary64) -> bool {
    !(d.number() && d.value() == 0)
}

/// The steps that an action consists of, or why it is no virtual input.
pub open spec fn planned(action: Action) -> Result<Seq<StepView>, FaultView> {
    match action {
        Action::Click { at, button } => Ok(
            seq![
                StepView::Move(at),
                StepView::Sync,
                StepView::Check,
                StepView::Press(button_code_of(button)),
                StepView::Sync,
                StepView::Sleep(20),
                StepView::Check,
                StepView::Release(button_code_of(button)),
            ],
        ),
        Action::Drag { from, to } => Ok(
            seq![
                StepView::Move(from),
                StepView::Sync,
                StepView::Press(0x110),
                StepView::Sync,
            ] + drag_moves(from, to, DRAG_STEPS as nat) + seq![StepView::Release(0x110)],
        ),
        Action::Scroll { at, dx, dy } => Ok(
            seq![StepView::Move(at), StepView::Sync, StepView::Check, StepView::Wheel] + (if scrolls(
                dy,
            ) {
                seq![StepView::Vertical(dy)]
            } else {
                Seq::empty()
            }) + (if scrolls(dx) {
                seq![StepView::Horizontal(dx)]
            } else {
                Seq::empty()
            }) + seq![StepView::Frame],
        ),
        Action::Text { text } => Ok(text_plan(text@)),
        Action::Key { key, modifiers } => match key_symbol_of(key@) {
            None => Err(fault(ErrorCode::Unsupported, "未知按键名称"@)),
            Some(symbol) => Ok(
                seq![
                    StepView::Keymap(keymap_of(seq![symbol])),
                    StepView::Sync,
                    StepView::Check,
                    StepView::Modifiers(modifier_mask(modifiers@)),
                    StepView::Sync,
                    StepView::KeyDown(FIRST_KEY),
                    StepView::Sync,
                    StepView::Sleep(2),
                    StepView::KeyUp(FIRST_KEY),
                    StepView::Modifiers(0),
                ],
            ),
        },
        _ => Err(fault(ErrorCode::Unsupported, "此操作不是虚拟输入动作"@)),
    }
}

fn button_code(button: Button) -> (r: u32)
    ensures
        r == button_code_of(button),
{
    match button {
        Button::Left => 0x110,
        Button::Right => 0x111,
        Button::Middle => 0x112,
    }
}

fn mask_of(modifiers: &Vec<Modifier>) -> (r: u32)
    ensures
        r == modifier_mask(modifiers@),
{
    let mut mask: u32 = 0;
    let mut i: usize = 0;
    while i < modifiers.len()
        invariant
            i <= modifiers@.len(),
            mask == modifier_mask(modifiers@.take(i as int)),
        decreases modifiers@.len() - i,
    {
        let bit: u32 = match modifiers[i] {
            Modifier::Shift => 1,
            Modifier::Ctrl => 4,
            Modifier::Alt => 8,
            Modifier::Super => 64,
        };
        mask = mask | bit;
        i = i + 1;
        assert(modifiers@.take(i as int).drop_last() =~= modifiers@.take(i - 1));
    }
    assert(modifiers@.take(i as int) =~= modifiers@);
    mask
}

fn push_step(out: &mut Vec<InputStep>, step: InputStep)
    ensures
        steps_view(final(out)@) == steps_view(old(out)@).push(step@),
{
    out.push(step);
    assert(steps_view(out@) =~= steps_view(old(out)@).push(step@));
}

fn push_stroke(out: &mut Vec<InputStep>, i: usize)
    requires
        i < CHUNK,
    ensures
        steps_view(final(out)@) == steps_view(old(out)@) + stroke(i as nat),
{
    let key: u32 = FIRST_KEY + i as u32;
    push_step(out, InputStep::Check);
    push_step(out, InputStep::KeyDown(key));
    push_step(out, InputStep::Sync);
    push_step(out, InputStep::Sleep(2));
    push_step(out, InputStep::KeyUp(key));
    push_step(out, InputStep::Sync);
    push_step(out, InputStep::Sleep(2));
    assert(steps_view(out@) =~= steps_view(old(out)@) + stroke(i as nat));
}

fn push_chunk(out: &mut Vec<InputStep>, chars: &Vec<char>, from: usize, to: usize)
    requires
        from <= to <= chars@.len(),
        to - from <= CHUNK,
    ensures
        steps_view(final(out)@) == steps_view(old(out)@) + chunk_plan(
            chars@.subrange(from as int, to as int),
        ),
{
    let ghost chunk = chars@.subrange(from as int, to as int);
    let mut symbols: Vec<String> = Vec::new();
    let mut i: usize = from;
    while i < to
        invariant
            from <= i <= to <= chars@.len(),
            chunk == chars@.subrange(from as int, to as int),
            texts(symbols@) == symbols_of(chunk.take(i - from)),
            symbols@.len() == i - from,
        decreases to - i,
    {
        let ghost was = symbols@;
        symbols.push(text_symbol(chars[i]));
        proof {
            assert(chunk[i - from] == chars@[i as int]);
            let one = text_symbol_of(chunk[i - from]);
            assert(texts(symbols@) =~= texts(was).push(one));
            assert(chunk.take(i + 1 - from) =~= chunk.take(i - from).push(chunk[i - from]));
            assert(symbols_of(chunk.take(i + 1 - from)) =~= symbols_of(chunk.take(i - from)).push(
                one,
            ));
        }
        i = i + 1;
    }
    assert(chunk.take(to - from) =~= chunk);
    let ghost start = steps_view(out@);
    push_step(out, InputStep::Check);
    push_step(out, InputStep::Keymap(make_keymap(&symbols)));
    push_step(out, InputStep::Sync);
    let ghost head = seq![
        StepView::Check,
        StepView::Keymap(keymap_of(symbols_of(chunk))),
        StepView::Sync,
    ];
    assert(steps_view(out@) =~= start + head);
    let n: usize = to - from;
    let mut k: usize = 0;
    assert(start + head =~= start + head + strokes(0));
    while k < n
        invariant
            k <= n <= CHUNK,
            steps_view(out@) == start + head + strokes(k as nat),
        decreases n - k,
    {
        push_stroke(out, k);
        k = k + 1;
        assert(start + head + strokes((k - 1) as nat) + stroke((k - 1) as nat) =~= start + head
            + strokes(k as nat));
    }
    assert(start + head + strokes(n as nat) =~= start + chunk_plan(chunk));
}

fn plan_text(text: &str) -> (r: Vec<InputStep>)
    ensures
        steps_view(r@) == text_plan(text@),
{
    let chars = chars_of(text);
    let n: usize = chars.len();
    let mut out: Vec<InputStep> = Vec::new();
    let mut at: usize = 0;
    assert(chars@.skip(0) =~= chars@);
    assert(steps_view(out@) + text_plan(chars@.skip(0)) =~= text_plan(text@));
    while n - at > CHUNK
        invariant
            at <= n == chars@.len(),
            chars@ == text@,
            steps_view(out@) + text_plan(chars@.skip(at as int)) == text_plan(text@),
        decreases n - at,
    {
        let ghost was = steps_view(out@);
        let ghost rest = chars@.skip(at as int);
        push_chunk(&mut out, &chars, at, at + CHUNK);
        proof {
            assert(chars@.subrange(at as int, at + CHUNK) =~= rest.take(CHUNK as int));
            assert(rest.skip(CHUNK as int) =~= chars@.skip(at + CHUNK));
            assert(was + chunk_plan(rest.take(CHUNK as int)) + text_plan(rest.skip(CHUNK as int))
                =~= was + text_plan(rest));
        }
        at = at + CHUNK;
    }
    if at < n {
        let ghost was = steps_view(out@);
        push_chunk(&mut out, &chars, at, n);
        assert(chars@.subrange(at as int, n as int) =~= chars@.skip(at as int));
    }
    assert(steps_view(out@) =~= text_plan(text@));
    out
}

fn plan_drag(from: Point, to: Point) -> (r: Vec<InputStep>)
    ensures
        Ok::<Seq<StepView>, FaultView>(steps_view(r@)) == planned(Action::Drag { from, to }),
{
    let mut out: Vec<InputStep> = Vec::new();
    push_step(&mut out, InputStep::Move(from));
    push_step(&mut out, InputStep::Sync);
    push_step(&mut out, InputStep::Press(0x110));
    push_step(&mut out, InputStep::Sync);
    let ghost head = seq![
        StepView::Move(from),
        StepView::Sync,
        StepView::Press(0x110),
        StepView::Sync,
    ];
    assert(steps_view(out@) =~= head + drag_moves(from, to, 0));
    let mut nth: u32 = 0;
    while nth < DRAG_STEPS
        invariant
            nth <= DRAG_STEPS,
            steps_view(out@) == head + drag_moves(from, to, nth as nat),
        decreases DRAG_STEPS - nth,
    {
        nth = nth + 1;
        let ghost was = steps_view(out@);
        push_step(&mut out, InputStep::Check);
        push_step(&mut out, InputStep::MoveBetween { from, to, nth });
        push_step(&mut out, InputStep::Sync);
        push_step(&mut out, InputStep::Sleep(10));
        assert(steps_view(out@) =~= head + drag_moves(from, to, nth as nat));
    }
    let ghost was = steps_view(out@);
    push_step(&mut out, InputStep::Release(0x110));
    assert(steps_view(out@) =~= head + drag_moves(from, to, DRAG_STEPS as nat) + seq![
        StepView::Release(0x110),
    ]);
    out
}

/// Plans the steps of an action.
pub fn plan(action: &Action) -> (r: Result<Vec<InputStep>, Fault>)
    ensures
        match planned(*action) {
            Ok(steps) => r matches Ok(v) && steps_view(v@) == steps,
            Err(f) => r matches Err(e) && e@ == f,
        },
{
    match action {
        Action::Click { at, button } => {
            let code: u32 = button_code(*button);
            let mut out: Vec<InputStep> = Vec::new();
            push_step(&mut out, InputStep::Move(*at));
            push_step(&mut out, InputStep::Sync);
            push_step(&mut out, InputStep::Check);
            push_step(&mut out, InputStep::Press(code));
            push_step(&mut out, InputStep::Sync);
            push_step(&mut out, InputStep::Sleep(20));
            push_step(&mut out, InputStep::Check);
            push_step(&mut out, InputStep::Release(code));
            assert(steps_view(out@) =~= planned(*action)->Ok_0);
            Ok(out)
        },
        Action::Drag { from, to } => Ok(plan_drag(*from, *to)),
        Action::Scroll { at, dx, dy } => {
            let zero = Binary64::from_u32(0);
            let mut out: Vec<InputStep> = Vec::new();
            push_step(&mut out, InputStep::Move(*at));
            push_step(&mut out, InputStep::Sync);
            push_step(&mut out, InputStep::Check);
            push_step(&mut out, InputStep::Wheel);
            if !dy.same(zero) {
                push_step(&mut out, InputStep::Vertical(*dy));
            }
            if !dx.same(zero) {
                push_step(&mut out, InputStep::Horizontal(*dx));
            }
            push_step(&mut out, InputStep::Frame);
            assert(steps_view(out@) =~= planned(*action)->Ok_0);
            Ok(out)
        },
        Action::Text { text } => Ok(plan_text(text.as_str())),
        Action::Key { key, modifiers } => {
            match key_symbol(key.as_str()) {
                Err(e) => Err(e),
                Ok(symbol) => {
                    let mut symbols: Vec<String> = Vec::new();
                    symbols.push(symbol);
                    assert(texts(symbols@) =~= seq![symbol@]);
                    let mask: u32 = mask_of(modifiers);
                    let mut out: Vec<InputStep> = Vec::new();
                    push_step(&mut out, InputStep::Keymap(make_keymap(&symbols)));
                    push_step(&mut out, InputStep::Sync);
                    push_step(&mut out, InputStep::Check);
                    push_step(&mut out, InputStep::Modifiers(mask));
                    push_step(&mut out, InputStep::Sync);
                    push_step(&mut out, InputStep::KeyDown(FIRST_KEY));
                    push_step(&mut out, InputStep::Sync);
                    push_step(&mut out, InputStep::Sleep(2));
                    push_step(&mut out, InputStep::KeyUp(FIRST_KEY));
                    push_step(&mut out, InputStep::Modifiers(0));
                    assert(steps_view(out@) =~= planned(*action)->Ok_0);
                    Ok(out)
                },
            }
        },
        _ => Err(Fault::unsupported("此操作不是虚拟输入动作")),
    }
}

/// What is held down.
pub struct Held {
    pub buttons: Seq<u32>,
    pub keys: Seq<u32>,
    pub modifiers: u32,
}

/// Nothing held down.
pub open spec fn nothing_held() -> Held {
    Held { buttons: Seq::empty(), keys: Seq::empty(), modifiers: 0 }
}

/// What is held down after a step.
pub open spec fn held_after(h: Held, step: StepView) -> Held {
    match step {
        StepView::Press(b) => Held { buttons: h.buttons.push(b), ..h },
        StepView::Release(b) => Held { buttons: h.buttons.filter(|x: u32| x != b), ..h },
        StepView::KeyDown(k) => Held { keys: h.keys.push(k), ..h },
        StepView::KeyUp(k) => Held { keys: h.keys.filter(|x: u32| x != k), ..h },
        StepView::Modifiers(m) => Held { modifiers: m, ..h },
        _ => h,
    }
}

/// What is held down after some steps.
pub open spec fn held_along(h: Held, steps: Seq<StepView>) -> Held
    decreases steps.len(),
{
    if steps.len() == 0 {
        h
    } else {
        held_after(held_along(h, steps.drop_last()), steps.last())
    }
}

/// Remembers what an action holds down, so that it can be let go at any point.
pub struct InputGuard {
    pub buttons: Vec<u32>,
    pub keys: Vec<u32>,
    pub modifiers: u32,
}

impl View for InputGuard {
    type V = Held;

    open spec fn view(&self) -> Held {
        Held { buttons: self.buttons@, keys: self.keys@, modifiers: self.modifiers }
    }
}

/// The steps that let go of everything: keys, modifiers, then buttons.
pub open spec fn letting_go(h: Held) -> Seq<StepView> {
    h.keys.map_values(|k: u32| StepView::KeyUp(k)) + seq![StepView::Modifiers(0)]
        + h.buttons.map_values(|b: u32| StepView::Release(b)) + seq![StepView::Frame]
}

fn without(v: &Vec<u32>, x: u32) -> (r: Vec<u32>)
    ensures
        r@ == v@.filter(|y: u32| y != x),
{
    let ghost p = |y: u32| y != x;
    let mut out: Vec<u32> = Vec::new();
    let mut i: usize = 0;
    proof {
        reveal(Seq::filter);
        assert(v@.take(0) =~= Seq::empty());
    }
    while i < v.len()
        invariant
            i <= v@.len(),
            p == (|y: u32| y != x),
            out@ == v@.take(i as int).filter(p),
        decreases v@.len() - i,
    {
        proof {
            reveal(Seq::filter);
            assert(v@.take(i + 1).drop_last() =~= v@.take(i as int));
        }
        if v[i] != x {
            out.push(v[i]);
        }
        i = i + 1;
    }
    assert(v@.take(i as int) =~= v@);
    out
}

impl InputGuard {
    pub fn new() -> (r: Self)
        ensures
            r@ == nothing_held(),
    {
        let r = InputGuard { buttons: Vec::new(), keys: Vec::new(), modifiers: 0 };
        assert(r.buttons@ =~= Seq::empty());
        assert(r.keys@ =~= Seq::empty());
        r
    }

    /// A step is about to be performed.
    pub fn note(&mut self, step: &InputStep)
        ensures
            final(self)@ == held_after(old(self)@, step@),
    {
        match step {
            InputStep::Press(b) => {
                self.buttons.push(*b);
            },
            InputStep::Release(b) => {
                self.buttons = without(&self.buttons, *b);
            },
            InputStep::KeyDown(k) => {
                self.keys.push(*k);
            },
            InputStep::KeyUp(k) => {
                self.keys = without(&self.keys, *k);
            },
            InputStep::Modifiers(m) => {
                self.modifiers = *m;
            },
            _ => {},
        }
    }

    /// The steps that let go of everything that is held down.
    pub fn release_all(&self) -> (r: Vec<InputStep>)
        ensures
            steps_view(r@) == letting_go(self@),
    {
        let mut out: Vec<InputStep> = Vec::new();
        let ghost ups = self.keys@.map_values(|k: u32| StepView::KeyUp(k));
        let ghost frees = self.buttons@.map_values(|b: u32| StepView::Release(b));
        let mut i: usize = 0;
        assert(steps_view(out@) =~= ups.take(0));
        while i < self.keys.len()
            invariant
                i <= self.keys@.len(),
                ups == self.keys@.map_values(|k: u32| StepView::KeyUp(k)),
                steps_view(out@) == ups.take(i as int),
            decreases self.keys@.len() - i,
        {
            push_step(&mut out, InputStep::KeyUp(self.keys[i]));
            i = i + 1;
            assert(steps_view(out@) =~= ups.take(i as int));
        }
        assert(ups.take(i as int) =~= ups);
        push_step(&mut out, InputStep::Modifiers(0));
        let ghost head = ups + seq![StepView::Modifiers(0)];
        assert(steps_view(out@) =~= head + frees.take(0));
        let mut j: usize = 0;
        while j < self.buttons.len()
            invariant
                j <= self.buttons@.len(),
                frees == self.buttons@.map_values(|b: u32| StepView::Release(b)),
                steps_view(out@) == head + frees.take(j as int),
            decreases self.buttons@.len() - j,
        {
            push_step(&mut out, InputStep::Release(self.buttons[j]));
            j = j + 1;
            assert(steps_view(out@) =~= head + frees.take(j as int));
        }
        assert(frees.take(j as int) =~= frees);
        push_step(&mut out, InputStep::Frame);
        assert(steps_view(out@) =~= letting_go(self@));
        out
    }
}

/// Letters, digits and the underscore.
pub open spec fn plain(c: char) -> bool {
    ('a' <= c && c <= 'z') || ('A' <= c && c <= 'Z') || ('0' <= c && c <= '9') || c == '_'
}

/// Whether a text is made of letters, digits and underscores.
pub open spec fn plain_name(s: Seq<char>) -> bool {
    forall|i: int| 0 <= i < s.len() ==> plain(#[trigger] s[i])
}

proof fn numerals_are_plain(n: nat)
    ensures
        plain_name(numeral(n, 16)),
        plain_name(upper_hex(numeral(n, 16))),
    decreases n,
{
    assert(forall|d: nat| d < 16 ==> plain(#[trigger] digit(d)));
    if n >= 16 {
        numerals_are_plain(n / 16);
    }
    let s = numeral(n, 16);
    assert forall|i: int| 0 <= i < s.len() implies plain(#[trigger] s[i]) by {
        if n >= 16 && i < s.len() - 1 {
            assert(s[i] == numeral(n / 16, 16)[i]);
        }
    }
    assert forall|i: int| 0 <= i < s.len() implies plain(#[trigger] upper_hex(s)[i]) by {
        assert(plain(s[i]));
    }
}

proof fn character_symbols_are_plain(c: char)
    ensures
        plain_name(char_symbol_of(c)),
{
    reveal_strlit("0x");
    reveal_strlit("U");
    numerals_are_plain(c as nat);
    let s = upper_hex(numeral(c as nat, 16));
    assert(plain_name(zero_filled(s, 4)));
}

/// A symbol in a keymap is a plain name, whatever key was asked for: no key name can reach
/// beyond its place in the keymap.
pub proof fn key_names_cannot_reach_into_the_keymap(key: Seq<char>)
    ensures
        key_symbol_of(key) matches Some(symbol) ==> plain_name(symbol),
{
    if key.len() == 1 {
        character_symbols_are_plain(key[0]);
    } else {
        reveal_strlit("Return");
        reveal_strlit("Escape");
        reveal_strlit("Tab");
        reveal_strlit("space");
        reveal_strlit("BackSpace");
        reveal_strlit("Delete");
        reveal_strlit("Insert");
        reveal_strlit("Home");
        reveal_strlit("End");
        reveal_strlit("Page_Up");
        reveal_strlit("Page_Down");
        reveal_strlit("Left");
        reveal_strlit("Right");
        reveal_strlit("Up");
        reveal_strlit("Down");
        reveal_strlit("F1");
        reveal_strlit("F2");
        reveal_strlit("F3");
        reveal_strlit("F4");
        reveal_strlit("F5");
        reveal_strlit("F6");
        reveal_strlit("F7");
        reveal_strlit("F8");
        reveal_strlit("F9");
        reveal_strlit("F10");
        reveal_strlit("F11");
        reveal_strlit("F12");
    }
}

/// The same holds of every character of a typed text.
pub proof fn typed_text_cannot_reach_into_the_keymap(c: char)
    ensures
        plain_name(text_symbol_of(c)),
{
    reveal_strlit("Return");
    reveal_strlit("Tab");
    character_symbols_are_plain(c);
}

proof fn held_over_both(h: Held, s: Seq<StepView>, t: Seq<StepView>)
    ensures
        held_along(h, s + t) == held_along(held_along(h, s), t),
    decreases t.len(),
{
    if t.len() == 0 {
        assert(s + t =~= s);
    } else {
        held_over_both(h, s, t.drop_last());
        assert((s + t).drop_last() =~= s + t.drop_last());
        assert((s + t).last() == t.last());
    }
}

/// Steps that neither press nor release anything.
spec fn quiet(step: StepView) -> bool {
    match step {
        StepView::Press(_) => false,
        StepView::Release(_) => false,
        StepView::KeyDown(_) => false,
        StepView::KeyUp(_) => false,
        StepView::Modifiers(_) => false,
        _ => true,
    }
}

proof fn quiet_steps_hold_nothing(h: Held, s: Seq<StepView>)
    requires
        forall|i: int| 0 <= i < s.len() ==> quiet(#[trigger] s[i]),
    ensures
        held_along(h, s) == h,
    decreases s.len(),
{
    if s.len() > 0 {
        quiet_steps_hold_nothing(h, s.drop_last());
        assert(quiet(s[s.len() - 1]));
    }
}

proof fn drag_moves_are_quiet(from: Point, to: Point, n: nat)
    ensures
        forall|i: int|
            0 <= i < drag_moves(from, to, n).len() ==> quiet(#[trigger] drag_moves(from, to, n)[i]),
    decreases n,
{
    if n > 0 {
        drag_moves_are_quiet(from, to, (n - 1) as nat);
        let before = drag_moves(from, to, (n - 1) as nat);
        let all = drag_moves(from, to, n);
        assert forall|i: int| 0 <= i < all.len() implies quiet(#[trigger] all[i]) by {
            if i < before.len() {
                assert(all[i] == before[i]);
            }
        }
    }
}

proof fn filter_of_one(x: u32)
    ensures
        seq![x].filter(|y: u32| y != x) =~= Seq::<u32>::empty(),
{
    reveal_with_fuel(Seq::<u32>::filter, 2);
    assert(seq![x].drop_last() =~= Seq::<u32>::empty());
}

proof fn strokes_let_go(h: Held, n: nat)
    requires
        h.keys.len() == 0,
    ensures
        held_along(h, strokes(n)) == h,
    decreases n,
{
    if n > 0 {
        strokes_let_go(h, (n - 1) as nat);
        let i = (n - 1) as nat;
        let key = (FIRST_KEY + i) as u32;
        held_over_both(h, strokes(i), stroke(i));
        reveal_with_fuel(held_along, 8);
        filter_of_one(key);
        let s = stroke(i);
        assert(s.drop_last().drop_last().drop_last().drop_last().drop_last().drop_last().drop_last()
            =~= Seq::<StepView>::empty());
        assert(h.keys.push(key) =~= seq![key]);
        assert(h.keys =~= Seq::<u32>::empty());
    }
}

proof fn texts_let_go(h: Held, chars: Seq<char>)
    requires
        h.keys.len() == 0,
    ensures
        held_along(h, text_plan(chars)) == h,
    decreases chars.len(),
{
    if chars.len() > 0 {
        let chunk = if chars.len() <= CHUNK {
            chars
        } else {
            chars.take(CHUNK as int)
        };
        let head = seq![
            StepView::Check,
            StepView::Keymap(keymap_of(symbols_of(chunk))),
            StepView::Sync,
        ];
        quiet_steps_hold_nothing(h, head);
        held_over_both(h, head, strokes(chunk.len()));
        strokes_let_go(h, chunk.len());
        if chars.len() > CHUNK {
            texts_let_go(h, chars.skip(CHUNK as int));
            held_over_both(h, chunk_plan(chunk), text_plan(chars.skip(CHUNK as int)));
        }
    }
}

proof fn clicks_let_go(action: Action)
    requires
        action is Click,
    ensures
        held_along(nothing_held(), planned(action)->Ok_0) == nothing_held(),
{
    let h = nothing_held();
    let b = button_code_of(action->Click_button);
    let s = planned(action)->Ok_0;
    reveal_with_fuel(held_along, 9);
    filter_of_one(b);
    assert(h.buttons.push(b) =~= seq![b]);
    assert(
    s.drop_last().drop_last().drop_last().drop_last().drop_last().drop_last().drop_last().drop_last()
        =~= Seq::<StepView>::empty());
}

proof fn drags_let_go(action: Action)
    requires
        action is Drag,
    ensures
        held_along(nothing_held(), planned(action)->Ok_0) == nothing_held(),
{
    let h = nothing_held();
    let from = action->Drag_from;
    let to = action->Drag_to;
    let b: u32 = 0x110;
    let head = seq![StepView::Move(from), StepView::Sync, StepView::Press(0x110), StepView::Sync];
    let moves = drag_moves(from, to, DRAG_STEPS as nat);
    let end = seq![StepView::Release(0x110)];
    drag_moves_are_quiet(from, to, DRAG_STEPS as nat);
    held_over_both(h, head + moves, end);
    held_over_both(h, head, moves);
    let pressed = held_along(h, head);
    quiet_steps_hold_nothing(pressed, moves);
    reveal_with_fuel(held_along, 5);
    assert(head.drop_last().drop_last().drop_last().drop_last() =~= Seq::<StepView>::empty());
    assert(end.drop_last() =~= Seq::<StepView>::empty());
    assert(h.buttons.push(b) =~= seq![b]);
    filter_of_one(b);
}

proof fn keys_let_go(action: Action)
    requires
        action is Key,
        planned(action) is Ok,
    ensures
        held_along(nothing_held(), planned(action)->Ok_0) == nothing_held(),
{
    let h = nothing_held();
    let s = planned(action)->Ok_0;
    reveal_with_fuel(held_along, 11);
    filter_of_one(FIRST_KEY);
    assert(h.keys.push(FIRST_KEY) =~= seq![FIRST_KEY]);
    assert(
    s.drop_last().drop_last().drop_last().drop_last().drop_last().drop_last().drop_last().drop_last().drop_last().drop_last()
        =~= Seq::<StepView>::empty());
}

/// A finished action holds nothing down: whatever it pressed it has released.
pub proof fn finished_actions_hold_nothing(action: Action)
    ensures
        planned(action) matches Ok(steps) ==> held_along(nothing_held(), steps) == nothing_held(),
{
    if planned(action) is Ok {
        match action {
            Action::Click { .. } => {
                clicks_let_go(action);
            },
            Action::Drag { .. } => {
                drags_let_go(action);
            },
            Action::Scroll { .. } => {
                quiet_steps_hold_nothing(nothing_held(), planned(action)->Ok_0);
            },
            Action::Text { text } => {
                texts_let_go(nothing_held(), text@);
            },
            Action::Key { .. } => {
                keys_let_go(action);
            },
            _ => {},
        }
    }
}

proof fn releasing_keys(h: Held, keys: Seq<u32>)
    ensures
        ({
            let end = held_along(h, keys.map_values(|k: u32| StepView::KeyUp(k)));
            &&& end.buttons == h.buttons
            &&& end.modifiers == h.modifiers
            &&& forall|i: int|
                0 <= i < end.keys.len() ==> h.keys.contains(#[trigger] end.keys[i])
                    && !keys.contains(end.keys[i])
        }),
    decreases keys.len(),
{
    let ups = keys.map_values(|k: u32| StepView::KeyUp(k));
    if keys.len() > 0 {
        let less = keys.drop_last();
        releasing_keys(h, less);
        assert(ups.drop_last() =~= less.map_values(|k: u32| StepView::KeyUp(k)));
        let middle = held_along(h, ups.drop_last());
        let last = keys.last();
        let p = |x: u32| x != last;
        let end = held_along(h, ups);
        assert(end.keys == middle.keys.filter(p));
        assert forall|i: int| 0 <= i < end.keys.len() implies h.keys.contains(
            #[trigger] end.keys[i],
        ) && !keys.contains(end.keys[i]) by {
            middle.keys.lemma_filter_pred(p, i);
            middle.keys.lemma_filter_contains_rev(p, end.keys[i]);
            let k = choose|k: int| 0 <= k < middle.keys.len() && middle.keys[k] == end.keys[i];
            assert(h.keys.contains(middle.keys[k]));
            assert(!less.contains(end.keys[i]));
            if keys.contains(end.keys[i]) {
                let m = choose|m: int| 0 <= m < keys.len() && keys[m] == end.keys[i];
                assert(m < less.len());
                assert(less[m] == end.keys[i]);
            }
        }
    } else {
        assert(ups =~= Seq::<StepView>::empty());
        assert forall|i: int| 0 <= i < h.keys.len() implies h.keys.contains(#[trigger] h.keys[i])
            by {
        }
    }
}

proof fn releasing_buttons(h: Held, buttons: Seq<u32>)
    ensures
        ({
            let end = held_along(h, buttons.map_values(|b: u32| StepView::Release(b)));
            &&& end.keys == h.keys
            &&& end.modifiers == h.modifiers
            &&& forall|i: int|
                0 <= i < end.buttons.len() ==> h.buttons.contains(#[trigger] end.buttons[i])
                    && !buttons.contains(end.buttons[i])
        }),
    decreases buttons.len(),
{
    let frees = buttons.map_values(|b: u32| StepView::Release(b));
    if buttons.len() > 0 {
        let less = buttons.drop_last();
        releasing_buttons(h, less);
        assert(frees.drop_last() =~= less.map_values(|b: u32| StepView::Release(b)));
        let middle = held_along(h, frees.drop_last());
        let last = buttons.last();
        let p = |x: u32| x != last;
        let end = held_along(h, frees);
        assert(end.buttons == middle.buttons.filter(p));
        assert forall|i: int| 0 <= i < end.buttons.len() implies h.buttons.contains(
            #[trigger] end.buttons[i],
        ) && !buttons.contains(end.buttons[i]) by {
            middle.buttons.lemma_filter_pred(p, i);
            middle.buttons.lemma_filter_contains_rev(p, end.buttons[i]);
            let k = choose|k: int|
                0 <= k < middle.buttons.len() && middle.buttons[k] == end.buttons[i];
            assert(h.buttons.contains(middle.buttons[k]));
            assert(!less.contains(end.buttons[i]));
            if buttons.contains(end.buttons[i]) {
                let m = choose|m: int| 0 <= m < buttons.len() && buttons[m] == end.buttons[i];
                assert(m < less.len());
                assert(less[m] == end.buttons[i]);
            }
        }
    } else {
        assert(frees =~= Seq::<StepView>::empty());
    }
}

/// Letting go works at any point of any action: afterwards nothing is held down, however
/// the action was interrupted.
pub proof fn interrupted_actions_let_go(steps: Seq<StepView>)
    ensures
        ({
            let h = held_along(nothing_held(), steps);
            held_along(nothing_held(), steps + letting_go(h)) == nothing_held()
        }),
{
    let h = held_along(nothing_held(), steps);
    let ups = h.keys.map_values(|k: u32| StepView::KeyUp(k));
    let calm = seq![StepView::Modifiers(0)];
    let frees = h.buttons.map_values(|b: u32| StepView::Release(b));
    let end = seq![StepView::Frame];
    held_over_both(nothing_held(), steps, letting_go(h));
    held_over_both(h, ups + calm + frees, end);
    held_over_both(h, ups + calm, frees);
    held_over_both(h, ups, calm);
    releasing_keys(h, h.keys);
    let a = held_along(h, ups);
    if a.keys.len() > 0 {
        assert(h.keys.contains(a.keys[0]));
    }
    assert(a.keys =~= Seq::<u32>::empty());
    reveal_with_fuel(held_along, 2);
    assert(calm.drop_last() =~= Seq::<StepView>::empty());
    let b = held_along(a, calm);
    releasing_buttons(b, h.buttons);
    let c = held_along(b, frees);
    if c.buttons.len() > 0 {
        assert(b.buttons.contains(c.buttons[0]));
    }
    assert(c.buttons =~= Seq::<u32>::empty());
    assert(end.drop_last() =~= Seq::<StepView>::empty());
}

/// The keys that a text is typed with have codes of their own in its keymap, below those
/// of the modifiers.
pub proof fn typed_keys_fit_the_keymap(i: nat)
    requires
        i < CHUNK,
    ensures
        FIRST_KEY + i + 8 == i + 38,
        8 <= i + 38 < 250,
{
}

} // verus!
