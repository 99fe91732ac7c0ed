//! Which keys type a text, and what the keymaps say of them.
use vstd::prelude::*;

use crate::backend::input::{
    char_symbol, chunk_plan, code_line, code_lines, make_keymap, plan, steps_view, stroke, strokes,
    symbol_line, symbol_lines, symbols_of, text_plan, text_symbol_of, InputStep, StepView,
};
use crate::model::{Action, Fault};
use crate::text::{numeral, texts, to_base, to_upper_hex, zero_fill, zero_filled};

verus! {

proof fn lemma_strokes(n: nat, i: int)
    requires
        0 <= i < n,
    ensures
        strokes(n).len() == 7 * n,
        strokes(n).subrange(7 * i, 7 * i + 7) == stroke(i as nat),
    decreases n,
{
    lemma_stroke_count(n);
    let last = (n - 1) as nat;
    lemma_stroke_count(last);
    if i == n - 1 {
        assert(strokes(n).subrange(7 * i, 7 * i + 7) =~= stroke(i as nat));
    } else {
        lemma_strokes(last, i);
        assert(strokes(n).subrange(7 * i, 7 * i + 7) =~= strokes(last).subrange(
            7 * i,
            7 * i + 7,
        ));
    }
}

proof fn lemma_stroke_count(n: nat)
    ensures
        strokes(n).len() == 7 * n,
    decreases n,
{
    if n > 0 {
        lemma_stroke_count((n - 1) as nat);
    }
}

/// The characters that are typed with the same keymap as one of a text: two hundred at most.
pub open spec fn chunk_around(text: Seq<char>, k: int) -> Seq<char> {
    let from = k - k % 200;
    let to = if from + 200 <= text.len() {
        from + 200
    } else {
        text.len() as int
    };
    text.subrange(from, to)
}

proof fn lemma_chunk(text: Seq<char>, k: int)
    requires
        0 <= k < text.len(),
    ensures
        ({
            let chunk = chunk_around(text, k);
            let at = (k - k % 200) / 200 * 1403;
            &&& at + 3 + 7 * chunk.len() <= text_plan(text).len()
            &&& text_plan(text).subrange(at, at + 3 + 7 * chunk.len()) == chunk_plan(chunk)
        }),
    decreases text.len(),
{
    let chunk = chunk_around(text, k);
    let at = (k - k % 200) / 200 * 1403;
    if text.len() <= 200 {
        lemma_stroke_count(text.len());
        if k < 200 {
            assert(chunk =~= text);
            assert(text_plan(text).subrange(0, 3 + 7 * chunk.len() as int) =~= chunk_plan(text));
        }
    } else {
        let first = text.take(200);
        lemma_stroke_count(200);
        assert(first.len() == 200);
        if k < 200 {
            assert(chunk =~= first);
            assert(text_plan(text).subrange(0, 1403) =~= chunk_plan(first));
        } else {
            let rest = text.skip(200);
            lemma_chunk(rest, k - 200);
            assert((k - 200) % 200 == k % 200);
            assert(chunk_around(rest, k - 200) =~= chunk);
            let before = at - 1403;
            assert((k - 200 - k % 200) / 200 * 1403 == before);
            assert(text_plan(text).subrange(at, at + 3 + 7 * chunk.len()) =~= text_plan(
                rest,
            ).subrange(before, before + 3 + 7 * chunk.len()));
        }
    }
}

/// Every character of a text is typed by a key of its own: after the keymap of its two hundred
/// was set, the key of its place in it goes down and up again, in the order of the text. A line
/// end is the key `Return` and a tab the key `Tab`; any other character is its own symbol.
pub proof fn characters_are_typed_in_order(
    text: String,
    symbols: &Vec<String>,
    map: String,
    r: Result<Vec<InputStep>, Fault>,
    k: int,
)
    requires
        call_ensures(plan, (&Action::Text { text },), r),
        call_ensures(make_keymap, (symbols,), map),
        0 <= k < text@.len(),
        symbols@.len() == chunk_around(text@, k).len(),
        forall|j: int|
            0 <= j < symbols@.len() ==> {
                let c = chunk_around(text@, k)[j];
                if c == '\n' {
                    (#[trigger] symbols@[j])@ == "Return"@
                } else if c == '\t' {
                    symbols@[j]@ == "Tab"@
                } else {
                    exists|s: String|
                        #[trigger] call_ensures(char_symbol, (c,), s) && s@ == symbols@[j]@
                }
            },
    ensures
        r matches Ok(steps) && {
            let at = k / 200 * 1403;
            let key = at + 3 + 7 * (k % 200);
            &&& key + 7 <= steps@.len()
            &&& steps@[at] is Check
            &&& (steps@[at + 1] matches InputStep::Keymap(m) && m@ == map@)
            &&& steps@[at + 2] is Sync
            &&& steps@[key] is Check
            &&& (steps@[key + 1] matches InputStep::KeyDown(code) && code == 30 + k % 200)
            &&& steps@[key + 2] is Sync
            &&& (steps@[key + 3] matches InputStep::Sleep(n) && n == 2)
            &&& (steps@[key + 4] matches InputStep::KeyUp(code) && code == 30 + k % 200)
            &&& steps@[key + 5] is Sync
            &&& (steps@[key + 6] matches InputStep::Sleep(n) && n == 2)
        },
{
    let steps = r->Ok_0@;
    let v = steps_view(steps);
    let chunk = chunk_around(text@, k);
    let at = k / 200 * 1403;
    let i = k % 200;
    assert((k - k % 200) / 200 == k / 200);
    lemma_chunk(text@, k);
    lemma_strokes(chunk.len(), i);
    let part = v.subrange(at, at + 3 + 7 * chunk.len());
    assert(part == chunk_plan(chunk));
    assert(texts(symbols@) =~= symbols_of(chunk)) by {
        assert forall|j: int| 0 <= j < chunk.len() implies texts(symbols@)[j] == symbols_of(
            chunk,
        )[j] by {
            assert(texts(symbols@)[j] == symbols@[j]@);
            assert(symbols_of(chunk)[j] == text_symbol_of(chunk[j]));
        }
    }
    assert(part[0] == v[at] && part[1] == v[at + 1] && part[2] == v[at + 2]);
    assert(v[at] == steps[at]@ && v[at + 1] == steps[at + 1]@ && v[at + 2] == steps[at + 2]@);
    let key = at + 3 + 7 * i;
    let s = strokes(chunk.len());
    let mine = s.subrange(7 * i, 7 * i + 7);
    assert forall|j: int| 0 <= j < 7 implies (#[trigger] steps[key + j])@ == stroke(
        i as nat,
    )[j] by {
        assert(mine[j] == s[7 * i + j]);
        assert(part[3 + 7 * i + j] == s[7 * i + j]);
        assert(v[key + j] == part[3 + 7 * i + j]);
        assert(v[key + j] == steps[key + j]@);
    }
    assert(steps[key + 0]@ == StepView::Check);
    assert(steps[key + 1]@ == StepView::KeyDown((30 + i) as u32));
    assert(steps[key + 2]@ == StepView::Sync);
    assert(steps[key + 3]@ == StepView::Sleep(2));
    assert(steps[key + 4]@ == StepView::KeyUp((30 + i) as u32));
    assert(steps[key + 5]@ == StepView::Sync);
    assert(steps[key + 6]@ == StepView::Sleep(2));
}

/// A character up to 255 is named by its number in hexadecimal, any other by `U` and its number
/// in capitals, of four digits at least.
pub proof fn characters_are_named_by_their_number(
    c: char,
    r: String,
    hex: String,
    lower: &str,
    capital: String,
    upper: &str,
    filled: String,
)
    requires
        call_ensures(char_symbol, (c,), r),
        call_ensures(to_base, (c as u64, 16), hex),
        lower@ == hex@,
        call_ensures(to_upper_hex, (lower,), capital),
        upper@ == capital@,
        call_ensures(zero_fill, (upper, 4), filled),
    ensures
        c <= '\u{ff}' ==> r@ == seq!['0', 'x'] + hex@,
        c > '\u{ff}' ==> r@ == seq!['U'] + filled@,
{
    reveal_strlit("0x");
    reveal_strlit("U");
    assert("0x"@ =~= seq!['0', 'x']);
    assert("U"@ =~= seq!['U']);
}

/// Whether a text holds a line somewhere.
pub open spec fn holds(text: Seq<char>, line: Seq<char>) -> bool {
    exists|before: Seq<char>, behind: Seq<char>| text == #[trigger] (before + line + behind)
}

proof fn lemma_inside(text: Seq<char>, left: Seq<char>, right: Seq<char>, line: Seq<char>)
    requires
        holds(text, line),
    ensures
        holds(left + text + right, line),
{
    let (b, e) = choose|b: Seq<char>, e: Seq<char>| text == #[trigger] (b + line + e);
    assert(left + text + right =~= (left + b) + line + (e + right));
}

proof fn lemma_codes(n: nat, i: int)
    requires
        0 <= i < n,
    ensures
        holds(code_lines(n), code_line(i as nat)),
    decreases n,
{
    let last = (n - 1) as nat;
    if i == n - 1 {
        assert(code_lines(n) =~= code_lines(last) + code_line(last) + Seq::<char>::empty());
    } else {
        lemma_codes(last, i);
        lemma_inside(code_lines(last), Seq::empty(), code_line(last), code_line(i as nat));
        assert(code_lines(n) =~= Seq::<char>::empty() + code_lines(last) + code_line(last));
    }
}

proof fn lemma_symbols(symbols: Seq<Seq<char>>, i: int)
    requires
        0 <= i < symbols.len(),
    ensures
        holds(symbol_lines(symbols), symbol_line(i as nat, symbols[i])),
    decreases symbols.len(),
{
    let rest = symbols.drop_last();
    let n = (symbols.len() - 1) as nat;
    let line = symbol_line(n, symbols.last());
    if i == n {
        assert(symbol_lines(symbols) =~= symbol_lines(rest) + line + Seq::<char>::empty());
    } else {
        lemma_symbols(rest, i);
        assert(rest[i] == symbols[i]);
        lemma_inside(
            symbol_lines(rest),
            Seq::empty(),
            line,
            symbol_line(i as nat, symbols[i]),
        );
        assert(symbol_lines(symbols) =~= Seq::<char>::empty() + symbol_lines(rest) + line);
    }
}

/// A keymap gives each of its keys a code that is eight more than the one of input events, and
/// under the same name the symbol of its place. The modifiers are what their bits say: shift,
/// control, alt as the first and super as the fourth of the others.
pub proof fn keymaps_name_every_key(symbols: &Vec<String>, map: String, i: int)
    requires
        call_ensures(make_keymap, (symbols,), map),
        0 <= i < symbols@.len(),
    ensures
        ({
            let name = "<K"@ + zero_filled(numeral(i as nat, 10), 3) + ">"@;
            &&& holds(map@, name + " = "@ + numeral((30 + i + 8) as nat, 10) + ";\n"@)
            &&& holds(map@, "key "@ + name + " { [ "@ + symbols@[i]@ + " ] };\n"@)
        }),
        holds(
            map@,
            " key <LFSH> { [ Shift_L ] }; key <LCTL> { [ Control_L ] }; key <LALT> { [ Alt_L ] }; key <LWIN> { [ Super_L ] }; modifier_map Shift { <LFSH> }; modifier_map Control { <LCTL> }; modifier_map Mod1 { <LALT> }; modifier_map Mod4 { <LWIN> }; }; };\0"@,
        ),
{
    let s = texts(symbols@);
    assert(s.len() == symbols@.len());
    assert(s[i] == symbols@[i]@);
    lemma_codes(s.len(), i);
    lemma_symbols(s, i);
    let head = "xkb_keymap { xkb_keycodes \"mcp\" { minimum=8; maximum=255; "@;
    let middle =
        " <LFSH>=250; <LCTL>=251; <LALT>=252; <LWIN>=253; }; xkb_types \"mcp\" { include \"complete\" }; xkb_compatibility \"mcp\" { include \"complete\" }; xkb_symbols \"mcp\" { "@;
    let tail =
        " key <LFSH> { [ Shift_L ] }; key <LCTL> { [ Control_L ] }; key <LALT> { [ Alt_L ] }; key <LWIN> { [ Super_L ] }; modifier_map Shift { <LFSH> }; modifier_map Control { <LCTL> }; modifier_map Mod1 { <LALT> }; modifier_map Mod4 { <LWIN> }; }; };\0"@;
    lemma_inside(
        code_lines(s.len()),
        head,
        middle + symbol_lines(s) + tail,
        code_line(i as nat),
    );
    assert(map@ =~= head + code_lines(s.len()) + (middle + symbol_lines(s) + tail));
    lemma_inside(
        symbol_lines(s),
        head + code_lines(s.len()) + middle,
        tail,
        symbol_line(i as nat, s[i]),
    );
    assert(map@ =~= (head + code_lines(s.len()) + middle) + symbol_lines(s) + tail);
    assert(map@ =~= (head + code_lines(s.len()) + middle + symbol_lines(s)) + tail + Seq::<
        char,
    >::empty());
}

} // verus!
