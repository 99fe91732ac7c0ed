//! Controls and applications in which background writing was verified to disturb nobody.
use vstd::prelude::*;

use crate::path::{bytes_of, route, same_path};
use crate::text::{
    begins, chars_of, same, split, split_on, split_words, starts_with, texts, words,
};

verus! {

/// Program of the verified editor. A store path pins the complete build, unlike a name that
/// any application can present.
pub const EDITOR: &'static str = "/nix/store/kj3j3wb6pyqqn3x6makv05wkam5lf08f-gnome-text-editor-50.1/bin/.gnome-text-editor-wrapped";

/// Beginning of the path of the verified toolkit library.
pub const GTK: &'static str = "/nix/store/4j905cjgk8idkzg4szhyryzjx2q1b6br-gtk4-4.22.4/lib/libgtk-4.so.";

/// Whether a bit of a word is set.
pub open spec fn bit(word: u32, n: u32) -> bool {
    (word & (1u32 << n)) != 0
}

/// The first word of states, or none set.
pub open spec fn first_states(states: Seq<u32>) -> u32 {
    if states.len() > 0 {
        states[0]
    } else {
        0
    }
}

/// Whether a control may be written: a text box that offers editing and whose states are
/// editable, sensitive, of several lines and not defunct.
pub open spec fn writable(role: Seq<char>, interfaces: Seq<Seq<char>>, states: Seq<u32>) -> bool {
    let flags = first_states(states);
    &&& role == "text box"@
    &&& interfaces.contains("org.a11y.atspi.EditableText"@)
    &&& bit(flags, 7)
    &&& bit(flags, 24)
    &&& bit(flags, 17)
    &&& !bit(flags, 6)
}

/// Whether a control may be written.
pub fn editable(role: &str, interfaces: &[String], states: &[u32]) -> (r: bool)
    ensures
        r == writable(role@, texts(interfaces@), states@),
{
    let flags: u32 = if states.len() > 0 {
        states[0]
    } else {
        0
    };
    let mut found = false;
    let mut i: usize = 0;
    while i < interfaces.len()
        invariant
            i <= interfaces@.len(),
            found == exists|j: int|
                0 <= j < i && #[trigger] texts(interfaces@)[j] == "org.a11y.atspi.EditableText"@,
        decreases interfaces@.len() - i,
    {
        let ghost before = found;
        if same(interfaces[i].as_str(), "org.a11y.atspi.EditableText") {
            found = true;
        }
        assert(texts(interfaces@)[i as int] == interfaces@[i as int]@);
        i = i + 1;
    }
    assert(found == texts(interfaces@).contains("org.a11y.atspi.EditableText"@));
    same(role, "text box") && found && flags & (1u32 << 7) != 0 && flags & (1u32 << 24) != 0
        && flags & (1u32 << 17) != 0 && flags & (1u32 << 6) == 0
}

/// Whether a line of a memory map is of the verified toolkit library.
pub open spec fn maps_gtk(line: Seq<char>) -> bool {
    let w = words(line);
    w.len() > 0 && begins(w.last(), GTK@)
}

/// Whether a process has the verified toolkit library in its memory map.
pub open spec fn uses_gtk(maps: Seq<char>) -> bool {
    exists|i: int| 0 <= i < split_on(maps, '\n').len() && maps_gtk(#[trigger] split_on(maps, '\n')[i])
}

fn has_gtk(maps: &str) -> (r: bool)
    ensures
        r == uses_gtk(maps@),
{
    let lines = split(maps, '\n');
    let ghost all = split_on(maps@, '\n');
    let mut i: usize = 0;
    assert(texts(lines@).len() == lines@.len());
    while i < lines.len()
        invariant
            i <= lines@.len(),
            all == split_on(maps@, '\n'),
            texts(lines@) == all,
            lines@.len() == all.len(),
            forall|j: int| 0 <= j < i ==> !maps_gtk(#[trigger] all[j]),
        decreases lines@.len() - i,
    {
        let line = chars_of(lines[i].as_str());
        assert(all[i as int] == lines@[i as int]@);
        assert(line@.skip(0) =~= line@);
        let parts = split_words(&line, 0);
        assert(texts(parts@).len() == parts@.len());
        let n: usize = parts.len();
        if n > 0 {
            assert(texts(parts@)[n - 1] == parts@[n - 1]@);
            if starts_with(parts[n - 1].as_str(), GTK) {
                assert(maps_gtk(all[i as int]));
                return true;
            }
        }
        assert(!maps_gtk(all[i as int]));
        i = i + 1;
    }
    false
}

/// Whether an application is the verified editor: by its program, its toolkit, that it
/// still runs, and the library in its memory map.
pub fn editor(
    known_machine: bool,
    executable: &Vec<u8>,
    toolkit: &str,
    version: &str,
    alive: bool,
    maps: Option<&str>,
) -> (r: bool)
    ensures
        r == (known_machine && route(executable@) == route(vstd::utf8::encode_utf8(EDITOR@))
            && toolkit@ == "GTK"@ && version@ == "4.22.4"@ && alive && (maps matches Some(text) && uses_gtk(text@))),
{
    if !known_machine || !same(toolkit, "GTK") || !same(version, "4.22.4") || !alive {
        return false;
    }
    if !same_path(executable, &bytes_of(EDITOR)) {
        return false;
    }
    match maps {
        Some(text) => has_gtk(text),
        None => false,
    }
}

} // verus!
