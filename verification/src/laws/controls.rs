//! What of an application's controls is read, and what is hidden.
use vstd::prelude::*;

use crate::backend::accessibility::{
    call_fault, candidate, check_owner, considered, focused, mutation_capabilities, only_one,
    refuse_action, same_number, text_length, unique_window, wants_text, window_alive, window_label,
    Candidate, Control, DesktopWindow, Walk, WalkStep,
};
use crate::backend::process::ProcessIdentity;
use crate::model::{ErrorCode, Fault};
use crate::text::texts;

verus! {

/// Whether a window is one of a process with a title, as the compositor lists it.
pub open spec fn titled(w: DesktopWindow, pid: u32, title: Seq<char>) -> bool {
    w.pid == Some(pid as i32) && (w.title matches Some(t) && t@ == title)
}

/// A window is found if it is the only one of its process with its title; of several none is.
pub proof fn windows_are_found_if_they_are_unique(
    windows: &Vec<DesktopWindow>,
    pid: u32,
    title: &str,
    r: Option<u64>,
    i: int,
    j: int,
)
    requires
        call_ensures(unique_window, (windows, pid, title), r),
        pid < 0x8000_0000,
        0 <= i < windows@.len(),
        0 <= j < windows@.len(),
        i != j,
    ensures
        titled(windows@[i], pid, title@) && titled(windows@[j], pid, title@) ==> r is None,
        r is Some ==> exists|k: int|
            0 <= k < windows@.len() && titled(#[trigger] windows@[k], pid, title@)
                && windows@[k].id == r->0,
        titled(windows@[i], pid, title@) && (forall|k: int|
            0 <= k < windows@.len() && k != i ==> !titled(#[trigger] windows@[k], pid, title@))
            ==> r == Some(windows@[i].id),
{
    let w = windows@;
    assert(only_one(w, pid, title@, r));
    assert forall|k: int| 0 <= k < w.len() implies crate::backend::accessibility::belongs(
        #[trigger] w[k],
        pid,
        title@,
    ) == titled(w[k], pid, title@) by {}
    if r is Some {
        let k = choose|k: int| {
            &&& 0 <= k < w.len()
            &&& crate::backend::accessibility::belongs(#[trigger] w[k], pid, title@)
            &&& w[k].id == r->0
            &&& forall|n: int|
                0 <= n < w.len() && n != k ==> !crate::backend::accessibility::belongs(
                    #[trigger] w[n],
                    pid,
                    title@,
                )
        };
        assert(titled(w[k], pid, title@));
    }
}

/// A candidate is a window on its application's own bus, with the process, names and versions
/// that were read of it; a window elsewhere is none.
pub proof fn candidates_lie_on_their_own_bus(
    bus: &str,
    child_bus: &str,
    root: String,
    process: &ProcessIdentity,
    application: &str,
    title: &str,
    toolkit: &str,
    version: &str,
    windows: &Vec<DesktopWindow>,
    r: Option<Candidate>,
    number: Option<u64>,
)
    requires
        call_ensures(
            candidate,
            (bus, child_bus, root, process, application, title, toolkit, version, windows),
            r,
        ),
        call_ensures(unique_window, (windows, process.pid, title), number),
    ensures
        r is Some ==> child_bus@ == bus@,
        r matches Some(c) ==> {
            &&& c.bus@ == bus@
            &&& c.root@ == root@
            &&& c.process.pid == process.pid
            &&& c.process.start_time == process.start_time
            &&& c.process.executable@ == process.executable@
            &&& c.label@ == application@ + " — "@ + title@
            &&& c.toolkit@ == toolkit@
            &&& c.version@ == version@
        },
        child_bus@ == bus@ ==> r is Some == number is Some,
        r is Some && number is Some ==> r->0.window_id == number->0,
{
    if r is Some {
        assert(r->0.process@ == process@);
    }
}

/// An application is looked at under its own name on the bus, and never this program itself;
/// numbers with and without sign stand for the same process.
pub proof fn this_program_is_not_considered(
    bus: &str,
    pid: u32,
    own: u32,
    r: bool,
    n: i32,
    same: bool,
    message: &str,
    f: Fault,
    application: &str,
    title: &str,
    label: String,
)
    requires
        call_ensures(considered, (bus, pid, own), r),
        call_ensures(same_number, (n, pid), same),
        call_ensures(call_fault, (message,), f),
        call_ensures(window_label, (application, title), label),
    ensures
        r <==> bus@.len() > 0 && bus@[0] == ':' && pid != own,
        same <==> n == pid || n == pid - 0x1_0000_0000,
        f.code == ErrorCode::BackendUnavailable && f.message@ == "AT-SPI: "@ + message@,
        label@ == application@ + " — "@ + title@,
{
    reveal_strlit(":");
    assert(":"@ =~= seq![':']);
    if bus@.len() > 0 {
        assert(bus@.take(1) =~= seq![bus@[0]]);
        assert(seq![bus@[0]][0] == bus@[0] && seq![':'][0] == ':');
    }
}

/// A bound window is there while its process lives, owns its bus, and the window answers; an
/// application that is no longer so has changed.
pub proof fn bound_windows_need_their_process(
    process: bool,
    owner: Option<u32>,
    answers: bool,
    pid: u32,
    r: bool,
    alive: bool,
    number: u32,
    c: &Candidate,
    same: Result<(), Fault>,
)
    requires
        call_ensures(window_alive, (process, owner, answers, pid), r),
        call_ensures(check_owner, (alive, number, c), same),
    ensures
        r <==> process && answers && (owner matches Some(o) && o == pid),
        same is Ok <==> alive && number == c.process.pid,
        same matches Err(e) ==> e.code == ErrorCode::StaleTarget
            && e.message@ == "应用身份已改变"@,
{
}

/// The text of a password field is never read, and of any other 4096 characters at most.
pub proof fn passwords_are_not_read(
    role: u32,
    interfaces: &Vec<String>,
    r: bool,
    count: i32,
    n: i32,
)
    requires
        call_ensures(wants_text, (role, interfaces), r),
        call_ensures(text_length, (count,), n),
    ensures
        role == 40 ==> !r,
        role != 40 ==> (r <==> texts(interfaces@).contains("org.a11y.atspi.Text"@)),
        0 <= n <= 4096,
        0 <= count <= 4096 ==> n == count,
        count < 0 ==> n == 0,
        count > 4096 ==> n == 4096,
{
}

/// A window that has the focus or is active is in use; nothing is written in the background,
/// and a client is told which of both is why.
pub proof fn windows_in_use_are_left_alone(
    states: &Vec<u32>,
    r: Result<bool, Fault>,
    actions: Vec<String>,
    using: bool,
    f: Fault,
)
    requires
        call_ensures(focused, (states,), r),
        call_ensures(mutation_capabilities, (), actions),
        call_ensures(refuse_action, (using,), f),
    ensures
        states@.len() == 0 ==> (r matches Err(e) && e.code == ErrorCode::BackendUnavailable
            && e.message@ == "缺少窗口焦点状态"@),
        states@.len() > 0 ==> (r matches Ok(b) && (b <==> states@[0] & 0x1002 != 0)),
        actions@.len() == 0,
        f.code == if using {
            ErrorCode::Paused
        } else {
            ErrorCode::Unsupported
        },
{
    assert((1u32 << 1) | (1u32 << 12) == 0x1002) by (bit_vector);
}

/// A walk begins at the root with 255 controls to go, unless it is late already.
pub proof fn walks_begin_at_the_root(
    bus: String,
    root: String,
    late: bool,
    r: Result<Walk, Fault>,
)
    requires
        call_ensures(Walk::new, (bus, root, late), r),
    ensures
        r is Ok <==> !late,
        r matches Ok(w) ==> {
            &&& w.bus@ == bus@
            &&& w.remaining == 255
            &&& w.visited@.len() == 1 && w.visited@[0]@ == root@
            &&& w.frames@.len() == 0
            &&& w.paths@.len() == 0
            &&& w.reading matches Some(path)
            &&& path@ == root@
        },
        r matches Err(e) ==> e.code == ErrorCode::BackendUnavailable,
{
    if r is Ok {
        let w = r->Ok_0;
        assert(w@.visited.len() == w.visited@.len());
        assert(w@.visited[0] == w.visited@[0]@);
        assert(w@.frames.len() == w.frames@.len());
        assert(w@.paths.len() == w.paths@.len());
    }
}

/// A control that was read is shown as it was read, unless it is a password field: of that
/// neither the name nor the text is kept. Its path is kept under the identifier it is given.
pub proof fn controls_are_kept_as_read_but_for_secrets(
    before: Walk,
    after: Walk,
    id: String,
    c: Control,
    r: Option<Fault>,
)
    requires
        before@.wf(),
        before@.reading is Some,
        exists|w: &mut Walk|
            *w == before && *final(w) == after && #[trigger] call_ensures(
                Walk::supply,
                (w, id, Ok::<Control, Fault>(c)),
                r,
            ),
    ensures
        r is None,
        after.reading is None,
        after.remaining == before.remaining,
        after.frames@.len() == before.frames@.len() + 1,
        after.frames@.last().id@ == id@,
        after.frames@.last().role@ == c.role@,
        after.frames@.last().at == 0,
        after.frames@.last().nodes@.len() == 0,
        after.frames@.last().children@.len() == c.children@.len(),
        c.role_number == 40 ==> {
            &&& after.frames@.last().secret
            &&& after.frames@.last().text is None
            &&& after.frames@.last().name@ == "密码输入框"@
        },
        c.role_number != 40 ==> {
            &&& !after.frames@.last().secret
            &&& after.frames@.last().name@ == c.name@
            &&& after.frames@.last().text is Some == c.text is Some
            &&& after.frames@.last().text matches Some(t) ==> t@ == c.text->0@
        },
        after.paths@.len() == before.paths@.len() + 1,
        after.paths@.last().0@ == id@,
        after.paths@.last().1@ == before.reading->0@,
{
    assert(after@.frames.len() == after.frames@.len());
    assert(before@.frames.len() == before.frames@.len());
    assert(after@.frames.last() == after.frames@.last()@);
    assert(after@.paths.len() == after.paths@.len() && before@.paths.len() == before.paths@.len());
    assert(after@.paths.last() == (after.paths@.last().0@, after.paths@.last().1@));
    let top = after.frames@.last();
    assert(top@.children.len() == top.children@.len());
    assert(crate::backend::accessibility::pairs(c.children@).len() == c.children@.len());
    assert(top@.nodes.len() == top.nodes@.len());
}

/// A control that cannot be read is left out; only the root's failure is the walk's.
pub proof fn unread_controls_are_left_out(
    before: Walk,
    after: Walk,
    id: String,
    f: Fault,
    r: Option<Fault>,
)
    requires
        before@.wf(),
        before@.reading is Some,
        exists|w: &mut Walk|
            *w == before && *final(w) == after && #[trigger] call_ensures(
                Walk::supply,
                (w, id, Err::<Control, Fault>(f)),
                r,
            ),
    ensures
        r is Some <==> before.frames@.len() == 0,
        r matches Some(e) ==> e.code == f.code && e.message@ == f.message@,
        after.frames@.len() == before.frames@.len(),
        after.paths@.len() == before.paths@.len(),
        after.reading is None,
{
    assert(after@.frames.len() == after.frames@.len());
    assert(before@.frames.len() == before.frames@.len());
    assert(after@.paths.len() == after.paths@.len() && before@.paths.len() == before.paths@.len());
}

/// The next child of a control is read exactly if it is of the same application, was not read
/// before, is not below a secret, and neither number, depth nor time has run out; its control is
/// finished when all were considered, and hangs below its parent then.
pub proof fn walks_read_what_is_theirs_once(
    before: Walk,
    after: Walk,
    late: bool,
    r: WalkStep,
)
    requires
        before@.wf(),
        before@.reading is None,
        before.frames@.len() > 0,
        exists|w: &mut Walk|
            *w == before && *final(w) == after && #[trigger] call_ensures(
                Walk::step,
                (w, late),
                r,
            ),
    ensures
        ({
            let top = before.frames@.last();
            if top.at < top.children@.len() {
                let child = top.children@[top.at as int];
                let due = {
                    &&& !top.secret
                    &&& child.0@ == before.bus@
                    &&& forall|i: int|
                        0 <= i < before.visited@.len() ==> (#[trigger] before.visited@[i])@
                            != child.1@
                    &&& before.remaining > 0
                    &&& before.frames@.len() <= 12
                    &&& !late
                };
                &&& r is Read <==> due
                &&& r is Continue <==> !due
                &&& r matches WalkStep::Read(path) ==> path@ == child.1@ && after.remaining
                    == before.remaining - 1 && (after.reading matches Some(p) && p@ == child.1@)
                &&& after.frames@.len() == before.frames@.len()
                &&& after.frames@.last().at == top.at + 1
            } else if before.frames@.len() == 1 {
                r matches WalkStep::Done(node) && node.id@ == top.id@ && node.name@ == top.name@
                    && node.role@ == top.role@ && node.actions@.len() == 0
                    && node.children@.len() == top.nodes@.len()
            } else {
                &&& r is Continue
                &&& after.frames@.len() == before.frames@.len() - 1
                &&& after.frames@.last().id@ == before.frames@[before.frames@.len() - 2].id@
                &&& after.frames@.last().nodes@.len() == before.frames@[before.frames@.len()
                    - 2].nodes@.len() + 1
            }
        }),
{
    let top = before.frames@.last();
    assert(after@.frames.len() == after.frames@.len());
    assert(before@.frames.len() == before.frames@.len());
    assert(before@.frames.last() == top@);
    assert(top@.children.len() == top.children@.len());
    assert(top@.nodes.len() == top.nodes@.len());
    let seen = before@.visited;
    assert(seen.len() == before.visited@.len());
    if after.frames@.len() > 0 {
        assert(after@.frames.last() == after.frames@.last()@);
        assert(after@.frames.last().nodes.len() == after.frames@.last().nodes@.len());
    }
    if top.at < top.children@.len() {
        let child = top.children@[top.at as int];
        assert(top@.children[top.at as int] == (child.0@, child.1@));
        if seen.contains(child.1@) {
            let i = choose|i: int| 0 <= i < seen.len() && seen[i] == child.1@;
            assert(before.visited@[i]@ == child.1@);
        } else {
            assert forall|i: int| 0 <= i < before.visited@.len() implies (
            #[trigger] before.visited@[i])@ != child.1@ by {
                assert(seen[i] == before.visited@[i]@);
                assert(seen.contains(seen[i]));
            }
        }
    } else if before.frames@.len() == 1 {
        let node = r->Done_0;
        assert(r@ == crate::backend::accessibility::WalkNext::Done(top@.node()));
        let v = crate::model::node_view(node);
        assert(v == top@.node());
        assert(v.children.len() == node.children@.len());
        assert(v.actions.len() == node.actions@.len());
    } else {
        let parent = before.frames@[before.frames@.len() - 2];
        assert(before@.frames[before.frames@.len() - 2] == parent@);
        assert(parent@.nodes.len() == parent.nodes@.len());
    }
}

} // verus!
