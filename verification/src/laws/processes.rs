//! When two processes, windows or servers are the same, and whom a window belongs to.
use vstd::prelude::*;

use crate::backend::existing::{window_shown, Existing};
use crate::backend::accessibility::DesktopWindow;
use crate::backend::process::{Ascent, AscentStep, ProcessIdentity};
use crate::backend::verified::{editable, editor};
use crate::backend::x11::{
    client_pid, discover_step, is_counted, snapshot_of, socket_path, wanted_windows, windows_view,
    ClientId, Discovery, Endpoint, Peer, SocketFile, Window, WindowReply,
};
use crate::model::{ErrorCode, Fault, Node, Observation};
use crate::path::route;
use crate::text::{after_last, begins, parsed, split_on, texts, words};

verus! {

/// Whether a text is the state of a process: anything, a bracket, and fields without brackets.
pub open spec fn state_of(stat: Seq<char>, name: Seq<char>, fields: Seq<char>) -> bool {
    &&& stat == name + seq![')'] + fields
    &&& forall|i: int| 0 <= i < fields.len() ==> #[trigger] fields[i] != ')'
}

proof fn lemma_state(stat: Seq<char>, name: Seq<char>, fields: Seq<char>)
    requires
        state_of(stat, name, fields),
    ensures
        after_last(stat, ')') == Some(fields),
    decreases fields.len(),
{
    if fields.len() == 0 {
        assert(stat.last() == ')');
        assert(fields =~= Seq::empty());
    } else {
        let f = fields.drop_last();
        let s = stat.drop_last();
        assert(s =~= name + seq![')'] + f);
        lemma_state(s, name, f);
        assert(stat.last() == fields.last());
        assert(fields.last() == fields[fields.len() - 1]);
        assert(f.push(fields.last()) =~= fields);
    }
}

/// A process is identified by its number, its program, and the twentieth word behind its name:
/// the time at which it started. Without any of them it is not identified.
pub proof fn processes_are_identified_by_their_start(
    pid: u32,
    stat: &str,
    executable: Option<Vec<u8>>,
    r: Result<ProcessIdentity, Fault>,
    name: Seq<char>,
    fields: Seq<char>,
)
    requires
        call_ensures(ProcessIdentity::identify, (pid, Some(stat), executable), r),
        state_of(stat@, name, fields),
    ensures
        r is Ok <==> executable is Some && words(fields).len() >= 20 && parsed(
            words(fields)[19],
            u64::MAX as nat,
        ) is Some,
        r matches Ok(p) ==> {
            &&& p.pid == pid
            &&& Some(p.start_time as nat) == parsed(words(fields)[19], u64::MAX as nat)
            &&& p.executable@ == executable->0@
        },
        r matches Err(e) ==> e.code == ErrorCode::StaleTarget,
{
    lemma_state(stat@, name, fields);
}

/// What cannot be read is not identified.
pub proof fn unread_processes_are_not_identified(
    pid: u32,
    executable: Option<Vec<u8>>,
    r: Result<ProcessIdentity, Fault>,
)
    requires
        call_ensures(ProcessIdentity::identify, (pid, None::<&str>, executable), r),
    ensures
        r matches Err(e) && e.code == ErrorCode::StaleTarget,
{
}

/// Two identities are of one process exactly if number, start and program agree; a process lives
/// exactly if its number still identifies it.
pub proof fn a_process_is_its_number_start_and_program(
    a: ProcessIdentity,
    b: ProcessIdentity,
    current: &Result<ProcessIdentity, Fault>,
    same: bool,
    equal: bool,
    alive: bool,
)
    requires
        call_ensures(ProcessIdentity::same_process, (&a, &b), same),
        call_ensures(ProcessIdentity::equals, (&a, &b), equal),
        call_ensures(ProcessIdentity::alive, (&a, current), alive),
    ensures
        same <==> a.pid == b.pid && a.start_time == b.start_time && route(a.executable@) == route(
            b.executable@,
        ),
        equal <==> a.pid == b.pid && a.start_time == b.start_time && a.executable@ == b.executable@,
        *current is Err ==> !alive,
        *current matches Ok(now) ==> (alive <==> a.pid == now.pid && a.start_time == now.start_time
            && route(a.executable@) == route(now.executable@)),
{
}

/// A search goes from a process to its parent, the second word behind its name, until it meets
/// the ancestor or has gone through 64 generations; it ends at the first process.
pub proof fn ancestors_are_parents_of_parents(
    before: Ascent,
    after: Ascent,
    stat: &str,
    r: bool,
    step: AscentStep,
    name: Seq<char>,
    fields: Seq<char>,
)
    requires
        call_ensures(Ascent::step, (&before,), step),
        exists|a: &mut Ascent|
            *a == before && *final(a) == after && #[trigger] call_ensures(
                Ascent::climb,
                (a, Some(stat)),
                r,
            ),
        before.left > 0,
        state_of(stat@, name, fields),
    ensures
        step == AscentStep::Answer(true) <==> before.pid == before.ancestor,
        before.pid != before.ancestor ==> step == AscentStep::Read(before.pid),
        after.ancestor == before.ancestor,
        r <==> words(fields).len() >= 2 && {
            &&& parsed(words(fields)[1], u32::MAX as nat) matches Some(parent)
            &&& parent != before.pid
            &&& parent >= 2
        },
        r ==> {
            &&& Some(after.pid as nat) == parsed(words(fields)[1], u32::MAX as nat)
            &&& after.left == before.left - 1
        },
        !r ==> after == before,
{
    lemma_state(stat@, name, fields);
}

/// A search begins at the process itself and has 64 generations to go; without any left it ends.
pub proof fn searches_are_bounded(pid: u32, ancestor: u32, r: Ascent, a: Ascent, step: AscentStep)
    requires
        call_ensures(Ascent::new, (pid, ancestor), r),
        call_ensures(Ascent::step, (&a,), step),
    ensures
        r.pid == pid && r.ancestor == ancestor && r.left == 64,
        a.left == 0 ==> step == AscentStep::Answer(false),
{
}

/// A display is connected to only if its name is a colon and one to six digits; its socket is
/// named after those digits.
pub proof fn displays_are_local(display: &str, r: Result<String, Fault>)
    requires
        call_ensures(socket_path, (display,), r),
    ensures
        r is Ok <==> {
            &&& 2 <= display@.len() <= 7
            &&& display@[0] == ':'
            &&& forall|i: int| 1 <= i < display@.len() ==> '0' <= #[trigger] display@[i] <= '9'
        },
        r matches Ok(path) ==> path@ == "/tmp/.X11-unix/X"@ + display@.subrange(
            1,
            display@.len() as int,
        ),
        r matches Err(e) ==> e.code == ErrorCode::PermissionDenied
            && e.message@ == "独立 X11 display 无效，不连接宿主或网络显示服务"@,
{
    if r is Ok {
        assert(display@.skip(1) =~= display@.subrange(1, display@.len() as int));
    }
}

/// The display is waited for while the compositor lives and there is time.
pub proof fn displays_are_waited_for(
    alive: bool,
    written: Option<&str>,
    late: bool,
    r: Result<Discovery, Fault>,
)
    requires
        call_ensures(discover_step, (alive, written, late), r),
    ensures
        !alive ==> (r matches Err(e) && e.code == ErrorCode::StaleTarget
            && e.message@ == "独立合成器已退出"@),
        (r matches Ok(Discovery::Wait)) <==> alive && !late && (written is None || written->0@.len()
            == 0),
        r matches Ok(Discovery::Connect(path)) ==> {
            &&& alive
            &&& written is Some
            &&& path@ == "/tmp/.X11-unix/X"@ + written->0@.skip(1)
        },
        alive && late && (written is None || written->0@.len() == 0) ==> (r matches Err(e) && e.code
            == ErrorCode::BackendUnavailable
            && e.message@ == "无法获取独立 XWayland display；查看 sway.log"@),
{
}

/// A server is bound to only if its socket did not change while it was connected to and the user
/// runs it; it is the same server later exactly if socket, user and process are the same.
pub proof fn servers_are_bound_to_their_socket(
    display: String,
    before: SocketFile,
    connected: SocketFile,
    peer: Peer,
    uid: u32,
    r: Result<Endpoint, Fault>,
    e: Endpoint,
    found: Option<SocketFile>,
    file: Result<(), Fault>,
    who: Result<(), Fault>,
)
    requires
        call_ensures(Endpoint::bind, (display, before, connected, peer, uid), r),
        call_ensures(Endpoint::check_file, (&e, found), file),
        call_ensures(Endpoint::check_peer, (&e, found, peer, uid), who),
    ensures
        r is Ok <==> before == connected && peer.uid == uid,
        r matches Ok(b) ==> b.display@ == display@ && b.file == before && b.peer_pid == peer.pid,
        file is Ok <==> found == Some(e.file),
        who is Ok <==> found == Some(e.file) && peer.uid == uid && peer.pid == e.peer_pid,
        r matches Err(f) ==> (f.code == ErrorCode::StaleTarget <==> before != connected),
{
}

/// A window counts if it draws and is seen, or is managed by the compositor.
pub proof fn windows_count_if_seen_or_managed(reply: &WindowReply, managed: &Vec<u32>, r: bool)
    requires
        call_ensures(is_counted, (reply, managed), r),
    ensures
        r <==> reply.input_output && (reply.viewable || managed@.contains(reply.id)),
{
}

proof fn lemma_client(clients: Seq<ClientId>, k: int)
    requires
        0 <= k < clients.len(),
        clients[k].local_pid,
        forall|i: int| 0 <= i < k ==> !(#[trigger] clients[i]).local_pid,
    ensures
        crate::backend::x11::client_of(clients) == (if clients[k].values@.len() > 0
            && clients[k].values@[0] >= 2 {
            Some(clients[k].values@[0])
        } else {
            None
        }),
    decreases k,
{
    if k > 0 {
        assert(!clients[0].local_pid);
        let rest = clients.drop_first();
        assert(rest[k - 1] == clients[k]);
        assert forall|i: int| 0 <= i < k - 1 implies !(#[trigger] rest[i]).local_pid by {
            assert(rest[i] == clients[i + 1]);
        }
        lemma_client(rest, k - 1);
    }
}

/// The process of a window is the first value of the first local identity that the server gives,
/// unless that is no ordinary process.
pub proof fn windows_belong_to_their_local_client(clients: &Vec<ClientId>, r: Option<u32>, k: int)
    requires
        call_ensures(client_pid, (clients,), r),
        0 <= k < clients@.len(),
        clients@[k].local_pid,
        forall|i: int| 0 <= i < k ==> !(#[trigger] clients@[i]).local_pid,
    ensures
        clients@[k].values@.len() > 0 && clients@[k].values@[0] >= 2 ==> r == Some(
            clients@[k].values@[0],
        ),
        clients@[k].values@.len() == 0 || clients@[k].values@[0] < 2 ==> r is None,
{
    lemma_client(clients@, k);
}

proof fn lemma_snapshot(replies: Seq<WindowReply>, managed: Seq<u32>, k: int)
    requires
        snapshot_of(replies, managed) is Ok,
        0 <= k < replies.len(),
    ensures
        ({
            let w = replies[k];
            let list = snapshot_of(replies, managed)->Ok_0;
            w.input_output && (w.viewable || managed.contains(w.id)) ==> exists|n: int| {
                &&& 0 <= n < list.len()
                &&& (#[trigger] list[n]).id == w.id
                &&& list[n].geometry == w.geometry
                &&& list[n].mapped == w.viewable
                &&& list[n].override_redirect == w.override_redirect
                &&& w.process is Ok
                &&& list[n].process == w.process->Ok_0@
            }
        }),
        snapshot_of(replies, managed)->Ok_0.len() <= replies.len(),
    decreases replies.len(),
{
    let list = snapshot_of(replies, managed)->Ok_0;
    let rest = replies.drop_last();
    let earlier = snapshot_of(rest, managed)->Ok_0;
    lemma_length(rest, managed);
    if k < rest.len() {
        lemma_snapshot(rest, managed, k);
        let w = replies[k];
        assert(rest[k] == w);
        if w.input_output && (w.viewable || managed.contains(w.id)) {
            let n = choose|n: int| {
                &&& 0 <= n < earlier.len()
                &&& (#[trigger] earlier[n]).id == w.id
                &&& earlier[n].geometry == w.geometry
                &&& earlier[n].mapped == w.viewable
                &&& earlier[n].override_redirect == w.override_redirect
                &&& w.process is Ok
                &&& earlier[n].process == w.process->Ok_0@
            };
            assert(list[n] == earlier[n]);
        }
    } else {
        assert(replies.last() == replies[k]);
        if replies[k].input_output && (replies[k].viewable || managed.contains(replies[k].id)) {
            assert(list[earlier.len() as int].id == replies[k].id);
        }
    }
}

proof fn lemma_length(replies: Seq<WindowReply>, managed: Seq<u32>)
    requires
        snapshot_of(replies, managed) is Ok,
    ensures
        snapshot_of(replies, managed)->Ok_0.len() <= replies.len(),
    decreases replies.len(),
{
    if replies.len() > 0 {
        lemma_length(replies.drop_last(), managed);
    }
}

/// Every window that counts is returned as the server described it, with its own process; a
/// server before its version 1.2 is not believed.
pub proof fn windows_are_returned_as_described(
    e: Endpoint,
    version: (u32, u32),
    replies: &Vec<WindowReply>,
    managed: &Vec<u32>,
    r: Result<Vec<Window>, Fault>,
    k: int,
)
    requires
        call_ensures(Endpoint::windows, (&e, version, replies, managed), r),
        forall|i: int|
            0 <= i < replies@.len() ==> crate::backend::x11::matched(#[trigger] replies@[i]),
        0 <= k < replies@.len(),
    ensures
        version.0 == 0 || (version.0 == 1 && version.1 < 2) ==> r is Err,
        r matches Err(f) ==> f.code == ErrorCode::StaleTarget,
        r matches Ok(v) ==> v@.len() <= replies@.len(),
        r matches Ok(v) ==> {
            let w = replies@[k];
            w.input_output && (w.viewable || managed@.contains(w.id)) ==> exists|n: int| {
                &&& 0 <= n < v@.len()
                &&& (#[trigger] v@[n]).id == w.id
                &&& v@[n].geometry == w.geometry
                &&& v@[n].mapped == w.viewable
                &&& v@[n].override_redirect == w.override_redirect
                &&& w.process is Ok
                &&& v@[n].process@ == w.process->Ok_0@
            }
        },
{
    if r is Ok {
        let v = r->Ok_0@;
        lemma_snapshot(replies@, managed@, k);
        let list = windows_view(v);
        assert(list.len() == v.len());
        let w = replies@[k];
        if w.input_output && (w.viewable || managed@.contains(w.id)) {
            let n = choose|n: int| {
                &&& 0 <= n < list.len()
                &&& (#[trigger] list[n]).id == w.id
                &&& list[n].geometry == w.geometry
                &&& list[n].mapped == w.viewable
                &&& list[n].override_redirect == w.override_redirect
                &&& w.process is Ok
                &&& list[n].process == w.process->Ok_0@
            };
            assert(list[n] == v[n]@);
            assert(v[n].id == w.id);
        }
    }
}

/// The windows at the top and the managed ones are asked about, each once.
pub proof fn every_window_is_asked_about_once(
    top: &Vec<u32>,
    managed: &Vec<u32>,
    r: Vec<u32>,
    id: u32,
)
    requires
        call_ensures(wanted_windows, (top, managed), r),
    ensures
        r@.contains(id) <==> top@.contains(id) || managed@.contains(id),
        forall|i: int, j: int| 0 <= i < j < r@.len() ==> r@[i] != r@[j],
{
}

/// A control is written only if it is a text box that offers editing, may be edited, reacts, has
/// several lines, and still exists.
pub proof fn only_live_text_boxes_are_written(
    role: &str,
    interfaces: &[String],
    states: &[u32],
    r: bool,
)
    requires
        call_ensures(editable, (role, interfaces, states), r),
    ensures
        r ==> role@ == "text box"@ && states@.len() > 0,
        states@.len() > 0 ==> (r <==> {
            let flags = states@[0];
            &&& role@ == "text box"@
            &&& texts(interfaces@).contains("org.a11y.atspi.EditableText"@)
            &&& flags & 0x80 != 0
            &&& flags & 0x2_0000 != 0
            &&& flags & 0x100_0000 != 0
            &&& flags & 0x40 == 0
        }),
{
    assert(1u32 << 7 == 0x80 && 1u32 << 17 == 0x2_0000 && 1u32 << 24 == 0x100_0000 && 1u32 << 6
        == 0x40) by (bit_vector);
    assert(0u32 & 0x80 == 0) by (bit_vector);
}

/// The editor is known by its machine, its own program, its toolkit, and that it runs.
pub proof fn the_editor_is_known_by_all_its_marks(
    known_machine: bool,
    executable: &Vec<u8>,
    toolkit: &str,
    version: &str,
    alive: bool,
    maps: Option<&str>,
    r: bool,
)
    requires
        call_ensures(editor, (known_machine, executable, toolkit, version, alive, maps), r),
    ensures
        r ==> known_machine && alive && toolkit@ == "GTK"@ && version@ == "4.22.4"@ && maps is Some,
        r ==> route(executable@) == route(
            vstd::utf8::encode_utf8(
                "/nix/store/kj3j3wb6pyqqn3x6makv05wkam5lf08f-gnome-text-editor-50.1/bin/.gnome-text-editor-wrapped"@,
            ),
        ),
{
}

/// A window is shown exactly if the compositor lists it for its own process.
pub proof fn windows_are_shown_for_their_process(
    windows: &Vec<DesktopWindow>,
    window: u64,
    pid: u32,
    r: bool,
)
    requires
        call_ensures(window_shown, (windows, window, pid), r),
        pid < 0x8000_0000,
    ensures
        r <==> exists|i: int|
            0 <= i < windows@.len() && (#[trigger] windows@[i]).id == window && windows@[i].pid
                == Some(pid as i32),
{
    if r {
        let i = choose|i: int|
            0 <= i < windows@.len() && (#[trigger] windows@[i]).id == window && (
            windows@[i].pid matches Some(p) && p == crate::backend::accessibility::signed(pid));
        assert(windows@[i].pid == Some(pid as i32));
    }
    if exists|i: int|
        0 <= i < windows@.len() && (#[trigger] windows@[i]).id == window && windows@[i].pid
            == Some(pid as i32) {
        let i = choose|i: int|
            0 <= i < windows@.len() && (#[trigger] windows@[i]).id == window && windows@[i].pid
                == Some(pid as i32);
        assert(windows@[i].id == window && (windows@[i].pid matches Some(p) && p
            == crate::backend::accessibility::signed(pid)));
    }
}

/// A window of the desktop is named by its own reference or by none; what is observed of it is
/// what was read and its picture, while it is there and nothing was cancelled.
pub proof fn windows_are_observed_as_they_are(
    before: Existing,
    after: Existing,
    id: String,
    nodes: Vec<Node>,
    picture: Option<(String, u32, u32)>,
    alive: bool,
    verdict: Result<(), Fault>,
    r: Result<Observation, Fault>,
    target: Option<&str>,
    named: Result<(), Fault>,
)
    requires
        exists|x: &mut Existing|
            *x == before && *final(x) == after && #[trigger] call_ensures(
                Existing::observed,
                (x, id, nodes, picture, alive, verdict),
                r,
            ),
        call_ensures(Existing::check_target, (&before, target), named),
    ensures
        named is Ok <==> target is None || target->0@ == before.target.id@,
        r is Ok <==> alive && verdict is Ok,
        after.target.id@ == before.target.id@ && after.target.label@ == before.target.label@,
        after.pid == before.pid && after.window_id == before.window_id,
        picture matches Some(p) ==> after.target.width == p.1 && after.target.height == p.2,
        picture is None ==> after.target.width == before.target.width && after.target.height
            == before.target.height,
        r matches Ok(o) ==> {
            &&& o.observation_id@ == id@
            &&& o.target@ == after.target@
            &&& o.png_base64 is Some == picture is Some
            &&& o.png_base64 matches Some(png) ==> {
                let shown = picture->0;
                png@ == shown.0@
            }
            &&& o.windows@.len() == 0
        },
        !alive ==> (r matches Err(e) && e.code == ErrorCode::StaleTarget
            && e.message@ == "采集期间应用已退出"@),
{
    if r is Ok {
        let o = r->Ok_0;
        assert(o@.windows.len() == o.windows@.len());
    }
}

/// With all its marks, and the toolkit library at the end of a line of its memory map, the editor
/// is known.
pub proof fn the_editor_is_known_by_its_library(
    executable: &Vec<u8>,
    maps: &str,
    r: bool,
    i: int,
    toolkit: &str,
    version: &str,
)
    requires
        call_ensures(editor, (true, executable, toolkit, version, true, Some(maps)), r),
        toolkit@ == "GTK"@,
        version@ == "4.22.4"@,
        route(executable@) == route(
            vstd::utf8::encode_utf8(
                "/nix/store/kj3j3wb6pyqqn3x6makv05wkam5lf08f-gnome-text-editor-50.1/bin/.gnome-text-editor-wrapped"@,
            ),
        ),
        0 <= i < split_on(maps@, '\n').len(),
        words(split_on(maps@, '\n')[i]).len() > 0,
        begins(
            words(split_on(maps@, '\n')[i]).last(),
            "/nix/store/4j905cjgk8idkzg4szhyryzjx2q1b6br-gtk4-4.22.4/lib/libgtk-4.so."@,
        ),
    ensures
        r,
{
    assert(crate::backend::verified::maps_gtk(split_on(maps@, '\n')[i]));
}

} // verus!
