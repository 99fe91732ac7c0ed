//! The private X11 server of an isolated session, and the identity of its clients. A window
//! does not name its process; the server does.
use vstd::prelude::*;

use crate::backend::process::{IdentityView, ProcessIdentity};
use crate::model::{fault, ErrorCode, Fault, FaultView};
use crate::text::{chars_of, decimal_digit, text_of};

verus! {

/// A start command of the compositor that writes down the name of its X11 display, before
/// any application runs.
pub const REPORT_DISPLAY: &'static str = "exec sh -c 'umask 077; printf \"%s\" \"$DISPLAY\" > \"$XDG_RUNTIME_DIR/x11-display\"'\n";

/// Most digits of a display number.
pub const MAX_DIGITS: usize = 6;

/// A local display: a colon and a number, without host, path or screen.
pub open spec fn local_display(display: Seq<char>) -> bool {
    &&& 2 <= display.len() <= MAX_DIGITS + 1
    &&& display[0] == ':'
    &&& forall|i: int| 1 <= i < display.len() ==> decimal_digit(#[trigger] display[i])
}

/// Path of the socket of a local display.
pub fn socket_path(display: &str) -> (r: Result<String, Fault>)
    ensures
        match r {
            Ok(path) => local_display(display@) && path@ == "/tmp/.X11-unix/X"@ + display@.skip(1),
            Err(e) => !local_display(display@) && e.says(
                ErrorCode::PermissionDenied,
                "独立 X11 display 无效，不连接宿主或网络显示服务"@,
            ),
        },
{
    let all = chars_of(display);
    let n: usize = all.len();
    let mut good = n >= 2 && n <= MAX_DIGITS + 1 && all[0] == ':';
    if good {
        let mut i: usize = 1;
        while i < n
            invariant
                1 <= i <= n,
                n == all@.len(),
                all@ == display@,
                good == forall|j: int| 1 <= j < i ==> decimal_digit(#[trigger] all@[j]),
            decreases n - i,
        {
            let c = all[i];
            if c < '0' || '9' < c {
                assert(!decimal_digit(all@[i as int]));
                good = false;
            }
            i = i + 1;
        }
    }
    if !good {
        return Err(Fault::denied("独立 X11 display 无效，不连接宿主或网络显示服务"));
    }
    let mut path = "/tmp/.X11-unix/X".to_owned();
    path.append(text_of(&all, 1, n).as_str());
    assert(all@.subrange(1, n as int) =~= display@.skip(1));
    Ok(path)
}

/// What is known of a socket in the file system.
#[derive(Debug, Clone, Copy, PartialEq, Eq, Structural)]
pub struct SocketFile {
    pub device: u64,
    pub inode: u64,
}

/// Who serves a connected socket.
#[derive(Debug, Clone, Copy, PartialEq, Eq, Structural)]
pub struct Peer {
    pub uid: u32,
    pub pid: i32,
}

/// A private X11 server, bound to its socket and its process.
#[derive(Debug)]
pub struct Endpoint {
    pub display: String,
    pub file: SocketFile,
    pub peer_pid: i32,
}

impl Clone for Endpoint {
    fn clone(&self) -> (r: Self)
        ensures
            r == *self,
    {
        Endpoint { display: self.display.clone(), file: self.file, peer_pid: self.peer_pid }
    }
}

/// What to do while the compositor is expected to name its display.
#[derive(Debug)]
pub enum Discovery {
    /// Connect to this path.
    Connect(String),
    /// Look again soon.
    Wait,
}

/// Decides how to go on: whether the compositor lives, what it has written so far, and
/// whether the time is over.
pub fn discover_step(alive: bool, written: Option<&str>, late: bool) -> (r: Result<
    Discovery,
    Fault,
>)
    ensures
        if !alive {
            r matches Err(e) && e.says(ErrorCode::StaleTarget, "独立合成器已退出"@)
        } else if written is Some && written->0@.len() > 0 {
            if local_display(written->0@) {
                r matches Ok(Discovery::Connect(path)) && path@ == "/tmp/.X11-unix/X"@
                    + written->0@.skip(1)
            } else {
                r matches Err(e) && e.says(
                    ErrorCode::PermissionDenied,
                    "独立 X11 display 无效，不连接宿主或网络显示服务"@,
                )
            }
        } else if late {
            r matches Err(e) && e.says(
                ErrorCode::BackendUnavailable,
                "无法获取独立 XWayland display；查看 sway.log"@,
            )
        } else {
            r matches Ok(Discovery::Wait)
        },
{
    if !alive {
        return Err(Fault::stale("独立合成器已退出"));
    }
    match written {
        Some(display) => {
            if chars_of(display).len() > 0 {
                return match socket_path(display) {
                    Ok(path) => Ok(Discovery::Connect(path)),
                    Err(e) => Err(e),
                };
            }
        },
        None => {},
    }
    if late {
        Err(Fault::unavailable("无法获取独立 XWayland display；查看 sway.log"))
    } else {
        Ok(Discovery::Wait)
    }
}

/// A window of the server.
#[derive(Debug)]
pub struct Window {
    pub id: u32,
    pub process: ProcessIdentity,
    pub geometry: (i16, i16, u16, u16),
    pub mapped: bool,
    pub override_redirect: bool,
}

/// A window by its values.
#[verifier::ext_equal]
pub struct WindowView {
    pub id: u32,
    pub process: IdentityView,
    pub geometry: (i16, i16, u16, u16),
    pub mapped: bool,
    pub override_redirect: bool,
}

impl View for Window {
    type V = WindowView;

    open spec fn view(&self) -> WindowView {
        WindowView {
            id: self.id,
            process: self.process@,
            geometry: self.geometry,
            mapped: self.mapped,
            override_redirect: self.override_redirect,
        }
    }
}

/// Windows by their values.
pub open spec fn windows_view(v: Seq<Window>) -> Seq<WindowView> {
    v.map_values(|w: Window| w@)
}

/// One client identity that the server reports.
#[derive(Debug)]
pub struct ClientId {
    /// Whether it is the process of a local client.
    pub local_pid: bool,
    pub values: Vec<u32>,
}

/// What the server and the system say of one window.
#[derive(Debug)]
pub struct WindowReply {
    pub id: u32,
    pub viewable: bool,
    pub input_output: bool,
    pub override_redirect: bool,
    pub clients: Vec<ClientId>,
    /// The process that the window was found to belong to, if it was looked up.
    pub process: Result<ProcessIdentity, Fault>,
    pub geometry: (i16, i16, u16, u16),
}

/// Whether a window counts: one that draws, and that is visible or managed.
pub open spec fn counts(reply: WindowReply, managed: Seq<u32>) -> bool {
    reply.input_output && (reply.viewable || managed.contains(reply.id))
}

/// The process of a window: the first value of the first local identity, unless it is no
/// ordinary process.
pub open spec fn client_of(clients: Seq<ClientId>) -> Option<u32>
    decreases clients.len(),
{
    if clients.len() == 0 {
        None
    } else if clients[0].local_pid {
        if clients[0].values@.len() > 0 && clients[0].values@[0] > 1 {
            Some(clients[0].values@[0])
        } else {
            None
        }
    } else {
        client_of(clients.drop_first())
    }
}

/// The process of a window, as the server reports it.
pub fn client_pid(clients: &Vec<ClientId>) -> (r: Option<u32>)
    ensures
        r == client_of(clients@),
{
    let mut i: usize = 0;
    assert(clients@.skip(0) =~= clients@);
    while i < clients.len()
        invariant
            i <= clients@.len(),
            client_of(clients@) == client_of(clients@.skip(i as int)),
        decreases clients@.len() - i,
    {
        assert(clients@.skip(i as int).drop_first() =~= clients@.skip(i + 1));
        assert(clients@.skip(i as int)[0] == clients@[i as int]);
        if clients[i].local_pid {
            if clients[i].values.len() > 0 && clients[i].values[0] > 1 {
                return Some(clients[i].values[0]);
            }
            return None;
        }
        i = i + 1;
    }
    None
}

fn among(v: &Vec<u32>, x: u32) -> (r: bool)
    ensures
        r == v@.contains(x),
{
    let mut i: usize = 0;
    while i < v.len()
        invariant
            i <= v@.len(),
            forall|j: int| 0 <= j < i ==> v@[j] != x,
        decreases v@.len() - i,
    {
        if v[i] == x {
            assert(v@[i as int] == x);
            return true;
        }
        i = i + 1;
    }
    false
}

/// Numbers that rise, so that none occurs twice.
pub open spec fn rising(v: Seq<u32>) -> bool {
    forall|i: int, j: int| 0 <= i < j < v.len() ==> v[i] < v[j]
}

fn insert_sorted(v: &mut Vec<u32>, x: u32)
    requires
        rising(old(v)@),
    ensures
        rising(final(v)@),
        forall|y: u32| #[trigger] final(v)@.contains(y) == (old(v)@.contains(y) || y == x),
{
    let mut i: usize = 0;
    while i < v.len() && v[i] < x
        invariant
            i <= v@.len(),
            v@ == old(v)@,
            forall|j: int| 0 <= j < i ==> v@[j] < x,
        decreases v@.len() - i,
    {
        i = i + 1;
    }
    let ghost before = v@;
    if i < v.len() && v[i] == x {
        assert(before[i as int] == x);
        return ;
    }
    proof {
        assert forall|j: int| i <= j < before.len() implies before[j] > x by {
            if i < j {
                assert(before[i as int] < before[j]);
            }
        }
    }
    v.insert(i, x);
    proof {
        assert(v@[i as int] == x);
        assert forall|y: u32| #[trigger] v@.contains(y) == (before.contains(y) || y == x) by {
            if before.contains(y) {
                let k = choose|k: int| 0 <= k < before.len() && before[k] == y;
                assert(v@[if k < i { k } else { k + 1 }] == y);
            }
            if v@.contains(y) && y != x {
                let k = choose|k: int| 0 <= k < v@.len() && v@[k] == y;
                assert(before[if k < i { k } else { k - 1 }] == y);
            }
        }
    }
}

/// Whether a window counts.
pub fn is_counted(reply: &WindowReply, managed: &Vec<u32>) -> (r: bool)
    ensures
        r == counts(*reply, managed@),
{
    reply.input_output && (reply.viewable || among(managed, reply.id))
}

/// The windows to ask about, in the order of their numbers: those at the top, and those
/// that the compositor manages.
pub fn wanted_windows(top: &Vec<u32>, managed: &Vec<u32>) -> (r: Vec<u32>)
    ensures
        rising(r@),
        forall|id: u32| #[trigger] r@.contains(id) == (top@.contains(id) || managed@.contains(id)),
{
    let mut out: Vec<u32> = Vec::new();
    let mut i: usize = 0;
    while i < top.len()
        invariant
            i <= top@.len(),
            rising(out@),
            forall|id: u32| #[trigger] out@.contains(id) == top@.take(i as int).contains(id),
        decreases top@.len() - i,
    {
        let ghost was = out@;
        insert_sorted(&mut out, top[i]);
        proof {
            lemma_take_contains(top@, i as int);
        }
        i = i + 1;
    }
    assert(top@.take(i as int) =~= top@);
    let mut j: usize = 0;
    while j < managed.len()
        invariant
            j <= managed@.len(),
            rising(out@),
            forall|id: u32|
                #[trigger] out@.contains(id) == (top@.contains(id) || managed@.take(
                    j as int,
                ).contains(id)),
        decreases managed@.len() - j,
    {
        insert_sorted(&mut out, managed[j]);
        proof {
            lemma_take_contains(managed@, j as int);
        }
        j = j + 1;
    }
    assert(managed@.take(j as int) =~= managed@);
    out
}

proof fn lemma_take_contains(s: Seq<u32>, i: int)
    requires
        0 <= i < s.len(),
    ensures
        forall|x: u32| #[trigger] s.take(i + 1).contains(x) == (s.take(i).contains(x) || x == s[i]),
{
    assert forall|x: u32| #[trigger] s.take(i + 1).contains(x) == (s.take(i).contains(x) || x
        == s[i]) by {
        if s.take(i).contains(x) {
            let k = choose|k: int| 0 <= k < i && s.take(i)[k] == x;
            assert(s.take(i + 1)[k] == x);
        }
        if x == s[i] {
            assert(s.take(i + 1)[i] == x);
        }
        if s.take(i + 1).contains(x) && x != s[i] {
            let t = s.take(i + 1);
            let k = choose|k: int| 0 <= k < t.len() && t[k] == x;
            assert(s.take(i)[k] == x);
        }
    }
}

/// Whether the process of a reply, where it could be looked at, is the one that the server
/// named as the window's client.
pub open spec fn matched(reply: WindowReply) -> bool {
    reply.process matches Ok(p) ==> client_of(reply.clients@) == Some(p.pid)
}

/// The windows of the server, or why they cannot be verified.
pub open spec fn snapshot_of(replies: Seq<WindowReply>, managed: Seq<u32>) -> Result<
    Seq<WindowView>,
    Seq<char>,
>
    decreases replies.len(),
{
    if replies.len() == 0 {
        Ok(Seq::empty())
    } else {
        match snapshot_of(replies.drop_last(), managed) {
            Err(m) => Err(m),
            Ok(before) => {
                let last = replies.last();
                if !counts(last, managed) {
                    Ok(before)
                } else if client_of(last.clients@) is None {
                    Err("XRes 没有返回本地客户端 PID"@)
                } else {
                    match last.process {
                        Err(f) => Err(Fault::code_name(f.code) + ": "@ + f.message@),
                        Ok(process) => Ok(
                            before.push(
                                WindowView {
                                    id: last.id,
                                    process: process@,
                                    geometry: last.geometry,
                                    mapped: last.viewable,
                                    override_redirect: last.override_redirect,
                                },
                            ),
                        ),
                    }
                }
            },
        }
    }
}

/// Collects the windows from the replies, in the order of the replies.
pub fn snapshot(version: (u32, u32), replies: &Vec<WindowReply>, managed: &Vec<u32>) -> (r: Result<
    Vec<Window>,
    String,
>)
    requires
        forall|i: int| 0 <= i < replies@.len() ==> matched(#[trigger] replies@[i]),
    ensures
        if !(version.0 > 1 || (version.0 == 1 && version.1 >= 2)) {
            r matches Err(m) && m@ == "XRes 1.2 不可用"@
        } else {
            match snapshot_of(replies@, managed@) {
                Ok(list) => r matches Ok(v) && windows_view(v@) == list,
                Err(message) => r matches Err(m) && m@ == message,
            }
        },
{
    if !(version.0 > 1 || (version.0 == 1 && version.1 >= 2)) {
        return Err("XRes 1.2 不可用".to_owned());
    }
    let mut out: Vec<Window> = Vec::new();
    let mut i: usize = 0;
    assert(windows_view(out@) =~= Seq::empty());
    while i < replies.len()
        invariant
            i <= replies@.len(),
            version.0 > 1 || (version.0 == 1 && version.1 >= 2),
            snapshot_of(replies@.take(i as int), managed@) == Ok::<Seq<WindowView>, Seq<char>>(
                windows_view(out@),
            ),
        decreases replies@.len() - i,
    {
        let reply = &replies[i];
        let ghost was = windows_view(out@);
        proof {
            assert(replies@.take(i + 1).drop_last() =~= replies@.take(i as int));
            assert(replies@.take(i + 1).last() == *reply);
        }
        if is_counted(reply, managed) {
            if client_pid(&reply.clients).is_none() {
                proof {
                    lemma_snapshot_error(replies@, managed@, i + 1);
                }
                return Err("XRes 没有返回本地客户端 PID".to_owned());
            }
            match &reply.process {
                Err(f) => {
                    proof {
                        lemma_snapshot_error(replies@, managed@, i + 1);
                    }
                    return Err(f.describe());
                },
                Ok(process) => {
                    out.push(
                        Window {
                            id: reply.id,
                            process: process.clone(),
                            geometry: reply.geometry,
                            mapped: reply.viewable,
                            override_redirect: reply.override_redirect,
                        },
                    );
                    assert(windows_view(out@) =~= was.push(
                        WindowView {
                            id: reply.id,
                            process: process@,
                            geometry: reply.geometry,
                            mapped: reply.viewable,
                            override_redirect: reply.override_redirect,
                        },
                    ));
                },
            }
        }
        i = i + 1;
    }
    assert(replies@.take(i as int) =~= replies@);
    Ok(out)
}

/// The first failure is the failure of the whole.
proof fn lemma_snapshot_error(replies: Seq<WindowReply>, managed: Seq<u32>, n: int)
    requires
        0 <= n <= replies.len(),
        snapshot_of(replies.take(n), managed) is Err,
    ensures
        snapshot_of(replies, managed) == snapshot_of(replies.take(n), managed),
    decreases replies.len() - n,
{
    if n < replies.len() {
        assert(replies.take(n + 1).drop_last() =~= replies.take(n));
        lemma_snapshot_error(replies, managed, n + 1);
    } else {
        assert(replies.take(n) =~= replies);
    }
}

impl Endpoint {
    /// Binds to a server whose socket was looked at before and after connecting.
    pub fn bind(
        display: String,
        before: SocketFile,
        connected: SocketFile,
        peer: Peer,
        uid: u32,
    ) -> (r: Result<Self, Fault>)
        ensures
            if connected != before {
                r matches Err(e) && e.says(ErrorCode::StaleTarget, "独立 X11 服务在连接时已变化"@)
            } else if peer.uid != uid {
                r matches Err(e) && e.says(
                    ErrorCode::PermissionDenied,
                    "独立 X11 服务用户不匹配"@,
                )
            } else {
                r == Ok::<Endpoint, Fault>(Endpoint { display, file: before, peer_pid: peer.pid })
            },
    {
        if connected != before {
            return Err(Fault::stale("独立 X11 服务在连接时已变化"));
        }
        if peer.uid != uid {
            return Err(Fault::denied("独立 X11 服务用户不匹配"));
        }
        Ok(Endpoint { display, file: before, peer_pid: peer.pid })
    }

    /// Checks the socket before connecting again.
    pub fn check_file(&self, found: Option<SocketFile>) -> (r: Result<(), Fault>)
        ensures
            match found {
                None => r matches Err(e) && e.says(ErrorCode::StaleTarget, "独立 X11 服务已退出"@),
                Some(file) => if file == self.file {
                    r is Ok
                } else {
                    r matches Err(e) && e.says(
                        ErrorCode::StaleTarget,
                        "独立 X11 服务已更换，旧授权失效"@,
                    )
                },
            },
    {
        match found {
            None => Err(Fault::stale("独立 X11 服务已退出")),
            Some(file) => {
                if file == self.file {
                    Ok(())
                } else {
                    Err(Fault::stale("独立 X11 服务已更换，旧授权失效"))
                }
            },
        }
    }

    /// Checks who answered, after connecting again.
    pub fn check_peer(&self, found: Option<SocketFile>, peer: Peer, uid: u32) -> (r: Result<
        (),
        Fault,
    >)
        ensures
            match found {
                None => r matches Err(e) && e.says(ErrorCode::StaleTarget, "独立 X11 服务已退出"@),
                Some(file) => if file == self.file && peer.uid == uid && peer.pid
                    == self.peer_pid {
                    r is Ok
                } else {
                    r matches Err(e) && e.says(
                        ErrorCode::StaleTarget,
                        "独立 X11 服务连接身份已变化"@,
                    )
                },
            },
    {
        match found {
            None => Err(Fault::stale("独立 X11 服务已退出")),
            Some(file) => {
                if file == self.file && peer.uid == uid && peer.pid == self.peer_pid {
                    Ok(())
                } else {
                    Err(Fault::stale("独立 X11 服务连接身份已变化"))
                }
            },
        }
    }

    /// The windows of the server, among them menus that the compositor does not manage.
    pub fn windows(
        &self,
        version: (u32, u32),
        replies: &Vec<WindowReply>,
        managed: &Vec<u32>,
    ) -> (r: Result<Vec<Window>, Fault>)
        requires
            forall|i: int| 0 <= i < replies@.len() ==> matched(#[trigger] replies@[i]),
        ensures
            if !(version.0 > 1 || (version.0 == 1 && version.1 >= 2)) {
                r matches Err(e) && e@ == unverifiable("XRes 1.2 不可用"@)
            } else {
                match snapshot_of(replies@, managed@) {
                    Ok(list) => r matches Ok(v) && windows_view(v@) == list,
                    Err(message) => r matches Err(e) && e@ == unverifiable(message),
                }
            },
    {
        match snapshot(version, replies, managed) {
            Ok(v) => Ok(v),
            Err(message) => {
                let mut text = "X11 窗口身份不可验证，请重新观察: ".to_owned();
                text.append(message.as_str());
                Err(Fault::stale(text.as_str()))
            },
        }
    }
}

/// The fault of windows that cannot be verified.
pub open spec fn unverifiable(message: Seq<char>) -> FaultView {
    fault(ErrorCode::StaleTarget, "X11 窗口身份不可验证，请重新观察: "@ + message)
}

/// Whether the window of a reply is among others, with the process that the server named.
pub open spec fn returned(list: Seq<WindowView>, reply: WindowReply) -> bool {
    exists|k: int|
        {
            &&& 0 <= k < list.len()
            &&& (#[trigger] list[k]).id == reply.id
            &&& Some(list[k].process.pid) == client_of(reply.clients@)
        }
}

/// Every window that is returned belongs to the process that the server named as its client,
/// and none is left out.
pub proof fn returned_windows_have_an_owner(
    replies: Seq<WindowReply>,
    managed: Seq<u32>,
    i: int,
)
    requires
        forall|j: int| 0 <= j < replies.len() ==> matched(#[trigger] replies[j]),
        snapshot_of(replies, managed) is Ok,
        0 <= i < replies.len(),
        counts(replies[i], managed),
    ensures
        replies[i].process is Ok,
        client_of(replies[i].clients@) == Some(replies[i].process->Ok_0.pid),
        returned(snapshot_of(replies, managed)->Ok_0, replies[i]),
    decreases replies.len(),
{
    let list = snapshot_of(replies, managed)->Ok_0;
    assert(matched(replies[i]));
    if i < replies.len() - 1 {
        let less = replies.drop_last();
        assert forall|j: int| 0 <= j < less.len() implies matched(#[trigger] less[j]) by {
            assert(matched(replies[j]));
        }
        returned_windows_have_an_owner(less, managed, i);
        let before = snapshot_of(less, managed)->Ok_0;
        let k = choose|k: int|
            {
                &&& 0 <= k < before.len()
                &&& (#[trigger] before[k]).id == replies[i].id
                &&& Some(before[k].process.pid) == client_of(replies[i].clients@)
            };
        assert(list[k] == before[k]);
    } else {
        assert(list.last().id == replies[i].id);
        assert(list[list.len() - 1] == list.last());
    }
}

} // verus!
