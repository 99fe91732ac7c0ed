//! Accessibility trees: which windows can be bound, how far a tree is read, and what of it
//! is shown. Nothing is written through it.
use vstd::multiset::Multiset;
use vstd::prelude::*;

use crate::backend::process::ProcessIdentity;
use crate::backend::{cancelled, may_read, Cancellation};
use crate::model::{
    fault, node_view, nodes_view, optional, ErrorCode, Fault, FaultView, Node, NodeView,
};
use crate::text::{same, starts_with, texts};

verus! {

/// The role of a control whose content is secret.
pub const PASSWORD_ROLE: u32 = 40;

/// Most controls of a tree.
pub const MAX_NODES: usize = 256;

/// Most levels below the root.
pub const MAX_DEPTH: usize = 12;

/// Most characters of a control's text.
pub const MAX_CHARACTERS: i32 = 4096;

/// Most applications that are looked at.
pub const MAX_APPLICATIONS: usize = 64;

/// Most windows of an application that are looked at.
pub const MAX_WINDOWS: usize = 32;

/// The fault of an accessibility call.
pub fn call_fault(message: &str) -> (r: Fault)
    ensures
        r@ == fault(ErrorCode::BackendUnavailable, "AT-SPI: "@ + message@),
{
    let mut text = "AT-SPI: ".to_owned();
    text.append(message);
    Fault::unavailable(text.as_str())
}

/// A window of the compositor.
#[derive(Debug)]
pub struct DesktopWindow {
    pub id: u64,
    pub pid: Option<i32>,
    pub title: Option<String>,
    pub app_id: Option<String>,
}

/// The number of a process as the compositor gives it, in 32 bits with a sign.
pub open spec fn signed(pid: u32) -> int {
    if pid > i32::MAX {
        pid - 0x1_0000_0000
    } else {
        pid as int
    }
}

/// Whether two numbers stand for the same process.
pub fn same_number(p: i32, pid: u32) -> (r: bool)
    ensures
        r == (p == signed(pid)),
{
    let wide: i64 = pid as i64;
    if pid > 0x7fff_ffff {
        p as i64 == wide - 0x1_0000_0000
    } else {
        p as i64 == wide
    }
}

/// Whether a window belongs to a process and has a title.
pub open spec fn belongs(w: DesktopWindow, pid: u32, title: Seq<char>) -> bool {
    (w.pid matches Some(p) && p == signed(pid)) && (w.title matches Some(t) && t@ == title)
}

fn is_owned(w: &DesktopWindow, pid: u32, title: &str) -> (r: bool)
    ensures
        r == belongs(*w, pid, title@),
{
    match w.pid {
        Some(p) => {
            if !same_number(p, pid) {
                return false;
            }
        },
        None => {
            return false;
        },
    }
    match &w.title {
        Some(t) => same(t.as_str(), title),
        None => false,
    }
}

/// Whether a number is that of the only window of a process with a title, or none is given as
/// there are several or none.
pub open spec fn only_one(
    windows: Seq<DesktopWindow>,
    pid: u32,
    title: Seq<char>,
    r: Option<u64>,
) -> bool {
    match r {
        Some(id) => exists|i: int|
            {
                &&& 0 <= i < windows.len()
                &&& belongs(#[trigger] windows[i], pid, title)
                &&& windows[i].id == id
                &&& forall|j: int|
                    0 <= j < windows.len() && j != i ==> !belongs(
                        #[trigger] windows[j],
                        pid,
                        title,
                    )
            },
        None => (forall|j: int|
            0 <= j < windows.len() ==> !belongs(#[trigger] windows[j], pid, title)) || exists|
            i: int,
            j: int,
        |
            0 <= i < j < windows.len() && belongs(#[trigger] windows[i], pid, title) && belongs(
                #[trigger] windows[j],
                pid,
                title,
            ),
    }
}

/// The only window of a process with a title; none if there are several or none.
pub fn unique_window(windows: &Vec<DesktopWindow>, pid: u32, title: &str) -> (r: Option<u64>)
    ensures
        only_one(windows@, pid, title@, r),
{
    let mut found: Option<usize> = None;
    let mut i: usize = 0;
    while i < windows.len()
        invariant
            i <= windows@.len(),
            match found {
                None => forall|j: int|
                    0 <= j < i ==> !belongs(#[trigger] windows@[j], pid, title@),
                Some(k) => {
                    &&& k < i
                    &&& belongs(windows@[k as int], pid, title@)
                    &&& forall|j: int|
                        0 <= j < i && j != k ==> !belongs(#[trigger] windows@[j], pid, title@)
                },
            },
        decreases windows@.len() - i,
    {
        if is_owned(&windows[i], pid, title) {
            match found {
                Some(k) => {
                    assert(belongs(windows@[k as int], pid, title@) && belongs(
                        windows@[i as int],
                        pid,
                        title@,
                    ));
                    return None;
                },
                None => {
                    found = Some(i);
                },
            }
        }
        i = i + 1;
    }
    match found {
        Some(k) => Some(windows[k].id),
        None => None,
    }
}

/// A window that could be bound.
#[derive(Debug)]
pub struct Candidate {
    pub bus: String,
    pub root: String,
    pub process: ProcessIdentity,
    pub label: String,
    pub toolkit: String,
    pub version: String,
    pub window_id: u64,
}

/// Whether an application on the bus is considered: by its own name there, and not this
/// process itself.
pub fn considered(bus: &str, pid: u32, own_pid: u32) -> (r: bool)
    ensures
        r == (crate::text::begins(bus@, ":"@) && pid != own_pid),
{
    starts_with(bus, ":") && pid != own_pid
}

/// The label of a window: its application, a dash and its title.
pub fn window_label(application: &str, title: &str) -> (r: String)
    ensures
        r@ == application@ + " — "@ + title@,
{
    let mut out = application.to_owned();
    out.append(" — ");
    out.append(title);
    out
}

/// Makes a candidate of a window of an application, if it lies on the application's own bus
/// and the compositor shows exactly one such window.
pub fn candidate(
    bus: &str,
    child_bus: &str,
    root: String,
    process: &ProcessIdentity,
    application: &str,
    title: &str,
    toolkit: &str,
    version: &str,
    windows: &Vec<DesktopWindow>,
) -> (r: Option<Candidate>)
    ensures
        child_bus@ != bus@ ==> r is None,
        r matches Some(c) ==> {
            &&& c.bus@ == bus@
            &&& c.root@ == root@
            &&& c.process@ == process@
            &&& c.label@ == application@ + " — "@ + title@
            &&& c.toolkit@ == toolkit@
            &&& c.version@ == version@
            &&& only_one(windows@, process.pid, title@, Some(c.window_id))
        },
        r is None && child_bus@ == bus@ ==> only_one(windows@, process.pid, title@, None),
{
    if !same(child_bus, bus) {
        return None;
    }
    match unique_window(windows, process.pid, title) {
        None => None,
        Some(window_id) => Some(
            Candidate {
                bus: bus.to_owned(),
                root,
                process: process.clone(),
                label: window_label(application, title),
                toolkit: toolkit.to_owned(),
                version: version.to_owned(),
                window_id,
            },
        ),
    }
}

/// Whether a candidate is still the same application: its process lives and owns its bus.
pub fn check_owner(alive: bool, owner: u32, candidate: &Candidate) -> (r: Result<(), Fault>)
    ensures
        if alive && owner == candidate.process.pid {
            r is Ok
        } else {
            r matches Err(e) && e.says(ErrorCode::StaleTarget, "应用身份已改变"@)
        },
{
    if !alive || owner != candidate.process.pid {
        Err(Fault::stale("应用身份已改变"))
    } else {
        Ok(())
    }
}

/// Whether a bound window is there: its process lives, owns its bus, and the window
/// answers.
pub fn window_alive(process: bool, owner: Option<u32>, answers: bool, pid: u32) -> (r: bool)
    ensures
        r == (process && owner == Some(pid) && answers),
{
    match owner {
        Some(o) => process && o == pid && answers,
        None => false,
    }
}

/// Whether the text of a control may be read.
pub fn wants_text(role_number: u32, interfaces: &Vec<String>) -> (r: bool)
    ensures
        r == (role_number != PASSWORD_ROLE && texts(interfaces@).contains("org.a11y.atspi.Text"@)),
{
    if role_number == PASSWORD_ROLE {
        return false;
    }
    let mut i: usize = 0;
    while i < interfaces.len()
        invariant
            i <= interfaces@.len(),
            role_number != PASSWORD_ROLE,
            forall|j: int| 0 <= j < i ==> texts(interfaces@)[j] != "org.a11y.atspi.Text"@,
        decreases interfaces@.len() - i,
    {
        if same(interfaces[i].as_str(), "org.a11y.atspi.Text") {
            assert(texts(interfaces@)[i as int] == "org.a11y.atspi.Text"@);
            return true;
        }
        i = i + 1;
    }
    false
}

/// How many characters of a text to read.
pub fn text_length(count: i32) -> (r: i32)
    ensures
        r == (if count < 0 {
            0
        } else if count > MAX_CHARACTERS {
            MAX_CHARACTERS
        } else {
            count
        }),
{
    if count < 0 {
        0
    } else if count > MAX_CHARACTERS {
        MAX_CHARACTERS
    } else {
        count
    }
}

/// A control as it was read.
#[derive(Debug)]
pub struct Control {
    pub name: String,
    pub role: String,
    pub role_number: u32,
    /// Bus and path of each child.
    pub children: Vec<(String, String)>,
    pub text: Option<String>,
}

/// A control whose children are being read.
#[derive(Debug)]
pub struct Frame {
    pub id: String,
    pub name: String,
    pub role: String,
    pub text: Option<String>,
    pub secret: bool,
    pub children: Vec<(String, String)>,
    /// Number of children that were considered.
    pub at: usize,
    pub nodes: Vec<Node>,
}

/// A frame by its values.
#[verifier::ext_equal]
pub struct FrameView {
    pub id: Seq<char>,
    pub name: Seq<char>,
    pub role: Seq<char>,
    pub text: Option<Seq<char>>,
    pub secret: bool,
    pub children: Seq<(Seq<char>, Seq<char>)>,
    pub at: nat,
    pub nodes: Seq<NodeView>,
}

/// Pairs of texts by their values.
pub open spec fn pairs(v: Seq<(String, String)>) -> Seq<(Seq<char>, Seq<char>)> {
    v.map_values(|p: (String, String)| (p.0@, p.1@))
}

impl View for Frame {
    type V = FrameView;

    open spec fn view(&self) -> FrameView {
        FrameView {
            id: self.id@,
            name: self.name@,
            role: self.role@,
            text: optional(self.text),
            secret: self.secret,
            children: pairs(self.children@),
            at: self.at as nat,
            nodes: nodes_view(self.nodes@),
        }
    }
}

impl FrameView {
    /// The finished control. No action is offered.
    pub open spec fn node(self) -> NodeView {
        NodeView {
            id: self.id,
            name: self.name,
            role: self.role,
            text: self.text,
            actions: Seq::empty(),
            children: self.nodes,
        }
    }
}

/// A control that begins to be read. The name and the text of a secret one stay hidden.
pub open spec fn opened(id: Seq<char>, c: Control) -> FrameView {
    let secret = c.role_number == PASSWORD_ROLE;
    FrameView {
        id,
        name: if secret {
            "密码输入框"@
        } else {
            c.name@
        },
        role: c.role@,
        text: if secret {
            None
        } else {
            optional(c.text)
        },
        secret,
        children: pairs(c.children@),
        at: 0,
        nodes: Seq::empty(),
    }
}

/// A tree that is being read, depth first.
pub struct Walk {
    pub bus: String,
    pub remaining: usize,
    pub visited: Vec<String>,
    /// Path of each control that was read, by its identifier.
    pub paths: Vec<(String, String)>,
    /// The controls from the root down to where reading has come.
    pub frames: Vec<Frame>,
    /// The control that is being read.
    pub reading: Option<String>,
}

/// A walk by its values.
#[verifier::ext_equal]
pub struct WalkView {
    pub bus: Seq<char>,
    pub remaining: nat,
    pub visited: Seq<Seq<char>>,
    pub paths: Seq<(Seq<char>, Seq<char>)>,
    pub frames: Seq<FrameView>,
    pub reading: Option<Seq<char>>,
}

/// Frames by their values.
pub open spec fn frames_view(v: Seq<Frame>) -> Seq<FrameView> {
    v.map_values(|f: Frame| f@)
}

impl View for Walk {
    type V = WalkView;

    open spec fn view(&self) -> WalkView {
        WalkView {
            bus: self.bus@,
            remaining: self.remaining as nat,
            visited: texts(self.visited@),
            paths: pairs(self.paths@),
            frames: frames_view(self.frames@),
            reading: optional(self.reading),
        }
    }
}

/// What a walk does.
pub enum WalkStep {
    /// Read the control at this path.
    Read(String),
    /// Go on.
    Continue,
    /// The tree is complete.
    Done(Node),
}

/// What a walk does, by its values.
pub enum WalkNext {
    Read(Seq<char>),
    Continue,
    Done(NodeView),
}

impl View for WalkStep {
    type V = WalkNext;

    open spec fn view(&self) -> WalkNext {
        match *self {
            WalkStep::Read(path) => WalkNext::Read(path@),
            WalkStep::Continue => WalkNext::Continue,
            WalkStep::Done(node) => WalkNext::Done(node_view(node)),
        }
    }
}

/// The fault of a tree that is too large or took too long.
pub open spec fn limited() -> FaultView {
    fault(ErrorCode::BackendUnavailable, "控件树读取达到限制"@)
}

/// Number of controls in a tree.
pub open spec fn size(n: NodeView) -> nat
    decreases n,
{
    1 + total(n.children)
}

/// Number of controls in some trees.
pub open spec fn total(v: Seq<NodeView>) -> nat
    decreases v, v.len(),
{
    if v.len() == 0 {
        0
    } else {
        total(v.drop_last()) + size(v[v.len() - 1])
    }
}

/// Number of levels of a tree.
pub open spec fn height(n: NodeView) -> nat
    decreases n,
{
    1 + tallest(n.children)
}

/// Number of levels of the tallest of some trees.
pub open spec fn tallest(v: Seq<NodeView>) -> nat
    decreases v, v.len(),
{
    if v.len() == 0 {
        0
    } else {
        let before = tallest(v.drop_last());
        let last = height(v[v.len() - 1]);
        if before < last {
            last
        } else {
            before
        }
    }
}

/// The identifiers in a tree.
pub open spec fn ids(n: NodeView) -> Multiset<Seq<char>>
    decreases n,
{
    all_ids(n.children).insert(n.id)
}

/// The identifiers in some trees.
pub open spec fn all_ids(v: Seq<NodeView>) -> Multiset<Seq<char>>
    decreases v, v.len(),
{
    if v.len() == 0 {
        Multiset::empty()
    } else {
        all_ids(v.drop_last()).add(ids(v[v.len() - 1]))
    }
}

/// The identifiers in the frames of a walk.
pub open spec fn held_ids(frames: Seq<FrameView>) -> Multiset<Seq<char>>
    decreases frames.len(),
{
    if frames.len() == 0 {
        Multiset::empty()
    } else {
        held_ids(frames.drop_last()).add(all_ids(frames.last().nodes).insert(frames.last().id))
    }
}

/// The identifiers that were given to controls.
pub open spec fn given_ids(paths: Seq<(Seq<char>, Seq<char>)>) -> Multiset<Seq<char>>
    decreases paths.len(),
{
    if paths.len() == 0 {
        Multiset::empty()
    } else {
        given_ids(paths.drop_last()).insert(paths.last().0)
    }
}

/// Number of controls in the frames of a walk.
pub open spec fn collected(frames: Seq<FrameView>) -> nat
    decreases frames.len(),
{
    if frames.len() == 0 {
        0
    } else {
        collected(frames.drop_last()) + 1 + total(frames.last().nodes)
    }
}

impl WalkView {
    /// The limits hold, no control was visited twice, every control that was collected was
    /// visited, and each is there under the identifier that it was given.
    pub open spec fn wf(self) -> bool {
        &&& self.visited.len() + self.remaining == MAX_NODES
        &&& self.visited.no_duplicates()
        &&& self.frames.len() <= MAX_DEPTH + 1
        &&& self.reading is Some ==> self.frames.len() <= MAX_DEPTH
        &&& collected(self.frames) + (if self.reading is Some {
            1nat
        } else {
            0nat
        }) <= self.visited.len()
        &&& forall|i: int|
            0 <= i < self.frames.len() ==> (#[trigger] self.frames[i]).at
                <= self.frames[i].children.len()
        &&& forall|i: int|
            0 <= i < self.frames.len() ==> tallest((#[trigger] self.frames[i]).nodes) + i
                <= MAX_DEPTH
        &&& self.frames.len() > 0 || self.reading is Some ==> held_ids(self.frames) == given_ids(
            self.paths,
        )
    }

    /// Whether a child of the control at hand is read.
    pub open spec fn eligible(self, child: (Seq<char>, Seq<char>), late: bool) -> bool {
        &&& !self.frames.last().secret
        &&& child.0 == self.bus
        &&& !self.visited.contains(child.1)
        &&& self.remaining > 0
        &&& self.frames.len() <= MAX_DEPTH
        &&& !late
    }

    /// The control at hand with one more child considered.
    pub open spec fn passed(self) -> WalkView {
        let top = self.frames.last();
        WalkView {
            frames: self.frames.update(
                self.frames.len() - 1,
                FrameView { at: top.at + 1, ..top },
            ),
            ..self
        }
    }

    /// After the next child of the control at hand was considered, or the control finished.
    pub open spec fn stepped(self, late: bool) -> (WalkView, WalkNext) {
        let top = self.frames.last();
        if top.at < top.children.len() {
            let child = top.children[top.at as int];
            if self.eligible(child, late) {
                (
                    WalkView {
                        remaining: (self.remaining - 1) as nat,
                        visited: self.visited.push(child.1),
                        reading: Some(child.1),
                        ..self.passed()
                    },
                    WalkNext::Read(child.1),
                )
            } else {
                (self.passed(), WalkNext::Continue)
            }
        } else if self.frames.len() == 1 {
            (WalkView { frames: Seq::empty(), ..self }, WalkNext::Done(top.node()))
        } else {
            let parent = self.frames[self.frames.len() - 2];
            (
                WalkView {
                    frames: self.frames.drop_last().update(
                        self.frames.len() - 2,
                        FrameView { nodes: parent.nodes.push(top.node()), ..parent },
                    ),
                    ..self
                },
                WalkNext::Continue,
            )
        }
    }
}

impl Walk {
    /// Begins to read a tree.
    pub fn new(bus: String, root: String, late: bool) -> (r: Result<Self, Fault>)
        ensures
            if late {
                r matches Err(e) && e@ == limited()
            } else {
                &&& r matches Ok(w)
                &&& w@.wf()
                &&& w@ == (WalkView {
                    bus: bus@,
                    remaining: (MAX_NODES - 1) as nat,
                    visited: seq![root@],
                    paths: Seq::empty(),
                    frames: Seq::empty(),
                    reading: Some(root@),
                })
            },
    {
        if late {
            return Err(Fault::unavailable("控件树读取达到限制"));
        }
        let mut visited: Vec<String> = Vec::new();
        visited.push(root.clone());
        let w = Walk {
            bus,
            remaining: MAX_NODES - 1,
            visited,
            paths: Vec::new(),
            frames: Vec::new(),
            reading: Some(root),
        };
        assert(w@.visited =~= seq![root@]);
        assert(w@.frames =~= Seq::empty());
        assert(w@.paths =~= Seq::empty());
        Ok(w)
    }

    fn has_visited(&self, path: &str) -> (r: bool)
        ensures
            r == self@.visited.contains(path@),
    {
        let mut i: usize = 0;
        while i < self.visited.len()
            invariant
                i <= self.visited@.len(),
                forall|j: int| 0 <= j < i ==> self@.visited[j] != path@,
            decreases self.visited@.len() - i,
        {
            if same(self.visited[i].as_str(), path) {
                assert(self@.visited[i as int] == path@);
                return true;
            }
            i = i + 1;
        }
        false
    }

    /// Takes in the control that was read, or that it could not be read. The failure of the
    /// root is the failure of the whole; any other control is left out.
    pub fn supply(&mut self, id: String, control: Result<Control, Fault>) -> (r: Option<Fault>)
        requires
            old(self)@.wf(),
            old(self)@.reading is Some,
        ensures
            match control {
                Ok(c) => {
                    &&& r is None
                    &&& final(self)@.wf()
                    &&& final(self)@ == (WalkView {
                        paths: old(self)@.paths.push((id@, old(self)@.reading->0)),
                        frames: old(self)@.frames.push(opened(id@, c)),
                        reading: None,
                        ..old(self)@
                    })
                },
                Err(f) => {
                    &&& final(self)@.wf()
                    &&& final(self)@ == (WalkView { reading: None, ..old(self)@ })
                    &&& if old(self)@.frames.len() == 0 {
                        r matches Some(e) && e@ == f@
                    } else {
                        r is None
                    }
                },
            },
    {
        let ghost before = self@;
        let path = match self.reading.take() {
            Some(path) => path,
            None => {
                return None;
            },
        };
        match control {
            Err(e) => {
                if self.frames.len() == 0 {
                    assert(self@.frames.len() == 0);
                    Some(e)
                } else {
                    assert(self@.frames.len() > 0);
                    None
                }
            },
            Ok(c) => {
                let secret = c.role_number == PASSWORD_ROLE;
                let ghost gid = id@;
                let frame = Frame {
                    id: id.clone(),
                    name: if secret {
                        "密码输入框".to_owned()
                    } else {
                        c.name
                    },
                    role: c.role,
                    text: if secret {
                        None
                    } else {
                        c.text
                    },
                    secret,
                    children: c.children,
                    at: 0,
                    nodes: Vec::new(),
                };
                assert(frame@ =~= opened(gid, c)) by {
                    assert(nodes_view(frame.nodes@) =~= Seq::empty());
                }
                let ghost frame_view = frame@;
                self.paths.push((id, path));
                self.frames.push(frame);
                proof {
                    assert(self@.paths =~= before.paths.push((gid, before.reading->0)));
                    assert(self@.frames =~= before.frames.push(frame_view));
                    assert(self@.frames.drop_last() =~= before.frames);
                    assert(total(frame_view.nodes) == 0);
                    assert(tallest(frame_view.nodes) == 0);
                    assert(self@.paths.drop_last() =~= before.paths);
                    assert(held_ids(self@.frames) =~= given_ids(self@.paths));
                    assert forall|i: int| 0 <= i < self@.frames.len() implies tallest(
                        (#[trigger] self@.frames[i]).nodes,
                    ) + i <= MAX_DEPTH by {
                        if i < before.frames.len() {
                            assert(self@.frames[i] == before.frames[i]);
                        }
                    }
                }
                None
            },
        }
    }

    /// Considers the next child of the control at hand, or finishes the control.
    pub fn step(&mut self, late: bool) -> (r: WalkStep)
        requires
            old(self)@.wf(),
            old(self)@.reading is None,
            old(self)@.frames.len() > 0,
        ensures
            final(self)@.wf(),
            (final(self)@, r@) == old(self)@.stepped(late),
    {
        let ghost before = self@;
        let n: usize = self.frames.len();
        assert(n == before.frames.len());
        let at: usize = self.frames[n - 1].at;
        let ghost top = before.frames.last();
        assert(top == self.frames@[n - 1]@);
        if at < self.frames[n - 1].children.len() {
            let bus = self.frames[n - 1].children[at].0.clone();
            let path = self.frames[n - 1].children[at].1.clone();
            let secret = self.frames[n - 1].secret;
            assert(top.children[at as int] == (bus@, path@));
            let seen = self.has_visited(path.as_str());
            self.frames[n - 1].at = at + 1;
            proof {
                assert(self@.frames =~= before.passed().frames);
                lemma_same_collection(before.frames, self@.frames);
                assert forall|i: int| 0 <= i < self@.frames.len() implies tallest(
                    (#[trigger] self@.frames[i]).nodes,
                ) + i <= MAX_DEPTH by {
                    assert(self@.frames[i].nodes == before.frames[i].nodes);
                }
            }
            if secret || !same(bus.as_str(), self.bus.as_str()) || seen || self.remaining == 0 || n
                > MAX_DEPTH || late {
                return WalkStep::Continue;
            }
            self.remaining = self.remaining - 1;
            self.visited.push(path.clone());
            proof {
                assert(self@.visited =~= before.visited.push(path@));
                lemma_still_distinct(before.visited, path@);
            }
            self.reading = Some(path.clone());
            return WalkStep::Read(path);
        }
        let top_frame = self.frames.pop();
        match top_frame {
            None => WalkStep::Continue,
            Some(f) => {
                assert(self@.frames =~= before.frames.drop_last());
                let node = Node {
                    id: f.id,
                    name: f.name,
                    role: f.role,
                    text: f.text,
                    actions: Vec::new(),
                    children: f.nodes,
                };
                assert(node_view(node) =~= top.node()) by {
                    assert(texts(node.actions@) =~= Seq::empty());
                }
                if n == 1 {
                    assert(self@.frames =~= Seq::empty());
                    return WalkStep::Done(node);
                }
                let ghost parent = before.frames[n - 2];
                assert(parent == self.frames@[n - 2]@);
                let ghost nodes_before = self.frames@[n - 2].nodes@;
                self.frames[n - 2].nodes.push(node);
                proof {
                    assert(nodes_view(self.frames@[n - 2].nodes@) =~= nodes_view(nodes_before).push(
                        top.node(),
                    ));
                    let now = before.frames.drop_last().update(
                        n - 2,
                        FrameView { nodes: parent.nodes.push(top.node()), ..parent },
                    );
                    assert(self@.frames =~= now);
                    lemma_collected_pop(before.frames, now, parent, top);
                    assert forall|i: int| 0 <= i < now.len() implies tallest(
                        (#[trigger] now[i]).nodes,
                    ) + i <= MAX_DEPTH by {
                        assert(tallest(before.frames[n - 1].nodes) + (n - 1) <= MAX_DEPTH);
                        assert(tallest(before.frames[i].nodes) + i <= MAX_DEPTH);
                        if i == n - 2 {
                            let grown = parent.nodes.push(top.node());
                            assert(grown.drop_last() =~= parent.nodes);
                            assert(height(top.node()) == 1 + tallest(top.nodes));
                        }
                    }
                }
                WalkStep::Continue
            },
        }
    }

    /// Goes on with a walk, unless it was cancelled. A walk that was cancelled ends in a fault.
    pub fn walk(&mut self, cancel: &Cancellation, late: bool) -> (r: Result<WalkStep, Fault>)
        requires
            old(self)@.wf(),
            old(self)@.reading is None,
            old(self)@.frames.len() > 0,
        ensures
            final(self)@.wf(),
            exists|current: u64| #[trigger]
                may_read(*cancel.generation, current) && if current == cancel.captured {
                    r matches Ok(step) && (final(self)@, step@) == old(self)@.stepped(late)
                } else {
                    &&& r matches Err(e)
                    &&& e@ == cancelled()
                    &&& final(self)@ == old(self)@
                },
    {
        match cancel.check() {
            Err(e) => Err(e),
            Ok(()) => Ok(self.step(late)),
        }
    }
}

proof fn lemma_still_distinct(s: Seq<Seq<char>>, x: Seq<char>)
    requires
        s.no_duplicates(),
        !s.contains(x),
    ensures
        s.push(x).no_duplicates(),
{
    let t = s.push(x);
    assert forall|i: int, j: int| 0 <= i < t.len() && 0 <= j < t.len() && i != j implies t[i]
        != t[j] by {
        if i == s.len() {
            assert(s.contains(s[j]));
        } else if j == s.len() {
            assert(s.contains(s[i]));
        }
    }
}

/// Frames with the same nodes hold the same number of controls.
proof fn lemma_same_collection(a: Seq<FrameView>, b: Seq<FrameView>)
    requires
        a.len() == b.len(),
        forall|i: int|
            0 <= i < a.len() ==> (#[trigger] a[i]).nodes == b[i].nodes && a[i].id == b[i].id,
    ensures
        collected(a) == collected(b),
        held_ids(a) == held_ids(b),
    decreases a.len(),
{
    if a.len() > 0 {
        lemma_same_collection(a.drop_last(), b.drop_last());
        assert(a[a.len() - 1].nodes == b[b.len() - 1].nodes && a[a.len() - 1].id == b[b.len()
            - 1].id);
    }
}

proof fn lemma_collected_pop(
    before: Seq<FrameView>,
    now: Seq<FrameView>,
    parent: FrameView,
    top: FrameView,
)
    requires
        before.len() >= 2,
        parent == before[before.len() - 2],
        top == before.last(),
        now == before.drop_last().update(
            before.len() - 2,
            FrameView { nodes: parent.nodes.push(top.node()), ..parent },
        ),
    ensures
        collected(now) == collected(before),
        held_ids(now) == held_ids(before),
{
    reveal_with_fuel(collected, 3);
    reveal_with_fuel(held_ids, 3);
    let less = before.drop_last();
    assert(now.drop_last() =~= less.drop_last());
    let grown = parent.nodes.push(top.node());
    assert(grown.drop_last() =~= parent.nodes);
    assert(now.last().nodes == grown);
    assert(less.last() == parent);
    assert(total(grown) == total(parent.nodes) + size(top.node()));
    assert(size(top.node()) == 1 + total(top.nodes));
    assert(all_ids(grown) == all_ids(parent.nodes).add(ids(top.node())));
    assert(ids(top.node()) == all_ids(top.nodes).insert(top.id));
    assert(held_ids(now) =~= held_ids(before));
}

/// A tree holds no more controls than were visited, and so at most two hundred and
/// fifty-six.
pub proof fn trees_are_bounded(w: WalkView)
    requires
        w.wf(),
        w.reading is None,
        w.frames.len() == 1,
    ensures
        size(w.frames[0].node()) <= w.visited.len() <= MAX_NODES,
{
    let f = w.frames;
    assert(f.drop_last() =~= Seq::<FrameView>::empty());
    assert(collected(f.drop_last()) == 0);
    assert(collected(f) == 1 + total(f[0].nodes));
}

/// A finished tree is at most twelve levels deep below its root.
pub proof fn trees_are_shallow(w: WalkView)
    requires
        w.wf(),
        w.reading is None,
        w.frames.len() == 1,
    ensures
        height(w.frames[0].node()) <= MAX_DEPTH + 1,
{
    assert(tallest(w.frames[0].nodes) + 0 <= MAX_DEPTH);
}

/// The controls of a finished tree have the identifiers that they were given, each as often as
/// it was given: where those differ, the tree's do.
pub proof fn trees_name_controls_as_given(w: WalkView)
    requires
        w.wf(),
        w.reading is None,
        w.frames.len() == 1,
    ensures
        ids(w.frames[0].node()) == given_ids(w.paths),
        (forall|id: Seq<char>| #[trigger] given_ids(w.paths).count(id) <= 1) ==> forall|
            id: Seq<char>,
        | #[trigger]
            ids(w.frames[0].node()).count(id) <= 1,
{
    let f = w.frames;
    assert(f.drop_last() =~= Seq::<FrameView>::empty());
    assert(held_ids(f.drop_last()) == Multiset::<Seq<char>>::empty());
    assert(ids(f[0].node()) == all_ids(f[0].nodes).insert(f[0].id));
    assert(held_ids(f) =~= ids(f[0].node()));
}

/// A control is read only if it belongs to the same application and was not read before.
pub proof fn walks_stay_within_their_application(w: WalkView, late: bool)
    requires
        w.frames.len() > 0,
    ensures
        w.stepped(late).1 matches WalkNext::Read(path) ==> {
            let top = w.frames.last();
            &&& top.children[top.at as int] == (w.bus, path)
            &&& !w.visited.contains(path)
            &&& !top.secret
        },
{
}

/// The content of a secret control is not shown: neither its name, nor its text, nor
/// anything below it.
pub proof fn secrets_stay_hidden(id: Seq<char>, c: Control, w: WalkView, child: (
    Seq<char>,
    Seq<char>,
), late: bool)
    requires
        c.role_number == PASSWORD_ROLE,
        w.frames.len() > 0,
        w.frames.last().secret,
    ensures
        opened(id, c).secret,
        opened(id, c).name == "密码输入框"@,
        opened(id, c).text is None,
        !w.eligible(child, late),
{
}

/// Whether a window has the focus or is active, by the first word of its states.
pub open spec fn in_use(state: u32) -> bool {
    (state & ((1u32 << 1) | (1u32 << 12))) != 0
}

/// Whether the user is using a window, by its states.
pub fn focused(states: &Vec<u32>) -> (r: Result<bool, Fault>)
    ensures
        if states@.len() > 0 {
            r == Ok::<bool, Fault>(in_use(states@[0]))
        } else {
            r matches Err(e) && e.says(ErrorCode::BackendUnavailable, "缺少窗口焦点状态"@)
        },
{
    if states.len() == 0 {
        Err(Fault::unavailable("缺少窗口焦点状态"))
    } else {
        let state: u32 = states[0];
        Ok(state & ((1u32 << 1) | (1u32 << 12)) != 0)
    }
}

/// The actions that may be performed in the background. An interface that a toolkit offers
/// is no evidence that using it is safe, so there are none.
pub fn mutation_capabilities() -> (r: Vec<String>)
    ensures
        r@.len() == 0,
{
    Vec::new()
}

/// Why an action on a bound window is refused. It always is: a window in use is left alone,
/// and no background action was verified.
pub fn refuse_action(focused: bool) -> (r: Fault)
    ensures
        if focused {
            r.says(ErrorCode::Paused, "用户正在使用目标窗口"@)
        } else {
            r.says(
                ErrorCode::Unsupported,
                "此应用及版本尚无通过无干扰验证的后台写操作；可选择独立实例"@,
            )
        },
{
    if focused {
        Fault::new(ErrorCode::Paused, "用户正在使用目标窗口")
    } else {
        Fault::unsupported("此应用及版本尚无通过无干扰验证的后台写操作；可选择独立实例")
    }
}

} // verus!
