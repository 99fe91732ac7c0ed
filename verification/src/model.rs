//! Requests, capabilities, observations and faults shared by every part of the broker.
use vstd::prelude::*;

use crate::number::{unit, Binary64};
use crate::text::{byte_len, copy_texts, texts, bytes};

verus! {

/// What an authorization covers.
#[derive(Debug, Clone, Copy, PartialEq, Eq, Structural)]
pub enum Scope {
    Application,
    Desktop,
}

/// How the authorized target is reached.
#[derive(Debug, Clone, Copy, PartialEq, Eq, Structural)]
pub enum Mode {
    Isolated,
    Existing,
    Desktop,
}

/// A request for authorization.
#[derive(Debug, Clone)]
pub struct SessionRequest {
    pub scope: Scope,
    pub mode: Mode,
    /// Required for isolated mode: installed .desktop ID or unambiguous application name.
    /// No executable paths, shell commands or launch arguments are accepted.
    pub application: Option<String>,
}

/// Names a session.
#[derive(Debug, Clone)]
pub struct SessionRef {
    pub session_id: String,
}

/// Asks for a new observation.
#[derive(Debug, Clone)]
pub struct ObserveRequest {
    pub session_id: String,
    /// Opaque target returned by a status or the previous observation.
    pub target: Option<String>,
}

/// Asks for one action on a valid observation.
#[derive(Debug, Clone)]
pub struct ActRequest {
    pub session_id: String,
    pub observation_id: String,
    pub target: String,
    pub action: Action,
}

/// A place in an observed image, in pixels.
#[derive(Debug, Clone, Copy)]
pub struct Point {
    pub x: Binary64,
    pub y: Binary64,
}

#[derive(Debug, Clone, Copy, PartialEq, Eq, Structural)]
pub enum Button {
    Left,
    Middle,
    Right,
}

#[derive(Debug, Clone, Copy, PartialEq, Eq, Structural)]
pub enum Modifier {
    Ctrl,
    Alt,
    Shift,
    Super,
}

/// One action on an observed target.
#[derive(Debug, Clone)]
pub enum Action {
    Click { at: Point, button: Button },
    Drag { from: Point, to: Point },
    Scroll { at: Point, dx: Binary64, dy: Binary64 },
    Key { key: String, modifiers: Vec<Modifier> },
    Text { text: String },
    SetText { node: String, text: String },
    Invoke { node: String, action: String },
    FocusWindow { window: String },
}

/// Whether a place lies in an image of the given size.
pub open spec fn within(p: Point, width: u32, height: u32) -> bool {
    &&& p.x.finite()
    &&& p.y.finite()
    &&& 0 <= p.x.value() < width * unit()
    &&& 0 <= p.y.value() < height * unit()
}

/// Whether a scroll distance is finite and at most 2000 either way.
pub open spec fn scrollable(d: Binary64) -> bool {
    d.finite() && -2000 * unit() <= d.value() <= 2000 * unit()
}

/// Most bytes of text in one action.
pub const MAX_TEXT: usize = 65536;

/// Most bytes of a key name.
pub const MAX_KEY: usize = 64;

/// Most modifiers of a key.
pub const MAX_MODIFIERS: usize = 4;

impl Action {
    /// Name of the capability that an action needs.
    pub open spec fn capability_name(self) -> Seq<char> {
        match self {
            Action::Click { .. } => "click"@,
            Action::Drag { .. } => "drag"@,
            Action::Scroll { .. } => "scroll"@,
            Action::Key { .. } => "key"@,
            Action::Text { .. } => "text"@,
            Action::SetText { .. } => "set_text"@,
            Action::Invoke { .. } => "invoke"@,
            Action::FocusWindow { .. } => "focus_window"@,
        }
    }

    /// What is wrong with an action on an image of the given size, if anything.
    pub open spec fn objection(self, width: u32, height: u32) -> Option<Seq<char>> {
        match self {
            Action::Click { at, .. } => if within(at, width, height) {
                None
            } else {
                Some("坐标超出观察图像"@)
            },
            Action::Drag { from, to } => if within(from, width, height) && within(
                to,
                width,
                height,
            ) {
                None
            } else {
                Some("坐标超出观察图像"@)
            },
            Action::Scroll { at, dx, dy } => if !within(at, width, height) {
                Some("坐标超出观察图像"@)
            } else if !scrollable(dx) || !scrollable(dy) {
                Some("滚动范围无效"@)
            } else {
                None
            },
            Action::Text { text } => if bytes(text@) > MAX_TEXT {
                Some("文本超过 64 KiB"@)
            } else {
                None
            },
            Action::SetText { text, .. } => if bytes(text@) > MAX_TEXT {
                Some("文本超过 64 KiB"@)
            } else {
                None
            },
            Action::Key { key, modifiers } => if bytes(key@) > MAX_KEY || modifiers@.len()
                > MAX_MODIFIERS {
                Some("按键参数无效"@)
            } else {
                None
            },
            _ => None,
        }
    }

    /// Name of the capability that this action needs.
    pub fn capability(&self) -> (r: &'static str)
        ensures
            r@ == self.capability_name(),
    {
        match self {
            Action::Click { .. } => "click",
            Action::Drag { .. } => "drag",
            Action::Scroll { .. } => "scroll",
            Action::Key { .. } => "key",
            Action::Text { .. } => "text",
            Action::SetText { .. } => "set_text",
            Action::Invoke { .. } => "invoke",
            Action::FocusWindow { .. } => "focus_window",
        }
    }

    /// Checks the action against the size of the observed image.
    pub fn validate(&self, width: u32, height: u32) -> (r: Result<(), Fault>)
        ensures
            match self.objection(width, height) {
                None => r is Ok,
                Some(message) => r matches Err(e) && e.says(ErrorCode::InvalidRequest, message),
            },
    {
        match self {
            Action::Click { at, .. } => check_point(at, width, height),
            Action::Drag { from, to } => {
                match check_point(from, width, height) {
                    Err(e) => Err(e),
                    Ok(()) => check_point(to, width, height),
                }
            },
            Action::Scroll { at, dx, dy } => {
                match check_point(at, width, height) {
                    Err(e) => Err(e),
                    Ok(()) => {
                        if !is_scrollable(*dx) || !is_scrollable(*dy) {
                            Err(Fault::invalid("滚动范围无效"))
                        } else {
                            Ok(())
                        }
                    },
                }
            },
            Action::Text { text } => check_text(text),
            Action::SetText { text, .. } => check_text(text),
            Action::Key { key, modifiers } => {
                if byte_len(key.as_str()) > MAX_KEY || modifiers.len() > MAX_MODIFIERS {
                    Err(Fault::invalid("按键参数无效"))
                } else {
                    Ok(())
                }
            },
            _ => Ok(()),
        }
    }
}

fn check_point(p: &Point, width: u32, height: u32) -> (r: Result<(), Fault>)
    ensures
        within(*p, width, height) ==> r is Ok,
        !within(*p, width, height) ==> (r matches Err(e) && e.says(
            ErrorCode::InvalidRequest,
            "坐标超出观察图像"@,
        )),
{
    let zero = Binary64::from_u32(0);
    if !p.x.is_finite() || !p.y.is_finite() || p.x.less(zero) || p.y.less(zero) || !p.x.less(
        Binary64::from_u32(width),
    ) || !p.y.less(Binary64::from_u32(height)) {
        Err(Fault::invalid("坐标超出观察图像"))
    } else {
        Ok(())
    }
}

fn is_scrollable(d: Binary64) -> (r: bool)
    ensures
        r == scrollable(d),
{
    d.is_finite() && !Binary64::from_u32(2000).less(d.abs())
}

fn check_text(text: &String) -> (r: Result<(), Fault>)
    ensures
        bytes(text@) <= MAX_TEXT ==> r is Ok,
        bytes(text@) > MAX_TEXT ==> (r matches Err(e) && e.says(
            ErrorCode::InvalidRequest,
            "文本超过 64 KiB"@,
        )),
{
    if byte_len(text.as_str()) > MAX_TEXT {
        Err(Fault::invalid("文本超过 64 KiB"))
    } else {
        Ok(())
    }
}

/// Life of an authorization.
#[derive(Debug, Clone, Copy, PartialEq, Eq, Structural)]
pub enum State {
    Pending,
    Active,
    Paused,
    Denied,
    Closed,
}

/// Something that can be observed.
#[derive(Debug)]
pub struct Target {
    pub id: String,
    pub label: String,
    pub width: u32,
    pub height: u32,
    pub scale: Binary64,
}

/// A target by its values.
#[verifier::ext_equal]
pub struct TargetView {
    pub id: Seq<char>,
    pub label: Seq<char>,
    pub width: u32,
    pub height: u32,
    pub scale: Binary64,
}

impl View for Target {
    type V = TargetView;

    open spec fn view(&self) -> TargetView {
        TargetView {
            id: self.id@,
            label: self.label@,
            width: self.width,
            height: self.height,
            scale: self.scale,
        }
    }
}

impl Clone for Target {
    fn clone(&self) -> (r: Self)
        ensures
            r@ == self@,
            r == *self,
    {
        Target {
            id: self.id.clone(),
            label: self.label.clone(),
            width: self.width,
            height: self.height,
            scale: self.scale,
        }
    }
}

/// The values of a list of targets.
pub open spec fn targets_view(v: Seq<Target>) -> Seq<TargetView> {
    v.map_values(|t: Target| t@)
}

/// Copies a list of targets.
pub fn copy_targets(v: &Vec<Target>) -> (r: Vec<Target>)
    ensures
        r@ == v@,
{
    let r = v.clone();
    assert(r@ =~= v@);
    r
}

/// The value of an optional text.
pub open spec fn optional(t: Option<String>) -> Option<Seq<char>> {
    match t {
        Some(s) => Some(s@),
        None => None,
    }
}

/// Copies an optional text.
pub fn copy_optional(t: &Option<String>) -> (r: Option<String>)
    ensures
        r == *t,
{
    match t {
        Some(s) => Some(s.clone()),
        None => None,
    }
}

/// What a client learns of its session.
#[derive(Debug)]
pub struct SessionStatus {
    pub session_id: String,
    pub scope: Scope,
    pub mode: Mode,
    pub state: State,
    pub label: Option<String>,
    pub capabilities: Vec<String>,
    pub targets: Vec<Target>,
    pub message: Option<String>,
}

/// A status by its values.
#[verifier::ext_equal]
pub struct StatusView {
    pub session_id: Seq<char>,
    pub scope: Scope,
    pub mode: Mode,
    pub state: State,
    pub label: Option<Seq<char>>,
    pub capabilities: Seq<Seq<char>>,
    pub targets: Seq<TargetView>,
    pub message: Option<Seq<char>>,
}

impl View for SessionStatus {
    type V = StatusView;

    open spec fn view(&self) -> StatusView {
        StatusView {
            session_id: self.session_id@,
            scope: self.scope,
            mode: self.mode,
            state: self.state,
            label: optional(self.label),
            capabilities: texts(self.capabilities@),
            targets: targets_view(self.targets@),
            message: optional(self.message),
        }
    }
}

impl Clone for SessionStatus {
    fn clone(&self) -> (r: Self)
        ensures
            r@ == self@,
    {
        SessionStatus {
            session_id: self.session_id.clone(),
            scope: self.scope,
            mode: self.mode,
            state: self.state,
            label: copy_optional(&self.label),
            capabilities: copy_texts(&self.capabilities),
            targets: copy_targets(&self.targets),
            message: copy_optional(&self.message),
        }
    }
}

/// A control of an accessibility tree.
#[derive(Debug)]
pub struct Node {
    pub id: String,
    pub name: String,
    pub role: String,
    pub text: Option<String>,
    pub actions: Vec<String>,
    pub children: Vec<Node>,
}

/// A control by its values.
#[verifier::ext_equal]
pub struct NodeView {
    pub id: Seq<char>,
    pub name: Seq<char>,
    pub role: Seq<char>,
    pub text: Option<Seq<char>>,
    pub actions: Seq<Seq<char>>,
    pub children: Seq<NodeView>,
}

/// The values of a control and of all below it.
pub open spec fn node_view(n: Node) -> NodeView
    decreases n,
{
    NodeView {
        id: n.id@,
        name: n.name@,
        role: n.role@,
        text: optional(n.text),
        actions: texts(n.actions@),
        children: nodes_view(n.children@),
    }
}

/// The values of a list of controls.
pub open spec fn nodes_view(v: Seq<Node>) -> Seq<NodeView>
    decreases v,
{
    Seq::new(
        v.len(),
        |i: int|
            if 0 <= i < v.len() {
                node_view(v[i])
            } else {
                arbitrary()
            },
    )
}

impl Clone for Node {
    fn clone(&self) -> (r: Self)
        ensures
            node_view(r) == node_view(*self),
        decreases *self,
    {
        let mut children: Vec<Node> = Vec::new();
        let mut i: usize = 0;
        while i < self.children.len()
            invariant
                i <= self.children@.len(),
                children@.len() == i,
                forall|j: int| 0 <= j < i ==> node_view(#[trigger] children@[j]) == node_view(self.children@[j]),
            decreases self.children@.len() - i,
        {
            children.push(self.children[i].clone());
            i = i + 1;
        }
        assert(nodes_view(children@) =~= nodes_view(self.children@));
        Node {
            id: self.id.clone(),
            name: self.name.clone(),
            role: self.role.clone(),
            text: copy_optional(&self.text),
            actions: copy_texts(&self.actions),
            children,
        }
    }
}

fn copy_nodes(v: &Vec<Node>) -> (r: Vec<Node>)
    ensures
        nodes_view(r@) == nodes_view(v@),
{
    let mut out: Vec<Node> = Vec::new();
    let mut i: usize = 0;
    while i < v.len()
        invariant
            i <= v@.len(),
            out@.len() == i,
            forall|j: int| 0 <= j < i ==> node_view(#[trigger] out@[j]) == node_view(v@[j]),
        decreases v@.len() - i,
    {
        out.push(v[i].clone());
        i = i + 1;
    }
    assert(nodes_view(out@) =~= nodes_view(v@));
    out
}

/// What was seen of a target.
#[derive(Debug)]
pub struct Observation {
    pub observation_id: String,
    pub target: Target,
    pub png_base64: Option<String>,
    pub nodes: Vec<Node>,
    pub windows: Vec<Target>,
}

/// An observation by its values.
#[verifier::ext_equal]
pub struct ObservationView {
    pub observation_id: Seq<char>,
    pub target: TargetView,
    pub png_base64: Option<Seq<char>>,
    pub nodes: Seq<NodeView>,
    pub windows: Seq<TargetView>,
}

impl View for Observation {
    type V = ObservationView;

    open spec fn view(&self) -> ObservationView {
        ObservationView {
            observation_id: self.observation_id@,
            target: self.target@,
            png_base64: optional(self.png_base64),
            nodes: nodes_view(self.nodes@),
            windows: targets_view(self.windows@),
        }
    }
}

impl Clone for Observation {
    fn clone(&self) -> (r: Self)
        ensures
            r@ == self@,
    {
        Observation {
            observation_id: self.observation_id.clone(),
            target: self.target.clone(),
            png_base64: copy_optional(&self.png_base64),
            nodes: copy_nodes(&self.nodes),
            windows: copy_targets(&self.windows),
        }
    }
}

/// What a client can ask of the broker. Nothing here grants or resumes.
#[derive(Debug, Clone)]
pub enum Request {
    RequestSession(SessionRequest),
    SessionStatus(SessionRef),
    Observe(ObserveRequest),
    Act(ActRequest),
    CloseSession(SessionRef),
    PauseAll,
    ShowUi,
}

/// What the broker answers.
#[derive(Debug, Clone)]
pub enum Response {
    Status(SessionStatus),
    Observation(Observation),
    Done,
    Error(Fault),
}

/// Why something was refused or failed.
#[derive(Debug)]
pub struct Fault {
    pub code: ErrorCode,
    pub message: String,
}

#[derive(Debug, Clone, Copy, PartialEq, Eq, Structural)]
pub enum ErrorCode {
    PermissionDenied,
    Paused,
    Unsupported,
    StaleTarget,
    BackendUnavailable,
    InvalidRequest,
    Busy,
}

/// A fault by its values.
#[verifier::ext_equal]
pub struct FaultView {
    pub code: ErrorCode,
    pub message: Seq<char>,
}

impl View for Fault {
    type V = FaultView;

    open spec fn view(&self) -> FaultView {
        FaultView { code: self.code, message: self.message@ }
    }
}

impl Clone for Fault {
    fn clone(&self) -> (r: Self)
        ensures
            r@ == self@,
            r == *self,
    {
        Fault { code: self.code, message: self.message.clone() }
    }
}

/// The fault with a code and a message.
pub open spec fn fault(code: ErrorCode, message: Seq<char>) -> FaultView {
    FaultView { code, message }
}

impl Fault {
    /// Whether a fault has this code and message.
    pub open spec fn says(self, code: ErrorCode, message: Seq<char>) -> bool {
        self@ == fault(code, message)
    }

    pub fn new(code: ErrorCode, message: &str) -> (r: Self)
        ensures
            r.says(code, message@),
    {
        Fault { code, message: message.to_owned() }
    }

    pub fn denied(message: &str) -> (r: Self)
        ensures
            r.says(ErrorCode::PermissionDenied, message@),
    {
        Self::new(ErrorCode::PermissionDenied, message)
    }

    pub fn invalid(message: &str) -> (r: Self)
        ensures
            r.says(ErrorCode::InvalidRequest, message@),
    {
        Self::new(ErrorCode::InvalidRequest, message)
    }

    pub fn unavailable(message: &str) -> (r: Self)
        ensures
            r.says(ErrorCode::BackendUnavailable, message@),
    {
        Self::new(ErrorCode::BackendUnavailable, message)
    }

    pub fn stale(message: &str) -> (r: Self)
        ensures
            r.says(ErrorCode::StaleTarget, message@),
    {
        Self::new(ErrorCode::StaleTarget, message)
    }

    pub fn unsupported(message: &str) -> (r: Self)
        ensures
            r.says(ErrorCode::Unsupported, message@),
    {
        Self::new(ErrorCode::Unsupported, message)
    }

    /// The name of a code as it stands in messages.
    pub open spec fn code_name(code: ErrorCode) -> Seq<char> {
        match code {
            ErrorCode::PermissionDenied => "PermissionDenied"@,
            ErrorCode::Paused => "Paused"@,
            ErrorCode::Unsupported => "Unsupported"@,
            ErrorCode::StaleTarget => "StaleTarget"@,
            ErrorCode::BackendUnavailable => "BackendUnavailable"@,
            ErrorCode::InvalidRequest => "InvalidRequest"@,
            ErrorCode::Busy => "Busy"@,
        }
    }

    /// The fault as one line: its code, a colon and its message.
    pub fn describe(&self) -> (r: String)
        ensures
            r@ == Fault::code_name(self.code) + ": "@ + self.message@,
    {
        let name = match self.code {
            ErrorCode::PermissionDenied => "PermissionDenied",
            ErrorCode::Paused => "Paused",
            ErrorCode::Unsupported => "Unsupported",
            ErrorCode::StaleTarget => "StaleTarget",
            ErrorCode::BackendUnavailable => "BackendUnavailable",
            ErrorCode::InvalidRequest => "InvalidRequest",
            ErrorCode::Busy => "Busy",
        };
        let mut out = name.to_owned();
        out.append(": ");
        out.append(self.message.as_str());
        out
    }
}

} // verus!
