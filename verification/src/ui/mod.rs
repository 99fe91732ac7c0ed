//! What the local user sees and decides: the panel of requests and sessions, and the windows
//! of isolated applications.
pub mod panel;
pub mod view;

use vstd::prelude::*;

use crate::backend::Backend;
use crate::backend::sway::Application;
use crate::model::{optional, targets_view, Mode, SessionStatus, State, StatusView, Target};
use crate::policy::{Policy, PolicyView, SessionView};
use crate::text::{join, joined, less, precedes, same, same_texts, texts};

verus! {

/// What users read for a capability.
pub open spec fn capability_label(name: Seq<char>) -> Seq<char> {
    if name == "screenshot"@ {
        "截图"@
    } else if name == "click"@ {
        "点击"@
    } else if name == "drag"@ {
        "拖动"@
    } else if name == "scroll"@ {
        "滚动"@
    } else if name == "key"@ {
        "按键"@
    } else if name == "text"@ {
        "文本输入"@
    } else if name == "focus_window"@ {
        "切换窗口"@
    } else {
        "未知能力"@
    }
}

fn describe_capability(name: &str) -> (r: &'static str)
    ensures
        r@ == capability_label(name@),
{
    if same(name, "screenshot") {
        "截图"
    } else if same(name, "click") {
        "点击"
    } else if same(name, "drag") {
        "拖动"
    } else if same(name, "scroll") {
        "滚动"
    } else if same(name, "key") {
        "按键"
    } else if same(name, "text") {
        "文本输入"
    } else if same(name, "focus_window") {
        "切换窗口"
    } else {
        "未知能力"
    }
}

/// What users read for some capabilities.
pub open spec fn capability_list(names: Seq<Seq<char>>) -> Seq<char> {
    joined(names.map_values(|n: Seq<char>| capability_label(n)), "、"@)
}

/// What users read for some capabilities.
pub fn capabilities_text(capabilities: &Vec<String>) -> (r: String)
    ensures
        r@ == capability_list(texts(capabilities@)),
{
    let ghost f = |n: Seq<char>| capability_label(n);
    let ghost all = texts(capabilities@);
    let mut labels: Vec<String> = Vec::new();
    let mut i: usize = 0;
    assert(texts(labels@) =~= all.take(0).map_values(f));
    while i < capabilities.len()
        invariant
            i <= capabilities@.len(),
            f == (|n: Seq<char>| capability_label(n)),
            all == texts(capabilities@),
            texts(labels@) == all.take(i as int).map_values(f),
        decreases capabilities@.len() - i,
    {
        let ghost was = texts(labels@);
        let label = describe_capability(capabilities[i].as_str()).to_owned();
        let ghost shown = label@;
        labels.push(label);
        proof {
            assert(texts(labels@) =~= was.push(shown));
            assert(all[i as int] == capabilities@[i as int]@);
            assert(all.take(i + 1) =~= all.take(i as int).push(all[i as int]));
            assert(all.take(i + 1).map_values(f) =~= was.push(shown));
        }
        i = i + 1;
    }
    assert(all.take(i as int) =~= all);
    join(&labels, "、")
}

/// What users read for a mode. Requests have one of the two modes that are offered.
pub open spec fn mode_label(mode: Mode) -> Seq<char> {
    match mode {
        Mode::Isolated => "独立应用"@,
        _ => "整个电脑"@,
    }
}

/// What users read for a state.
pub open spec fn state_label(state: State) -> Seq<char> {
    match state {
        State::Pending => "等待授权"@,
        State::Active => "AI 控制中"@,
        State::Paused => "已暂停"@,
        State::Denied => "已拒绝"@,
        State::Closed => "已结束"@,
    }
}

/// What stands above everything about a session.
pub open spec fn title_of(label: Option<Seq<char>>, mode: Mode, state: State) -> Seq<char> {
    (match label {
        Some(l) => l,
        None => "新的授权申请"@,
    }) + " · "@ + mode_label(mode) + " · "@ + state_label(state)
}

fn title(label: &Option<String>, mode: Mode, state: &State) -> (r: String)
    requires
        mode != Mode::Existing,
    ensures
        r@ == title_of(optional(*label), mode, *state),
{
    let mut s = match label {
        Some(l) => l.clone(),
        None => "新的授权申请".to_owned(),
    };
    s.append(" · ");
    s.append(
        match mode {
            Mode::Isolated => "独立应用",
            _ => "整个电脑",
        },
    );
    s.append(" · ");
    s.append(
        match state {
            State::Pending => "等待授权",
            State::Active => "AI 控制中",
            State::Paused => "已暂停",
            State::Denied => "已拒绝",
            State::Closed => "已结束",
        },
    );
    s
}

/// What a session's row offers.
#[derive(Debug)]
pub enum RowBody {
    /// A backend is being prepared. The request can be denied.
    Preparing,
    /// A backend is ready. The request can be confirmed or denied.
    Ready { label: String, capabilities: String },
    /// Nothing was prepared. Preparing can be begun, or the request denied.
    Undecided,
    /// The session can be resumed or revoked; an application's window can be opened.
    Granted { capabilities: String, window: bool },
    /// Nothing.
    Ended,
}

/// A row of the panel.
#[derive(Debug)]
pub struct Row {
    pub title: String,
    pub session: String,
    pub message: Option<String>,
    pub body: RowBody,
}

/// What a row offers, by its values.
#[verifier::ext_equal]
pub enum BodyView {
    Preparing,
    Ready { label: Seq<char>, capabilities: Seq<char> },
    Undecided,
    Granted { capabilities: Seq<char>, window: bool },
    Ended,
}

/// A row by its values.
#[verifier::ext_equal]
pub struct RowView {
    pub title: Seq<char>,
    pub session: Seq<char>,
    pub message: Option<Seq<char>>,
    pub body: BodyView,
}

impl View for Row {
    type V = RowView;

    open spec fn view(&self) -> RowView {
        RowView {
            title: self.title@,
            session: self.session@,
            message: optional(self.message),
            body: match self.body {
                RowBody::Preparing => BodyView::Preparing,
                RowBody::Ready { label, capabilities } => BodyView::Ready {
                    label: label@,
                    capabilities: capabilities@,
                },
                RowBody::Undecided => BodyView::Undecided,
                RowBody::Granted { capabilities, window } => BodyView::Granted {
                    capabilities: capabilities@,
                    window,
                },
                RowBody::Ended => BodyView::Ended,
            },
        }
    }
}

/// A backend that is ready for a request: its label and its capabilities.
#[derive(Debug)]
pub struct Offer {
    pub label: String,
    pub capabilities: Vec<String>,
}

/// The row of a session.
pub open spec fn row_of(status: StatusView, busy: bool, offer: Option<Offer>) -> RowView {
    RowView {
        title: title_of(status.label, status.mode, status.state),
        session: "会话 "@ + status.session_id,
        message: status.message,
        body: match status.state {
            State::Pending => if busy {
                BodyView::Preparing
            } else {
                match offer {
                    Some(o) => BodyView::Ready {
                        label: "将授权："@ + o.label@,
                        capabilities: "能力："@ + capability_list(texts(o.capabilities@)),
                    },
                    None => BodyView::Undecided,
                }
            },
            State::Active => BodyView::Granted {
                capabilities: "已开放："@ + capability_list(status.capabilities),
                window: status.mode == Mode::Isolated,
            },
            State::Paused => BodyView::Granted {
                capabilities: "已开放："@ + capability_list(status.capabilities),
                window: status.mode == Mode::Isolated,
            },
            State::Denied => BodyView::Ended,
            State::Closed => BodyView::Ended,
        },
    }
}

fn granted_body(status: &SessionStatus) -> (r: RowBody)
    ensures
        r matches RowBody::Granted { capabilities, window } && capabilities@ == "已开放："@
            + capability_list(texts(status.capabilities@)) && window == (status.mode
            == Mode::Isolated),
{
    let mut text = "已开放：".to_owned();
    text.append(capabilities_text(&status.capabilities).as_str());
    let window = match status.mode {
        Mode::Isolated => true,
        _ => false,
    };
    RowBody::Granted { capabilities: text, window }
}

/// The row of a session, given whether a backend is being prepared for it, or is ready.
pub fn row(status: &SessionStatus, busy: bool, offer: Option<Offer>) -> (r: Row)
    requires
        status.mode != Mode::Existing,
    ensures
        r@ == row_of(status@, busy, offer),
{
    let mut session = "会话 ".to_owned();
    session.append(status.session_id.as_str());
    let body = match status.state {
        State::Pending => {
            if busy {
                RowBody::Preparing
            } else {
                match offer {
                    Some(o) => {
                        let mut label = "将授权：".to_owned();
                        label.append(o.label.as_str());
                        let mut capabilities = "能力：".to_owned();
                        capabilities.append(capabilities_text(&o.capabilities).as_str());
                        RowBody::Ready { label, capabilities }
                    },
                    None => RowBody::Undecided,
                }
            }
        },
        State::Active => granted_body(status),
        State::Paused => granted_body(status),
        State::Denied => RowBody::Ended,
        State::Closed => RowBody::Ended,
    };
    Row {
        title: title(&status.label, status.mode, &status.state),
        session,
        message: crate::model::copy_optional(&status.message),
        body,
    }
}

/// No row offers to resume a session that was not granted, and no row offers to confirm a
/// request twice.
pub proof fn rows_offer_what_the_state_allows(status: StatusView, busy: bool, offer: Option<Offer>)
    ensures
        row_of(status, busy, offer).body is Granted <==> (status.state == State::Active
            || status.state == State::Paused),
        row_of(status, busy, offer).body is Ready ==> status.state == State::Pending && !busy,
{
}

/// What the panel says if there are no sessions.
pub fn idle_text() -> (r: &'static str)
    ensures
        r@ == "等待 MCP 客户端请求。没有活动授权。"@,
{
    "等待 MCP 客户端请求。没有活动授权。"
}

/// Statuses by their values.
pub open spec fn statuses_view(v: Seq<SessionStatus>) -> Seq<StatusView> {
    v.map_values(|s: SessionStatus| s@)
}

/// The statuses of all sessions.
pub open spec fn statuses_of<B: Backend>(p: PolicyView<B>) -> Seq<StatusView> {
    p.sessions.map_values(|s: SessionView<B>| s.status)
}

/// Statuses in the order of their identifiers.
pub open spec fn by_identifier(v: Seq<StatusView>) -> bool {
    forall|i: int, j: int|
        0 <= i < j < v.len() ==> !precedes(
            (#[trigger] v[j]).session_id,
            (#[trigger] v[i]).session_id,
        )
}

proof fn lemma_not_after(a: Seq<char>, b: Seq<char>, c: Seq<char>)
    requires
        precedes(a, b),
        !precedes(c, b),
    ensures
        !precedes(c, a),
{
    if precedes(c, a) {
        crate::text::precedence_is_transitive(c, a, b);
    }
}

proof fn lemma_asymmetric(a: Seq<char>, b: Seq<char>)
    requires
        precedes(a, b),
    ensures
        !precedes(b, a),
{
    if precedes(b, a) {
        crate::text::precedence_is_transitive(a, b, a);
        crate::text::no_text_precedes_itself(a);
    }
}

/// What the panel shows: all sessions, in the order of their identifiers.
pub fn statuses<B: Backend>(policy: &Policy<B>) -> (r: Vec<SessionStatus>)
    ensures
        by_identifier(statuses_view(r@)),
        statuses_view(r@).to_multiset() == statuses_of(policy@).to_multiset(),
{
    let ghost all = statuses_of(policy@);
    let mut out: Vec<SessionStatus> = Vec::new();
    let mut n: usize = 0;
    assert(statuses_view(out@) =~= all.take(0));
    while n < policy.sessions.len()
        invariant
            n <= policy.sessions@.len(),
            all == statuses_of(policy@),
            by_identifier(statuses_view(out@)),
            statuses_view(out@).to_multiset() == all.take(n as int).to_multiset(),
        decreases policy.sessions@.len() - n,
    {
        let x = policy.sessions[n].status.clone();
        let ghost sorted = statuses_view(out@);
        let ghost value = x@;
        let mut k: usize = 0;
        while k < out.len() && !less(x.session_id.as_str(), out[k].session_id.as_str())
            invariant
                k <= out@.len(),
                sorted == statuses_view(out@),
                value == x@,
                forall|j: int|
                    0 <= j < k ==> !precedes(value.session_id, (#[trigger] sorted[j]).session_id),
            decreases out@.len() - k,
        {
            assert(sorted[k as int] == out@[k as int]@);
            k = k + 1;
        }
        proof {
            if k < out@.len() {
                assert(sorted[k as int] == out@[k as int]@);
            }
            assert forall|j: int| k <= j < sorted.len() implies !precedes(
                (#[trigger] sorted[j]).session_id,
                value.session_id,
            ) by {
                if j == k {
                    lemma_asymmetric(value.session_id, sorted[j].session_id);
                } else {
                    assert(!precedes(sorted[j].session_id, sorted[k as int].session_id));
                    lemma_not_after(
                        value.session_id,
                        sorted[k as int].session_id,
                        sorted[j].session_id,
                    );
                }
            }
        }
        out.insert(k, x);
        proof {
            let now = statuses_view(out@);
            assert(now =~= sorted.insert(k as int, value));
            assert(now.remove(k as int) =~= sorted);
            assert(now[k as int] == value);
            assert(now.contains(value));
            vstd::seq_lib::to_multiset_remove(now, k as int);
            vstd::seq_lib::to_multiset_contains(now, value);
            assert(now.to_multiset() =~= sorted.to_multiset().insert(value));
            assert(all[n as int] == policy@.sessions[n as int].status);
            assert(policy@.sessions[n as int] == policy.sessions@[n as int]@);
            assert(all.take(n + 1) =~= all.take(n as int).push(value));
            vstd::seq_lib::to_multiset_build(all.take(n as int), value);
            assert(now.to_multiset() =~= all.take(n + 1).to_multiset());
        }
        n = n + 1;
    }
    assert(all.take(n as int) =~= all);
    out
}

fn same_optional(a: &Option<String>, b: &Option<String>) -> (r: bool)
    ensures
        r == (optional(*a) == optional(*b)),
{
    match a {
        Some(x) => match b {
            Some(y) => same(x.as_str(), y.as_str()),
            None => false,
        },
        None => b.is_none(),
    }
}

fn same_target(a: &Target, b: &Target) -> (r: bool)
    ensures
        r == (a@ == b@),
{
    let r = same(a.id.as_str(), b.id.as_str()) && same(a.label.as_str(), b.label.as_str())
        && a.width == b.width && a.height == b.height && a.scale.bits == b.scale.bits;
    proof {
        if r {
            assert(a@ =~= b@);
        } else if a@ == b@ {
            assert(a@.id == b@.id && a@.label == b@.label && a@.width == b@.width && a@.height
                == b@.height && a@.scale == b@.scale);
        }
    }
    r
}

fn same_targets(a: &Vec<Target>, b: &Vec<Target>) -> (r: bool)
    ensures
        r == (targets_view(a@) == targets_view(b@)),
{
    assert(targets_view(a@).len() == a@.len() && targets_view(b@).len() == b@.len());
    if a.len() != b.len() {
        return false;
    }
    let mut i: usize = 0;
    while i < a.len()
        invariant
            i <= a@.len(),
            a@.len() == b@.len(),
            forall|j: int| 0 <= j < i ==> #[trigger] targets_view(a@)[j] == targets_view(b@)[j],
        decreases a@.len() - i,
    {
        assert(targets_view(a@)[i as int] == a@[i as int]@);
        assert(targets_view(b@)[i as int] == b@[i as int]@);
        if !same_target(&a[i], &b[i]) {
            return false;
        }
        i = i + 1;
    }
    assert(targets_view(a@) =~= targets_view(b@));
    true
}

fn same_status(a: &SessionStatus, b: &SessionStatus) -> (r: bool)
    ensures
        r == (a@ == b@),
{
    let r = same(a.session_id.as_str(), b.session_id.as_str()) && a.scope == b.scope && a.mode
        == b.mode && a.state == b.state && same_optional(&a.label, &b.label) && same_texts(
        &a.capabilities,
        &b.capabilities,
    ) && same_targets(&a.targets, &b.targets) && same_optional(&a.message, &b.message);
    proof {
        if r {
            assert(a@ =~= b@);
        } else if a@ == b@ {
            assert(a@.session_id == b@.session_id && a@.scope == b@.scope && a@.mode == b@.mode
                && a@.state == b@.state && a@.label == b@.label && a@.capabilities
                == b@.capabilities && a@.targets == b@.targets && a@.message == b@.message);
        }
    }
    r
}

/// Whether two lists of statuses are the same.
pub fn same_statuses(a: &Vec<SessionStatus>, b: &Vec<SessionStatus>) -> (r: bool)
    ensures
        r == (statuses_view(a@) == statuses_view(b@)),
{
    assert(statuses_view(a@).len() == a@.len() && statuses_view(b@).len() == b@.len());
    if a.len() != b.len() {
        return false;
    }
    let mut i: usize = 0;
    while i < a.len()
        invariant
            i <= a@.len(),
            a@.len() == b@.len(),
            forall|j: int| 0 <= j < i ==> #[trigger] statuses_view(a@)[j] == statuses_view(b@)[j],
        decreases a@.len() - i,
    {
        assert(statuses_view(a@)[i as int] == a@[i as int]@);
        assert(statuses_view(b@)[i as int] == b@[i as int]@);
        if !same_status(&a[i], &b[i]) {
            return false;
        }
        i = i + 1;
    }
    assert(statuses_view(a@) =~= statuses_view(b@));
    true
}

/// What the local user is told of an application before it is allowed, given the texts of its
/// program's path and of its arguments.
pub open spec fn application_notes(
    requested: Seq<char>,
    application: Application,
    program: Seq<char>,
    arguments: Seq<char>,
) -> Seq<Seq<char>> {
    let known = seq![
        "请求启动："@ + requested,
        "应用："@ + application.shown() + "\n启动程序："@ + program,
    ];
    (match application {
        Application::Installed(app) => known.push(
            "桌面条目："@ + app.id@ + "\n预设参数："@ + arguments,
        ),
        _ => known,
    }).push(
        "允许 AI 在可见独立窗口中截图、点击、拖动、滚动、按键和输入文本。仅隔离图形会话，使用你的个人配置、登录状态和应用数据，修改会影响日常使用的数据；应用保留文件和网络权限。"@,
    )
}

/// What the local user is told of an application before it is allowed.
pub fn describe_application(
    requested: &str,
    application: &Application,
    program: &str,
    arguments: &str,
) -> (r: Vec<String>)
    ensures
        texts(r@) == application_notes(requested@, *application, program@, arguments@),
{
    let mut first = "请求启动：".to_owned();
    first.append(requested);
    let mut second = "应用：".to_owned();
    second.append(application.label());
    second.append("\n启动程序：");
    second.append(program);
    let mut v: Vec<String> = Vec::new();
    v.push(first);
    v.push(second);
    match application {
        Application::Installed(app) => {
            let mut third = "桌面条目：".to_owned();
            third.append(app.id.as_str());
            third.append("\n预设参数：");
            third.append(arguments);
            v.push(third);
        },
        _ => {},
    }
    v.push(
        "允许 AI 在可见独立窗口中截图、点击、拖动、滚动、按键和输入文本。仅隔离图形会话，使用你的个人配置、登录状态和应用数据，修改会影响日常使用的数据；应用保留文件和网络权限。".to_owned(),
    );
    assert(texts(v@) =~= application_notes(requested@, *application, program@, arguments@));
    v
}

/// What the local user is told before the whole desktop is prepared.
pub fn describe_desktop() -> (r: &'static str)
    ensures
        r@ == "将允许 AI 观察整个桌面、切换窗口和使用真实鼠标键盘。可随时暂停。"@,
{
    "将允许 AI 观察整个桌面、切换窗口和使用真实鼠标键盘。可随时暂停。"
}

} // verus!
