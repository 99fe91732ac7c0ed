//! What the local user reads and decides.
use vstd::prelude::*;

use crate::backend::sway::Application;
use crate::backend::Backend;
use crate::laws::permits::lemma_found;
use crate::laws::sessions::as_before;
use crate::model::{Fault, Mode, SessionStatus, State};
use crate::policy::{BackendHandle, Policy};
use crate::text::{joined, texts};
use crate::ui::panel::{may_present, resume_hidden, Panel};
use crate::ui::view::{check_released, control_of, Presentation};
use crate::ui::{
    capabilities_text, capability_label, capability_list, describe_application, row, Offer, Row,
    RowBody,
};

verus! {

/// What a capability is called.
pub open spec fn called(name: Seq<char>, label: Seq<char>) -> bool {
    &&& name == "screenshot"@ ==> label == "截图"@
    &&& name == "click"@ ==> label == "点击"@
    &&& name == "drag"@ ==> label == "拖动"@
    &&& name == "scroll"@ ==> label == "滚动"@
    &&& name == "key"@ ==> label == "按键"@
    &&& name == "text"@ ==> label == "文本输入"@
    &&& name == "focus_window"@ ==> label == "切换窗口"@
}

proof fn lemma_called(name: Seq<char>)
    ensures
        called(name, capability_label(name)),
{
    reveal_strlit("screenshot");
    reveal_strlit("click");
    reveal_strlit("drag");
    reveal_strlit("scroll");
    reveal_strlit("key");
    reveal_strlit("text");
    reveal_strlit("focus_window");
    assert("screenshot"@.len() == 10 && "click"@.len() == 5 && "drag"@.len() == 4 && "scroll"@.len()
        == 6 && "key"@.len() == 3 && "text"@.len() == 4 && "focus_window"@.len() == 12);
    assert("drag"@[0] == 'd' && "text"@[0] == 't');
}

/// A single capability is named; of several, each one is named after those before it, in their
/// order, with a mark between.
pub proof fn capabilities_are_named_in_order(
    some: &Vec<String>,
    more: &Vec<String>,
    r: String,
    s: String,
)
    requires
        call_ensures(capabilities_text, (some,), r),
        call_ensures(capabilities_text, (more,), s),
        more@.len() == some@.len() + 1,
        forall|i: int| 0 <= i < some@.len() ==> (#[trigger] some@[i])@ == more@[i]@,
    ensures
        some@.len() == 0 ==> r@.len() == 0 && called(more@[0]@, s@),
        some@.len() > 0 ==> exists|label: Seq<char>|
            #[trigger] called(more@[some@.len() as int]@, label) && s@ == r@ + "、"@ + label,
{
    let f = |n: Seq<char>| capability_label(n);
    let a = texts(some@).map_values(f);
    let b = texts(more@).map_values(f);
    let last = more@[some@.len() as int]@;
    lemma_called(last);
    assert(b.drop_last() =~= a) by {
        assert forall|i: int| 0 <= i < a.len() implies b.drop_last()[i] == a[i] by {
            assert(some@[i]@ == more@[i]@);
        }
    }
    assert(b.last() == capability_label(last));
    if some@.len() == 0 {
        assert(b.len() == 1);
        assert(b[0] == capability_label(last));
        assert(a =~= Seq::empty());
    } else {
        reveal_with_fuel(joined, 2);
        assert(called(last, capability_label(last)));
        assert(s@ == r@ + "、"@ + capability_label(last));
    }
}

/// A row names its session, its mode and its state, and repeats its message. A request can be
/// confirmed exactly if something is ready for it and nothing is being prepared; what was
/// granted shows what it was granted, and an application has a window to open.
pub proof fn rows_say_what_is(status: &SessionStatus, busy: bool, offer: Option<Offer>, r: Row)
    requires
        call_ensures(row, (status, busy, offer), r),
        status.mode != Mode::Existing,
    ensures
        r.session@ == "会话 "@ + status.session_id@,
        r.message is Some == status.message is Some,
        r.message matches Some(m) ==> m@ == status.message->0@,
        exists|name: Seq<char>, mode: Seq<char>, state: Seq<char>|
            #![trigger name + " · "@ + mode + " · "@ + state]
            {
                &&& r.title@ == name + " · "@ + mode + " · "@ + state
                &&& status.label matches Some(l) ==> name == l@
                &&& status.label is None ==> name == "新的授权申请"@
                &&& mode == (if status.mode == Mode::Isolated {
                    "独立应用"@
                } else {
                    "整个电脑"@
                })
                &&& status.state == State::Pending ==> state == "等待授权"@
                &&& status.state == State::Active ==> state == "AI 控制中"@
                &&& status.state == State::Paused ==> state == "已暂停"@
                &&& status.state == State::Denied ==> state == "已拒绝"@
                &&& status.state == State::Closed ==> state == "已结束"@
            },
        r.body is Preparing <==> status.state == State::Pending && busy,
        r.body is Ready <==> status.state == State::Pending && !busy && offer is Some,
        r.body is Undecided <==> status.state == State::Pending && !busy && offer is None,
        r.body is Granted <==> status.state == State::Active || status.state == State::Paused,
        r.body is Ended <==> status.state == State::Denied || status.state == State::Closed,
        r.body matches RowBody::Ready { label, capabilities } ==> {
            &&& label@ == "将授权："@ + offer->0.label@
            &&& capabilities@ == "能力："@ + capability_list(texts(offer->0.capabilities@))
        },
        r.body matches RowBody::Granted { capabilities, window } ==> {
            &&& capabilities@ == "已开放："@ + capability_list(texts(status.capabilities@))
            &&& window == (status.mode == Mode::Isolated)
        },
{
    let name = match status.label {
        Some(l) => l@,
        None => "新的授权申请"@,
    };
    let mode = crate::ui::mode_label(status.mode);
    let state = crate::ui::state_label(status.state);
    assert(r@.title == name + " · "@ + mode + " · "@ + state);
    match r.body {
        RowBody::Preparing => {},
        RowBody::Ready { label, capabilities } => {},
        RowBody::Undecided => {},
        RowBody::Granted { capabilities, window } => {},
        RowBody::Ended => {},
    }
}

/// Before an application is allowed, the user reads what was asked for, which application and
/// program that is, and, of an installed one, its entry and the words that it is started with.
pub proof fn applications_are_described_before_they_are_allowed(
    requested: &str,
    application: &Application,
    program: &str,
    arguments: &str,
    r: Vec<String>,
)
    requires
        call_ensures(describe_application, (requested, application, program, arguments), r),
    ensures
        r@.len() == (if application is Installed {
            4int
        } else {
            3
        }),
        r@[0]@ == "请求启动："@ + requested@,
        exists|name: Seq<char>|
            #![trigger "应用："@ + name]
            r@[1]@ == "应用："@ + name + "\n启动程序："@ + program@ && match *application {
                Application::Firefox => name == "Firefox"@,
                Application::TextEditor => name == "GNOME Text Editor"@,
                Application::Installed(app) => name == app.name@,
            },
        *application matches Application::Installed(app) ==> r@[2]@ == "桌面条目："@ + app.id@
            + "\n预设参数："@ + arguments@,
{
    assert(texts(r@).len() == r@.len());
    assert(texts(r@)[0] == r@[0]@);
    assert(texts(r@)[1] == r@[1]@);
    assert(texts(r@)[2] == r@[2]@);
    let name = application.shown();
    assert(r@[1]@ == "应用："@ + name + "\n启动程序："@ + program@);
}

/// The user sees who is in control of an application: the client that acts, nobody while it is
/// paused, or the user once the authorization has ended.
pub proof fn the_user_sees_who_is_in_control<B: Backend>(
    p: &Policy<B>,
    id: Option<&str>,
    r: &'static str,
    i: int,
)
    requires
        call_ensures(control_of::<B>, (p, id), r),
        p.wf(),
        0 <= i < p.sessions@.len(),
    ensures
        id is None ==> r@ == "本地预览 · 可手动接管"@,
        id matches Some(s) ==> (p.sessions@[i].status.session_id@ == s@ ==> {
            let state = p.sessions@[i].status.state;
            &&& state == State::Active ==> r@ == "AI 正在控制 · 你可以继续使用其他窗口"@
            &&& state == State::Paused ==> r@ == "AI 已暂停 · 可手动接管"@
            &&& state != State::Active && state != State::Paused ==> r@
                == "AI 授权已结束 · 应用保留供你使用"@
        }),
{
    if id is Some && p.sessions@[i].status.session_id@ == id->0@ {
        lemma_found(*p, i, 0, id->0@);
    }
}

/// A request that the user denies is denied with that reason; what was ready for it is not ready
/// any more, and stays for the user if it can, and nothing else changes.
pub proof fn denied_requests_keep_what_was_ready<B: Backend>(
    panel: Panel<B>,
    then: Panel<B>,
    before: Policy<B>,
    after: Policy<B>,
    id: &str,
    i: int,
    j: int,
)
    requires
        exists|p: &mut Panel<B>, q: &mut Policy<B>|
            *p == panel && *final(p) == then && *q == before && *final(q) == after
                && #[trigger] call_ensures(Panel::<B>::deny, (p, q, id), ()),
        panel.wf(),
        before.wf(),
        0 <= i < before.sessions@.len(),
        before.sessions@[i].status.session_id@ == id@,
        0 <= j < before.sessions@.len(),
    ensures
        after.sessions@.len() == before.sessions@.len(),
        after.sessions@[i].status.state == State::Denied,
        after.sessions@[i].status.message matches Some(m) && m@ == "用户拒绝授权"@,
        after.sessions@[i].generation != before.sessions@[i].generation,
        j != i ==> as_before(before.sessions@[j], after.sessions@[j]),
        !then.prepared@.dom().contains(id@),
        then.detached@.len() == panel.detached@.len() + (if panel.prepared@.dom().contains(id@)
            && panel.prepared@[id@].survives {
            1int
        } else {
            0
        }),
        panel.prepared@.dom().contains(id@) && panel.prepared@[id@].survives
            ==> then.detached@.last().0@ == panel.prepared@[id@].label@,
{
    lemma_found(before, i, before.sessions@[i].owner, id@);
    assert(before@.sessions[i] == before.sessions@[i]@);
    assert(before@.sessions[j] == before.sessions@[j]@);
    assert(after@.sessions.len() == after.sessions@.len());
    assert(before@.sessions.len() == before.sessions@.len());
    assert(after@.sessions[i] == after.sessions@[i]@);
    assert(after@.sessions[j] == after.sessions@[j]@);
    if j != i {
        assert(before@.sessions[j].id() != before@.sessions[i].id());
    }
    assert(then@.detached.len() == then.detached@.len());
    assert(panel@.detached.len() == panel.detached@.len());
    if then.detached@.len() > 0 {
        let n = then.detached@.len() - 1;
        assert(then@.detached[n] == (then.detached@[n].0@, then.detached@[n].1));
    }
}

/// A session that waited for the panel to be hidden is resumed only if the panel was not asked
/// for again and cannot be seen; then it is resumed under the same conditions as any other.
pub proof fn hidden_panels_resume_what_waited<B: Backend>(
    before: Policy<B>,
    after: Policy<B>,
    id: &str,
    epoch: u64,
    visible: bool,
    r: Option<Result<(), Fault>>,
    i: int,
)
    requires
        exists|q: &mut Policy<B>|
            *q == before && *final(q) == after && #[trigger] call_ensures(
                resume_hidden::<B>,
                (q, id, epoch, visible),
                r,
            ),
        before.wf(),
        0 <= i < before.sessions@.len(),
        before.sessions@[i].status.session_id@ == id@,
    ensures
        r is None <==> before.ui_epoch != epoch || visible,
        r is None ==> after@ == before@,
        (r matches Some(Ok(_))) <==> {
            let s = before.sessions@[i];
            &&& before.ui_epoch == epoch
            &&& !visible
            &&& s.status.state == State::Paused
            &&& s.backend is Some
            &&& before.manual_previews == 0
            &&& s.status.mode == Mode::Isolated ==> s.visible_views > 0
        },
        r matches Some(Ok(_)) ==> after.sessions@[i].status.state == State::Active
            && !after.ui_visible,
        r is Some ==> !after.ui_visible,
{
    lemma_found(before, i, before.sessions@[i].owner, id@);
    let hidden = crate::policy::PolicyView { ui_visible: false, ..before@ };
    assert(hidden.at(i, id@)) by {
        assert(before@.sessions[i] == before.sessions@[i]@);
    }
    let k = choose|k: int| hidden.at(k, id@);
    assert(hidden.at(k, id@));
    assert(before@.sessions[k].id() == before@.sessions[i].id());
    assert(k == i);
    assert(before@.sessions[i] == before.sessions@[i]@);
    if r is Some {
        assert(after@.sessions.len() == after.sessions@.len());
        assert(after@.sessions[i] == after.sessions@[i]@);
    }
}

/// The panel is shown only while it is wanted, and for the reason that it was asked for.
pub proof fn panels_are_shown_while_wanted<B: Backend>(p: &Policy<B>, epoch: u64, r: bool)
    requires
        call_ensures(may_present::<B>, (p, epoch), r),
    ensures
        r <==> p.ui_visible && p.ui_epoch == epoch,
{
}

/// A backend is prepared once at a time for a request.
pub proof fn backends_are_prepared_once<B: Backend>(
    panel: Panel<B>,
    then: Panel<B>,
    id: &str,
    r: bool,
)
    requires
        exists|p: &mut Panel<B>|
            *p == panel && *final(p) == then && #[trigger] call_ensures(
                Panel::<B>::prepare,
                (p, id),
                r,
            ),
    ensures
        r <==> !panel@.busy.contains(id@),
        then@.busy.contains(id@),
        forall|other: Seq<char>|
            other != id@ ==> then@.busy.contains(other) == panel@.busy.contains(other),
        then.prepared == panel.prepared,
{
}

/// A session that the user revokes is closed, and its backend handed back.
pub proof fn revoked_sessions_are_closed<B: Backend>(
    panel: Panel<B>,
    then: Panel<B>,
    before: Policy<B>,
    after: Policy<B>,
    id: &str,
    r: Option<BackendHandle<B>>,
    i: int,
    j: int,
)
    requires
        exists|p: &mut Panel<B>, q: &mut Policy<B>|
            *p == panel && *final(p) == then && *q == before && *final(q) == after
                && #[trigger] call_ensures(Panel::<B>::revoke, (p, q, id), r),
        before.wf(),
        0 <= i < before.sessions@.len(),
        before.sessions@[i].status.session_id@ == id@,
        0 <= j < before.sessions@.len(),
    ensures
        r == before.sessions@[i].backend,
        after.sessions@.len() == before.sessions@.len(),
        crate::laws::control::ended(before.sessions@[i], after.sessions@[i]),
        j != i ==> as_before(before.sessions@[j], after.sessions@[j]),
{
    lemma_found(before, i, before.sessions@[i].owner, id@);
    assert(before@.sessions[i] == before.sessions@[i]@);
    assert(before@.sessions[j] == before.sessions@[j]@);
    assert(after@.sessions.len() == after.sessions@.len());
    assert(before@.sessions.len() == before.sessions@.len());
    assert(after@.sessions[i] == after.sessions@[i]@);
    assert(after@.sessions[j] == after.sessions@[j]@);
    if j != i {
        assert(before@.sessions[j].id() != before@.sessions[i].id());
    }
    let b = after.sessions@[i];
    assert(b@.status.capabilities.len() == b.status.capabilities@.len());
    assert(b@.status.targets.len() == b.status.targets@.len());
}

/// A frame is shown while it is younger than a quarter of a second; a size is taken once it has
/// stood for 120 milliseconds; and the rate is told twice a second.
pub proof fn frames_are_shown_while_fresh(
    before: Presentation,
    after: Presentation,
    age: u64,
    width: u32,
    height: u32,
    renderer: &str,
    transport: &str,
    r: bool,
)
    requires
        exists|p: &mut Presentation|
            *p == before && *final(p) == after && #[trigger] call_ensures(
                Presentation::arrive,
                (p, age, width, height, renderer, transport),
                r,
            ),
    ensures
        r <==> age < 250 * 1000000,
        !r ==> after.description@ == before.description@,
        r ==> exists|w: Seq<char>, h: Seq<char>|
            #![trigger w + "×"@ + h]
            {
                &&& w == crate::text::numeral(width as nat, 10)
                &&& h == crate::text::numeral(height as nat, 10)
                &&& after.description@ == w + "×"@ + h + " · "@ + renderer@ + " · "@ + transport@
            },
        after.failure == before.failure,
        after.target == before.target,
        after.shown == before.shown,
{
    if r {
        let w = crate::text::numeral(width as nat, 10);
        let h = crate::text::numeral(height as nat, 10);
        assert(after.description@ == w + "×"@ + h + " · "@ + renderer@ + " · "@ + transport@);
    }
}

/// Sizes and rates, likewise.
pub proof fn sizes_are_taken_once_they_stand(
    before: Presentation,
    after: Presentation,
    viewport: crate::backend::preview::Viewport,
    now: u64,
    r: bool,
)
    requires
        exists|p: &mut Presentation|
            *p == before && *final(p) == after && #[trigger] call_ensures(
                Presentation::resize,
                (p, viewport, now),
                r,
            ),
    ensures
        r ==> {
            &&& now >= before.size_changed
            &&& now - before.size_changed >= 120 * 1000000
            &&& before.pending matches Some(v)
            &&& v.width == viewport.width
            &&& v.height == viewport.height
            &&& v.scale.value() == viewport.scale.value()
        },
        after.pending matches Some(v) && v.width == viewport.width && v.height == viewport.height,
        before.pending is None ==> !r && after.size_changed == now,
        before.pending matches Some(v) ==> (v.width != viewport.width || v.height
            != viewport.height ==> !r && after.size_changed == now),
        before.pending matches Some(v) ==> (v == viewport && v.scale.number() ==> after == before
            && (r <==> now >= before.size_changed && now - before.size_changed >= 120 * 1000000)),
{
}

/// What was sent last was let go of, unless the lock of the backend could not be had.
pub proof fn released_backends_are_known(had: bool, r: Result<(), Fault>)
    requires
        call_ensures(check_released, (had,), r),
    ensures
        r is Ok <==> had,
{
}

} // verus!
