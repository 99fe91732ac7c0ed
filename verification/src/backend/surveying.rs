//! The sequence in which the windows of an isolated application are looked at: its layout is
//! known only if every window in it belongs to the application.
use vstd::prelude::*;

use crate::backend::sway::{
    bare, check_alive, check_windows, checked, listed_windows, managed_of, output_marks,
    owned_view, owners_view, placed_view, read_answer, read_windows, stranger, tolerated,
    tree_view, windows_of, Isolated, Layout, LayoutView, OwnedWindow, Owner, Placed, SavedSession,
    TreeWindow, TreeWindowView,
};
use crate::json::{json_of, JsonView};
use crate::model::{fault, ErrorCode, Fault, FaultView};

verus! {

/// How far a look at the windows has come.
pub enum Surveying {
    Starting,
    /// The processes are looked for.
    Asking,
    /// The tree of windows is asked for.
    Reading,
    /// The X11 windows are looked up.
    Matching(Vec<TreeWindow>),
    /// The processes of the other windows are looked up.
    Owning(Vec<TreeWindow>, Vec<OwnedWindow>),
    /// The outputs are asked for.
    Finishing(Vec<Placed>, Vec<OwnedWindow>),
    Done,
}

/// What is to be done next.
pub enum SurveyStep {
    /// Look whether the compositor and the application are there.
    Ask,
    /// Ask for the tree of windows.
    Tree,
    /// Look up these X11 windows, and the X11 windows that no tree lists.
    Match(Vec<u32>),
    /// Look up the process of each window, where there is one to look up.
    Own(Vec<Option<u32>>),
    /// Ask for the outputs.
    Outputs,
    /// Nothing; this is what came of it.
    Finished(Result<Layout, Fault>),
}

/// What came of what was done last.
pub enum SurveyEvent {
    Began,
    Alive { sway: bool, app: bool },
    Tree(Result<Vec<u8>, Fault>),
    Matched(Result<Vec<OwnedWindow>, Fault>),
    Owned(Vec<Owner>),
    Outputs(Result<Vec<u8>, Fault>),
}

/// The process to look up for a window: that of no X11 window, and of none without a number.
pub open spec fn process_of(w: TreeWindowView) -> Option<u32> {
    match (w.window, w.pid) {
        (None, Some(pid)) => Some((pid % 0x1_0000_0000) as u32),
        (_, _) => None,
    }
}

/// The processes to look up for windows.
pub open spec fn processes_of(list: Seq<TreeWindowView>) -> Seq<Option<u32>> {
    list.map_values(|w: TreeWindowView| process_of(w))
}

/// The fault of a window whose process is not known.
pub open spec fn unknown_owner() -> FaultView {
    fault(ErrorCode::PermissionDenied, "窗口没有可验证身份"@)
}

/// Whether a look at the windows ended with a fault.
pub open spec fn survey_failed(now: Surveying, step: SurveyStep, f: FaultView) -> bool {
    &&& now is Done
    &&& step matches SurveyStep::Finished(Err(e))
    &&& e@ == f
}

/// Whether the tree of windows is followed by what it asks for: X11 windows are looked up where
/// the session has an X11 server of its own, and are not tolerated elsewhere.
pub open spec fn tree_read(
    list: Seq<TreeWindowView>,
    x11: bool,
    now: Surveying,
    step: SurveyStep,
) -> bool {
    if list.len() == 0 {
        survey_failed(now, step, fault(ErrorCode::StaleTarget, "应用没有窗口"@))
    } else if x11 {
        &&& now matches Surveying::Matching(v) && tree_view(v@) == list
        &&& step matches SurveyStep::Match(ids) && ids@ == managed_of(list)
    } else if managed_of(list).len() > 0 {
        survey_failed(
            now,
            step,
            fault(ErrorCode::PermissionDenied, "此旧会话没有获准的 X11 端点"@),
        )
    } else {
        &&& now matches Surveying::Owning(v, x) && tree_view(v@) == list && x@.len() == 0
        &&& step matches SurveyStep::Own(ids) && ids@ == processes_of(list)
    }
}

/// Whether a step is the one that follows what was done last.
pub open spec fn surveyed(
    saved: SavedSession,
    local_only: bool,
    was: Surveying,
    event: SurveyEvent,
    now: Surveying,
    step: SurveyStep,
) -> bool {
    match (was, event) {
        (Surveying::Starting, _) => now is Asking && step is Ask,
        (Surveying::Asking, SurveyEvent::Alive { sway, app }) => if sway && app {
            now is Reading && step is Tree
        } else {
            survey_failed(now, step, fault(ErrorCode::StaleTarget, "独立应用或合成器已退出"@))
        },
        (Surveying::Reading, SurveyEvent::Tree(Ok(answer))) => match json_of(answer@) {
            Ok(tree) => tree_read(windows_of(tree), saved.x11 is Some, now, step),
            Err(m) => survey_failed(now, step, fault(ErrorCode::BackendUnavailable, m)),
        },
        (Surveying::Matching(list), SurveyEvent::Matched(Ok(x11))) => {
            &&& now == Surveying::Owning(list, x11)
            &&& step matches SurveyStep::Own(ids) && ids@ == processes_of(tree_view(list@))
        },
        (Surveying::Owning(list, x11), SurveyEvent::Owned(owners)) => if owners@.len()
            != list@.len() {
            survey_failed(now, step, unknown_owner())
        } else {
            match checked(
                tree_view(list@),
                owners_view(owners@),
                owned_view(x11@),
                saved.sway@,
                saved.app.executable@,
                local_only,
            ) {
                Ok(placed) => {
                    &&& now matches Surveying::Finishing(p, x) && placed_view(p@) == placed && x
                        == x11
                    &&& step is Outputs
                },
                Err(f) => survey_failed(now, step, f),
            }
        },
        (Surveying::Finishing(placed, x11), SurveyEvent::Outputs(Ok(answer))) => match json_of(
            answer@,
        ) {
            Ok(JsonView::List(v)) => {
                &&& now is Done
                &&& step matches SurveyStep::Finished(Ok(l)) && l@ == (LayoutView {
                    windows: placed_view(placed@),
                    x11: bare(x11@),
                    outputs: output_marks(v),
                })
            },
            Ok(_) => survey_failed(
                now,
                step,
                fault(ErrorCode::StaleTarget, "虚拟输出列表无效"@),
            ),
            Err(m) => survey_failed(now, step, fault(ErrorCode::BackendUnavailable, m)),
        },
        (Surveying::Reading, SurveyEvent::Tree(Err(e))) => survey_failed(now, step, e@),
        (Surveying::Matching(_), SurveyEvent::Matched(Err(e))) => survey_failed(now, step, e@),
        (Surveying::Finishing(_, _), SurveyEvent::Outputs(Err(e))) => survey_failed(now, step, e@),
        (_, _) => survey_failed(now, step, unknown_owner()),
    }
}

fn survey_end(e: Fault) -> (r: (Surveying, SurveyStep))
    ensures
        survey_failed(r.0, r.1, e@),
{
    (Surveying::Done, SurveyStep::Finished(Err(e)))
}

fn processes(list: &Vec<TreeWindow>) -> (r: Vec<Option<u32>>)
    ensures
        r@ == processes_of(tree_view(list@)),
{
    let mut out: Vec<Option<u32>> = Vec::new();
    let mut i: usize = 0;
    while i < list.len()
        invariant
            i <= list@.len(),
            out@ == processes_of(tree_view(list@)).take(i as int),
        decreases list@.len() - i,
    {
        let ghost all = processes_of(tree_view(list@));
        assert(all[i as int] == process_of(list@[i as int]@));
        assert(all.take(i + 1) =~= all.take(i as int).push(all[i as int]));
        match (list[i].window, list[i].pid) {
            (None, Some(pid)) => {
                let low: u32 = (pid % 0x1_0000_0000) as u32;
                out.push(Some(low));
            },
            (_, _) => {
                out.push(None);
            },
        }
        i = i + 1;
    }
    assert(processes_of(tree_view(list@)).take(i as int) =~= processes_of(tree_view(list@)));
    out
}

fn list_read(list: Vec<TreeWindow>, x11: bool) -> (r: (Surveying, SurveyStep))
    ensures
        tree_read(tree_view(list@), x11, r.0, r.1),
{
    match listed_windows(&list, x11) {
        Err(e) => survey_end(e),
        Ok(managed) => if x11 {
            (Surveying::Matching(list), SurveyStep::Match(managed))
        } else {
            let ids = processes(&list);
            (Surveying::Owning(list, Vec::new()), SurveyStep::Own(ids))
        },
    }
}

impl Isolated {
    /// What is to be done to look at the windows of a session, by what came of what was done
    /// last.
    pub fn check_saved_windows(
        saved: &SavedSession,
        local_only: bool,
        was: Surveying,
        event: SurveyEvent,
    ) -> (r: (Surveying, SurveyStep))
        ensures
            surveyed(*saved, local_only, was, event, r.0, r.1),
    {
        match (was, event) {
            (Surveying::Starting, _) => (Surveying::Asking, SurveyStep::Ask),
            (Surveying::Asking, SurveyEvent::Alive { sway, app }) => match check_alive(sway, app) {
                Ok(()) => (Surveying::Reading, SurveyStep::Tree),
                Err(e) => survey_end(e),
            },
            (Surveying::Reading, SurveyEvent::Tree(Ok(answer))) => match read_windows(&answer) {
                Ok(list) => list_read(list, saved.x11.is_some()),
                Err(e) => survey_end(e),
            },
            (Surveying::Matching(list), SurveyEvent::Matched(Ok(x11))) => {
                let ids = processes(&list);
                (Surveying::Owning(list, x11), SurveyStep::Own(ids))
            },
            (Surveying::Owning(list, x11), SurveyEvent::Owned(owners)) => {
                if owners.len() != list.len() {
                    return survey_end(Fault::denied("窗口没有可验证身份"));
                }
                match check_windows(saved, local_only, &list, &owners, &x11) {
                    Ok(placed) => (Surveying::Finishing(placed, x11), SurveyStep::Outputs),
                    Err(e) => survey_end(e),
                }
            },
            (Surveying::Finishing(placed, x11), SurveyEvent::Outputs(Ok(answer))) => {
                match read_answer(&answer) {
                    Ok(outputs) => match Layout::complete(placed, x11, &outputs) {
                        Ok(layout) => (Surveying::Done, SurveyStep::Finished(Ok(layout))),
                        Err(e) => survey_end(e),
                    },
                    Err(e) => survey_end(e),
                }
            },
            (Surveying::Reading, SurveyEvent::Tree(Err(e))) => survey_end(e),
            (Surveying::Matching(_), SurveyEvent::Matched(Err(e))) => survey_end(e),
            (Surveying::Finishing(_, _), SurveyEvent::Outputs(Err(e))) => survey_end(e),
            (_, _) => survey_end(Fault::denied("窗口没有可验证身份")),
        }
    }
}

/// A session with an X11 window of a stranger has no layout: the look at its windows ends there.
pub proof fn strangers_end_the_look(
    saved: SavedSession,
    local_only: bool,
    list: Vec<TreeWindow>,
    x11: Vec<OwnedWindow>,
    owners: Vec<Owner>,
    i: int,
    now: Surveying,
    step: SurveyStep,
)
    requires
        0 <= i < x11@.len(),
        !tolerated(x11@[i]@, saved.sway@, saved.app.executable@, local_only),
        owners@.len() == list@.len(),
        surveyed(
            saved,
            local_only,
            Surveying::Owning(list, x11),
            SurveyEvent::Owned(owners),
            now,
            step,
        ),
    ensures
        survey_failed(now, step, stranger()),
{
    assert(owned_view(x11@)[i] == x11@[i]@);
}

/// A layout is found only at the end of the look, after every window was checked.
pub proof fn layouts_are_checked(
    saved: SavedSession,
    local_only: bool,
    was: Surveying,
    event: SurveyEvent,
    now: Surveying,
    step: SurveyStep,
)
    requires
        surveyed(saved, local_only, was, event, now, step),
    ensures
        step matches SurveyStep::Finished(Ok(_)) ==> was is Finishing,
        now is Finishing ==> {
            &&& was matches Surveying::Owning(list, x11)
            &&& event matches SurveyEvent::Owned(owners)
            &&& checked(
                tree_view(list@),
                owners_view(owners@),
                owned_view(x11@),
                saved.sway@,
                saved.app.executable@,
                local_only,
            ) is Ok
        },
{
}

} // verus!
