//! When a window stream still shows the window that the user chose.
use vstd::prelude::*;

use crate::backend::cast_watch::{
    check_answer, line_end, Binding, Cast, CastEvent, CastKind, CastTarget, CastWatch, ReadOutcome,
};
use crate::backend::portal::{
    await_frame, bind_window, check_binding, check_bound, check_rows, check_size, check_streams,
    of_node, FrameWait, SourceKind,
};
use crate::model::{ErrorCode, Fault};

verus! {

/// Exactly one window may be chosen.
pub proof fn one_window_is_chosen(streams: &Vec<SourceKind>, r: Result<(), Fault>)
    requires
        call_ensures(check_streams, (streams,), r),
    ensures
        r is Ok <==> streams@.len() == 1 && streams@[0] == SourceKind::Window,
        r matches Err(e) ==> e.code == ErrorCode::PermissionDenied
            && e.message@ == "必须选择一个应用窗口，不能选择整块显示器"@,
{
}

/// Whether a capture shows a window, fixed to it.
pub open spec fn fixed_on(cast: Cast, window: u64) -> bool {
    !cast.is_dynamic_target && (cast.target matches CastTarget::Window { id } && id == window)
}

/// The stream is bound to a capture of its own node that is fixed on the window, and to nothing
/// if another capture has that node too.
pub proof fn streams_are_bound_to_the_chosen_window(
    casts: &Vec<Cast>,
    node: u32,
    window: u64,
    r: Result<Cast, Fault>,
    i: int,
    j: int,
)
    requires
        call_ensures(bind_window, (casts, node, window), r),
        0 <= i < casts@.len(),
        0 <= j < casts@.len(),
        i != j,
    ensures
        r matches Ok(c) ==> c.pw_node_id == Some(node) && fixed_on(c, window),
        r matches Ok(c) ==> exists|k: int| 0 <= k < casts@.len() && #[trigger] casts@[k] == c,
        casts@[i].pw_node_id == Some(node) && casts@[j].pw_node_id == Some(node) && casts@[i]
            != casts@[j] ==> r is Err,
        r matches Err(e) ==> e.code == ErrorCode::PermissionDenied,
{
    let f = |c: Cast| c.pw_node_id == Some(node);
    let m = casts@.filter(f);
    assert(m == of_node(casts@, node));
    if r is Ok {
        casts@.lemma_filter_pred(f, 0);
        assert(m.contains(m[0]));
        casts@.lemma_filter_contains_rev(f, m[0]);
    }
    if casts@[i].pw_node_id == Some(node) && casts@[j].pw_node_id == Some(node) && casts@[i]
        != casts@[j] {
        casts@.lemma_filter_contains(f, i);
        casts@.lemma_filter_contains(f, j);
        let a = choose|a: int| 0 <= a < m.len() && m[a] == casts@[i];
        let b = choose|b: int| 0 <= b < m.len() && m[b] == casts@[j];
        assert(a != b);
    }
}

/// A bound stream is the same while a capture of its number and node is fixed on its window; it
/// must have been bound, and be watched.
pub proof fn bound_streams_stay_on_their_window(
    casts: &Vec<Cast>,
    stream: u64,
    node: u32,
    window: u64,
    r: Result<(), Fault>,
    bound: bool,
    watched: bool,
    ready: Result<(), Fault>,
)
    requires
        call_ensures(check_binding, (casts, stream, node, window), r),
        call_ensures(check_bound, (bound, watched), ready),
    ensures
        r is Ok <==> exists|i: int| {
            &&& 0 <= i < casts@.len()
            &&& (#[trigger] casts@[i]).stream_id == stream
            &&& casts@[i].pw_node_id == Some(node)
            &&& fixed_on(casts@[i], window)
        },
        r matches Err(e) ==> e.code == ErrorCode::StaleTarget
            && e.message@ == "窗口采集目标发生变化；必须重新授权"@,
        ready is Ok <==> bound && watched,
        ready matches Err(e) ==> e.code == ErrorCode::PermissionDenied,
{
    if r is Ok {
        let i = choose|i: int|
            0 <= i < casts@.len() && crate::backend::portal::still(
                #[trigger] casts@[i],
                stream,
                node,
                window,
            );
        assert(casts@[i].stream_id == stream && fixed_on(casts@[i], window));
    }
    if exists|i: int| {
        &&& 0 <= i < casts@.len()
        &&& (#[trigger] casts@[i]).stream_id == stream
        &&& casts@[i].pw_node_id == Some(node)
        &&& fixed_on(casts@[i], window)
    } {
        let i = choose|i: int| {
            &&& 0 <= i < casts@.len()
            &&& (#[trigger] casts@[i]).stream_id == stream
            &&& casts@[i].pw_node_id == Some(node)
            &&& fixed_on(casts@[i], window)
        };
        assert(crate::backend::portal::still(casts@[i], stream, node, window));
    }
}

/// A frame is taken when it is there, waited for until it is late, and not after the stream
/// ended.
pub proof fn stream_frames_are_waited_for(
    ended: Option<&str>,
    frame: bool,
    late: bool,
    r: Result<FrameWait, Fault>,
)
    requires
        call_ensures(await_frame, (ended, frame, late), r),
    ensures
        (r matches Ok(FrameWait::Take)) <==> ended is None && frame,
        (r matches Ok(FrameWait::Wait)) <==> ended is None && !frame && !late,
        ended is Some ==> (r matches Err(e) && e.code == ErrorCode::StaleTarget),
        ended is None && r is Err ==> r->Err_0.code == ErrorCode::BackendUnavailable,
{
}

/// Frames have sides of 16384 at most, sixty-seven million pixels at most, and rows that hold
/// their pixels.
pub proof fn stream_frames_are_bounded(
    width: i32,
    height: i32,
    stride: i32,
    size: Result<(), Fault>,
    rows: Result<(), Fault>,
)
    requires
        call_ensures(check_size, (width, height), size),
        size is Ok ==> call_ensures(check_rows, (width, height, stride), rows),
    ensures
        size is Ok <==> 1 <= width <= 16384 && 1 <= height <= 16384,
        size is Ok ==> (rows is Ok <==> stride >= 4 * width && width * height <= 8192 * 8192),
        size matches Err(e) ==> e.code == ErrorCode::BackendUnavailable
            && e.message@ == "窗口图像尺寸无效"@,
{
}

/// The authorization of a capture survives a report only if the report leaves the capture as it
/// was authorized: same stream, session, node and window, fixed, and sent as a stream. Once lost
/// it stays lost.
pub proof fn authorizations_survive_what_leaves_them_alone(
    before: Binding,
    changed: Binding,
    stopped: Binding,
    other: Binding,
    cast: Cast,
    stream_id: u64,
    same: bool,
)
    requires
        exists|b: &mut Binding|
            *b == before && *final(b) == changed && #[trigger] call_ensures(
                Binding::update,
                (b, &CastEvent::CastStartedOrChanged { cast }),
                (),
            ),
        exists|b: &mut Binding|
            *b == before && *final(b) == stopped && #[trigger] call_ensures(
                Binding::update,
                (b, &CastEvent::CastStopped { stream_id }),
                (),
            ),
        exists|b: &mut Binding|
            *b == before && *final(b) == other && #[trigger] call_ensures(
                Binding::update,
                (b, &CastEvent::Other),
                (),
            ),
        call_ensures(CastTarget::equals, (&cast.target, &before.expected.target), same),
    ensures
        changed.valid <==> before.valid && (cast.stream_id == before.expected.stream_id ==> {
            &&& cast.session_id == before.expected.session_id
            &&& cast.pw_node_id == before.expected.pw_node_id
            &&& same
            &&& !cast.is_dynamic_target
            &&& cast.kind == CastKind::PipeWire
        }),
        stopped.valid <==> before.valid && stream_id != before.expected.stream_id,
        other.valid == before.valid,
        changed.expected == before.expected && stopped.expected == before.expected
            && other.expected == before.expected,
        changed.initialized == before.initialized && stopped.initialized == before.initialized
            && other.initialized == before.initialized,
{
}

/// Captures show the same exactly if both show nothing, the same window, or the same display.
pub proof fn captures_show_the_same(a: CastTarget, b: CastTarget, r: bool)
    requires
        call_ensures(CastTarget::equals, (&a, &b), r),
    ensures
        r <==> match (a, b) {
            (CastTarget::Nothing, CastTarget::Nothing) => true,
            (CastTarget::Window { id }, CastTarget::Window { id: other }) => id == other,
            (CastTarget::Output { name }, CastTarget::Output { name: other }) => name@ == other@,
            _ => false,
        },
{
}

proof fn lemma_harmless(b: Binding, v: Seq<crate::backend::cast_watch::CastView>, i: int)
    requires
        0 <= i < v.len(),
        b.agrees(v[i]),
    ensures
        b.harmless(crate::backend::cast_watch::EventView::CastsChanged { casts: v }),
{
    let event = crate::backend::cast_watch::EventView::CastsChanged { casts: v };
    assert(b.agrees(event->casts[i]));
}

/// After a list of all captures the authorization holds only if one of them agrees with it, and
/// the first list has then been seen.
pub proof fn full_lists_must_hold_the_capture(
    before: Binding,
    after: Binding,
    casts: Vec<Cast>,
    i: int,
    agrees: bool,
)
    requires
        exists|b: &mut Binding|
            *b == before && *final(b) == after && #[trigger] call_ensures(
                Binding::update,
                (b, &CastEvent::CastsChanged { casts }),
                (),
            ),
        0 <= i < casts@.len(),
        call_ensures(Binding::matches, (&before, &casts@[i]), agrees),
    ensures
        after.initialized,
        after.expected == before.expected,
        before.valid && agrees ==> after.valid,
        !before.valid ==> !after.valid,
        after.valid ==> exists|k: int| {
            &&& 0 <= k < casts@.len()
            &&& (#[trigger] casts@[k]).stream_id == before.expected.stream_id
            &&& casts@[k].session_id == before.expected.session_id
            &&& casts@[k].pw_node_id == before.expected.pw_node_id
            &&& !casts@[k].is_dynamic_target
            &&& casts@[k].kind == CastKind::PipeWire
        },
{
    let v = crate::backend::cast_watch::casts_view(casts@);
    assert(v.len() == casts@.len());
    assert(v[i] == casts@[i]@);
    if before.valid && agrees {
        lemma_harmless(before, v, i);
    }
    if after.valid {
        let k = choose|k: int| 0 <= k < v.len() && before.agrees(#[trigger] v[k]);
        assert(v[k] == casts@[k]@);
        assert(casts@[k].stream_id == before.expected.stream_id);
    }
}

/// A watch loses its authority when the connection ends or fails, when too much waits for the
/// end of a line, or when it is late; what is read waits behind what was read before.
pub proof fn watches_lose_authority_with_their_connection(
    before: CastWatch,
    after: CastWatch,
    outcome: ReadOutcome,
    late: bool,
    r: bool,
)
    requires
        exists|w: &mut CastWatch|
            *w == before && *final(w) == after && #[trigger] call_ensures(
                CastWatch::received,
                (w, outcome, late),
                r,
            ),
    ensures
        outcome is Closed || outcome is Failed ==> !after.binding.valid && !r,
        outcome is Empty ==> after.binding.valid == before.binding.valid && !r && after.pending@
            == before.pending@,
        outcome matches ReadOutcome::Data(data) ==> {
            &&& after.pending@ == before.pending@ + data@
            &&& r <==> before.pending@.len() + data@.len() <= 8388608 && !late
            &&& after.binding.valid <==> before.binding.valid && r
        },
        after.binding.expected == before.binding.expected,
{
}

/// A line is what stands before the first line end.
pub proof fn lines_end_at_the_first_line_end(w: CastWatch, r: Option<Vec<u8>>, k: int)
    requires
        call_ensures(CastWatch::line, (&w,), r),
        0 <= k <= w.pending@.len(),
        forall|i: int| 0 <= i < k ==> #[trigger] w.pending@[i] != 10,
        k < w.pending@.len() ==> w.pending@[k] == 10,
    ensures
        r is Some <==> k < w.pending@.len(),
        r matches Some(line) ==> line@ == w.pending@.subrange(0, k),
{
    lemma_end(w.pending@, 0, k);
    assert(w.pending@.take(k) =~= w.pending@.subrange(0, k));
}

proof fn lemma_end(s: Seq<u8>, from: int, k: int)
    requires
        0 <= from <= k <= s.len(),
        forall|i: int| 0 <= i < k ==> #[trigger] s[i] != 10,
        k < s.len() ==> s[k] == 10,
    ensures
        line_end(s, from) == k,
    decreases k - from,
{
    if from < k {
        assert(s[from] != 10);
        lemma_end(s, from + 1, k);
    }
}

/// What is no report ends the authority; a report is taken in, and its line is done with.
pub proof fn only_reports_are_believed(
    before: CastWatch,
    after: CastWatch,
    event: Option<CastEvent>,
    r: Result<(), Fault>,
    k: int,
)
    requires
        exists|w: &mut CastWatch|
            *w == before && *final(w) == after && #[trigger] call_ensures(
                CastWatch::accept,
                (w, event),
                r,
            ),
        0 <= k < before.pending@.len(),
        forall|i: int| 0 <= i < k ==> #[trigger] before.pending@[i] != 10,
        before.pending@[k] == 10,
    ensures
        r is Ok <==> event is Some,
        event is None ==> !after.binding.valid && after.pending@ == before.pending@,
        event is Some ==> after.pending@ == before.pending@.skip(k + 1),
        !before.binding.valid ==> !after.binding.valid,
        r matches Err(e) ==> e.code == ErrorCode::StaleTarget
            && e.message@ == "采集流监视协议错误"@,
{
    lemma_end(before.pending@, 0, k);
}

/// A capture is authorized while its watch says so; the first report is awaited until it is
/// late. A new watch believes in what it was given.
pub proof fn captures_are_authorized_while_watched(
    w: CastWatch,
    r: Result<(), Fault>,
    late: bool,
    wait: Result<bool, Fault>,
    expected: Cast,
    fresh: CastWatch,
    answer: Result<Option<String>, String>,
    ok: Result<(), Fault>,
)
    requires
        call_ensures(CastWatch::verdict, (&w,), r),
        call_ensures(CastWatch::awaiting, (&w, late), wait),
        call_ensures(CastWatch::new, (expected,), fresh),
        call_ensures(check_answer, (answer,), ok),
    ensures
        r is Ok <==> w.binding.valid,
        r matches Err(e) ==> e.code == ErrorCode::StaleTarget
            && e.message@ == "窗口采集目标或监视连接已变化；必须重新授权"@,
        w.binding.initialized ==> (wait matches Ok(more) && !more),
        !w.binding.initialized && !late ==> (wait matches Ok(more) && more),
        !w.binding.initialized && late ==> (wait matches Err(e) && e.code
            == ErrorCode::BackendUnavailable
            && e.message@ == "niri 未发送采集流初始状态"@),
        fresh.binding.valid && !fresh.binding.initialized && fresh.binding.expected == expected
            && fresh.pending@.len() == 0,
        ok is Ok <==> answer matches Ok(None),
        ok matches Err(e) ==> e.code == ErrorCode::BackendUnavailable,
{
}

/// Bytes without a line end wait: nothing is believed or lost by looking at them.
pub proof fn unfinished_lines_wait(before: CastWatch, after: CastWatch, r: Result<(), Fault>)
    requires
        exists|w: &mut CastWatch|
            *w == before && *final(w) == after && #[trigger] call_ensures(
                CastWatch::take_lines,
                (w,),
                r,
            ),
        forall|i: int| 0 <= i < before.pending@.len() ==> #[trigger] before.pending@[i] != 10,
    ensures
        r is Ok,
        after.pending@ == before.pending@,
        after.binding == before.binding,
{
    lemma_end(before.pending@, 0, before.pending@.len() as int);
}

} // verus!
