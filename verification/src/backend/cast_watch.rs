//! Watches the target of a window capture, so that a short switch to another target and back
//! never passes for the old authorization.
use niri_ipc::{CastKind as Kind, CastTarget as Shown, Event};
use vstd::prelude::*;

use crate::model::{ErrorCode, Fault};
use crate::text::same;

verus! {

#[derive(Debug, Clone, Copy, PartialEq, Eq, Structural)]
pub enum CastKind {
    PipeWire,
    WlrScreencopy,
}

/// What a capture shows.
#[derive(Debug)]
pub enum CastTarget {
    Nothing,
    Output { name: String },
    Window { id: u64 },
}

/// What a capture shows, by its values.
#[verifier::ext_equal]
pub enum ShownView {
    Nothing,
    Output(Seq<char>),
    Window(u64),
}

impl View for CastTarget {
    type V = ShownView;

    open spec fn view(&self) -> ShownView {
        match *self {
            CastTarget::Nothing => ShownView::Nothing,
            CastTarget::Output { name } => ShownView::Output(name@),
            CastTarget::Window { id } => ShownView::Window(id),
        }
    }
}

impl Clone for CastTarget {
    fn clone(&self) -> (r: Self)
        ensures
            r == *self,
    {
        match self {
            CastTarget::Nothing => CastTarget::Nothing,
            CastTarget::Output { name } => CastTarget::Output { name: name.clone() },
            CastTarget::Window { id } => CastTarget::Window { id: *id },
        }
    }
}

impl CastTarget {
    /// Whether this is the same target as another.
    pub fn equals(&self, other: &CastTarget) -> (r: bool)
        ensures
            r == (self@ == other@),
    {
        match self {
            CastTarget::Nothing => match other {
                CastTarget::Nothing => true,
                _ => false,
            },
            CastTarget::Output { name } => match other {
                CastTarget::Output { name: n } => same(name.as_str(), n.as_str()),
                _ => false,
            },
            CastTarget::Window { id } => match other {
                CastTarget::Window { id: n } => *id == *n,
                _ => false,
            },
        }
    }
}

/// A capture as the compositor describes it.
#[derive(Debug)]
pub struct Cast {
    pub stream_id: u64,
    pub session_id: u64,
    pub kind: CastKind,
    pub target: CastTarget,
    pub is_dynamic_target: bool,
    pub pw_node_id: Option<u32>,
}

/// A capture by its values.
#[verifier::ext_equal]
pub struct CastView {
    pub stream_id: u64,
    pub session_id: u64,
    pub kind: CastKind,
    pub target: ShownView,
    pub is_dynamic_target: bool,
    pub pw_node_id: Option<u32>,
}

impl View for Cast {
    type V = CastView;

    open spec fn view(&self) -> CastView {
        CastView {
            stream_id: self.stream_id,
            session_id: self.session_id,
            kind: self.kind,
            target: self.target@,
            is_dynamic_target: self.is_dynamic_target,
            pw_node_id: self.pw_node_id,
        }
    }
}

/// Captures by their values.
pub open spec fn casts_view(v: Seq<Cast>) -> Seq<CastView> {
    v.map_values(|c: Cast| c@)
}

impl Clone for Cast {
    fn clone(&self) -> (r: Self)
        ensures
            r == *self,
    {
        Cast {
            stream_id: self.stream_id,
            session_id: self.session_id,
            kind: self.kind,
            target: self.target.clone(),
            is_dynamic_target: self.is_dynamic_target,
            pw_node_id: self.pw_node_id,
        }
    }
}

/// What the compositor reports of captures.
#[derive(Debug)]
pub enum CastEvent {
    CastsChanged { casts: Vec<Cast> },
    CastStartedOrChanged { cast: Cast },
    CastStopped { stream_id: u64 },
    Other,
}

/// A report by its values.
#[verifier::ext_equal]
pub enum EventView {
    CastsChanged { casts: Seq<CastView> },
    CastStartedOrChanged { cast: CastView },
    CastStopped { stream_id: u64 },
    Other,
}

impl View for CastEvent {
    type V = EventView;

    open spec fn view(&self) -> EventView {
        match *self {
            CastEvent::CastsChanged { casts } => EventView::CastsChanged {
                casts: casts_view(casts@),
            },
            CastEvent::CastStartedOrChanged { cast } => EventView::CastStartedOrChanged {
                cast: cast@,
            },
            CastEvent::CastStopped { stream_id } => EventView::CastStopped { stream_id },
            CastEvent::Other => EventView::Other,
        }
    }
}

/// A capture that was authorized, and whether it is still the same.
pub struct Binding {
    pub expected: Cast,
    pub initialized: bool,
    pub valid: bool,
}

impl Binding {
    /// Whether a capture is the authorized one, of a fixed target.
    pub open spec fn agrees(self, cast: CastView) -> bool {
        &&& cast.stream_id == self.expected.stream_id
        &&& cast.session_id == self.expected.session_id
        &&& cast.pw_node_id == self.expected.pw_node_id
        &&& cast.target == self.expected.target@
        &&& !cast.is_dynamic_target
        &&& cast.kind == CastKind::PipeWire
    }

    /// Whether what is reported leaves the authorization untouched.
    pub open spec fn harmless(self, event: EventView) -> bool {
        match event {
            EventView::CastsChanged { casts } => exists|i: int|
                0 <= i < casts.len() && self.agrees(#[trigger] casts[i]),
            EventView::CastStartedOrChanged { cast } => cast.stream_id == self.expected.stream_id
                ==> self.agrees(cast),
            EventView::CastStopped { stream_id } => stream_id != self.expected.stream_id,
            EventView::Other => true,
        }
    }

    /// The binding after a report.
    pub open spec fn told(self, event: EventView) -> Binding {
        Binding {
            expected: self.expected,
            valid: self.valid && self.harmless(event),
            initialized: self.initialized || event is CastsChanged,
        }
    }

    pub fn matches(&self, cast: &Cast) -> (r: bool)
        ensures
            r == self.agrees(cast@),
    {
        cast.stream_id == self.expected.stream_id && cast.session_id == self.expected.session_id
            && cast.pw_node_id == self.expected.pw_node_id && cast.target.equals(
            &self.expected.target,
        ) && !cast.is_dynamic_target && cast.kind == CastKind::PipeWire
    }

    /// Takes a report in. What was lost is never regained.
    pub fn update(&mut self, event: &CastEvent)
        ensures
            *final(self) == old(self).told(event@),
    {
        match event {
            CastEvent::CastsChanged { casts } => {
                self.initialized = true;
                let mut found = false;
                let mut i: usize = 0;
                while i < casts.len()
                    invariant
                        i <= casts@.len(),
                        self.expected == old(self).expected,
                        self.valid == old(self).valid,
                        self.initialized,
                        found == exists|j: int|
                            0 <= j < i && old(self).agrees(#[trigger] casts_view(casts@)[j]),
                    decreases casts@.len() - i,
                {
                    assert(casts_view(casts@)[i as int] == casts@[i as int]@);
                    if self.matches(&casts[i]) {
                        assert(old(self).agrees(casts_view(casts@)[i as int]));
                        found = true;
                    }
                    i = i + 1;
                }
                proof {
                    let all = casts_view(casts@);
                    assert(all.len() == i);
                    assert(event@ == (EventView::CastsChanged { casts: all }));
                    let me = *old(self);
                    if found {
                        let j = choose|j: int| 0 <= j < i && me.agrees(#[trigger] all[j]);
                        assert(me.agrees(event@->casts[j]));
                    } else if me.harmless(event@) {
                        let j = choose|j: int|
                            0 <= j < event@->casts.len() && me.agrees(#[trigger] event@->casts[j]);
                        assert(me.agrees(all[j]));
                    }
                }
                if !found {
                    self.valid = false;
                }
            },
            CastEvent::CastStartedOrChanged { cast } => {
                if cast.stream_id == self.expected.stream_id && !self.matches(cast) {
                    self.valid = false;
                }
            },
            CastEvent::CastStopped { stream_id } => {
                if *stream_id == self.expected.stream_id {
                    self.valid = false;
                }
            },
            CastEvent::Other => {},
        }
    }
}

/// A binding after some reports.
pub open spec fn after_events(b: Binding, events: Seq<EventView>) -> Binding
    decreases events.len(),
{
    if events.len() == 0 {
        b
    } else {
        after_events(b, events.drop_last()).told(events.last())
    }
}

proof fn expectation_stays(b: Binding, events: Seq<EventView>)
    ensures
        after_events(b, events).expected == b.expected,
    decreases events.len(),
{
    if events.len() > 0 {
        expectation_stays(b, events.drop_last());
    }
}

/// Authority over a capture once lost is not regained by any further reports: switching the
/// target away and back does not restore it.
pub proof fn lost_authority_is_never_regained(b: Binding, events: Seq<EventView>, n: int)
    requires
        0 <= n < events.len(),
        !b.harmless(events[n]),
    ensures
        !after_events(b, events).valid,
    decreases events.len(),
{
    expectation_stays(b, events.drop_last());
    let before = after_events(b, events.drop_last());
    if n == events.len() - 1 {
        match events.last() {
            EventView::CastsChanged { casts } => {
                assert(forall|c: CastView| before.agrees(c) == b.agrees(c));
            },
            _ => {},
        }
    } else {
        lost_authority_is_never_regained(b, events.drop_last(), n);
    }
}

/// Place of the first end of a line from a place on, or the end.
pub open spec fn line_end(s: Seq<u8>, from: int) -> int
    decreases s.len() - from,
{
    if from < 0 || from >= s.len() {
        s.len() as int
    } else if s[from] == 10 {
        from
    } else {
        line_end(s, from + 1)
    }
}

proof fn lemma_line_end(s: Seq<u8>, from: int, k: int)
    requires
        0 <= from <= k <= s.len(),
        forall|j: int| from <= j < k ==> s[j] != 10,
        k < s.len() ==> s[k] == 10,
    ensures
        line_end(s, from) == k,
    decreases k - from,
{
    if from < k {
        lemma_line_end(s, from + 1, k);
    }
}

/// What follows the first line, if there is a whole one.
pub open spec fn rest_of(s: Seq<u8>) -> Seq<u8> {
    let k = line_end(s, 0);
    if 0 <= k < s.len() {
        s.skip(k + 1)
    } else {
        s
    }
}

/// The report of the compositor that a line holds, if it holds one.
pub uninterp spec fn event_of(line: Seq<u8>) -> Option<EventView>;

/// What is left of pending bytes after their whole lines were taken in, the binding after
/// that, and whether each line was a report. What is none stays, and nothing is believed.
pub open spec fn lines_taken(pending: Seq<u8>, b: Binding) -> (Seq<u8>, Binding, bool)
    decreases pending.len(),
{
    let k = line_end(pending, 0);
    if 0 <= k < pending.len() {
        match event_of(pending.take(k)) {
            Some(event) => lines_taken(pending.skip(k + 1), b.told(event)),
            None => (pending, Binding { valid: false, ..b }, false),
        }
    } else {
        (pending, b, true)
    }
}

/// `serde_json::from_slice` into a `niri_ipc::Event`. The line is a report or not by what the
/// two crates make of it, which depends on nothing else and is left to the name `event_of`;
/// reports on other things than captures are not told apart.
#[verifier::external_body]
fn read_event(line: &Vec<u8>) -> (r: Option<CastEvent>)
    ensures
        match event_of(line@) {
            Some(e) => r matches Some(v) && v@ == e,
            None => r is None,
        },
{
    let plain = |c: niri_ipc::Cast| Cast { stream_id: c.stream_id, session_id: c.session_id,
        kind: match c.kind { Kind::PipeWire => CastKind::PipeWire, Kind::WlrScreencopy => CastKind::WlrScreencopy },
        target: match c.target { Shown::Nothing {} => CastTarget::Nothing,
            Shown::Output { name } => CastTarget::Output { name }, Shown::Window { id } => CastTarget::Window { id } },
        is_dynamic_target: c.is_dynamic_target, pw_node_id: c.pw_node_id };
    Some(match serde_json::from_slice(line).ok()? {
        Event::CastsChanged { casts } => CastEvent::CastsChanged { casts: casts.into_iter().map(plain).collect() },
        Event::CastStartedOrChanged { cast } => CastEvent::CastStartedOrChanged { cast: plain(cast) },
        Event::CastStopped { stream_id } => CastEvent::CastStopped { stream_id },
        _ => CastEvent::Other,
    })
}

/// What the compositor answered to the request for its reports: nothing to object, or an
/// objection; or why that is no answer.
pub uninterp spec fn reply_of(line: Seq<u8>) -> Result<Option<Seq<char>>, Seq<char>>;

/// `serde_json::from_slice` into a `niri_ipc::Reply`, of which only the error is of interest.
/// What the two crates make of the line is left to the name `reply_of`.
#[verifier::external_body]
fn read_reply(line: &Vec<u8>) -> (r: Result<Option<String>, String>)
    ensures
        match reply_of(line@) {
            Ok(None) => r == Ok::<Option<String>, String>(None),
            Ok(Some(m)) => r matches Ok(Some(v)) && v@ == m,
            Err(m) => r matches Err(v) && v@ == m,
        },
{
    let reply: niri_ipc::Reply = serde_json::from_slice(line).map_err(|e| e.to_string())?;
    Ok(reply.err())
}

/// Checks an answer to the request for reports.
pub fn check_answer(answer: Result<Option<String>, String>) -> (r: Result<(), Fault>)
    ensures
        match answer {
            Ok(None) => r is Ok,
            Ok(Some(m)) => r matches Err(e) && e.says(ErrorCode::BackendUnavailable, m@),
            Err(m) => r matches Err(e) && e.says(ErrorCode::BackendUnavailable, m@),
        },
{
    match answer {
        Ok(None) => Ok(()),
        Ok(Some(m)) => Err(Fault::unavailable(m.as_str())),
        Err(m) => Err(Fault::unavailable(m.as_str())),
    }
}

/// Checks the line in which the compositor answers the request for its reports.
pub fn check_reply(line: &Vec<u8>) -> (r: Result<(), Fault>)
    ensures
        match reply_of(line@) {
            Ok(None) => r is Ok,
            Ok(Some(m)) => r matches Err(e) && e.says(ErrorCode::BackendUnavailable, m),
            Err(m) => r matches Err(e) && e.says(ErrorCode::BackendUnavailable, m),
        },
{
    check_answer(read_reply(line))
}

/// Most bytes that may wait for the end of a line.
pub const MAX_PENDING: usize = 8388608;

/// What a read gave.
#[derive(Debug)]
pub enum ReadOutcome {
    Closed,
    Data(Vec<u8>),
    Empty,
    Failed,
}

/// The reports of the compositor on an authorized capture.
pub struct CastWatch {
    pub pending: Vec<u8>,
    pub binding: Binding,
}

impl CastWatch {
    /// Begins to watch a capture.
    pub fn new(expected: Cast) -> (r: Self)
        ensures
            r.pending@.len() == 0,
            r.binding == (Binding { expected, initialized: false, valid: true }),
    {
        CastWatch {
            pending: Vec::new(),
            binding: Binding { expected, initialized: false, valid: true },
        }
    }

    /// Takes in what a read gave. True if there may be whole lines to look at.
    pub fn received(&mut self, outcome: ReadOutcome, late: bool) -> (r: bool)
        ensures
            final(self).binding.expected == old(self).binding.expected,
            final(self).binding.initialized == old(self).binding.initialized,
            match outcome {
                ReadOutcome::Data(data) => {
                    &&& final(self).pending@ == old(self).pending@ + data@
                    &&& r == !(final(self).pending@.len() > MAX_PENDING || late)
                    &&& final(self).binding.valid == (old(self).binding.valid && r)
                },
                ReadOutcome::Empty => {
                    &&& !r
                    &&& final(self).pending@ == old(self).pending@
                    &&& final(self).binding.valid == old(self).binding.valid
                },
                _ => {
                    &&& !r
                    &&& final(self).pending@ == old(self).pending@
                    &&& !final(self).binding.valid
                },
            },
    {
        match outcome {
            ReadOutcome::Data(data) => {
                let mut data = data;
                self.pending.append(&mut data);
                if self.pending.len() > MAX_PENDING || late {
                    self.binding.valid = false;
                    return false;
                }
                true
            },
            ReadOutcome::Empty => false,
            ReadOutcome::Closed => {
                self.binding.valid = false;
                false
            },
            ReadOutcome::Failed => {
                self.binding.valid = false;
                false
            },
        }
    }

    fn newline(&self) -> (r: Option<usize>)
        ensures
            match r {
                Some(k) => k < self.pending@.len() && line_end(self.pending@, 0) == k,
                None => line_end(self.pending@, 0) == self.pending@.len(),
            },
    {
        let mut i: usize = 0;
        while i < self.pending.len()
            invariant
                i <= self.pending@.len(),
                forall|j: int| 0 <= j < i ==> self.pending@[j] != 10,
            decreases self.pending@.len() - i,
        {
            if self.pending[i] == 10 {
                proof {
                    lemma_line_end(self.pending@, 0, i as int);
                }
                return Some(i);
            }
            i = i + 1;
        }
        proof {
            lemma_line_end(self.pending@, 0, i as int);
        }
        None
    }

    /// The next whole line, without its end.
    pub fn line(&self) -> (r: Option<Vec<u8>>)
        ensures
            ({
                let k = line_end(self.pending@, 0);
                if 0 <= k < self.pending@.len() {
                    r matches Some(v) && v@ == self.pending@.take(k)
                } else {
                    r is None
                }
            }),
    {
        match self.newline() {
            None => None,
            Some(k) => {
                let mut out: Vec<u8> = Vec::new();
                let mut i: usize = 0;
                while i < k
                    invariant
                        i <= k < self.pending@.len(),
                        out@ == self.pending@.take(i as int),
                    decreases k - i,
                {
                    out.push(self.pending[i]);
                    i = i + 1;
                    assert(out@ =~= self.pending@.take(i as int));
                }
                Some(out)
            },
        }
    }

    /// Drops the next whole line.
    fn drop_line(&mut self)
        ensures
            final(self).binding == old(self).binding,
            final(self).pending@ == rest_of(old(self).pending@),
    {
        match self.newline() {
            None => {},
            Some(k) => {
                let ghost before = self.pending@;
                let total: usize = self.pending.len();
                assert(k < total);
                let mut rest: Vec<u8> = Vec::new();
                let mut i: usize = k + 1;
                while i < self.pending.len()
                    invariant
                        k < i <= self.pending@.len(),
                        self.pending@ == before,
                        rest@ == before.subrange(k + 1, i as int),
                    decreases self.pending@.len() - i,
                {
                    rest.push(self.pending[i]);
                    i = i + 1;
                    assert(rest@ =~= before.subrange(k + 1, i as int));
                }
                assert(rest@ =~= before.skip(k + 1));
                self.pending = rest;
            },
        }
    }

    /// Takes in an event that was read from the next whole line, or that the line is none.
    /// After what is no event, nothing more is believed.
    pub fn accept(&mut self, event: Option<CastEvent>) -> (r: Result<(), Fault>)
        ensures
            match event {
                Some(e) => {
                    &&& r is Ok
                    &&& final(self).pending@ == rest_of(old(self).pending@)
                    &&& final(self).binding == old(self).binding.told(e@)
                },
                None => {
                    &&& r matches Err(f)
                    &&& f.says(ErrorCode::StaleTarget, "采集流监视协议错误"@)
                    &&& final(self).pending@ == old(self).pending@
                    &&& final(self).binding == (Binding { valid: false, ..old(self).binding })
                },
            },
    {
        match event {
            Some(e) => {
                self.binding.update(&e);
                self.drop_line();
                Ok(())
            },
            None => {
                self.binding.valid = false;
                Err(Fault::stale("采集流监视协议错误"))
            },
        }
    }

    /// Takes in all whole lines, one after the other.
    pub fn take_lines(&mut self) -> (r: Result<(), Fault>)
        ensures
            ({
                let after = lines_taken(old(self).pending@, old(self).binding);
                &&& final(self).pending@ == after.0
                &&& final(self).binding == after.1
                &&& if after.2 {
                    r is Ok
                } else {
                    r matches Err(f) && f.says(ErrorCode::StaleTarget, "采集流监视协议错误"@)
                }
            }),
    {
        let ghost start = lines_taken(self.pending@, self.binding);
        loop
            invariant
                start == lines_taken(self.pending@, self.binding),
                start == lines_taken(old(self).pending@, old(self).binding),
            ensures
                start == (self.pending@, self.binding, true),
            decreases self.pending@.len(),
        {
            match self.line() {
                None => {
                    break;
                },
                Some(line) => {
                    let event = read_event(&line);
                    match self.accept(event) {
                        Ok(()) => {},
                        Err(e) => {
                            return Err(e);
                        },
                    }
                },
            }
        }
        Ok(())
    }

    /// Whether the capture is still the authorized one.
    pub fn verdict(&self) -> (r: Result<(), Fault>)
        ensures
            self.binding.valid ==> r is Ok,
            !self.binding.valid ==> (r matches Err(e) && e.says(
                ErrorCode::StaleTarget,
                "窗口采集目标或监视连接已变化；必须重新授权"@,
            )),
    {
        if self.binding.valid {
            Ok(())
        } else {
            Err(Fault::stale("窗口采集目标或监视连接已变化；必须重新授权"))
        }
    }

    /// Whether the first report is still awaited.
    pub fn awaiting(&self, late: bool) -> (r: Result<bool, Fault>)
        ensures
            if self.binding.initialized {
                r == Ok::<bool, Fault>(false)
            } else if late {
                r matches Err(e) && e.says(
                    ErrorCode::BackendUnavailable,
                    "niri 未发送采集流初始状态"@,
                )
            } else {
                r == Ok::<bool, Fault>(true)
            },
    {
        if self.binding.initialized {
            Ok(false)
        } else if late {
            Err(Fault::unavailable("niri 未发送采集流初始状态"))
        } else {
            Ok(true)
        }
    }
}

} // verus!
