//! The window of an isolated application: its live picture, and the local user's own input.
use std::sync::atomic::AtomicU64;
use std::sync::Arc;
use vstd::prelude::*;

use crate::authority::{after, Step};
use crate::backend::preview::{same_viewport, Viewport};
use crate::backend::{was_made, was_written, Backend, Cancellation};
use crate::model::{optional, Action, Button, Fault, Modifier, Point, State, Target};
use crate::number::Binary64;
use crate::policy::{next_generation, Policy, PolicyView};
use crate::text::{chars_of, control, decimal, is_control, numeral};

verus! {

/// Whether the local user has taken an application over in this window.
pub struct Takeover {
    pub active: bool,
    /// Moves on whenever the user's own input is cancelled.
    pub generation: u64,
    /// Tells the user's own input the generation.
    pub signal: Arc<AtomicU64>,
}

impl Takeover {
    pub fn new() -> (r: Self)
        ensures
            !r.active,
            r.generation == 0,
            was_made(*r.signal, 0),
    {
        let counter = AtomicU64::new(0);
        assert(was_made(counter, 0));
        Takeover { active: false, generation: 0, signal: Arc::new(counter) }
    }

    /// Whether the user's own input, given before, was told that it is cancelled.
    pub open spec fn told(self, later: Self) -> bool {
        &&& later.signal == self.signal
        &&& later.generation != self.generation ==> was_written(*later.signal, later.generation)
    }

    /// Lets the user's own input notice that it was cancelled.
    pub fn cancellation(&self) -> (r: Cancellation)
        ensures
            r.generation == self.signal,
            r.captured == self.generation,
    {
        Cancellation::watching(self.signal.clone(), self.generation)
    }

    fn advance(&mut self)
        ensures
            final(self).generation == next_generation(old(self).generation),
            final(self).active == old(self).active,
            old(self).told(*final(self)),
    {
        let next: u64 = if self.generation == u64::MAX {
            0
        } else {
            self.generation + 1
        };
        self.generation = next;
        self.signal.store(next, std::sync::atomic::Ordering::SeqCst);
        assert(was_written(*self.signal, next));
    }

    /// The user takes over, or gives back. Taking over pauses everything; giving back cancels
    /// the user's own input and resumes nothing.
    pub fn toggle<B: Backend>(&mut self, policy: &mut Policy<B>, on: bool)
        requires
            old(policy).wf(),
            on && !old(self).active ==> old(policy)@.manual_previews < usize::MAX,
        ensures
            final(policy).wf(),
            final(self).active == on,
            old(policy)@.told(final(policy)@),
            old(self).told(*final(self)),
            if on && !old(self).active {
                &&& final(policy)@ == after(old(policy)@, Step::BeginTakeover)
                &&& final(self).generation == old(self).generation
            } else if !on && old(self).active {
                &&& final(policy)@ == after(old(policy)@, Step::EndTakeover)
                &&& final(self).generation == next_generation(old(self).generation)
            } else {
                &&& final(policy)@ == old(policy)@
                &&& final(self).generation == old(self).generation
            },
    {
        let ghost before = policy@;
        if on && !self.active {
            self.active = true;
            policy.begin_takeover();
        } else if !on && self.active {
            self.active = false;
            policy.end_takeover();
            proof {
                lemma_same_sessions(before, policy@);
            }
            self.advance();
        }
    }

    /// The window is closed: the user's own input is cancelled, and what was taken over is
    /// given back.
    pub fn close<B: Backend>(&mut self, policy: &mut Policy<B>)
        requires
            old(policy).wf(),
        ensures
            final(policy).wf(),
            final(self).generation == next_generation(old(self).generation),
            final(self).active == old(self).active,
            old(self).told(*final(self)),
            final(policy)@ == (if old(self).active {
                after(old(policy)@, Step::EndTakeover)
            } else {
                old(policy)@
            }),
    {
        let ghost before = policy@;
        self.advance();
        if self.active {
            policy.end_takeover();
            proof {
                lemma_same_sessions(before, policy@);
            }
        }
    }

    /// The picture is hidden: the user's own input is cancelled, and the session loses a view.
    pub fn hidden<B: Backend>(&mut self, policy: &mut Policy<B>, id: Option<&str>)
        requires
            old(policy).wf(),
        ensures
            final(policy).wf(),
            final(self).generation == next_generation(old(self).generation),
            final(self).active == old(self).active,
            old(self).told(*final(self)),
            final(policy)@ == (match id {
                Some(i) => after(old(policy)@, Step::ViewClosed { id: i@ }),
                None => old(policy)@,
            }),
            old(policy)@.told(final(policy)@),
    {
        self.advance();
        match id {
            Some(i) => {
                policy.view_closed(i);
            },
            None => {},
        }
    }
}

proof fn lemma_same_sessions<B: Backend>(p: PolicyView<B>, q: PolicyView<B>)
    requires
        p.distinct(),
        q.sessions == p.sessions,
    ensures
        q.distinct(),
{
    assert forall|i: int, j: int|
        #![trigger q.sessions[i], q.sessions[j]]
        0 <= i < j < q.sessions.len() implies q.sessions[i].id() != q.sessions[j].id() by {
        assert(p.sessions[i].id() != p.sessions[j].id());
    }
}

/// Nanoseconds for which a size must stand before the application takes it.
pub const SETTLED: u64 = 120_000_000;

/// Nanoseconds after which a frame is too old to be shown.
pub const FRESH: u64 = 250_000_000;

/// Nanoseconds over which the rate of frames is measured.
pub const MEASURED: u64 = 500_000_000;

/// Time from one moment to another; none if the second is earlier.
pub open spec fn elapsed(since: u64, now: u64) -> int {
    if now >= since {
        now - since
    } else {
        0
    }
}

fn time_since(since: u64, now: u64) -> (r: u64)
    ensures
        r == elapsed(since, now),
{
    if now >= since {
        now - since
    } else {
        0
    }
}

/// What a frame is described with.
pub open spec fn frame_text(
    width: u32,
    height: u32,
    renderer: Seq<char>,
    transport: Seq<char>,
) -> Seq<char> {
    numeral(width as nat, 10) + "×"@ + numeral(height as nat, 10) + " · "@ + renderer + " · "@
        + transport
}

/// What the window shows.
pub struct Presentation {
    /// The size that the window has.
    pub pending: Option<Viewport>,
    /// When it got that size.
    pub size_changed: u64,
    /// Since when frames are counted.
    pub measured_since: u64,
    /// Frames that were shown since.
    pub shown: u64,
    pub description: String,
    pub failure: Option<String>,
    /// What the picture shows, for the user's input.
    pub target: Option<Target>,
}

impl Presentation {
    pub fn new(now: u64) -> (r: Self)
        ensures
            r.pending is None,
            r.size_changed == now,
            r.measured_since == now,
            r.shown == 0,
            r.description@ == Seq::<char>::empty(),
            r.failure is None,
            r.target is None,
    {
        let r = Presentation {
            pending: None,
            size_changed: now,
            measured_since: now,
            shown: 0,
            description: String::new(),
            failure: None,
            target: None,
        };
        assert(r.description@ =~= Seq::<char>::empty());
        r
    }

    /// Whether the window already had a size.
    pub open spec fn sized(self, viewport: Viewport) -> bool {
        self.pending matches Some(v) && same_viewport(v, viewport)
    }

    /// The window has a size. True if it has had it long enough for the application to take
    /// it: while the window is being dragged, it does not.
    pub fn resize(&mut self, viewport: Viewport, now: u64) -> (r: bool)
        ensures
            if old(self).sized(viewport) {
                &&& *final(self) == *old(self)
                &&& r == (elapsed(old(self).size_changed, now) >= SETTLED)
            } else {
                &&& *final(self) == (Presentation {
                    pending: Some(viewport),
                    size_changed: now,
                    ..*old(self)
                })
                &&& !r
            },
    {
        let known = match self.pending {
            Some(v) => v.width == viewport.width && v.height == viewport.height && v.scale.same(
                viewport.scale,
            ),
            None => false,
        };
        if !known {
            self.pending = Some(viewport);
            self.size_changed = now;
            return false;
        }
        time_since(self.size_changed, now) >= SETTLED
    }

    /// A frame arrived, of a given age. True if it is to be shown: a late one would only add
    /// lag.
    pub fn arrive(&mut self, age: u64, width: u32, height: u32, renderer: &str, transport: &str)
        -> (r: bool)
        ensures
            r == (age < FRESH),
            *final(self) == (Presentation { description: final(self).description, ..*old(self) }),
            final(self).description@ == (if r {
                frame_text(width, height, renderer@, transport@)
            } else {
                old(self).description@
            }),
    {
        if age >= FRESH {
            return false;
        }
        let mut s = decimal(width as u64);
        s.append("×");
        s.append(decimal(height as u64).as_str());
        s.append(" · ");
        s.append(renderer);
        s.append(" · ");
        s.append(transport);
        self.description = s;
        true
    }

    /// A frame was shown.
    pub fn show(&mut self, target: Target)
        requires
            old(self).shown < u64::MAX,
        ensures
            *final(self) == (Presentation {
                target: Some(target),
                shown: (old(self).shown + 1) as u64,
                failure: None,
                ..*old(self)
            }),
    {
        self.target = Some(target);
        self.shown = self.shown + 1;
        self.failure = None;
    }

    /// No frame could be had: its session is paused.
    pub fn fail<B: Backend>(&mut self, policy: &mut Policy<B>, id: Option<&str>, error: Fault)
        requires
            old(policy).wf(),
        ensures
            final(policy).wf(),
            final(policy)@ == (match id {
                Some(i) => after(old(policy)@, Step::Pause { id: i@ }),
                None => old(policy)@,
            }),
            old(policy)@.told(final(policy)@),
            *final(self) == (Presentation { failure: final(self).failure, ..*old(self) }),
            optional(final(self).failure) == Some(error.message@),
    {
        self.failure = Some(error.message);
        match id {
            Some(i) => {
                policy.pause(i);
            },
            None => {},
        }
    }

    /// What the window says below its picture, once in a while: what failed, or who is in
    /// control, what is shown and how fast. The rate is given as a text.
    pub open spec fn line(self, control: Seq<char>, rate: Seq<char>) -> Seq<char> {
        match self.failure {
            Some(f) => f@,
            None => control + " · "@ + self.description@ + " · "@ + (if self.shown == 0 {
                "静止"@
            } else {
                rate
            }),
        }
    }

    /// What the window says, if it is time to say it. Counting begins anew.
    pub fn measure(&mut self, now: u64, control: &str, rate: &str) -> (r: Option<String>)
        ensures
            if elapsed(old(self).measured_since, now) >= MEASURED {
                &&& r matches Some(s)
                &&& s@ == old(self).line(control@, rate@)
                &&& *final(self) == (Presentation { shown: 0, measured_since: now, ..*old(self) })
            } else {
                &&& r is None
                &&& *final(self) == *old(self)
            },
    {
        if time_since(self.measured_since, now) < MEASURED {
            return None;
        }
        let line = match &self.failure {
            Some(f) => f.clone(),
            None => {
                let mut s = control.to_owned();
                s.append(" · ");
                s.append(self.description.as_str());
                s.append(" · ");
                if self.shown == 0 {
                    s.append("静止");
                } else {
                    s.append(rate);
                }
                s
            },
        };
        self.shown = 0;
        self.measured_since = now;
        Some(line)
    }
}

/// Who is in control of an application.
pub open spec fn control_text<B: Backend>(p: PolicyView<B>, id: Option<Seq<char>>) -> Seq<char> {
    match id {
        None => "本地预览 · 可手动接管"@,
        Some(i) => if p.has(i) && p.get(i).status.state == State::Active {
            "AI 正在控制 · 你可以继续使用其他窗口"@
        } else if p.has(i) && p.get(i).status.state == State::Paused {
            "AI 已暂停 · 可手动接管"@
        } else {
            "AI 授权已结束 · 应用保留供你使用"@
        },
    }
}

/// Who is in control of an application.
pub fn control_of<B: Backend>(policy: &Policy<B>, id: Option<&str>) -> (r: &'static str)
    requires
        policy.wf(),
    ensures
        r@ == control_text(
            policy@,
            match id {
                Some(i) => Some(i@),
                None => None,
            },
        ),
{
    match id {
        None => "本地预览 · 可手动接管",
        Some(i) => match policy.session(i) {
            Some(s) => match s.status.state {
                State::Active => "AI 正在控制 · 你可以继续使用其他窗口",
                State::Paused => "AI 已暂停 · 可手动接管",
                _ => "AI 授权已结束 · 应用保留供你使用",
            },
            None => "AI 授权已结束 · 应用保留供你使用",
        },
    }
}

/// The button of a click, by its number. The first one is for dragging, which a short drag
/// turns into a click.
pub fn click_button(enabled: bool, number: u32) -> (r: Option<Button>)
    ensures
        r == (if !enabled || number == 1 {
            None
        } else if number == 2 {
            Some(Button::Middle)
        } else if number == 3 {
            Some(Button::Right)
        } else {
            Some(Button::Left)
        }),
{
    if !enabled || number == 1 {
        None
    } else if number == 2 {
        Some(Button::Middle)
    } else if number == 3 {
        Some(Button::Right)
    } else {
        Some(Button::Left)
    }
}

/// What the end of a drag does, from and to places in the picture, if they are in it. A short
/// one is a click. One that was cancelled meanwhile does nothing.
pub fn drag_action(
    enabled: bool,
    cancelled: bool,
    from: Option<Point>,
    to: Option<Point>,
    short: bool,
) -> (r: Option<Action>)
    ensures
        match (from, to) {
            (Some(a), Some(b)) => if !enabled || cancelled {
                r is None
            } else if short {
                r == Some(Action::Click { at: a, button: Button::Left })
            } else {
                r == Some(Action::Drag { from: a, to: b })
            },
            _ => r is None,
        },
{
    if !enabled || cancelled {
        return None;
    }
    match from {
        None => None,
        Some(a) => match to {
            None => None,
            Some(b) => {
                if short {
                    Some(Action::Click { at: a, button: Button::Left })
                } else {
                    Some(Action::Drag { from: a, to: b })
                }
            },
        },
    }
}

/// What a turn of the wheel does, at a place in the picture if it is in it.
pub fn scroll_action(enabled: bool, at: Option<Point>, dx: Binary64, dy: Binary64) -> (r: Option<
    Action,
>)
    ensures
        r == (match at {
            Some(p) if enabled => Some(Action::Scroll { at: p, dx, dy }),
            _ => None,
        }),
{
    match at {
        Some(p) => {
            if enabled {
                Some(Action::Scroll { at: p, dx, dy })
            } else {
                None
            }
        },
        None => None,
    }
}

/// The name of a pressed key: the character that it writes, or else its own name.
pub fn key_name(written: Option<char>, name: Option<&str>) -> (r: Option<String>)
    ensures
        optional(r) == (match written {
            Some(c) if !control(c) => Some(seq![c]),
            _ => match name {
                Some(n) => Some(n@),
                None => None,
            },
        }),
{
    match written {
        Some(c) => {
            if !is_control(c) {
                let mut s = String::new();
                s.push(c);
                assert(s@ =~= seq![c]);
                return Some(s);
            }
        },
        None => {},
    }
    match name {
        Some(n) => Some(n.to_owned()),
        None => None,
    }
}

/// Modifiers that are held, in their order.
pub open spec fn held_modifiers(ctrl: bool, alt: bool, shift: bool, meta: bool) -> Seq<Modifier> {
    (if ctrl {
        seq![Modifier::Ctrl]
    } else {
        seq![]
    }) + (if alt {
        seq![Modifier::Alt]
    } else {
        seq![]
    }) + (if shift {
        seq![Modifier::Shift]
    } else {
        seq![]
    }) + (if meta {
        seq![Modifier::Super]
    } else {
        seq![]
    })
}

/// What a pressed key does.
pub fn key_action(
    enabled: bool,
    key: Option<String>,
    ctrl: bool,
    alt: bool,
    shift: bool,
    meta: bool,
) -> (r: Option<Action>)
    ensures
        match key {
            Some(k) if enabled => r matches Some(Action::Key { key: named, modifiers }) && named@
                == k@ && modifiers@ == held_modifiers(ctrl, alt, shift, meta),
            _ => r is None,
        },
{
    if !enabled {
        return None;
    }
    match key {
        Some(key) => {
            let mut modifiers: Vec<Modifier> = Vec::new();
            if ctrl {
                modifiers.push(Modifier::Ctrl);
            }
            if alt {
                modifiers.push(Modifier::Alt);
            }
            if shift {
                modifiers.push(Modifier::Shift);
            }
            if meta {
                modifiers.push(Modifier::Super);
            }
            assert(modifiers@ =~= held_modifiers(ctrl, alt, shift, meta));
            Some(Action::Key { key, modifiers })
        },
        None => None,
    }
}

/// What sending a text does: nothing if it is empty.
pub fn text_action(enabled: bool, text: &str) -> (r: Option<Action>)
    ensures
        if enabled && text@.len() > 0 {
            r matches Some(Action::Text { text: t }) && t@ == text@
        } else {
            r is None
        },
{
    if enabled && chars_of(text).len() > 0 {
        Some(Action::Text { text: text.to_owned() })
    } else {
        None
    }
}

/// Checks that a backend's last input has ended: its lock was had, unless whoever held it
/// failed.
pub fn check_released(had: bool) -> (r: Result<(), Fault>)
    ensures
        if had {
            r is Ok
        } else {
            r matches Err(e) && e.says(
                crate::model::ErrorCode::BackendUnavailable,
                "输入后端异常，无法确认按键已释放"@,
            )
        },
{
    if had {
        Ok(())
    } else {
        Err(Fault::unavailable("输入后端异常，无法确认按键已释放"))
    }
}

/// Opening a view of an application pauses no session and cancels nothing.
pub proof fn looking_pauses_nothing<B: Backend>(p: PolicyView<B>, id: Seq<char>, i: int)
    requires
        p.distinct(),
        0 <= i < p.sessions.len(),
    ensures
        after(p, Step::<B>::ViewOpened { id }).sessions[i].status == p.sessions[i].status,
        after(p, Step::<B>::ViewOpened { id }).sessions[i].generation == p.sessions[i].generation,
{
}

} // verus!
