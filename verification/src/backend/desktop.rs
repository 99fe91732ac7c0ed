//! The whole desktop: references to displays and windows, and when they lose their meaning.
use vstd::prelude::*;

use crate::backend::accessibility::{window_label, DesktopWindow};
use crate::backend::wayland::Output;
use crate::identifier::fresh_identifier;
use crate::json::{alike, Json, JsonView};
use crate::model::{
    fault, targets_view, ErrorCode, Fault, FaultView, Observation, ObservationView, Target,
    TargetView,
};
use crate::number::Binary64;
use crate::picture::shown_size;
use crate::table::Table;
use crate::text::{less, precedes, texts};

verus! {

/// What can be done with the desktop, given whether input can be sent.
pub open spec fn capabilities_of(input: bool) -> Seq<Seq<char>> {
    if input {
        seq!["screenshot"@, "focus_window"@, "click"@, "drag"@, "scroll"@, "key"@, "text"@]
    } else {
        seq!["screenshot"@, "focus_window"@]
    }
}

/// What can be done with the desktop, given what the compositor supports.
pub fn capabilities(capture: bool, input: bool) -> (r: Result<Vec<String>, Fault>)
    ensures
        if capture {
            r matches Ok(v) && texts(v@) == capabilities_of(input)
        } else {
            r matches Err(e) && e.says(ErrorCode::Unsupported, "当前 niri 没有开放截图协议"@)
        },
{
    if !capture {
        return Err(Fault::unsupported("当前 niri 没有开放截图协议"));
    }
    let mut v: Vec<String> = Vec::new();
    v.push("screenshot".to_owned());
    v.push("focus_window".to_owned());
    if input {
        v.push("click".to_owned());
        v.push("drag".to_owned());
        v.push("scroll".to_owned());
        v.push("key".to_owned());
        v.push("text".to_owned());
    }
    assert(texts(v@) =~= capabilities_of(input));
    Ok(v)
}

/// Where a window of the desktop is.
#[derive(Debug)]
pub struct WindowPlace {
    pub id: u64,
    pub pid: Option<i32>,
    pub layout: Json,
    pub focused: bool,
}

/// Where a window is, by its values.
#[verifier::ext_equal]
pub struct PlaceView {
    pub id: u64,
    pub pid: Option<i32>,
    pub layout: JsonView,
    pub focused: bool,
}

impl View for WindowPlace {
    type V = PlaceView;

    open spec fn view(&self) -> PlaceView {
        PlaceView { id: self.id, pid: self.pid, layout: self.layout@, focused: self.focused }
    }
}

/// Where windows are, by their values.
pub open spec fn places_view(v: Seq<WindowPlace>) -> Seq<PlaceView> {
    v.map_values(|w: WindowPlace| w@)
}

/// Where everything on the desktop is: its outputs as the compositor describes them, and its
/// windows.
#[derive(Debug)]
pub struct Geometry {
    pub outputs: Json,
    pub windows: Vec<WindowPlace>,
}

/// Where everything is, by its values.
#[verifier::ext_equal]
pub struct GeometryView {
    pub outputs: JsonView,
    pub windows: Seq<PlaceView>,
}

impl View for Geometry {
    type V = GeometryView;

    open spec fn view(&self) -> GeometryView {
        GeometryView { outputs: self.outputs@, windows: places_view(self.windows@) }
    }
}

/// Windows in the order of their numbers.
pub open spec fn numbered(v: Seq<PlaceView>) -> bool {
    forall|i: int, j: int| 0 <= i < j < v.len() ==> (#[trigger] v[i]).id <= (#[trigger] v[j]).id
}

/// The windows with a number, in their order.
pub open spec fn with_number(v: Seq<PlaceView>, id: u64) -> Seq<PlaceView> {
    v.filter(|w: PlaceView| w.id == id)
}

proof fn one_with_number(w: PlaceView, id: u64)
    ensures
        with_number(seq![w], id) == if w.id == id {
            seq![w]
        } else {
            Seq::empty()
        },
{
    reveal_with_fuel(Seq::filter, 2);
    assert(seq![w].drop_last() =~= Seq::empty());
    assert(Seq::<PlaceView>::empty().push(w) =~= seq![w]);
}

proof fn none_with_number(v: Seq<PlaceView>, id: u64)
    requires
        forall|j: int| 0 <= j < v.len() ==> (#[trigger] v[j]).id != id,
    ensures
        with_number(v, id) == Seq::<PlaceView>::empty(),
    decreases v.len(),
{
    reveal(Seq::filter);
    if v.len() > 0 {
        none_with_number(v.drop_last(), id);
    }
}

/// Putting a window before those with a larger number puts it after those with its own.
proof fn put_in_order(v: Seq<PlaceView>, k: int, w: PlaceView, id: u64)
    requires
        0 <= k <= v.len(),
        forall|j: int| k <= j < v.len() ==> w.id < (#[trigger] v[j]).id,
    ensures
        with_number(v.insert(k, w), id) == with_number(v, id) + with_number(seq![w], id),
{
    let p = |x: PlaceView| x.id == id;
    let (a, b) = (v.take(k), v.skip(k));
    assert(v =~= a + b);
    assert(v.insert(k, w) =~= a + seq![w] + b);
    Seq::filter_distributes_over_add(a, b, p);
    Seq::filter_distributes_over_add(a + seq![w], b, p);
    Seq::filter_distributes_over_add(a, seq![w], p);
    one_with_number(w, id);
    if w.id == id {
        none_with_number(b, id);
    }
    assert(with_number(v.insert(k, w), id) =~= with_number(v, id) + with_number(seq![w], id));
}

/// Whether windows are those of a list in the order of their numbers, and those of one number in
/// the order of the list.
pub open spec fn put_in_numbers(list: Seq<PlaceView>, v: Seq<PlaceView>) -> bool {
    &&& numbered(v)
    &&& forall|id: u64| #[trigger] with_number(v, id) == with_number(list, id)
}

/// Whether a window is where it was, and has the focus if it had it.
pub open spec fn in_place(a: PlaceView, b: PlaceView) -> bool {
    &&& a.id == b.id
    &&& a.pid == b.pid
    &&& alike(a.layout, b.layout)
    &&& a.focused == b.focused
}

/// Whether everything is where it was.
pub open spec fn unmoved(a: GeometryView, b: GeometryView) -> bool {
    &&& alike(a.outputs, b.outputs)
    &&& a.windows.len() == b.windows.len()
    &&& forall|i: int| 0 <= i < a.windows.len() ==> in_place(#[trigger] a.windows[i], b.windows[i])
}

/// The scale that the compositor reports for an output.
pub open spec fn reported_scale(outputs: JsonView, name: Seq<char>) -> Option<Binary64> {
    outputs.field("Outputs"@).field(name).field("logical"@).field("scale"@).float()
}

impl Geometry {
    /// Puts together where everything is. Windows are put in the order of their numbers, since
    /// the compositor lists them in none.
    pub fn new(outputs: Json, windows: Vec<WindowPlace>) -> (r: Self)
        ensures
            r@.outputs == outputs@,
            put_in_numbers(places_view(windows@), r@.windows),
    {
        let ghost whole = places_view(windows@);
        let mut rest = windows;
        let mut out: Vec<WindowPlace> = Vec::new();
        proof {
            assert(places_view(out@) =~= Seq::empty());
            assert forall|id: u64| #[trigger] with_number(whole, id) == with_number(
                places_view(out@),
                id,
            ) + with_number(places_view(rest@), id) by {
                none_with_number(places_view(out@), id);
            }
        }
        while rest.len() > 0
            invariant
                numbered(places_view(out@)),
                forall|id: u64| #[trigger]
                    with_number(whole, id) == with_number(places_view(out@), id) + with_number(
                        places_view(rest@),
                        id,
                    ),
            decreases rest@.len(),
        {
            let ghost were = places_view(rest@);
            let x = rest.remove(0);
            let ghost value = x@;
            let ghost sorted = places_view(out@);
            let mut k: usize = 0;
            while k < out.len() && out[k].id <= x.id
                invariant
                    k <= out@.len(),
                    sorted == places_view(out@),
                    numbered(sorted),
                    value == x@,
                    forall|j: int| 0 <= j < k ==> (#[trigger] sorted[j]).id <= value.id,
                decreases out@.len() - k,
            {
                assert(sorted[k as int] == out@[k as int]@);
                k = k + 1;
            }
            proof {
                assert forall|j: int| k <= j < sorted.len() implies value.id < (
                #[trigger] sorted[j]).id by {
                    assert(sorted[k as int] == out@[k as int]@);
                    if k < j {
                        assert(sorted[k as int].id <= sorted[j].id);
                    }
                }
            }
            out.insert(k, x);
            proof {
                let now = places_view(out@);
                let left = places_view(rest@);
                assert(now =~= sorted.insert(k as int, value));
                assert(were =~= seq![value] + left);
                assert forall|id: u64| #[trigger] with_number(whole, id) == with_number(now, id)
                    + with_number(left, id) by {
                    put_in_order(sorted, k as int, value, id);
                    Seq::filter_distributes_over_add(
                        seq![value],
                        left,
                        |w: PlaceView| w.id == id,
                    );
                    assert(with_number(sorted, id) + with_number(were, id) =~= with_number(now, id)
                        + with_number(left, id));
                }
            }
        }
        proof {
            assert(places_view(rest@) =~= Seq::empty());
            assert forall|id: u64| #[trigger] with_number(places_view(out@), id) == with_number(
                whole,
                id,
            ) by {
                none_with_number(places_view(rest@), id);
                assert(with_number(whole, id) =~= with_number(places_view(out@), id));
            }
        }
        Geometry { outputs, windows: out }
    }

    /// Whether nothing changed from one to another.
    pub fn means(&self, other: &Geometry) -> (r: bool)
        ensures
            r == unmoved(self@, other@),
    {
        assert(self@.windows.len() == self.windows@.len());
        assert(other@.windows.len() == other.windows@.len());
        if self.windows.len() != other.windows.len() || !self.outputs.means(&other.outputs) {
            return false;
        }
        let mut i: usize = 0;
        while i < self.windows.len()
            invariant
                i <= self.windows@.len(),
                self.windows@.len() == other.windows@.len(),
                alike(self@.outputs, other@.outputs),
                forall|j: int|
                    0 <= j < i ==> in_place(#[trigger] self@.windows[j], other@.windows[j]),
            decreases self.windows@.len() - i,
        {
            let a = &self.windows[i];
            let b = &other.windows[i];
            assert(self@.windows[i as int] == a@);
            assert(other@.windows[i as int] == b@);
            if !(a.id == b.id && a.pid == b.pid && a.focused == b.focused && a.layout.means(
                &b.layout,
            )) {
                assert(!in_place(self@.windows[i as int], other@.windows[i as int]));
                return false;
            }
            i = i + 1;
        }
        true
    }

    /// The scale of a display: what the compositor reports of it, or else its own.
    pub fn scale_of(&self, name: &str, own: i32) -> (r: Binary64)
        ensures
            scaled(self@, name@, own, r),
    {
        let found = match self.outputs.field("Outputs") {
            Some(all) => match all.field(name) {
                Some(one) => match one.field("logical") {
                    Some(logical) => logical.float("scale"),
                    None => None,
                },
                None => None,
            },
            None => None,
        };
        match found {
            Some(s) => s,
            None => Binary64::from_i32(own),
        }
    }

    /// The scale of an output: what the compositor reports, or else the output's own.
    pub fn scale(&self, o: &Output) -> (r: Binary64)
        ensures
            scaled(self@, o.name@, o.scale, r),
    {
        self.scale_of(o.name.as_str(), o.scale)
    }
}

/// Whether a scale is that of a display: what the compositor reports of it, or else its own.
pub open spec fn scaled(g: GeometryView, name: Seq<char>, own: i32, scale: Binary64) -> bool {
    match reported_scale(g.outputs, name) {
        Some(s) => scale == s,
        None => scale.finite() && scale.value() == own * crate::number::unit(),
    }
}

/// References to displays and windows.
pub struct Desktop {
    /// Number of each display when it was last seen, by its name.
    pub output_globals: Table<u32>,
    /// Reference to each display, by its name.
    pub output_ids: Table<String>,
    /// Window of each reference.
    pub windows: Table<u64>,
    /// Revision of the displays at the latest observation.
    pub output_revision: Option<u64>,
    /// Where everything was at the latest observation, until it is used.
    pub geometry: Option<Geometry>,
}

/// Displays by their names, with their references and numbers.
#[verifier::ext_equal]
pub struct DisplaysView {
    pub globals: Map<Seq<char>, u32>,
    pub ids: Map<Seq<char>, String>,
}

/// The names of some displays.
pub open spec fn names_of(outputs: Seq<Output>) -> Seq<Seq<char>> {
    outputs.map_values(|o: Output| o.name@)
}

/// References after displays were seen one by one: a display that is new under its name, or
/// came back with another number, gets a new reference.
pub open spec fn seen(d: DisplaysView, outputs: Seq<Output>, fresh: Seq<String>) -> DisplaysView
    decreases outputs.len(),
{
    if outputs.len() == 0 {
        d
    } else {
        let before = seen(d, outputs.drop_last(), fresh);
        let o = outputs.last();
        let known = before.globals.dom().contains(o.name@) && before.globals[o.name@] == o.global;
        DisplaysView {
            globals: before.globals.insert(o.name@, o.global),
            ids: if known {
                before.ids
            } else {
                before.ids.insert(o.name@, fresh[outputs.len() - 1])
            },
        }
    }
}

/// References after the displays were looked at: those of vanished displays are gone.
pub open spec fn refreshed(d: DisplaysView, outputs: Seq<Output>, fresh: Seq<String>) -> DisplaysView {
    seen(
        DisplaysView {
            globals: d.globals,
            ids: d.ids.restrict(Set::new(|k: Seq<char>| names_of(outputs).contains(k))),
        },
        outputs,
        fresh,
    )
}

/// The label of a window: its application, a dash and its title.
pub open spec fn label_of(w: DesktopWindow) -> Seq<char> {
    (match w.app_id {
        Some(a) => a@,
        None => Seq::empty(),
    }) + " — "@ + (match w.title {
        Some(t) => t@,
        None => Seq::empty(),
    })
}

/// Whether a display is the one that an observation is of: the one referred to, or the first by
/// name.
pub open spec fn picked(
    ids: Map<Seq<char>, String>,
    target: Option<&str>,
    r: Result<String, Fault>,
) -> bool {
    match target {
        Some(id) => match r {
            Ok(name) => ids.dom().contains(name@) && ids[name@]@ == id@,
            Err(e) => {
                &&& forall|k: Seq<char>| ids.dom().contains(k) ==> (#[trigger] ids[k])@ != id@
                &&& e.says(ErrorCode::PermissionDenied, "未授权的显示器引用"@)
            },
        },
        None => match r {
            Ok(name) => {
                &&& ids.dom().contains(name@)
                &&& forall|k: Seq<char>| #[trigger] ids.dom().contains(k) ==> !precedes(k, name@)
            },
            Err(e) => {
                &&& ids.dom() =~= Set::<Seq<char>>::empty()
                &&& e.says(ErrorCode::BackendUnavailable, "没有显示器"@)
            },
        },
    }
}

/// Whether a display is the one that a reference stands for.
pub open spec fn found_output(
    ids: Map<Seq<char>, String>,
    target: Seq<char>,
    r: Result<String, Fault>,
) -> bool {
    match r {
        Ok(name) => ids.dom().contains(name@) && ids[name@]@ == target,
        Err(e) => {
            &&& forall|k: Seq<char>| ids.dom().contains(k) ==> (#[trigger] ids[k])@ != target
            &&& e.says(ErrorCode::StaleTarget, "显示器引用失效"@)
        },
    }
}

/// Whether targets are windows in their order: labelled, without a size, and with the reference
/// that each had, or else the new one in reserve for it.
pub open spec fn referred(
    known: Map<Seq<char>, u64>,
    windows: Seq<DesktopWindow>,
    fresh: Seq<String>,
    targets: Seq<Target>,
) -> bool {
    forall|i: int|
        0 <= i < targets.len() ==> {
            &&& (#[trigger] targets[i]).label@ == label_of(windows[i])
            &&& targets[i].width == 0
            &&& targets[i].height == 0
            &&& targets[i].scale.value() == crate::number::unit()
            &&& if exists|k: Seq<char>|
                #[trigger] known.dom().contains(k) && known[k] == windows[i].id {
                known.dom().contains(targets[i].id@) && known[targets[i].id@] == windows[i].id
            } else {
                targets[i].id@ == fresh[i]@
            }
        }
}

impl Desktop {
    pub open spec fn wf(self) -> bool {
        self.output_globals.wf() && self.output_ids.wf() && self.windows.wf()
    }

    pub open spec fn displays(self) -> DisplaysView {
        DisplaysView { globals: self.output_globals@, ids: self.output_ids@ }
    }

    pub fn new() -> (r: Self)
        ensures
            r.wf(),
            r.output_globals@ == Map::<Seq<char>, u32>::empty(),
            r.output_ids@ == Map::<Seq<char>, String>::empty(),
            r.windows@ == Map::<Seq<char>, u64>::empty(),
            r.output_revision is None,
            r.geometry is None,
    {
        Desktop {
            output_globals: Table::new(),
            output_ids: Table::new(),
            windows: Table::new(),
            output_revision: None,
            geometry: None,
        }
    }

    /// Looks at the displays, with a new reference in reserve for each.
    pub fn refresh_with(&mut self, outputs: &Vec<Output>, fresh: &Vec<String>)
        requires
            old(self).wf(),
            fresh@.len() == outputs@.len(),
        ensures
            final(self).wf(),
            final(self).displays() == refreshed(old(self).displays(), outputs@, fresh@),
            final(self).windows == old(self).windows,
            final(self).output_revision == old(self).output_revision,
            final(self).geometry == old(self).geometry,
    {
        let mut names: Vec<String> = Vec::new();
        let mut n: usize = 0;
        while n < outputs.len()
            invariant
                n <= outputs@.len(),
                texts(names@) == names_of(outputs@).take(n as int),
            decreases outputs@.len() - n,
        {
            let ghost was = texts(names@);
            names.push(outputs[n].name.clone());
            assert(texts(names@) =~= was.push(names_of(outputs@)[n as int]));
            n = n + 1;
            assert(names_of(outputs@).take(n as int) =~= was.push(names_of(outputs@)[n - 1]));
        }
        assert(names_of(outputs@).take(n as int) =~= names_of(outputs@));
        self.output_ids.retain(&names);
        let ghost start = self.displays();
        let mut i: usize = 0;
        assert(outputs@.take(0) =~= Seq::empty());
        while i < outputs.len()
            invariant
                i <= outputs@.len(),
                fresh@.len() == outputs@.len(),
                self.wf(),
                self.displays() == seen(start, outputs@.take(i as int), fresh@),
                self.windows == old(self).windows,
                self.output_revision == old(self).output_revision,
                self.geometry == old(self).geometry,
            decreases outputs@.len() - i,
        {
            let o = &outputs[i];
            proof {
                assert(outputs@.take(i + 1).drop_last() =~= outputs@.take(i as int));
                assert(outputs@.take(i + 1).last() == *o);
            }
            let known = match self.output_globals.get(o.name.as_str()) {
                Some(g) => *g == o.global,
                None => false,
            };
            if !known {
                self.output_ids.insert(o.name.clone(), fresh[i].clone());
            }
            self.output_globals.insert(o.name.clone(), o.global);
            i = i + 1;
            assert(self.displays() =~= seen(start, outputs@.take(i as int), fresh@));
        }
        assert(outputs@.take(i as int) =~= outputs@);
    }

    /// Looks at the displays.
    pub fn refresh_outputs(&mut self, outputs: &Vec<Output>)
        requires
            old(self).wf(),
        ensures
            final(self).wf(),
            exists|fresh: Seq<String>|
                {
                    &&& fresh.len() == outputs@.len()
                    &&& forall|i: int|
                        0 <= i < fresh.len() ==> crate::identifier::identifier(
                            (#[trigger] fresh[i])@,
                        )
                    &&& final(self).displays() == #[trigger] refreshed(
                        old(self).displays(),
                        outputs@,
                        fresh,
                    )
                },
            final(self).windows == old(self).windows,
            final(self).output_revision == old(self).output_revision,
            final(self).geometry == old(self).geometry,
    {
        let fresh = fresh_identifiers(outputs.len());
        self.refresh_with(outputs, &fresh);
    }

    /// The display that an observation is of: the one referred to, or the first by name.
    pub fn pick_output(&self, target: Option<&str>) -> (r: Result<String, Fault>)
        requires
            self.wf(),
        ensures
            picked(self.output_ids@, target, r),
    {
        match target {
            Some(id) => match self.output_ids.key_of(id) {
                Some(name) => Ok(name),
                None => Err(Fault::denied("未授权的显示器引用")),
            },
            None => {
                let n: usize = self.output_ids.entries.len();
                if n == 0 {
                    return Err(Fault::unavailable("没有显示器"));
                }
                let mut best: usize = 0;
                let mut i: usize = 1;
                proof {
                    crate::text::no_text_precedes_itself(self.output_ids.entries@[0].0@);
                }
                while i < n
                    invariant
                        n == self.output_ids.entries@.len(),
                        best < i <= n,
                        forall|j: int|
                            0 <= j < i ==> !precedes(
                                (#[trigger] self.output_ids.entries@[j]).0@,
                                self.output_ids.entries@[best as int].0@,
                            ),
                    decreases n - i,
                {
                    let ghost b = self.output_ids.entries@[best as int].0@;
                    let ghost c = self.output_ids.entries@[i as int].0@;
                    if less(
                        self.output_ids.entries[i].0.as_str(),
                        self.output_ids.entries[best].0.as_str(),
                    ) {
                        proof {
                            crate::text::no_text_precedes_itself(c);
                            assert forall|j: int| 0 <= j < i + 1 implies !precedes(
                                (#[trigger] self.output_ids.entries@[j]).0@,
                                c,
                            ) by {
                                let x = self.output_ids.entries@[j].0@;
                                if j < i && precedes(x, c) {
                                    crate::text::precedence_is_transitive(x, c, b);
                                }
                            }
                        }
                        best = i;
                    }
                    i = i + 1;
                }
                let name = self.output_ids.entries[best].0.clone();
                proof {
                    assert(self.output_ids.at(best as int, name@));
                    assert forall|k: Seq<char>|
                        #[trigger] self.output_ids@.dom().contains(k) implies !precedes(k, name@) by {
                        let j = choose|j: int| self.output_ids.at(j, k);
                        assert(self.output_ids.entries@[j].0@ == k);
                    }
                }
                Ok(name)
            },
        }
    }

    /// The display that an action goes to.
    pub fn find_output(&self, target: &str) -> (r: Result<String, Fault>)
        requires
            self.wf(),
        ensures
            found_output(self.output_ids@, target@, r),
    {
        match self.output_ids.key_of(target) {
            Some(name) => Ok(name),
            None => Err(Fault::stale("显示器引用失效")),
        }
    }

    /// The reference to a display, made if there is none yet.
    pub fn reference_with(&mut self, name: &str, fresh: String) -> (r: String)
        requires
            old(self).wf(),
        ensures
            final(self).wf(),
            if old(self).output_ids@.dom().contains(name@) {
                r@ == old(self).output_ids@[name@]@ && *final(self) == *old(self)
            } else {
                &&& r@ == fresh@
                &&& final(self).output_ids@ == old(self).output_ids@.insert(name@, fresh)
                &&& final(self).output_globals == old(self).output_globals
                &&& final(self).windows == old(self).windows
                &&& final(self).output_revision == old(self).output_revision
                &&& final(self).geometry == old(self).geometry
            },
    {
        match self.output_ids.get(name) {
            Some(id) => id.clone(),
            None => {
                self.output_ids.insert(name.to_owned(), fresh.clone());
                fresh
            },
        }
    }

    /// A display as a target, with the scale that the compositor reports for it.
    pub fn output_target(&mut self, o: &Output, scale: Binary64) -> (r: Target)
        requires
            old(self).wf(),
        ensures
            final(self).wf(),
            final(self).output_ids@.dom().contains(o.name@),
            r@ == (TargetView {
                id: final(self).output_ids@[o.name@]@,
                label: o.name@,
                width: shown_size(o.width, o.height, o.transform).0,
                height: shown_size(o.width, o.height, o.transform).1,
                scale,
            }),
            old(self).output_ids@.dom().contains(o.name@) ==> *final(self) == *old(self),
            !old(self).output_ids@.dom().contains(o.name@) ==> {
                &&& exists|fresh: String|
                    crate::identifier::identifier(fresh@) && final(self).output_ids@
                        == #[trigger] old(self).output_ids@.insert(o.name@, fresh)
                &&& final(self).output_globals == old(self).output_globals
                &&& final(self).windows == old(self).windows
                &&& final(self).output_revision == old(self).output_revision
                &&& final(self).geometry == old(self).geometry
            },
    {
        let fresh = fresh_identifier();
        let id = self.reference_with(o.name.as_str(), fresh);
        let (width, height) = o.image_size();
        Target { id, label: o.name.clone(), width, height, scale }
    }

    /// Lists windows as targets, with a new reference in reserve for each. A window that was
    /// listed before keeps its reference; references to vanished windows are gone.
    pub fn list_with(&mut self, windows: &Vec<DesktopWindow>, fresh: &Vec<String>) -> (r: Vec<
        Target,
    >)
        requires
            old(self).wf(),
            fresh@.len() == windows@.len(),
        ensures
            final(self).wf(),
            final(self).output_ids == old(self).output_ids,
            final(self).output_globals == old(self).output_globals,
            final(self).output_revision == old(self).output_revision,
            final(self).geometry == old(self).geometry,
            r@.len() == windows@.len(),
            referred(old(self).windows@, windows@, fresh@, r@),
            final(self).windows@ == listed(targets_view(r@), windows@),
    {
        let mut next: Table<u64> = Table::new();
        let mut out: Vec<Target> = Vec::new();
        let mut i: usize = 0;
        assert(targets_view(out@) =~= Seq::empty());
        assert(windows@.take(0) =~= Seq::empty());
        while i < windows.len()
            invariant
                *self == *old(self),
                self.wf(),
                next.wf(),
                i <= windows@.len(),
                fresh@.len() == windows@.len(),
                out@.len() == i,
                next@ == listed(targets_view(out@), windows@.take(i as int)),
                forall|j: int|
                    0 <= j < i ==> {
                        &&& (#[trigger] out@[j]).label@ == label_of(windows@[j])
                        &&& out@[j].width == 0
                        &&& out@[j].height == 0
                        &&& out@[j].scale.value() == crate::number::unit()
                        &&& if exists|k: Seq<char>|
                            #[trigger] old(self).windows@.dom().contains(k) && old(self).windows@[k]
                                == windows@[j].id {
                            old(self).windows@.dom().contains(out@[j].id@) && old(
                                self,
                            ).windows@[out@[j].id@] == windows@[j].id
                        } else {
                            out@[j].id@ == fresh@[j]@
                        }
                    },
            decreases windows@.len() - i,
        {
            let w = &windows[i];
            let id = match self.windows.key_of_number(w.id) {
                Some(key) => key,
                None => fresh[i].clone(),
            };
            let application = match &w.app_id {
                Some(a) => a.as_str(),
                None => "",
            };
            let title = match &w.title {
                Some(t) => t.as_str(),
                None => "",
            };
            proof {
                reveal_strlit("");
                assert(""@ =~= Seq::empty());
            }
            let label = window_label(application, title);
            let ghost was = targets_view(out@);
            next.insert(id.clone(), w.id);
            out.push(Target { id, label, width: 0, height: 0, scale: Binary64::from_u32(1) });
            proof {
                assert(targets_view(out@) =~= was.push(out@[i as int]@));
                assert(targets_view(out@).drop_last() =~= was);
                assert(windows@.take(i + 1).drop_last() =~= windows@.take(i as int));
                assert(windows@.take(i + 1).last() == *w);
            }
            i = i + 1;
        }
        assert(windows@.take(i as int) =~= windows@);
        self.windows = next;
        out
    }

    /// Lists windows as targets.
    pub fn list_windows(&mut self, windows: &Vec<DesktopWindow>) -> (r: Vec<Target>)
        requires
            old(self).wf(),
        ensures
            final(self).wf(),
            final(self).output_ids == old(self).output_ids,
            final(self).output_globals == old(self).output_globals,
            final(self).output_revision == old(self).output_revision,
            final(self).geometry == old(self).geometry,
            r@.len() == windows@.len(),
            forall|i: int|
                0 <= i < r@.len() ==> {
                    &&& (#[trigger] r@[i]).label@ == label_of(windows@[i])
                    &&& r@[i].width == 0
                    &&& r@[i].height == 0
                    &&& r@[i].scale.value() == crate::number::unit()
                    &&& if exists|k: Seq<char>|
                        #[trigger] old(self).windows@.dom().contains(k) && old(self).windows@[k]
                            == windows@[i].id {
                        old(self).windows@.dom().contains(r@[i].id@) && old(
                            self,
                        ).windows@[r@[i].id@] == windows@[i].id
                    } else {
                        crate::identifier::identifier(r@[i].id@)
                    }
                },
            final(self).windows@ == listed(targets_view(r@), windows@),
    {
        let fresh = fresh_identifiers(windows.len());
        self.list_with(windows, &fresh)
    }

    /// The window that a reference stands for.
    pub fn window(&self, reference: &str) -> (r: Result<u64, Fault>)
        requires
            self.wf(),
        ensures
            match r {
                Ok(id) => self.windows@.dom().contains(reference@) && self.windows@[reference@]
                    == id,
                Err(e) => !self.windows@.dom().contains(reference@) && e.says(
                    ErrorCode::StaleTarget,
                    "窗口引用已失效"@,
                ),
            },
    {
        match self.windows.get(reference) {
            Some(id) => Ok(*id),
            None => Err(Fault::stale("窗口引用已失效")),
        }
    }

    /// Whether a reference still stands for the same window after the windows were listed
    /// again.
    pub fn still_there(&self, reference: &str, id: u64) -> (r: Result<(), Fault>)
        requires
            self.wf(),
        ensures
            if self.windows@.dom().contains(reference@) && self.windows@[reference@] == id {
                r is Ok
            } else {
                r matches Err(e) && e.says(ErrorCode::StaleTarget, "窗口已经退出"@)
            },
    {
        match self.windows.get(reference) {
            Some(now) => {
                if *now == id {
                    Ok(())
                } else {
                    Err(Fault::stale("窗口已经退出"))
                }
            },
            None => Err(Fault::stale("窗口已经退出")),
        }
    }

    /// Whether everything is as it was at an observation that was not used yet.
    pub open spec fn current(self, now: GeometryView, revision: u64) -> bool {
        &&& self.geometry matches Some(g)
        &&& unmoved(g@, now)
        &&& self.output_revision == Some(revision)
    }

    /// Checks that everything is as it was at the latest observation.
    pub fn check_layout(&self, now: &Geometry, revision: u64) -> (r: Result<(), Fault>)
        ensures
            if self.current(now@, revision) {
                r is Ok
            } else {
                r matches Err(e) && e@ == relaid()
            },
    {
        let same_geometry = match &self.geometry {
            Some(g) => g.means(now),
            None => false,
        };
        let same_revision = match self.output_revision {
            Some(was) => was == revision,
            None => false,
        };
        if same_geometry && same_revision {
            Ok(())
        } else {
            Err(Fault::stale("显示器布局变化，请重新观察"))
        }
    }

    /// An action was carried out. What it was based on serves no other.
    pub fn acted(&mut self)
        ensures
            *final(self) == (Desktop { geometry: None, ..*old(self) }),
    {
        self.geometry = None;
    }

    /// Completes an observation of a display, during which nothing changed.
    pub fn observed(
        &mut self,
        observation_id: String,
        reference: String,
        name: String,
        picture: (String, u32, u32),
        scale: Binary64,
        windows: Vec<Target>,
        geometry: Geometry,
        revision: u64,
    ) -> (r: Observation)
        requires
            old(self).wf(),
        ensures
            final(self).wf(),
            r@ == (ObservationView {
                observation_id: observation_id@,
                target: TargetView {
                    id: reference@,
                    label: name@,
                    width: picture.1,
                    height: picture.2,
                    scale,
                },
                png_base64: Some(picture.0@),
                nodes: Seq::empty(),
                windows: targets_view(windows@),
            }),
            *final(self) == (Desktop {
                geometry: Some(geometry),
                output_revision: Some(revision),
                ..*old(self)
            }),
    {
        self.geometry = Some(geometry);
        self.output_revision = Some(revision);
        let o = Observation {
            observation_id,
            target: Target { id: reference, label: name, width: picture.1, height: picture.2, scale },
            png_base64: Some(picture.0),
            nodes: Vec::new(),
            windows,
        };
        assert(o@.nodes =~= Seq::empty());
        o
    }
}

/// Checks that nothing changed while a picture was taken.
pub fn check_still(before: &Geometry, after: &Geometry, from: u64, to: u64) -> (r: Result<
    (),
    Fault,
>)
    ensures
        if unmoved(before@, after@) && from == to {
            r is Ok
        } else {
            r matches Err(e) && e@ == relaid()
        },
{
    if !before.means(after) || from != to {
        Err(Fault::stale("显示器布局变化，请重新观察"))
    } else {
        Ok(())
    }
}

/// Checks that the compositor is still there.
pub fn check_compositor(alive: bool) -> (r: Result<(), Fault>)
    ensures
        if alive {
            r is Ok
        } else {
            r matches Err(e) && e.says(ErrorCode::StaleTarget, "niri 会话已经退出"@)
        },
{
    if alive {
        Ok(())
    } else {
        Err(Fault::stale("niri 会话已经退出"))
    }
}

/// After an action, no layout makes another action current until something is observed again.
pub proof fn an_observed_desktop_serves_one_action(d: Desktop, now: GeometryView, revision: u64)
    ensures
        !(Desktop { geometry: None, ..d }).current(now, revision),
{
}

/// The fault of a layout that changed.
pub open spec fn relaid() -> FaultView {
    fault(ErrorCode::StaleTarget, "显示器布局变化，请重新观察"@)
}

/// The windows that references stand for, later ones first.
pub open spec fn listed(targets: Seq<TargetView>, windows: Seq<DesktopWindow>) -> Map<
    Seq<char>,
    u64,
>
    decreases targets.len(),
{
    if targets.len() == 0 || windows.len() == 0 {
        Map::empty()
    } else {
        listed(targets.drop_last(), windows.drop_last()).insert(
            targets.last().id,
            windows.last().id,
        )
    }
}

fn fresh_identifiers(n: usize) -> (r: Vec<String>)
    ensures
        r@.len() == n,
        forall|i: int| 0 <= i < n ==> crate::identifier::identifier((#[trigger] r@[i])@),
{
    let mut out: Vec<String> = Vec::new();
    let mut i: usize = 0;
    while i < n
        invariant
            i <= n,
            out@.len() == i,
            forall|j: int| 0 <= j < i ==> crate::identifier::identifier((#[trigger] out@[j])@),
        decreases n - i,
    {
        out.push(fresh_identifier());
        i = i + 1;
    }
    out
}

proof fn seen_names(d: DisplaysView, outputs: Seq<Output>, fresh: Seq<String>, name: Seq<char>)
    requires
        !names_of(outputs).contains(name),
    ensures
        seen(d, outputs, fresh).ids.dom().contains(name) == d.ids.dom().contains(name),
        d.ids.dom().contains(name) ==> seen(d, outputs, fresh).ids[name] == d.ids[name],
        seen(d, outputs, fresh).globals.dom().contains(name) == d.globals.dom().contains(name),
        d.globals.dom().contains(name) ==> seen(d, outputs, fresh).globals[name] == d.globals[name],
    decreases outputs.len(),
{
    if outputs.len() > 0 {
        let less = outputs.drop_last();
        assert(names_of(outputs)[outputs.len() - 1] == outputs.last().name@);
        assert(!names_of(less).contains(name)) by {
            if names_of(less).contains(name) {
                let k = choose|k: int| 0 <= k < names_of(less).len() && names_of(less)[k] == name;
                assert(names_of(outputs)[k] == name);
            }
        }
        seen_names(d, less, fresh, name);
    }
}

/// The reference to a display that vanished is gone.
pub proof fn vanished_displays_lose_their_reference(
    d: DisplaysView,
    outputs: Seq<Output>,
    fresh: Seq<String>,
    name: Seq<char>,
)
    requires
        !names_of(outputs).contains(name),
    ensures
        !refreshed(d, outputs, fresh).ids.dom().contains(name),
{
    let start = DisplaysView {
        globals: d.globals,
        ids: d.ids.restrict(Set::new(|k: Seq<char>| names_of(outputs).contains(k))),
    };
    seen_names(start, outputs, fresh, name);
}

/// A display that came back under its name with another number has the new reference, not
/// the old one; one that stayed keeps its reference.
pub proof fn reconnected_displays_get_a_new_reference(
    d: DisplaysView,
    outputs: Seq<Output>,
    fresh: Seq<String>,
    i: int,
)
    requires
        0 <= i < outputs.len(),
        names_of(outputs).no_duplicates(),
    ensures
        ({
            let o = outputs[i];
            let after = refreshed(d, outputs, fresh);
            let same = d.globals.dom().contains(o.name@) && d.globals[o.name@] == o.global;
            &&& !same ==> after.ids.dom().contains(o.name@) && after.ids[o.name@] == fresh[i]
            &&& same ==> after.ids.dom().contains(o.name@) == d.ids.dom().contains(o.name@)
            &&& same && d.ids.dom().contains(o.name@) ==> after.ids[o.name@] == d.ids[o.name@]
        }),
{
    let start = DisplaysView {
        globals: d.globals,
        ids: d.ids.restrict(Set::new(|k: Seq<char>| names_of(outputs).contains(k))),
    };
    assert(names_of(outputs)[i] == outputs[i].name@);
    seen_at(start, outputs, fresh, i);
}

proof fn seen_values(d: DisplaysView, outputs: Seq<Output>, fresh: Seq<String>, name: Seq<char>)
    requires
        seen(d, outputs, fresh).ids.dom().contains(name),
    ensures
        (d.ids.dom().contains(name) && seen(d, outputs, fresh).ids[name] == d.ids[name])
            || exists|j: int|
            0 <= j < outputs.len() && seen(d, outputs, fresh).ids[name] == #[trigger] fresh[j],
    decreases outputs.len(),
{
    if outputs.len() > 0 {
        let last = outputs.last();
        let less = outputs.drop_last();
        let before = seen(d, less, fresh);
        let known = before.globals.dom().contains(last.name@) && before.globals[last.name@]
            == last.global;
        if known || last.name@ != name {
            seen_values(d, less, fresh, name);
        } else {
            assert(seen(d, outputs, fresh).ids[name] == fresh[outputs.len() - 1]);
        }
    }
}

/// When a display is removed or comes back with another number, its old reference stands for no
/// display any more. New references are drawn by chance; the law speaks of those that differ
/// from the old one.
pub proof fn old_references_lose_their_meaning(
    d: DisplaysView,
    outputs: Seq<Output>,
    fresh: Seq<String>,
    name: Seq<char>,
)
    requires
        d.ids.dom().contains(name),
        names_of(outputs).no_duplicates(),
        forall|k: Seq<char>|
            d.ids.dom().contains(k) && k != name ==> (#[trigger] d.ids[k])@ != d.ids[name]@,
        forall|j: int| 0 <= j < outputs.len() ==> (#[trigger] fresh[j])@ != d.ids[name]@,
        forall|i: int|
            0 <= i < outputs.len() && (#[trigger] outputs[i]).name@ == name ==> !(
            d.globals.dom().contains(name) && d.globals[name] == outputs[i].global),
    ensures
        forall|k: Seq<char>|
            refreshed(d, outputs, fresh).ids.dom().contains(k) ==> (
            #[trigger] refreshed(d, outputs, fresh).ids[k])@ != d.ids[name]@,
{
    let start = DisplaysView {
        globals: d.globals,
        ids: d.ids.restrict(Set::new(|k: Seq<char>| names_of(outputs).contains(k))),
    };
    let after = refreshed(d, outputs, fresh);
    assert forall|k: Seq<char>| after.ids.dom().contains(k) implies (#[trigger] after.ids[k])@
        != d.ids[name]@ by {
        seen_values(start, outputs, fresh, k);
        if k == name {
            if names_of(outputs).contains(name) {
                let i = choose|i: int|
                    0 <= i < names_of(outputs).len() && names_of(outputs)[i] == name;
                assert(outputs[i].name@ == name);
                reconnected_displays_get_a_new_reference(d, outputs, fresh, i);
                assert(after.ids[name] == fresh[i]);
            } else {
                vanished_displays_lose_their_reference(d, outputs, fresh, name);
            }
        } else if start.ids.dom().contains(k) && after.ids[k] == start.ids[k] {
            assert(d.ids[k]@ != d.ids[name]@);
        }
    }
}

proof fn seen_at(d: DisplaysView, outputs: Seq<Output>, fresh: Seq<String>, i: int)
    requires
        0 <= i < outputs.len(),
        names_of(outputs).no_duplicates(),
    ensures
        ({
            let o = outputs[i];
            let after = seen(d, outputs, fresh);
            let same = d.globals.dom().contains(o.name@) && d.globals[o.name@] == o.global;
            &&& !same ==> after.ids.dom().contains(o.name@) && after.ids[o.name@] == fresh[i]
            &&& same ==> after.ids.dom().contains(o.name@) == d.ids.dom().contains(o.name@)
            &&& same && d.ids.dom().contains(o.name@) ==> after.ids[o.name@] == d.ids[o.name@]
        }),
    decreases outputs.len(),
{
    let less = outputs.drop_last();
    let all = names_of(outputs);
    assert forall|a: int, b: int|
        0 <= a < names_of(less).len() && 0 <= b < names_of(less).len() && a != b implies names_of(
        less,
    )[a] != names_of(less)[b] by {
        assert(all[a] == names_of(less)[a]);
        assert(all[b] == names_of(less)[b]);
    }
    if i < outputs.len() - 1 {
        seen_at(d, less, fresh, i);
        assert(all[i] != all[outputs.len() - 1]);
    } else {
        let name = outputs.last().name@;
        assert(!names_of(less).contains(name)) by {
            if names_of(less).contains(name) {
                let k = choose|k: int| 0 <= k < names_of(less).len() && names_of(less)[k] == name;
                assert(all[k] == all[outputs.len() - 1]);
            }
        }
        seen_names(d, less, fresh, name);
    }
}

} // verus!
