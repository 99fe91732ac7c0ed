//! What is read of the answers of other programs, and what is handed on to the model.
use vstd::prelude::*;

use crate::backend::accessibility::DesktopWindow;
use crate::backend::desktop::{with_number, Geometry, PlaceView};
use crate::backend::niri::{desktop_windows, listed_view, topology, NiriWindow};
use crate::backend::sway::{
    listed_windows, managed_windows, note_outputs, tree_view, windows, windows_in, TreeWindow,
};
use crate::json::{find_key, items, key_place, list_view, same_values, Json, JsonView};
use crate::mcp::{input_over, shape, Body, ToolReply};
use crate::model::{ErrorCode, Fault, Response};
use crate::number::Binary64;
use crate::picture::{base64_of, base64_reads_back, published, unpublish};
use crate::text::texts;

verus! {

proof fn lemma_place(keys: Seq<Seq<char>>, key: Seq<char>)
    ensures
        key_place(keys, key) <= keys.len(),
        key_place(keys, key) < keys.len() ==> keys[key_place(keys, key) as int] == key,
        forall|i: int| 0 <= i < key_place(keys, key) ==> #[trigger] keys[i] != key,
    decreases keys.len(),
{
    if keys.len() > 0 && keys[0] != key {
        let rest = keys.drop_first();
        lemma_place(rest, key);
        assert forall|i: int| 0 <= i < key_place(keys, key) implies #[trigger] keys[i]
            != key by {
            if i > 0 {
                assert(keys[i] == rest[i - 1]);
            }
        }
    }
}

/// A key is found in its first place, or at the end if it is nowhere.
pub proof fn keys_are_found_in_their_first_place(keys: &Vec<String>, key: &str, r: usize)
    requires
        call_ensures(find_key, (keys, key), r),
    ensures
        r <= keys@.len(),
        r < keys@.len() ==> keys@[r as int]@ == key@,
        forall|i: int| 0 <= i < r ==> (#[trigger] keys@[i])@ != key@,
{
    let t = texts(keys@);
    lemma_place(t, key@);
    assert(t.len() == keys@.len());
    assert forall|i: int| 0 <= i < keys@.len() implies (#[trigger] keys@[i])@ == t[i] by {}
}

/// An object has, for a key, the value in the key's first place; what has no such key, or is no
/// object, has none. What is read of the value is what it is.
pub proof fn objects_have_a_value_for_each_key(
    keys: Vec<String>,
    values: Vec<Json>,
    key: &str,
    i: int,
    j: Json,
    r: Option<&Json>,
    copy: Json,
    whole: Option<u64>,
    double: Option<Binary64>,
    text: Option<String>,
    some: bool,
    truth: bool,
)
    requires
        j == (Json::Object { keys, values }),
        keys@.len() == values@.len(),
        0 <= i < keys@.len(),
        keys@[i]@ == key@,
        forall|k: int| 0 <= k < i ==> (#[trigger] keys@[k])@ != key@,
        call_ensures(Json::field, (&j, key), r),
        call_ensures(Json::copy_field, (&j, key), copy),
        call_ensures(Json::number, (&j, key), whole),
        call_ensures(Json::float, (&j, key), double),
        call_ensures(Json::text, (&j, key), text),
        call_ensures(Json::has, (&j, key), some),
        call_ensures(Json::is_true, (&j, key), truth),
    ensures
        copy@ == values@[i]@,
        r matches Some(v) ==> v@ == values@[i]@,
        r is None ==> values@[i] is Null,
        values@[i] matches Json::Number { whole: n, double: d, .. } ==> whole == n && double == d,
        !(values@[i] is Number) ==> whole is None && double is None,
        values@[i] matches Json::Text(s) ==> (text matches Some(t) && t@ == s@),
        !(values@[i] is Text) ==> text is None,
        some <==> !(values@[i] is Null),
        truth <==> values@[i] matches Json::Bool(true),
{
    let t = texts(keys@);
    assert(t.len() == keys@.len());
    lemma_place(t, key@);
    let k = key_place(t, key@) as int;
    assert(t[i] == keys@[i]@);
    if k > i {
        assert(t[i] != key@);
    } else if k < i {
        assert(t[k] == keys@[k]@);
    }
    assert(list_view(values@)[i] == values@[i]@);
    assert(j@.field(key@) == values@[i]@);
}

/// Lists and other values have no keys.
pub proof fn only_objects_have_keys(j: Json, key: &str, copy: Json, some: bool)
    requires
        !(j is Object),
        call_ensures(Json::copy_field, (&j, key), copy),
        call_ensures(Json::has, (&j, key), some),
    ensures
        copy is Null,
        !some,
{
    assert(copy@ == JsonView::Null);
}

/// Two values are the same exactly if they are of the same kind and hold the same; numbers as
/// they are written.
pub proof fn values_are_the_same_by_kind(a: Json, b: Json, r: bool, means: bool)
    requires
        call_ensures(Json::equals, (&a, &b), r),
        call_ensures(Json::means, (&a, &b), means),
    ensures
        match (a, b) {
            (Json::Null, Json::Null) => r && means,
            (Json::Bool(x), Json::Bool(y)) => r == (x == y) && means == (x == y),
            (Json::Text(x), Json::Text(y)) => r == (x@ == y@) && means == (x@ == y@),
            (
                Json::Number { text: x, whole: m, double: d },
                Json::Number { text: y, whole: n, double: e },
            ) => {
                &&& r == (x@ == y@ && m == n && d == e)
                &&& means == (x@ == y@ || ((x@ == "0.0"@ || x@ == "-0.0"@) && (y@ == "0.0"@ || y@
                    == "-0.0"@)))
            },
            (Json::List(v), Json::List(w)) => v@.len() != w@.len() ==> !r && !means,
            (Json::Object { keys, .. }, Json::Object { keys: others, .. }) => texts(keys@)
                != texts(others@) ==> !r && !means,
            (_, _) => !r && !means,
        },
{
    if a is List && b is List {
        assert(a@->List_0.len() == a->List_0@.len());
        assert(b@->List_0.len() == b->List_0@.len());
    }
}

/// Lists are the same, or mean the same, exactly if they are as long and their values are so one
/// by one.
pub proof fn lists_are_the_same_value_by_value(
    v: Vec<Json>,
    w: Vec<Json>,
    r: bool,
    means: bool,
    each: bool,
)
    requires
        call_ensures(Json::equals, (&Json::List(v), &Json::List(w)), r),
        call_ensures(Json::means, (&Json::List(v), &Json::List(w)), means),
        call_ensures(same_values, (&v, &w), each),
        v@.len() == w@.len(),
    ensures
        r <==> each,
        r <==> forall|i: int| 0 <= i < v@.len() ==> (#[trigger] v@[i])@ == w@[i]@,
        means <==> forall|i: int|
            0 <= i < v@.len() ==> crate::json::alike((#[trigger] v@[i])@, w@[i]@),
{
    let a = list_view(v@);
    let b = list_view(w@);
    assert(a.len() == v@.len() && b.len() == w@.len());
    assert forall|i: int| 0 <= i < v@.len() implies a[i] == (#[trigger] v@[i])@ && b[i]
        == w@[i]@ by {}
    if r {
        assert forall|i: int| 0 <= i < v@.len() implies (#[trigger] v@[i])@ == w@[i]@ by {
            assert(a[i] == b[i]);
        }
    }
    if forall|i: int| 0 <= i < v@.len() ==> (#[trigger] v@[i])@ == w@[i]@ {
        assert forall|i: int| 0 <= i < a.len() implies a[i] == b[i] by {
            assert(v@[i]@ == w@[i]@);
        }
        assert(a =~= b);
    }
    if means {
        assert forall|i: int| 0 <= i < v@.len() implies crate::json::alike(
            (#[trigger] v@[i])@,
            w@[i]@,
        ) by {
            assert(crate::json::alike(a[i], b[i]));
        }
    }
    if forall|i: int| 0 <= i < v@.len() ==> crate::json::alike((#[trigger] v@[i])@, w@[i]@) {
        assert forall|i: int| 0 <= i < a.len() implies crate::json::alike(
            #[trigger] a[i],
            b[i],
        ) by {
            assert(crate::json::alike(v@[i]@, w@[i]@));
        }
    }
}

/// An error or a broken connection is handed to the model as a failure with its fault; of an
/// observation the picture goes as a picture and the rest as text; anything else as it is.
pub proof fn answers_are_handed_on_whole(
    f: Fault,
    failed: ToolReply,
    o: crate::model::Observation,
    seen: ToolReply,
    message: String,
    broken: ToolReply,
    done: ToolReply,
)
    requires
        call_ensures(shape, (Ok::<Response, String>(Response::Error(f)),), failed),
        call_ensures(shape, (Ok::<Response, String>(Response::Observation(o)),), seen),
        call_ensures(shape, (Err::<Response, String>(message),), broken),
        call_ensures(shape, (Ok::<Response, String>(Response::Done),), done),
    ensures
        failed.failed && failed.picture is None && (failed.body matches Body::Fault(e) && e.code
            == f.code && e.message@ == f.message@),
        broken.failed && broken.picture is None && (broken.body matches Body::Fault(e) && e.code
            == ErrorCode::BackendUnavailable && e.message@ == message@),
        !done.failed && done.picture is None && (done.body matches Body::Response(Response::Done)),
        !seen.failed,
        seen.picture is Some == o.png_base64 is Some,
        seen.picture matches Some(p) ==> p@ == o.png_base64->0@,
        seen.body matches Body::Observation(p) && p.png_base64 is None && p.observation_id@
            == o.observation_id@ && p.target@ == o.target@ && p.windows@.len()
            == o.windows@.len() && p.nodes@.len() == o.nodes@.len(),
{
    let p = seen.body->Observation_0;
    assert(p@.windows.len() == p.windows@.len() && o@.windows.len() == o.windows@.len());
    assert(p@.nodes.len() == p.nodes@.len() && o@.nodes.len() == o.nodes@.len());
}

/// The model's input is over when reading it failed or gave nothing.
pub proof fn silent_models_are_gone(
    ready: bool,
    failed: bool,
    before: usize,
    after: usize,
    r: bool,
)
    requires
        call_ensures(input_over, (ready, failed, before, after), r),
    ensures
        r <==> ready && (failed || after == before),
{
}

/// A picture is published with its own width and height, and the file is read back from what was
/// published.
pub proof fn published_pictures_are_read_back(
    data: Vec<u8>,
    width: u32,
    height: u32,
    r: Result<(String, u32, u32), Fault>,
    text: &str,
    back: Option<Vec<u8>>,
    message: String,
    failed: Result<(String, u32, u32), Fault>,
)
    requires
        call_ensures(published, (Ok::<Vec<u8>, String>(data), width, height), r),
        r is Ok,
        ({
            let v = r->Ok_0;
            text@ == v.0@
        }),
        call_ensures(unpublish, (text,), back),
        call_ensures(published, (Err::<Vec<u8>, String>(message), width, height), failed),
    ensures
        ({
            let v = r->Ok_0;
            v.1 == width && v.2 == height
        }),
        back matches Some(file) && file@ == data@,
        failed matches Err(e) && e.code == ErrorCode::BackendUnavailable && e.message@ == message@,
{
    assert(base64_of(data@) == text@);
    if back is Some {
        base64_reads_back(back->0@, data@);
    }
}

/// The compositor's windows are taken one for one, with number, process, title and application.
pub proof fn windows_are_taken_as_listed(
    windows: Vec<NiriWindow>,
    r: Vec<DesktopWindow>,
    i: int,
)
    requires
        call_ensures(desktop_windows, (windows,), r),
        0 <= i < windows@.len(),
    ensures
        r@.len() == windows@.len(),
        r@[i].id == windows@[i].id,
        r@[i].pid == windows@[i].pid,
        r@[i].title == windows@[i].title,
        r@[i].app_id == windows@[i].app_id,
{
}

/// The layout of the desktop has every window with its process and focus, in the order of their
/// numbers.
pub proof fn layouts_have_every_window(
    outputs: Json,
    windows: Vec<NiriWindow>,
    r: Geometry,
    i: int,
)
    requires
        call_ensures(topology, (outputs, windows), r),
        0 <= i < windows@.len(),
    ensures
        r.outputs@ == outputs@,
        forall|a: int, b: int|
            0 <= a < b < r.windows@.len() ==> (#[trigger] r.windows@[a]).id <= (
            #[trigger] r.windows@[b]).id,
        exists|k: int| {
            &&& 0 <= k < r.windows@.len()
            &&& (#[trigger] r.windows@[k]).id == windows@[i].id
            &&& r.windows@[k].pid == windows@[i].pid
            &&& r.windows@[k].focused == windows@[i].focused
        },
{
    let f = |w: crate::backend::niri::NiriWindowView| crate::backend::niri::place_of(w);
    let given = listed_view(windows@).map_values(f);
    let noted = r@.windows;
    assert(noted.len() == r.windows@.len());
    assert forall|a: int, b: int| 0 <= a < b < r.windows@.len() implies (
    #[trigger] r.windows@[a]).id <= (#[trigger] r.windows@[b]).id by {
        assert(noted[a].id == r.windows@[a].id && noted[b].id == r.windows@[b].id);
    }
    let here = windows@[i].id;
    assert(given.len() == windows@.len());
    assert(given[i].id == windows@[i].id && given[i].pid == windows@[i].pid && given[i].focused
        == windows@[i].focused);
    given.lemma_filter_contains(|w: PlaceView| w.id == here, i);
    assert(with_number(noted, here) == with_number(given, here));
    noted.lemma_filter_contains_rev(|w: PlaceView| w.id == here, given[i]);
    let k = choose|k: int| 0 <= k < noted.len() && noted[k] == given[i];
    assert(noted[k] == r.windows@[k]@);
    assert(r.windows@[k].id == windows@[i].id);
}

/// A node of the tree is a window if it has an X11 window, or a process and the name of an
/// application; what is noted of it is its own window and process.
pub proof fn leaves_are_windows_of_their_process(
    node: Json,
    before: Vec<TreeWindow>,
    after: Vec<TreeWindow>,
    window: Option<u64>,
    pid: Option<u64>,
    named: bool,
)
    requires
        exists|out: &mut Vec<TreeWindow>|
            *out == before && *final(out) == after && #[trigger] call_ensures(
                windows,
                (&node, out),
                (),
            ),
        items(node@.field("nodes"@)).len() == 0,
        items(node@.field("floating_nodes"@)).len() == 0,
        call_ensures(Json::number, (&node, "window"), window),
        call_ensures(Json::number, (&node, "pid"), pid),
        call_ensures(Json::has, (&node, "app_id"), named),
    ensures
        window is Some || (pid is Some && named) ==> {
            &&& after@.len() == before@.len() + 1
            &&& after@.last().window == window
            &&& after@.last().pid == pid
        },
        window is None && (pid is None || !named) ==> after@.len() == before@.len(),
{
    let b = tree_view(before@);
    let a = tree_view(after@);
    assert(a.len() == after@.len() && b.len() == before@.len());
    if after@.len() > 0 {
        assert(a.last() == after@.last()@);
    }
}

/// The windows below a node follow its own: tiled ones first, then floating ones, each list in
/// its order.
pub proof fn tiled_windows_come_before_floating_ones(
    node: Json,
    tiled: Json,
    floating: Json,
    all: Vec<TreeWindow>,
    first: Vec<TreeWindow>,
    second: Vec<TreeWindow>,
    empty: Vec<TreeWindow>,
)
    requires
        empty@.len() == 0,
        exists|out: &mut Vec<TreeWindow>|
            *out == empty && *final(out) == all && #[trigger] call_ensures(
                windows,
                (&node, out),
                (),
            ),
        exists|out: &mut Vec<TreeWindow>|
            *out == empty && *final(out) == first && #[trigger] call_ensures(
                windows,
                (&tiled, out),
                (),
            ),
        exists|out: &mut Vec<TreeWindow>|
            *out == empty && *final(out) == second && #[trigger] call_ensures(
                windows,
                (&floating, out),
                (),
            ),
        node@.field("nodes"@) == JsonView::List(seq![tiled@]),
        node@.field("floating_nodes"@) == JsonView::List(seq![floating@]),
        node@.field("window"@).number() is None,
        node@.field("pid"@).number() is None,
    ensures
        tree_view(all@) == tree_view(first@) + tree_view(second@),
{
    let nothing = tree_view(empty@);
    assert(nothing =~= Seq::empty());
    lemma_one(tiled@);
    lemma_one(floating@);
    assert(tree_view(first@) =~= crate::backend::sway::windows_of(tiled@));
    assert(tree_view(second@) =~= crate::backend::sway::windows_of(floating@));
    assert(tree_view(all@) =~= tree_view(first@) + tree_view(second@));
}

proof fn lemma_one(n: JsonView)
    ensures
        windows_in(seq![n]) == crate::backend::sway::windows_of(n),
{
    let one = seq![n];
    assert(one.drop_last() =~= Seq::empty());
    assert(windows_in(one.drop_last()) =~= Seq::empty());
    assert(windows_in(one) =~= crate::backend::sway::windows_of(n));
}

/// The X11 windows of the tree are looked up by their numbers; there must be some window, and an
/// X11 window needs a server.
pub proof fn x11_windows_need_a_server(
    list: &Vec<TreeWindow>,
    x11: bool,
    r: Result<Vec<u32>, Fault>,
    ids: Vec<u32>,
)
    requires
        call_ensures(listed_windows, (list, x11), r),
        call_ensures(managed_windows, (list,), ids),
    ensures
        list@.len() == 0 ==> (r matches Err(e) && e.code == ErrorCode::StaleTarget
            && e.message@ == "应用没有窗口"@),
        list@.len() > 0 && !x11 && ids@.len() > 0 ==> (r matches Err(e) && e.code
            == ErrorCode::PermissionDenied
            && e.message@ == "此旧会话没有获准的 X11 端点"@),
        list@.len() > 0 && (x11 || ids@.len() == 0) ==> (r matches Ok(v) && v@ == ids@),
{
}

/// Of each output its name, place, scale, turn, mode and state are noted, in this order.
pub proof fn outputs_are_noted_whole(outputs: &Json, r: Option<Vec<Vec<Json>>>, i: int)
    requires
        call_ensures(note_outputs, (outputs,), r),
        0 <= i < items(outputs@).len(),
    ensures
        r matches Some(m) && m@.len() == items(outputs@).len() && {
            let o = items(outputs@)[i];
            &&& m@[i]@.len() == 6
            &&& m@[i]@[0]@ == o.field("name"@)
            &&& m@[i]@[1]@ == o.field("rect"@)
            &&& m@[i]@[2]@ == o.field("scale"@)
            &&& m@[i]@[3]@ == o.field("transform"@)
            &&& m@[i]@[4]@ == o.field("current_mode"@)
            &&& m@[i]@[5]@ == o.field("active"@)
        },
{
    let m = r->0@;
    let v = crate::backend::sway::marks_view(m);
    assert(v.len() == m.len());
    assert(v[i] == list_view(m[i]@));
    let o = items(outputs@)[i];
    assert(v[i] == crate::backend::sway::output_mark(o));
    assert(v[i].len() == m[i]@.len());
    assert(v[i][0] == m[i]@[0]@ && v[i][1] == m[i]@[1]@ && v[i][2] == m[i]@[2]@ && v[i][3]
        == m[i]@[3]@ && v[i][4] == m[i]@[4]@ && v[i][5] == m[i]@[5]@);
}

} // verus!
