//! Values in JSON, as other programs answer with them.
use serde_json::Value::{Array, Bool, Null, Number, Object, String as Words};
use vstd::prelude::*;

use crate::number::Binary64;
use crate::text::{same, same_texts, texts};

verus! {

/// A value. A number is kept as it is written, as an unsigned number and as a double. An
/// object has a value for each key.
#[derive(Debug)]
pub enum Json {
    Null,
    Bool(bool),
    Number { text: String, whole: Option<u64>, double: Option<Binary64> },
    Text(String),
    List(Vec<Json>),
    Object { keys: Vec<String>, values: Vec<Json> },
}

/// A value in JSON, by what it holds.
#[verifier::ext_equal]
pub enum JsonView {
    Null,
    Bool(bool),
    Number { text: Seq<char>, whole: Option<u64>, double: Option<Binary64> },
    Text(Seq<char>),
    List(Seq<JsonView>),
    Object { keys: Seq<Seq<char>>, values: Seq<JsonView> },
}

/// What a value holds.
pub open spec fn json_view(j: Json) -> JsonView
    decreases j,
{
    match j {
        Json::Null => JsonView::Null,
        Json::Bool(b) => JsonView::Bool(b),
        Json::Number { text, whole, double } => JsonView::Number { text: text@, whole, double },
        Json::Text(s) => JsonView::Text(s@),
        Json::List(v) => JsonView::List(list_view(v@)),
        Json::Object { keys, values } => JsonView::Object {
            keys: texts(keys@),
            values: list_view(values@),
        },
    }
}

/// What each value of a list holds.
pub open spec fn list_view(v: Seq<Json>) -> Seq<JsonView>
    decreases v,
{
    Seq::new(
        v.len(),
        |i: int|
            if 0 <= i < v.len() {
                json_view(v[i])
            } else {
                JsonView::Null
            },
    )
}

impl View for Json {
    type V = JsonView;

    open spec fn view(&self) -> JsonView {
        json_view(*self)
    }
}

/// `serde_json::Value`: a tree of values as the crate keeps it.
#[verifier::external_type_specification]
#[verifier::external_body]
pub struct ExValue(serde_json::Value);

/// What a tree of the crate holds.
pub uninterp spec fn held(tree: serde_json::Value) -> JsonView;

/// The variants and fields of a `serde_json::Value`, one for one: a number by
/// `serde_json::Number`'s `to_string`, `as_u64` and `as_f64`, an object by its keys and values
/// in the crate's order.
#[verifier::external_body]
pub(crate) fn hold(tree: serde_json::Value) -> (r: Json)
    ensures
        r@ == held(tree),
{
    match tree {
        Null => Json::Null,
        Bool(b) => Json::Bool(b),
        Number(n) => Json::Number {
            text: n.to_string(),
            whole: n.as_u64(),
            double: n.as_f64().map(|x| Binary64 { bits: x.to_bits() }),
        },
        Words(s) => Json::Text(s),
        Array(v) => Json::List(v.into_iter().map(hold).collect()),
        Object(m) => Json::Object {
            keys: m.keys().cloned().collect(), values: m.into_values().map(hold).collect(),
        },
    }
}

/// The value that some bytes stand for, or the message on why they stand for none.
pub uninterp spec fn json_of(bytes: Seq<u8>) -> Result<JsonView, Seq<char>>;

/// `serde_json::from_slice` into a `serde_json::Value`. What comes of the bytes depends on
/// nothing else and is left to the name `json_of`.
#[verifier::external_body]
fn read_value(bytes: &[u8]) -> (r: Result<serde_json::Value, String>)
    ensures
        match json_of(bytes@) {
            Ok(v) => r matches Ok(tree) && held(tree) == v,
            Err(m) => r matches Err(e) && e@ == m,
        },
{
    serde_json::from_slice(bytes).map_err(|e| e.to_string())
}

/// Reads a value.
pub fn read_json(bytes: &Vec<u8>) -> (r: Result<Json, String>)
    ensures
        match json_of(bytes@) {
            Ok(v) => r matches Ok(j) && j@ == v,
            Err(m) => r matches Err(e) && e@ == m,
        },
{
    match read_value(bytes.as_slice()) {
        Ok(tree) => Ok(hold(tree)),
        Err(e) => Err(e),
    }
}

/// Place of a key, or the end.
pub open spec fn key_place(keys: Seq<Seq<char>>, key: Seq<char>) -> nat
    decreases keys.len(),
{
    if keys.len() == 0 {
        0
    } else if keys[0] == key {
        0
    } else {
        1 + key_place(keys.drop_first(), key)
    }
}

/// Finds a key.
pub fn find_key(keys: &Vec<String>, key: &str) -> (r: usize)
    ensures
        r == key_place(texts(keys@), key@),
        r <= keys@.len(),
{
    let ghost all = texts(keys@);
    let mut i: usize = 0;
    assert(all.skip(0) =~= all);
    while i < keys.len()
        invariant
            i <= keys@.len(),
            all == texts(keys@),
            key_place(all, key@) == i + key_place(all.skip(i as int), key@),
        decreases keys@.len() - i,
    {
        assert(all.skip(i as int)[0] == keys@[i as int]@);
        if same(keys[i].as_str(), key) {
            return i;
        }
        assert(all.skip(i as int).drop_first() =~= all.skip(i + 1));
        i = i + 1;
    }
    assert(all.skip(i as int) =~= Seq::empty());
    i
}

impl JsonView {
    /// The value of a key; null where there is none.
    pub open spec fn field(self, key: Seq<char>) -> JsonView {
        match self {
            JsonView::Object { keys, values } => {
                let k = key_place(keys, key) as int;
                if k < keys.len() && k < values.len() {
                    values[k]
                } else {
                    JsonView::Null
                }
            },
            _ => JsonView::Null,
        }
    }

    /// The value as an unsigned number.
    pub open spec fn number(self) -> Option<u64> {
        match self {
            JsonView::Number { whole, .. } => whole,
            _ => None,
        }
    }

    /// The value as a double.
    pub open spec fn float(self) -> Option<Binary64> {
        match self {
            JsonView::Number { double, .. } => double,
            _ => None,
        }
    }
}

/// A list that a value is, or an empty one.
pub open spec fn items(j: JsonView) -> Seq<JsonView> {
    match j {
        JsonView::List(v) => v,
        _ => Seq::empty(),
    }
}

/// A list under a key of a value is smaller than the value: what is below it can be gone
/// through to the end.
pub proof fn lists_are_smaller(j: JsonView, key: Seq<char>)
    requires
        items(j.field(key)).len() > 0,
    ensures
        decreases_to!(j => items(j.field(key))),
{
    let k = key_place(j->keys, key) as int;
    assert(j.field(key) == j->values[k]);
    assert(decreases_to!(j => j->values));
    assert(decreases_to!(j->values => j->values[k]));
    assert(decreases_to!(j->values[k] => j->values[k]->List_0));
}

impl Json {
    /// The value of a key, if there is one.
    pub fn field(&self, key: &str) -> (r: Option<&Json>)
        ensures
            match r {
                Some(j) => j@ == self@.field(key@),
                None => self@.field(key@) == JsonView::Null,
            },
    {
        match self {
            Json::Object { keys, values } => {
                let k: usize = find_key(keys, key);
                assert(texts(keys@).len() == keys@.len());
                assert(list_view(values@).len() == values@.len());
                if k < keys.len() && k < values.len() {
                    assert(list_view(values@)[k as int] == json_view(values@[k as int]));
                    Some(&values[k])
                } else {
                    None
                }
            },
            _ => None,
        }
    }

    /// A copy of the value of a key; null where there is none.
    pub fn copy_field(&self, key: &str) -> (r: Json)
        ensures
            r@ == self@.field(key@),
    {
        match self.field(key) {
            Some(j) => j.clone(),
            None => Json::Null,
        }
    }

    /// The value of a key as an unsigned number.
    pub fn number(&self, key: &str) -> (r: Option<u64>)
        ensures
            r == self@.field(key@).number(),
    {
        match self.field(key) {
            Some(Json::Number { whole, .. }) => *whole,
            _ => None,
        }
    }

    /// The value of a key as a double.
    pub fn float(&self, key: &str) -> (r: Option<Binary64>)
        ensures
            r == self@.field(key@).float(),
    {
        match self.field(key) {
            Some(Json::Number { double, .. }) => *double,
            _ => None,
        }
    }

    /// The value of a key as a text.
    pub fn text(&self, key: &str) -> (r: Option<String>)
        ensures
            match r {
                Some(s) => self@.field(key@) == JsonView::Text(s@),
                None => !(self@.field(key@) is Text),
            },
    {
        match self.field(key) {
            Some(Json::Text(s)) => Some(s.clone()),
            _ => None,
        }
    }

    /// Whether the value of a key is something.
    pub fn has(&self, key: &str) -> (r: bool)
        ensures
            r == (self@.field(key@) != JsonView::Null),
    {
        match self.field(key) {
            Some(Json::Null) => false,
            Some(_) => true,
            None => false,
        }
    }

    /// Whether the value of a key is true.
    pub fn is_true(&self, key: &str) -> (r: bool)
        ensures
            r == (self@.field(key@) == JsonView::Bool(true)),
    {
        match self.field(key) {
            Some(Json::Bool(b)) => *b,
            _ => false,
        }
    }
}

impl Clone for Json {
    fn clone(&self) -> (r: Self)
        ensures
            r@ == self@,
        decreases *self,
    {
        match self {
            Json::Null => Json::Null,
            Json::Bool(b) => Json::Bool(*b),
            Json::Number { text, whole, double } => Json::Number {
                text: text.clone(),
                whole: *whole,
                double: *double,
            },
            Json::Text(s) => Json::Text(s.clone()),
            Json::List(v) => {
                let mut out: Vec<Json> = Vec::new();
                let mut i: usize = 0;
                while i < v.len()
                    invariant
                        i <= v@.len(),
                        *self == Json::List(*v),
                        out@.len() == i,
                        forall|j: int|
                            0 <= j < i ==> json_view(#[trigger] out@[j]) == json_view(v@[j]),
                    decreases v@.len() - i,
                {
                    assert(decreases_to!(*self => self->List_0@[i as int]));
                    out.push(v[i].clone());
                    i = i + 1;
                }
                assert(list_view(out@) =~= list_view(v@));
                Json::List(out)
            },
            Json::Object { keys, values } => {
                let mut out: Vec<Json> = Vec::new();
                let mut i: usize = 0;
                while i < values.len()
                    invariant
                        i <= values@.len(),
                        *self == (Json::Object { keys: *keys, values: *values }),
                        out@.len() == i,
                        forall|j: int|
                            0 <= j < i ==> json_view(#[trigger] out@[j]) == json_view(values@[j]),
                    decreases values@.len() - i,
                {
                    assert(decreases_to!(*self => self->values@[i as int]));
                    out.push(values[i].clone());
                    i = i + 1;
                }
                assert(list_view(out@) =~= list_view(values@));
                Json::Object { keys: crate::text::copy_texts(keys), values: out }
            },
        }
    }
}

fn same_double(a: Option<Binary64>, b: Option<Binary64>) -> (r: bool)
    ensures
        r == (a == b),
{
    match a {
        Some(x) => match b {
            Some(y) => x.bits == y.bits,
            None => false,
        },
        None => b.is_none(),
    }
}

impl Json {
    /// Whether two values hold the same.
    pub fn equals(&self, other: &Json) -> (r: bool)
        ensures
            r == (self@ == other@),
        decreases *self,
    {
        match self {
            Json::Null => match other {
                Json::Null => true,
                _ => false,
            },
            Json::Bool(a) => match other {
                Json::Bool(b) => *a == *b,
                _ => false,
            },
            Json::Number { text: a, whole: w, double: d } => match other {
                Json::Number { text: b, whole: v, double: e } => same(a.as_str(), b.as_str()) && *w
                    == *v && same_double(*d, *e),
                _ => false,
            },
            Json::Text(a) => match other {
                Json::Text(b) => same(a.as_str(), b.as_str()),
                _ => false,
            },
            Json::List(a) => match other {
                Json::List(b) => {
                    assert(list_view(a@).len() == a@.len() && list_view(b@).len() == b@.len());
                    if a.len() != b.len() {
                        return false;
                    }
                    let mut i: usize = 0;
                    while i < a.len()
                        invariant
                            i <= a@.len(),
                            a@.len() == b@.len(),
                            *self == Json::List(*a),
                            *other == Json::List(*b),
                            forall|j: int|
                                0 <= j < i ==> #[trigger] list_view(a@)[j] == list_view(b@)[j],
                        decreases a@.len() - i,
                    {
                        assert(list_view(a@)[i as int] == json_view(a@[i as int]));
                        assert(list_view(b@)[i as int] == json_view(b@[i as int]));
                        assert(decreases_to!(*self => self->List_0@[i as int]));
                        if !a[i].equals(&b[i]) {
                            assert(list_view(a@) != list_view(b@));
                            return false;
                        }
                        i = i + 1;
                    }
                    assert(list_view(a@) =~= list_view(b@));
                    true
                },
                _ => false,
            },
            Json::Object { keys: k, values: a } => match other {
                Json::Object { keys: l, values: b } => {
                    assert(list_view(a@).len() == a@.len() && list_view(b@).len() == b@.len());
                    if a.len() != b.len() || !same_texts(k, l) {
                        return false;
                    }
                    let mut i: usize = 0;
                    while i < a.len()
                        invariant
                            i <= a@.len(),
                            a@.len() == b@.len(),
                            texts(k@) == texts(l@),
                            *self == (Json::Object { keys: *k, values: *a }),
                            *other == (Json::Object { keys: *l, values: *b }),
                            forall|j: int|
                                0 <= j < i ==> #[trigger] list_view(a@)[j] == list_view(b@)[j],
                        decreases a@.len() - i,
                    {
                        assert(list_view(a@)[i as int] == json_view(a@[i as int]));
                        assert(list_view(b@)[i as int] == json_view(b@[i as int]));
                        assert(decreases_to!(*self => self->values@[i as int]));
                        if !a[i].equals(&b[i]) {
                            assert(list_view(a@) != list_view(b@));
                            return false;
                        }
                        i = i + 1;
                    }
                    assert(list_view(a@) =~= list_view(b@));
                    true
                },
                _ => false,
            },
        }
    }
}

/// Whether a number is written as a floating zero, of either sign.
pub open spec fn zero(text: Seq<char>) -> bool {
    text == "0.0"@ || text == "-0.0"@
}

/// Whether two values mean the same: a floating zero has no sign.
pub open spec fn alike(a: JsonView, b: JsonView) -> bool
    decreases a,
{
    match a {
        JsonView::Number { text, .. } => b matches JsonView::Number { text: other, .. } && (text
            == other || (zero(text) && zero(other))),
        JsonView::List(v) => b matches JsonView::List(w) && all_alike(v, w),
        JsonView::Object { keys, values } => b matches JsonView::Object { keys: l, values: w }
            && keys == l && all_alike(values, w),
        _ => a == b,
    }
}

/// Whether the values of two lists mean the same one by one.
pub open spec fn all_alike(v: Seq<JsonView>, w: Seq<JsonView>) -> bool
    decreases v,
{
    &&& v.len() == w.len()
    &&& forall|i: int| 0 <= i < v.len() ==> alike(#[trigger] v[i], w[i])
}

fn is_zero(text: &str) -> (r: bool)
    ensures
        r == zero(text@),
{
    same(text, "0.0") || same(text, "-0.0")
}

impl Json {
    /// Whether two values mean the same.
    pub fn means(&self, other: &Json) -> (r: bool)
        ensures
            r == alike(self@, other@),
        decreases *self,
    {
        match self {
            Json::Null => match other {
                Json::Null => true,
                _ => false,
            },
            Json::Bool(a) => match other {
                Json::Bool(b) => *a == *b,
                _ => false,
            },
            Json::Number { text: a, .. } => match other {
                Json::Number { text: b, .. } => same(a.as_str(), b.as_str()) || (is_zero(
                    a.as_str(),
                ) && is_zero(b.as_str())),
                _ => false,
            },
            Json::Text(a) => match other {
                Json::Text(b) => same(a.as_str(), b.as_str()),
                _ => false,
            },
            Json::List(a) => match other {
                Json::List(b) => {
                    assert(list_view(a@).len() == a@.len() && list_view(b@).len() == b@.len());
                    if a.len() != b.len() {
                        return false;
                    }
                    let mut i: usize = 0;
                    while i < a.len()
                        invariant
                            i <= a@.len(),
                            a@.len() == b@.len(),
                            *self == Json::List(*a),
                            *other == Json::List(*b),
                            forall|j: int|
                                0 <= j < i ==> alike(
                                    #[trigger] list_view(a@)[j],
                                    list_view(b@)[j],
                                ),
                        decreases a@.len() - i,
                    {
                        assert(list_view(a@)[i as int] == json_view(a@[i as int]));
                        assert(list_view(b@)[i as int] == json_view(b@[i as int]));
                        assert(decreases_to!(*self => self->List_0@[i as int]));
                        if !a[i].means(&b[i]) {
                            return false;
                        }
                        i = i + 1;
                    }
                    true
                },
                _ => false,
            },
            Json::Object { keys: k, values: a } => match other {
                Json::Object { keys: l, values: b } => {
                    assert(list_view(a@).len() == a@.len() && list_view(b@).len() == b@.len());
                    if a.len() != b.len() || !same_texts(k, l) {
                        return false;
                    }
                    let mut i: usize = 0;
                    while i < a.len()
                        invariant
                            i <= a@.len(),
                            a@.len() == b@.len(),
                            texts(k@) == texts(l@),
                            *self == (Json::Object { keys: *k, values: *a }),
                            *other == (Json::Object { keys: *l, values: *b }),
                            forall|j: int|
                                0 <= j < i ==> alike(
                                    #[trigger] list_view(a@)[j],
                                    list_view(b@)[j],
                                ),
                        decreases a@.len() - i,
                    {
                        assert(list_view(a@)[i as int] == json_view(a@[i as int]));
                        assert(list_view(b@)[i as int] == json_view(b@[i as int]));
                        assert(decreases_to!(*self => self->values@[i as int]));
                        if !a[i].means(&b[i]) {
                            return false;
                        }
                        i = i + 1;
                    }
                    true
                },
                _ => false,
            },
        }
    }
}

/// Whether two lists of values hold the same.
pub fn same_values(a: &Vec<Json>, b: &Vec<Json>) -> (r: bool)
    ensures
        r == (list_view(a@) == list_view(b@)),
{
    assert(list_view(a@).len() == a@.len() && list_view(b@).len() == b@.len());
    if a.len() != b.len() {
        return false;
    }
    let mut i: usize = 0;
    while i < a.len()
        invariant
            i <= a@.len(),
            a@.len() == b@.len(),
            forall|j: int| 0 <= j < i ==> #[trigger] list_view(a@)[j] == list_view(b@)[j],
        decreases a@.len() - i,
    {
        assert(list_view(a@)[i as int] == json_view(a@[i as int]));
        assert(list_view(b@)[i as int] == json_view(b@[i as int]));
        if !a[i].equals(&b[i]) {
            return false;
        }
        i = i + 1;
    }
    assert(list_view(a@) =~= list_view(b@));
    true
}

} // verus!
