//! Paths of files, as bytes.
use vstd::prelude::*;

verus! {

/// The byte that separates the parts of a path.
pub const SLASH: u8 = 47;

/// The byte of a dot.
pub const DOT: u8 = 46;

/// Whether a path begins at the root.
pub open spec fn absolute(path: Seq<u8>) -> bool {
    path.len() > 0 && path[0] == SLASH
}

/// Whether a path begins at the root.
pub fn is_absolute(path: &Vec<u8>) -> (r: bool)
    ensures
        r == absolute(path@),
{
    path.len() > 0 && path[0] == SLASH
}

/// A path below another; one that begins at the root stands for itself.
pub open spec fn below(base: Seq<u8>, part: Seq<u8>) -> Seq<u8> {
    if absolute(part) {
        part
    } else if base.len() > 0 && base.last() != SLASH {
        base.push(SLASH) + part
    } else {
        base + part
    }
}

fn push_all(out: &mut Vec<u8>, part: &Vec<u8>)
    ensures
        final(out)@ == old(out)@ + part@,
{
    let mut i: usize = 0;
    let ghost start = out@;
    while i < part.len()
        invariant
            i <= part@.len(),
            out@ == start + part@.take(i as int),
        decreases part@.len() - i,
    {
        out.push(part[i]);
        i = i + 1;
        assert(out@ =~= start + part@.take(i as int));
    }
    assert(part@.take(i as int) =~= part@);
}

/// A path below another.
pub fn join(base: &Vec<u8>, part: &Vec<u8>) -> (r: Vec<u8>)
    ensures
        r@ == below(base@, part@),
{
    let mut out: Vec<u8> = Vec::new();
    if !is_absolute(part) {
        push_all(&mut out, base);
        if base.len() > 0 && base[base.len() - 1] != SLASH {
            out.push(SLASH);
        }
    }
    push_all(&mut out, part);
    assert(out@ =~= below(base@, part@));
    out
}

/// The bytes of a text.
pub fn bytes_of(text: &str) -> (r: Vec<u8>)
    ensures
        r@ == vstd::utf8::encode_utf8(text@),
{
    let s = text.as_bytes();
    let mut out: Vec<u8> = Vec::new();
    let mut i: usize = 0;
    while i < s.len()
        invariant
            i <= s@.len(),
            out@ == s@.take(i as int),
        decreases s@.len() - i,
    {
        out.push(s[i]);
        i = i + 1;
        assert(out@ =~= s@.take(i as int));
    }
    assert(s@.take(i as int) =~= s@);
    out
}

/// A path without separators and dots at its end that name nothing.
pub open spec fn trimmed(path: Seq<u8>) -> Seq<u8>
    decreases path.len(),
{
    if path.len() >= 1 && path.last() == SLASH {
        trimmed(path.drop_last())
    } else if path.len() >= 2 && path.last() == DOT && path[path.len() - 2] == SLASH {
        trimmed(path.drop_last())
    } else {
        path
    }
}

/// What follows the last separator.
pub open spec fn last_part(path: Seq<u8>) -> Seq<u8>
    decreases path.len(),
{
    if path.len() == 0 || path.last() == SLASH {
        Seq::empty()
    } else {
        last_part(path.drop_last()).push(path.last())
    }
}

/// The name of a file, unless its path ends in the parent or stands for no file.
pub open spec fn name_of(path: Seq<u8>) -> Option<Seq<u8>> {
    let name = last_part(trimmed(path));
    if name.len() == 0 || name == seq![DOT] || name == seq![DOT, DOT] {
        None
    } else {
        Some(name)
    }
}

proof fn lemma_last_part(path: Seq<u8>, k: int)
    requires
        0 <= k <= path.len(),
        k > 0 ==> path[k - 1] == SLASH,
        forall|j: int| k <= j < path.len() ==> path[j] != SLASH,
    ensures
        last_part(path) == path.skip(k),
    decreases path.len(),
{
    if k < path.len() {
        lemma_last_part(path.drop_last(), k);
        assert(path.skip(k) =~= path.drop_last().skip(k).push(path.last()));
    } else {
        assert(path.skip(k) =~= Seq::empty());
    }
}

/// The name of a file.
pub fn file_name(path: &Vec<u8>) -> (r: Option<Vec<u8>>)
    ensures
        match r {
            Some(name) => name_of(path@) == Some(name@),
            None => name_of(path@) is None,
        },
{
    let mut end: usize = path.len();
    assert(path@.take(end as int) =~= path@);
    while end > 0 && (path[end - 1] == SLASH || (end > 1 && path[end - 1] == DOT && path[end - 2]
        == SLASH))
        invariant
            end <= path@.len(),
            trimmed(path@) == trimmed(path@.take(end as int)),
        decreases end,
    {
        assert(path@.take(end as int).drop_last() =~= path@.take(end - 1));
        end = end - 1;
    }
    let ghost whole = path@.take(end as int);
    assert(trimmed(path@) == whole);
    let mut start: usize = end;
    while start > 0 && path[start - 1] != SLASH
        invariant
            start <= end <= path@.len(),
            whole == path@.take(end as int),
            forall|j: int| start <= j < end ==> whole[j] != SLASH,
        decreases start,
    {
        start = start - 1;
    }
    proof {
        lemma_last_part(whole, start as int);
    }
    let mut name: Vec<u8> = Vec::new();
    let mut i: usize = start;
    while i < end
        invariant
            start <= i <= end <= path@.len(),
            whole == path@.take(end as int),
            name@ == whole.subrange(start as int, i as int),
        decreases end - i,
    {
        name.push(path[i]);
        i = i + 1;
        assert(name@ =~= whole.subrange(start as int, i as int));
    }
    assert(whole.subrange(start as int, end as int) =~= whole.skip(start as int));
    let n: usize = name.len();
    if n == 0 {
        return None;
    }
    if n == 1 && name[0] == DOT {
        assert(name@ =~= seq![DOT]);
        return None;
    }
    if n == 2 && name[0] == DOT && name[1] == DOT {
        assert(name@ =~= seq![DOT, DOT]);
        return None;
    }
    assert(name@ != seq![DOT]);
    assert(name@ != seq![DOT, DOT]);
    Some(name)
}

/// What stands between the separators of a path.
pub open spec fn pieces(path: Seq<u8>) -> Seq<Seq<u8>>
    decreases path.len(),
{
    if path.len() == 0 {
        seq![Seq::empty()]
    } else {
        let before = pieces(path.drop_last());
        if path.last() == SLASH {
            before.push(Seq::empty())
        } else {
            before.update(before.len() - 1, before.last().push(path.last()))
        }
    }
}

/// Those pieces that name something: not what stands between two separators in a row, nor a
/// dot, unless the path begins with it.
pub open spec fn components(pieces: Seq<Seq<u8>>) -> Seq<Seq<u8>>
    decreases pieces.len(),
{
    if pieces.len() == 0 {
        Seq::empty()
    } else {
        let before = components(pieces.drop_last());
        let last = pieces.last();
        if last.len() == 0 || (last == seq![DOT] && pieces.len() > 1) {
            before
        } else {
            before.push(last)
        }
    }
}

/// A path by where it leads: whether it begins at the root, and its parts.
#[verifier::ext_equal]
pub struct Route {
    pub absolute: bool,
    pub parts: Seq<Seq<u8>>,
}

/// Where a path leads.
pub open spec fn route(path: Seq<u8>) -> Route {
    Route { absolute: absolute(path), parts: components(pieces(path)) }
}

/// Runs of bytes by their values.
pub open spec fn runs(v: Seq<Vec<u8>>) -> Seq<Seq<u8>> {
    v.map_values(|p: Vec<u8>| p@)
}

/// The parts of a path.
pub fn parts(path: &Vec<u8>) -> (r: Vec<Vec<u8>>)
    ensures
        runs(r@) == route(path@).parts,
{
    let mut out: Vec<Vec<u8>> = Vec::new();
    let mut piece: Vec<u8> = Vec::new();
    let mut first = true;
    let mut i: usize = 0;
    assert(path@.take(0) =~= Seq::empty());
    assert(runs(out@) =~= Seq::empty());
    assert(pieces(path@.take(0)).drop_last() =~= Seq::empty());
    assert(piece@ =~= Seq::empty());
    while i <= path.len()
        invariant
            i <= path@.len() + 1,
            i <= path@.len() ==> {
                let p = pieces(path@.take(i as int));
                &&& p.len() > 0
                &&& piece@ == p.last()
                &&& first == (p.len() == 1)
                &&& runs(out@) == components(p.drop_last())
            },
            i > path@.len() ==> runs(out@) == components(pieces(path@)),
        decreases path@.len() + 1 - i,
    {
        let end = i == path.len();
        let ghost p = pieces(path@.take(i as int));
        proof {
            if !end {
                assert(path@.take(i + 1).drop_last() =~= path@.take(i as int));
                assert(path@.take(i + 1).last() == path@[i as int]);
            } else {
                assert(path@.take(i as int) =~= path@);
            }
        }
        if end || path[i] == SLASH {
            let dot = piece.len() == 1 && piece[0] == DOT;
            assert(dot == (piece@ =~= seq![DOT]));
            let ghost was = out@;
            if piece.len() > 0 && (!dot || first) {
                out.push(piece);
                assert(runs(out@) =~= runs(was).push(p.last()));
            }
            assert(runs(out@) == components(p));
            piece = Vec::new();
            first = false;
            proof {
                assert(piece@ =~= Seq::empty());
                if !end {
                    assert(pieces(path@.take(i + 1)) == p.push(Seq::empty()));
                    assert(p.push(Seq::<u8>::empty()).drop_last() =~= p);
                }
            }
        } else {
            let ghost was = piece@;
            piece.push(path[i]);
            proof {
                let q = pieces(path@.take(i + 1));
                assert(q == p.update(p.len() - 1, was.push(path@[i as int])));
                assert(q.drop_last() =~= p.drop_last());
            }
        }
        if end {
            return out;
        }
        i = i + 1;
    }
    out
}

/// Whether two paths lead to the same place by the same parts.
pub fn same_path(a: &Vec<u8>, b: &Vec<u8>) -> (r: bool)
    ensures
        r == (route(a@) == route(b@)),
{
    let (x, y) = (parts(a), parts(b));
    assert(runs(x@).len() == x@.len() && runs(y@).len() == y@.len());
    if is_absolute(a) != is_absolute(b) || x.len() != y.len() {
        return false;
    }
    let mut i: usize = 0;
    while i < x.len()
        invariant
            i <= x@.len(),
            x@.len() == y@.len(),
            forall|j: int| 0 <= j < i ==> #[trigger] runs(x@)[j] == runs(y@)[j],
            runs(x@) == route(a@).parts,
            runs(y@) == route(b@).parts,
        decreases x@.len() - i,
    {
        assert(runs(x@)[i as int] == x@[i as int]@);
        assert(runs(y@)[i as int] == y@[i as int]@);
        if x[i].len() != y[i].len() || !found_at(&x[i], 0, &y[i]) {
            assert(y@[i as int]@.len() == x@[i as int]@.len() ==> x@[i as int]@.subrange(
                0,
                y@[i as int]@.len() as int,
            ) =~= x@[i as int]@);
            return false;
        }
        assert(x@[i as int]@.subrange(0, y@[i as int]@.len() as int) =~= x@[i as int]@);
        i = i + 1;
    }
    assert(runs(x@) =~= runs(y@));
    true
}

/// Whether a run of bytes begins with another.
pub open spec fn opens_with(s: Seq<u8>, prefix: Seq<u8>) -> bool {
    prefix.len() <= s.len() && s.take(prefix.len() as int) == prefix
}

/// Whether a run of bytes ends with another.
pub open spec fn closes_with(s: Seq<u8>, suffix: Seq<u8>) -> bool {
    suffix.len() <= s.len() && s.skip(s.len() - suffix.len()) == suffix
}

fn found_at(s: &Vec<u8>, at: usize, part: &Vec<u8>) -> (r: bool)
    requires
        at + part@.len() <= s@.len(),
    ensures
        r == (s@.subrange(at as int, at + part@.len()) == part@),
{
    let end: usize = s.len();
    let mut i: usize = 0;
    while i < part.len()
        invariant
            end == s@.len(),
            i <= part@.len(),
            at + part@.len() <= s@.len(),
            forall|j: int| 0 <= j < i ==> s@[at + j] == part@[j],
        decreases part@.len() - i,
    {
        if s[at + i] != part[i] {
            assert(s@.subrange(at as int, at + part@.len())[i as int] != part@[i as int]);
            return false;
        }
        i = i + 1;
    }
    assert(s@.subrange(at as int, at + part@.len()) =~= part@);
    true
}

/// Whether a name begins with a text.
pub fn name_opens_with(name: &Vec<u8>, prefix: &str) -> (r: bool)
    ensures
        r == opens_with(name@, vstd::utf8::encode_utf8(prefix@)),
{
    let part = bytes_of(prefix);
    if part.len() > name.len() {
        return false;
    }
    assert(name@.subrange(0, part@.len() as int) =~= name@.take(part@.len() as int));
    found_at(name, 0, &part)
}

/// Whether a name ends with a text.
pub fn name_closes_with(name: &Vec<u8>, suffix: &str) -> (r: bool)
    ensures
        r == closes_with(name@, vstd::utf8::encode_utf8(suffix@)),
{
    let part = bytes_of(suffix);
    if part.len() > name.len() {
        return false;
    }
    let at: usize = name.len() - part.len();
    assert(name@.subrange(at as int, at + part@.len()) =~= name@.skip(at as int));
    found_at(name, at, &part)
}

/// Whether a path stands before another in the order of bytes.
pub open spec fn before(a: Seq<u8>, b: Seq<u8>) -> bool
    decreases a.len(),
{
    if b.len() == 0 {
        false
    } else if a.len() == 0 {
        true
    } else if a[0] != b[0] {
        a[0] < b[0]
    } else {
        before(a.skip(1), b.skip(1))
    }
}

fn is_before(a: &Vec<u8>, b: &Vec<u8>) -> (r: bool)
    ensures
        r == before(a@, b@),
{
    let mut i: usize = 0;
    assert(a@.skip(0) =~= a@);
    assert(b@.skip(0) =~= b@);
    while i < a.len() && i < b.len()
        invariant
            i <= a@.len(),
            i <= b@.len(),
            before(a@, b@) == before(a@.skip(i as int), b@.skip(i as int)),
        decreases a@.len() - i,
    {
        let ghost p = a@.skip(i as int);
        let ghost q = b@.skip(i as int);
        assert(p[0] == a@[i as int] && q[0] == b@[i as int]);
        assert(p.skip(1) =~= a@.skip(i + 1));
        assert(q.skip(1) =~= b@.skip(i + 1));
        if a[i] != b[i] {
            return a[i] < b[i];
        }
        i = i + 1;
    }
    i < b.len()
}

proof fn lemma_before(a: Seq<u8>, b: Seq<u8>)
    requires
        before(a, b),
    ensures
        !before(b, a),
    decreases a.len(),
{
    if a.len() > 0 && a[0] == b[0] {
        lemma_before(a.skip(1), b.skip(1));
    }
}

proof fn lemma_not_before(a: Seq<u8>, b: Seq<u8>, c: Seq<u8>)
    requires
        before(a, b),
        !before(c, b),
    ensures
        !before(c, a),
    decreases a.len(),
{
    if a.len() > 0 && c.len() > 0 && a[0] == b[0] && b[0] == c[0] {
        lemma_not_before(a.skip(1), b.skip(1), c.skip(1));
    }
}

/// Paths of which none stands before an earlier one.
pub open spec fn in_order(v: Seq<Vec<u8>>) -> bool {
    forall|i: int, j: int| 0 <= i < j < v.len() ==> !before((#[trigger] v[j])@, (#[trigger] v[i])@)
}

/// Puts paths in the order of their bytes.
pub fn sort(v: Vec<Vec<u8>>) -> (r: Vec<Vec<u8>>)
    ensures
        in_order(r@),
        r@.to_multiset() == v@.to_multiset(),
{
    broadcast use vstd::seq_lib::group_to_multiset_ensures;

    let mut rest = v;
    let ghost whole = v@.to_multiset();
    let mut out: Vec<Vec<u8>> = Vec::new();
    assert(out@.to_multiset().add(rest@.to_multiset()) =~= whole);
    while rest.len() > 0
        invariant
            in_order(out@),
            out@.to_multiset().add(rest@.to_multiset()) == whole,
        decreases rest@.len(),
    {
        let ghost were = rest@;
        let x = rest.remove(0);
        let ghost sorted = out@;
        let mut k: usize = 0;
        while k < out.len() && !is_before(&x, &out[k])
            invariant
                k <= out@.len(),
                out@ == sorted,
                forall|j: int| 0 <= j < k ==> !before(x@, (#[trigger] out@[j])@),
            decreases out@.len() - k,
        {
            k = k + 1;
        }
        proof {
            assert forall|j: int| k <= j < sorted.len() implies !before(
                (#[trigger] sorted[j])@,
                x@,
            ) by {
                if j == k {
                    lemma_before(x@, sorted[j]@);
                } else {
                    assert(!before(sorted[j]@, sorted[k as int]@));
                    lemma_not_before(x@, sorted[k as int]@, sorted[j]@);
                }
            }
        }
        out.insert(k, x);
        proof {
            vstd::seq_lib::to_multiset_remove(out@, k as int);
            vstd::seq_lib::to_multiset_contains(out@, x);
            vstd::seq_lib::to_multiset_remove(were, 0);
            vstd::seq_lib::to_multiset_contains(were, x);
            assert(out@ =~= sorted.insert(k as int, x));
            assert(out@.remove(k as int) =~= sorted);
            assert(out@[k as int] == x);
            assert(out@.contains(x));
            assert(out@.to_multiset() =~= sorted.to_multiset().insert(x));
            assert(rest@ =~= were.remove(0));
            assert(were[0] == x && were.contains(x));
            assert(were.to_multiset() =~= rest@.to_multiset().insert(x));
            assert(out@.to_multiset().add(rest@.to_multiset()) =~= whole);
        }
    }
    assert(rest@ =~= Seq::empty());
    assert(out@.to_multiset() =~= whole);
    out
}

} // verus!
