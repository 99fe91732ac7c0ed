//! How paths are put together and told apart, and how numbers compare.
use vstd::prelude::*;

use crate::number::{unit, Binary64};
use crate::path::{
    before, bytes_of, components, file_name, is_absolute, join, last_part, name_closes_with,
    name_opens_with, parts, pieces, route, runs, same_path, sort, trimmed,
};

verus! {

/// A path below another is the other, one separator, and itself; one that begins at the root is
/// taken as it is.
pub proof fn paths_are_joined_by_one_separator(
    base: &Vec<u8>,
    part: &Vec<u8>,
    r: Vec<u8>,
    rooted: bool,
)
    requires
        call_ensures(join, (base, part), r),
        call_ensures(is_absolute, (part,), rooted),
    ensures
        rooted <==> part@.len() > 0 && part@[0] == 0x2f,
        rooted ==> r@ == part@,
        !rooted && base@.len() > 0 && base@.last() != 0x2f ==> r@ == base@ + seq![0x2fu8] + part@,
        !rooted && (base@.len() == 0 || base@.last() == 0x2f) ==> r@ == base@ + part@,
{
    assert(base@.push(0x2fu8) =~= base@ + seq![0x2fu8]);
}

/// Whether bytes name a file: some, none a separator, and neither this directory nor its parent.
pub open spec fn proper(name: Seq<u8>) -> bool {
    &&& name.len() > 0
    &&& name != seq![0x2eu8]
    &&& name != seq![0x2eu8, 0x2eu8]
    &&& forall|i: int| 0 <= i < name.len() ==> #[trigger] name[i] != 0x2f
}

proof fn lemma_last(front: Seq<u8>, name: Seq<u8>)
    requires
        forall|i: int| 0 <= i < name.len() ==> #[trigger] name[i] != 0x2f,
    ensures
        last_part(front + seq![0x2fu8] + name) == name,
    decreases name.len(),
{
    let s = front + seq![0x2fu8] + name;
    if name.len() == 0 {
        assert(s.last() == 0x2f);
        assert(name =~= Seq::empty());
    } else {
        let n = name.drop_last();
        assert(s.drop_last() =~= front + seq![0x2fu8] + n);
        lemma_last(front, n);
        assert(s.last() == name.last());
        assert(name.last() == name[name.len() - 1]);
        assert(n.push(name.last()) =~= name);
    }
}

/// The name of a file is what follows the last separator of its path, with or without another
/// separator at the end.
pub proof fn files_are_named_by_the_end_of_their_path(
    path: &Vec<u8>,
    slashed: &Vec<u8>,
    front: Seq<u8>,
    name: Seq<u8>,
    r: Option<Vec<u8>>,
    s: Option<Vec<u8>>,
)
    requires
        call_ensures(file_name, (path,), r),
        call_ensures(file_name, (slashed,), s),
        path@ == front + seq![0x2fu8] + name,
        slashed@ == path@.push(0x2fu8),
        proper(name),
    ensures
        r matches Some(n) && n@ == name,
        s matches Some(n) && n@ == name,
{
    lemma_last(front, name);
    let p = path@;
    assert(p.last() == name.last());
    assert(name.last() == name[name.len() - 1]);
    assert(trimmed(p) == p) by {
        if p.last() == 0x2e && p[p.len() - 2] == 0x2f {
            if name.len() == 1 {
                assert(name =~= seq![0x2eu8]);
            } else {
                assert(p[p.len() - 2] == name[name.len() - 2]);
            }
        }
    }
    assert(slashed@.drop_last() =~= p);
    assert(trimmed(slashed@) == trimmed(p));
}

/// The parent and the root are no files.
pub proof fn directories_above_are_no_files(
    path: &Vec<u8>,
    front: Seq<u8>,
    r: Option<Vec<u8>>,
)
    requires
        call_ensures(file_name, (path,), r),
        path@ == front + seq![0x2fu8, 0x2eu8, 0x2eu8] || path@ == seq![0x2fu8] || path@.len() == 0,
    ensures
        r is None,
{
    let p = path@;
    if p.len() >= 3 {
        let up = seq![0x2eu8, 0x2eu8];
        assert(p =~= front + seq![0x2fu8] + up);
        lemma_last(front, up);
        assert(p.last() == 0x2e && p[p.len() - 2] == 0x2e);
        assert(trimmed(p) == p);
    } else if p.len() == 1 {
        assert(p.drop_last() =~= Seq::empty());
        assert(trimmed(p) == trimmed(p.drop_last()));
        assert(trimmed(p).len() == 0);
    }
}

proof fn lemma_pieces(front: Seq<u8>, name: Seq<u8>)
    requires
        forall|i: int| 0 <= i < name.len() ==> #[trigger] name[i] != 0x2f,
    ensures
        pieces(front + seq![0x2fu8] + name) == pieces(front).push(name),
        pieces(front).len() > 0,
    decreases name.len(),
{
    let s = front + seq![0x2fu8] + name;
    lemma_some(front);
    if name.len() == 0 {
        assert(s.last() == 0x2f);
        assert(s.drop_last() =~= front);
        assert(name =~= Seq::empty());
    } else {
        let n = name.drop_last();
        assert(s.drop_last() =~= front + seq![0x2fu8] + n);
        lemma_pieces(front, n);
        assert(s.last() == name.last());
        assert(name.last() == name[name.len() - 1]);
        assert(n.push(name.last()) =~= name);
        let b = pieces(s.drop_last());
        assert(b.last() == n);
        assert(pieces(s) =~= pieces(front).push(name));
    }
}

proof fn lemma_some(path: Seq<u8>)
    ensures
        pieces(path).len() > 0,
    decreases path.len(),
{
    if path.len() > 0 {
        lemma_some(path.drop_last());
    }
}

/// A name behind a separator is one part more; a separator or a dot behind a separator is none.
pub proof fn names_add_a_part_to_a_path(
    front: &Vec<u8>,
    path: &Vec<u8>,
    name: Seq<u8>,
    a: Vec<Vec<u8>>,
    b: Vec<Vec<u8>>,
)
    requires
        call_ensures(parts, (front,), a),
        call_ensures(parts, (path,), b),
        path@ == front@ + seq![0x2fu8] + name,
        forall|i: int| 0 <= i < name.len() ==> #[trigger] name[i] != 0x2f,
    ensures
        name.len() == 0 || name == seq![0x2eu8] ==> runs(b@) == runs(a@),
        name.len() > 0 && name != seq![0x2eu8] ==> runs(b@) == runs(a@).push(name),
{
    lemma_pieces(front@, name);
    let p = pieces(front@).push(name);
    assert(p.drop_last() =~= pieces(front@));
    assert(p.last() == name);
}

/// Two paths lead to the same place if they differ in separators and dots that name nothing,
/// and to different ones if they end in different names.
pub proof fn paths_are_the_same_by_their_parts(
    a: &Vec<u8>,
    b: &Vec<u8>,
    front: Seq<u8>,
    x: Seq<u8>,
    y: Seq<u8>,
    r: bool,
)
    requires
        call_ensures(same_path, (a, b), r),
        front.len() > 0,
        a@ == front + seq![0x2fu8] + x,
        b@ == front + seq![0x2fu8] + y,
        forall|i: int| 0 <= i < x.len() ==> #[trigger] x[i] != 0x2f,
        forall|i: int| 0 <= i < y.len() ==> #[trigger] y[i] != 0x2f,
    ensures
        (x.len() == 0 || x == seq![0x2eu8]) && (y.len() == 0 || y == seq![0x2eu8]) ==> r,
        proper(x) && proper(y) ==> (r <==> x == y),
        proper(x) && !proper(y) && y != seq![0x2eu8, 0x2eu8] ==> !r,
{
    lemma_pieces(front, x);
    lemma_pieces(front, y);
    let p = pieces(front);
    assert(p.push(x).drop_last() =~= p);
    assert(p.push(y).drop_last() =~= p);
    assert(a@[0] == front[0] && b@[0] == front[0]);
    let c = components(p);
    if proper(x) {
        assert(route(a@).parts == c.push(x));
        assert(c.push(x).last() == x);
        if proper(y) {
            assert(route(b@).parts == c.push(y));
            assert(c.push(y).last() == y);
        } else if y != seq![0x2eu8, 0x2eu8] {
            assert(route(b@).parts == c);
            assert(c.push(x).len() != c.len());
        }
    }
}

/// Paths that begin at the root are never the same as those that do not.
pub proof fn rooted_paths_differ_from_others(a: &Vec<u8>, b: &Vec<u8>, r: bool)
    requires
        call_ensures(same_path, (a, b), r),
        a@.len() > 0 && a@[0] == 0x2f,
        b@.len() > 0 ==> b@[0] != 0x2f,
    ensures
        !r,
{
}

/// A name begins, or ends, with a text exactly if it is the text with something behind, or
/// before, it.
pub proof fn names_begin_and_end_with_texts(
    name: &Vec<u8>,
    text: &str,
    opens: bool,
    closes: bool,
    bytes: Vec<u8>,
)
    requires
        call_ensures(name_opens_with, (name, text), opens),
        call_ensures(name_closes_with, (name, text), closes),
        call_ensures(bytes_of, (text,), bytes),
    ensures
        bytes@ == vstd::utf8::encode_utf8(text@),
        opens <==> exists|rest: Seq<u8>| name@ == #[trigger] (bytes@ + rest),
        closes <==> exists|rest: Seq<u8>| name@ == #[trigger] (rest + bytes@),
{
    let t = bytes@;
    let n = name@;
    if opens {
        assert(n =~= t + n.skip(t.len() as int));
    }
    if exists|rest: Seq<u8>| n == #[trigger] (t + rest) {
        let rest = choose|rest: Seq<u8>| n == #[trigger] (t + rest);
        assert(n.take(t.len() as int) =~= t);
    }
    if closes {
        assert(n =~= n.take(n.len() - t.len()) + t);
    }
    if exists|rest: Seq<u8>| n == #[trigger] (rest + t) {
        let rest = choose|rest: Seq<u8>| n == #[trigger] (rest + t);
        assert(n.skip(n.len() - t.len()) =~= t);
    }
}

proof fn lemma_before(a: Seq<u8>, b: Seq<u8>, k: int)
    requires
        0 <= k <= a.len(),
        k <= b.len(),
        forall|i: int| 0 <= i < k ==> a[i] == #[trigger] b[i],
        k < a.len() && k < b.len() ==> a[k] != b[k],
    ensures
        before(a, b) <==> k < b.len() && (k == a.len() || a[k] < b[k]),
    decreases k,
{
    if k > 0 {
        assert(a[0] == b[0]);
        let x = a.skip(1);
        let y = b.skip(1);
        assert forall|i: int| 0 <= i < k - 1 implies x[i] == #[trigger] y[i] by {
            assert(x[i] == a[i + 1] && y[i] == b[i + 1]);
        }
        if k < a.len() && k < b.len() {
            assert(x[k - 1] == a[k] && y[k - 1] == b[k]);
        }
        lemma_before(x, y, k - 1);
    }
}

/// Sorted paths are those that were there, and where two of them differ first the smaller byte
/// comes first; one that ends there comes before one that goes on.
pub proof fn sorted_paths_are_in_order(v: Vec<Vec<u8>>, r: Vec<Vec<u8>>, i: int, j: int, k: int)
    requires
        call_ensures(sort, (v,), r),
        0 <= i < j < r@.len(),
        0 <= k <= r@[i]@.len(),
        k <= r@[j]@.len(),
        forall|n: int| 0 <= n < k ==> r@[j]@[n] == #[trigger] r@[i]@[n],
        k < r@[i]@.len() && k < r@[j]@.len() ==> r@[i]@[k] != r@[j]@[k],
    ensures
        r@.to_multiset() == v@.to_multiset(),
        k < r@[i]@.len() && k < r@[j]@.len() ==> r@[i]@[k] < r@[j]@[k],
        k == r@[j]@.len() ==> k == r@[i]@.len(),
{
    assert(!before(r@[j]@, r@[i]@));
    lemma_before(r@[j]@, r@[i]@, k);
}

/// Doubles made of integers compare as the integers do.
pub proof fn numbers_compare_as_their_integers(
    m: u32,
    n: u32,
    a: Binary64,
    b: Binary64,
    smaller: bool,
    equal: bool,
)
    requires
        call_ensures(Binary64::from_u32, (m,), a),
        call_ensures(Binary64::from_u32, (n,), b),
        call_ensures(Binary64::less, (a, b), smaller),
        call_ensures(Binary64::same, (a, b), equal),
    ensures
        smaller <==> m < n,
        equal <==> m == n,
{
    vstd::arithmetic::power2::lemma_pow2_pos(1074);
    assert(m < n ==> m * unit() < n * unit()) by (nonlinear_arith)
        requires
            unit() > 0,
    ;
    assert(m > n ==> m * unit() > n * unit()) by (nonlinear_arith)
        requires
            unit() > 0,
    ;
}

/// So do those made of signed integers; without their sign they are as large as the integers
/// are without theirs.
pub proof fn signed_numbers_compare_as_their_integers(
    m: i32,
    n: i32,
    a: Binary64,
    b: Binary64,
    smaller: bool,
    equal: bool,
    size: Binary64,
)
    requires
        call_ensures(Binary64::from_i32, (m,), a),
        call_ensures(Binary64::from_i32, (n,), b),
        call_ensures(Binary64::less, (a, b), smaller),
        call_ensures(Binary64::same, (a, b), equal),
        call_ensures(Binary64::abs, (a,), size),
    ensures
        smaller <==> m < n,
        equal <==> m == n,
        size.value() == if a.value() < 0 {
            -a.value()
        } else {
            a.value()
        },
        m >= 0 ==> a.value() >= 0,
        m < 0 ==> a.value() < 0,
{
    vstd::arithmetic::power2::lemma_pow2_pos(1074);
    assert(m < n ==> m * unit() < n * unit()) by (nonlinear_arith)
        requires
            unit() > 0,
    ;
    assert(m > n ==> m * unit() > n * unit()) by (nonlinear_arith)
        requires
            unit() > 0,
    ;
    assert(m >= 0 ==> m * unit() >= 0) by (nonlinear_arith)
        requires
            unit() > 0,
    ;
    assert(m < 0 ==> m * unit() < 0) by (nonlinear_arith)
        requires
            unit() > 0,
    ;
}

/// What is no number compares with nothing, and the infinities are not finite: only patterns
/// whose eleven exponent bits are all set are either.
pub proof fn only_full_exponents_are_not_finite(
    a: Binary64,
    b: Binary64,
    smaller: bool,
    equal: bool,
    finite: bool,
)
    requires
        call_ensures(Binary64::less, (a, b), smaller),
        call_ensures(Binary64::same, (a, b), equal),
        call_ensures(Binary64::is_finite, (a,), finite),
    ensures
        finite <==> a.bits & 0x7ff0_0000_0000_0000 != 0x7ff0_0000_0000_0000,
        !finite && a.bits & 0xf_ffff_ffff_ffff != 0 ==> !smaller && !equal,
        smaller ==> !equal,
        a.bits == b.bits && finite ==> equal,
{
    let x = a.bits;
    assert(x >= 0x8000_0000_0000_0000 ==> (x & 0x7ff0_0000_0000_0000 != 0x7ff0_0000_0000_0000
        <==> x - 0x8000_0000_0000_0000 < 0x7ff0_0000_0000_0000)) by (bit_vector);
    assert(x < 0x8000_0000_0000_0000 ==> (x & 0x7ff0_0000_0000_0000 != 0x7ff0_0000_0000_0000 <==> x
        < 0x7ff0_0000_0000_0000)) by (bit_vector);
    assert(x & 0x7ff0_0000_0000_0000 == 0x7ff0_0000_0000_0000 && x & 0xf_ffff_ffff_ffff != 0 ==> (x
        >= 0x8000_0000_0000_0000 ==> x - 0x8000_0000_0000_0000 > 0x7ff0_0000_0000_0000) && (x
        < 0x8000_0000_0000_0000 ==> x > 0x7ff0_0000_0000_0000)) by (bit_vector);
}

} // verus!
