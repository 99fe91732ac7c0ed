//! How numbers, words and lists are read back from the texts that they are written in.
use vstd::prelude::*;

use crate::text::{
    after_last, all_digits, byte_len, chars_of, decimal, decimal_digit, digit, digits_value,
    find_after_last, find_from, has_char, is_control, is_white_space, join, less, numeral,
    parse_number, precedes, same, same_texts, split, split_words, starts_with, text_of, texts,
    to_base, to_upper_hex, trim, white_space, without_lead, without_plus, without_trail,
    word_length, words, zero_fill,
};

verus! {

proof fn lemma_digit(n: nat)
    requires
        n < 10,
    ensures
        decimal_digit(digit(n)),
        digit(n) as u32 - 48 == n,
{
    assert(digit(n) == (48 + n) as char);
}

proof fn lemma_numeral(n: nat)
    ensures
        all_digits(numeral(n, 10)),
        numeral(n, 10).len() > 0,
        digits_value(numeral(n, 10)) == n,
    decreases n,
{
    let s = numeral(n, 10);
    if n < 10 {
        lemma_digit(n);
        assert(s =~= seq![digit(n)]);
        assert(s.drop_last() =~= Seq::empty());
        assert(digits_value(s.drop_last()) == 0);
        assert(s.last() == digit(n));
    } else {
        assert(n / 10 < n);
        lemma_numeral(n / 10);
        lemma_digit(n % 10);
        assert(s =~= numeral(n / 10, 10).push(digit(n % 10)));
        assert(s.drop_last() =~= numeral(n / 10, 10));
        assert(s.last() == digit(n % 10));
        assert forall|i: int| 0 <= i < s.len() implies decimal_digit(#[trigger] s[i]) by {
            if i < s.len() - 1 {
                assert(numeral(n / 10, 10)[i] == s[i]);
            }
        }
    }
}

/// A number that is written in decimal is read back as itself, up to the greatest one allowed.
pub proof fn numbers_are_read_back(
    n: u64,
    most: u64,
    written: String,
    text: &str,
    r: Option<u64>,
)
    requires
        call_ensures(decimal, (n,), written),
        call_ensures(parse_number, (text, most), r),
        text@ == written@,
    ensures
        n <= most ==> r == Some(n),
        n > most ==> r is None,
{
    lemma_numeral(n as nat);
    assert(decimal_digit(text@[0]));
    assert(without_plus(text@) == text@);
}

/// A digit at the end of a number adds itself to ten times the number; a character that is no
/// digit, or a number that becomes too great, makes it none.
pub proof fn every_digit_counts(
    short: &str,
    long: &str,
    c: char,
    most: u64,
    a: Option<u64>,
    b: Option<u64>,
)
    requires
        call_ensures(parse_number, (short, most), a),
        call_ensures(parse_number, (long, most), b),
        long@ == short@.push(c),
    ensures
        a matches Some(m) ==> (b is Some <==> '0' <= c <= '9' && m * 10 + (c as u32 - 48) <= most),
        (a is Some && b is Some) ==> b->0 == a->0 * 10 + (c as u32 - 48),
        short@.len() == 0 && '0' <= c <= '9' && c as u32 - 48 <= most ==> b == Some(
            (c as u32 - 48) as u64,
        ),
        b is Some ==> '0' <= c <= '9',
        a is None && b is Some ==> short@.len() == 0 || short@ == seq!['+'],
        short@.len() == 0 ==> a is None,
{
    let s = without_plus(short@);
    let l = without_plus(long@);
    assert(long@.drop_last() =~= short@);
    if short@.len() == 0 {
        if c == '+' {
            assert(l =~= Seq::empty());
        } else {
            assert(l =~= seq![c]);
            assert(l.drop_last() =~= Seq::empty());
            assert(digits_value(l.drop_last()) == 0);
            assert(digits_value(l) == (c as u32 - 48) as nat);
            if decimal_digit(c) {
                assert(all_digits(l));
            }
        }
        if b is Some {
            assert(decimal_digit(l[0]));
        }
    } else {
        assert(long@[0] == short@[0]);
        assert(l =~= s.push(c));
        assert(l.drop_last() =~= s);
        assert(l.last() == c);
        if all_digits(s) && decimal_digit(c) {
            assert(all_digits(l));
        }
        if all_digits(l) {
            assert(decimal_digit(l[l.len() - 1]));
            assert forall|i: int| 0 <= i < s.len() implies decimal_digit(#[trigger] s[i]) by {
                assert(l[i] == s[i]);
            }
        }
        if b is Some && s.len() == 0 {
            assert(short@ =~= seq!['+']);
        }
    }
}

/// The last digit of a number is what is left of it by the base, and what stands before is the
/// rest: digits go from `0` to `9` and on to `f`.
pub proof fn numerals_end_in_what_is_left(
    n: u64,
    base: u64,
    r: String,
    shorter: String,
)
    requires
        2 <= base <= 16,
        call_ensures(to_base, (n, base), r),
        call_ensures(to_base, ((n / base) as u64, base), shorter),
    ensures
        r@.len() > 0,
        n >= base ==> r@ == shorter@.push(r@.last()),
        n < base ==> r@.len() == 1,
        n % base < 10 ==> r@.last() as u32 == 0x30 + n % base,
        n % base >= 10 ==> r@.last() as u32 == 0x61 + (n % base - 10),
{
    let m = n as nat;
    let b = base as nat;
    if n < base {
        assert(m % b == m) by (nonlinear_arith)
            requires
                m < b,
        ;
        assert(n % base == n);
        assert(r@ =~= seq![digit(m)]);
    } else {
        assert(r@ =~= numeral(m / b, b).push(digit(m % b)));
    }
    assert(m % b < b) by (nonlinear_arith)
        requires
            b > 0,
    ;
    let d = m % b;
    assert(r@.last() == digit(d));
}

proof fn lemma_word(s: Seq<char>, n: int)
    requires
        0 <= n <= s.len(),
        forall|j: int| 0 <= j < n ==> !white_space(#[trigger] s[j]),
        n < s.len() ==> white_space(s[n]),
    ensures
        word_length(s) == n,
    decreases n,
{
    if n > 0 {
        let t = s.drop_first();
        assert(!white_space(s[0]));
        assert forall|j: int| 0 <= j < n - 1 implies !white_space(#[trigger] t[j]) by {
            assert(t[j] == s[j + 1]);
        }
        lemma_word(t, n - 1);
    }
}

proof fn lemma_words(a: Seq<char>, c: char, b: Seq<char>)
    requires
        white_space(c),
    ensures
        words(a + seq![c] + b) == words(a) + words(b),
    decreases a.len(),
{
    let s = a + seq![c] + b;
    if a.len() == 0 {
        assert(s.drop_first() =~= b);
        assert(words(a) + words(b) =~= words(b));
    } else if white_space(a[0]) {
        assert(s.drop_first() =~= a.drop_first() + seq![c] + b);
        lemma_words(a.drop_first(), c, b);
    } else {
        let n = lemma_first(a);
        assert forall|j: int| 0 <= j < n implies !white_space(#[trigger] s[j]) by {
            assert(s[j] == a[j]);
        }
        assert(white_space(s[n])) by {
            if n < a.len() {
                assert(s[n] == a[n]);
            } else {
                assert(s[n] == c);
            }
        }
        lemma_word(s, n);
        lemma_word(a, n);
        assert(s.take(n) =~= a.take(n));
        assert(s.skip(n) =~= a.skip(n) + seq![c] + b);
        lemma_words(a.skip(n), c, b);
        assert(words(s) =~= seq![a.take(n)] + (words(a.skip(n)) + words(b)));
        assert(words(a) =~= seq![a.take(n)] + words(a.skip(n)));
        assert(words(s) =~= words(a) + words(b));
    }
}

proof fn lemma_first(a: Seq<char>) -> (n: int)
    requires
        a.len() > 0,
        !white_space(a[0]),
    ensures
        0 < n <= a.len(),
        forall|j: int| 0 <= j < n ==> !white_space(#[trigger] a[j]),
        n < a.len() ==> white_space(a[n]),
    decreases a.len(),
{
    if a.len() == 1 || white_space(a[1]) {
        1
    } else {
        let t = a.drop_first();
        let m = lemma_first(t);
        assert forall|j: int| 0 <= j < m + 1 implies !white_space(#[trigger] a[j]) by {
            if j > 0 {
                assert(a[j] == t[j - 1]);
            }
        }
        m + 1
    }
}

/// A space between two texts divides their words and adds none; a run of letters is one word,
/// and spaces alone are none.
pub proof fn spaces_divide_words(
    first: &Vec<char>,
    second: &Vec<char>,
    both: &Vec<char>,
    c: char,
    a: Vec<String>,
    b: Vec<String>,
    r: Vec<String>,
)
    requires
        call_ensures(split_words, (first, 0), a),
        call_ensures(split_words, (second, 0), b),
        call_ensures(split_words, (both, 0), r),
        c == ' ' || c == '\t' || c == '\n',
        both@ == first@ + seq![c] + second@,
    ensures
        texts(r@) == texts(a@) + texts(b@),
        first@.len() == 0 ==> a@.len() == 0,
        first@.len() > 0 && (forall|i: int|
            0 <= i < first@.len() ==> '!' <= #[trigger] first@[i] <= '~') ==> a@.len() == 1
            && a@[0]@ == first@,
{
    assert(first@.skip(0) =~= first@);
    assert(second@.skip(0) =~= second@);
    assert(both@.skip(0) =~= both@);
    lemma_words(first@, c, second@);
    assert(texts(a@).len() == a@.len());
    if first@.len() > 0 && (forall|i: int|
        0 <= i < first@.len() ==> '!' <= #[trigger] first@[i] <= '~') {
        let s = first@;
        assert forall|j: int| 0 <= j < s.len() implies !white_space(#[trigger] s[j]) by {}
        lemma_word(s, s.len() as int);
        assert(s.take(s.len() as int) =~= s);
        assert(s.skip(s.len() as int) =~= Seq::empty());
        assert(words(s.skip(s.len() as int)) =~= Seq::<Seq<char>>::empty());
        assert(words(s) =~= seq![s]);
        assert(texts(a@)[0] == a@[0]@);
    }
}

/// Words are read from the place on that is asked for.
pub proof fn words_are_read_from_a_place_on(
    all: &Vec<char>,
    rest: &Vec<char>,
    from: usize,
    a: Vec<String>,
    b: Vec<String>,
)
    requires
        from <= all@.len(),
        call_ensures(split_words, (all, from), a),
        call_ensures(split_words, (rest, 0), b),
        rest@ == all@.subrange(from as int, all@.len() as int),
    ensures
        texts(a@) == texts(b@),
{
    assert(rest@.skip(0) =~= rest@);
    assert(all@.skip(from as int) =~= rest@);
}

proof fn lemma_absent(s: Seq<char>, c: char, from: int)
    requires
        0 <= from <= s.len(),
        forall|i: int| 0 <= i < s.len() ==> #[trigger] s[i] != c,
    ensures
        find_from(s, c, from) == s.len(),
    decreases s.len() - from,
{
    if from < s.len() {
        lemma_absent(s, c, from + 1);
    }
}

proof fn lemma_present(s: Seq<char>, c: char, from: int, k: int)
    requires
        0 <= from <= k < s.len(),
        s[k] == c,
        forall|i: int| 0 <= i < k ==> #[trigger] s[i] != c,
    ensures
        find_from(s, c, from) == k,
    decreases k - from,
{
    if from < k {
        assert(s[from] != c);
        lemma_present(s, c, from + 1, k);
    }
}

/// A separator divides a text into what stands before it and the parts of what follows; a text
/// without separators is its only part, even if it is empty.
pub proof fn separators_divide_lists(
    first: &str,
    rest: &str,
    both: &str,
    c: char,
    a: Vec<String>,
    b: Vec<String>,
    r: Vec<String>,
)
    requires
        call_ensures(split, (first, c), a),
        call_ensures(split, (rest, c), b),
        call_ensures(split, (both, c), r),
        forall|i: int| 0 <= i < first@.len() ==> #[trigger] first@[i] != c,
        both@ == first@ + seq![c] + rest@,
    ensures
        a@.len() == 1 && a@[0]@ == first@,
        r@.len() == b@.len() + 1,
        r@[0]@ == first@,
        forall|i: int| 0 <= i < b@.len() ==> r@[i + 1]@ == (#[trigger] b@[i])@,
{
    lemma_absent(first@, c, 0);
    assert(texts(a@).len() == a@.len() && texts(b@).len() == b@.len() && texts(r@).len()
        == r@.len());
    assert(texts(a@)[0] == a@[0]@);
    let k = first@.len() as int;
    assert(both@[k] == c);
    assert forall|i: int| 0 <= i < k implies #[trigger] both@[i] != c by {
        assert(both@[i] == first@[i]);
    }
    lemma_present(both@, c, 0, k);
    assert(both@.take(k) =~= first@);
    assert(both@.skip(k + 1) =~= rest@);
    assert(texts(r@) =~= seq![first@] + texts(b@));
    assert(texts(r@)[0] == r@[0]@);
    assert forall|i: int| 0 <= i < b@.len() implies r@[i + 1]@ == (#[trigger] b@[i])@ by {
        assert(texts(r@)[i + 1] == r@[i + 1]@);
        assert(texts(b@)[i] == b@[i]@);
    }
}

proof fn lemma_lead(s: Seq<char>) -> (n: int)
    ensures
        0 <= n <= s.len(),
        without_lead(s) == s.skip(n),
        forall|i: int| 0 <= i < n ==> white_space(#[trigger] s[i]),
        n < s.len() ==> !white_space(s[n]),
    decreases s.len(),
{
    if s.len() > 0 && white_space(s[0]) {
        let t = s.skip(1);
        let m = lemma_lead(t);
        assert(t.skip(m) =~= s.skip(m + 1));
        assert forall|i: int| 0 <= i < m + 1 implies white_space(#[trigger] s[i]) by {
            if i > 0 {
                assert(s[i] == t[i - 1]);
            }
        }
        m + 1
    } else {
        assert(s.skip(0) =~= s);
        0
    }
}

proof fn lemma_trail(s: Seq<char>) -> (n: int)
    ensures
        0 <= n <= s.len(),
        without_trail(s) == s.take(n),
        forall|i: int| n <= i < s.len() ==> white_space(#[trigger] s[i]),
        n > 0 ==> !white_space(s[n - 1]),
    decreases s.len(),
{
    if s.len() > 0 && white_space(s.last()) {
        let t = s.drop_last();
        let m = lemma_trail(t);
        assert(t.take(m) =~= s.take(m));
        assert forall|i: int| m <= i < s.len() implies white_space(#[trigger] s[i]) by {
            if i < s.len() - 1 {
                assert(s[i] == t[i]);
            }
        }
        m
    } else {
        assert(s.take(s.len() as int) =~= s);
        s.len() as int
    }
}

/// Trimming takes the white space at both ends and nothing else: what is left stands in the
/// text, with only white space before and behind it, and has none at its own ends.
pub proof fn trimming_takes_the_white_space_around(
    s: &str,
    r: String,
) -> (lead: int)
    requires
        call_ensures(trim, (s,), r),
    ensures
        0 <= lead && lead + r@.len() <= s@.len(),
        r@ == s@.subrange(lead, lead + r@.len()),
        forall|i: int|
            0 <= i < s@.len() && !(lead <= i < lead + r@.len()) ==> white_space(#[trigger] s@[i]),
        r@.len() > 0 ==> !white_space(r@[0]) && !white_space(r@.last()),
{
    let n = lemma_lead(s@);
    let t = s@.skip(n);
    let m = lemma_trail(t);
    assert(r@ =~= s@.subrange(n, n + m));
    if m > 0 {
        assert(r@[0] == s@[n]);
        assert(r@.last() == t[m - 1]);
    }
    assert forall|i: int| 0 <= i < s@.len() && !(n <= i < n + r@.len()) implies white_space(
        #[trigger] s@[i],
    ) by {
        if i >= n {
            assert(t[i - n] == s@[i]);
        }
    }
    n
}

/// Spaces, tabs and line ends are white space, and so are the wide spaces; nothing that is seen
/// is. Control characters are those below the space, and those from delete to 0x9f.
pub proof fn what_is_seen_is_no_white_space(c: char, w: bool, k: bool)
    requires
        call_ensures(is_white_space, (c,), w),
        call_ensures(is_control, (c,), k),
    ensures
        w <==> {
            ||| '\t' <= c <= '\r'
            ||| c == ' '
            ||| c == '\u{85}'
            ||| c == '\u{a0}'
            ||| c == '\u{1680}'
            ||| '\u{2000}' <= c <= '\u{200a}'
            ||| c == '\u{2028}'
            ||| c == '\u{2029}'
            ||| c == '\u{202f}'
            ||| c == '\u{205f}'
            ||| c == '\u{3000}'
        },
        k <==> c < ' ' || '\u{7f}' <= c <= '\u{9f}',
{
}

proof fn lemma_precedes(a: Seq<char>, b: Seq<char>, k: int)
    requires
        0 <= k <= a.len(),
        k <= b.len(),
        forall|i: int| 0 <= i < k ==> a[i] == #[trigger] b[i],
        k < a.len() && k < b.len() ==> a[k] != b[k],
    ensures
        precedes(a, b) <==> k < b.len() && (k == a.len() || a[k] < b[k]),
        a.len() == k && b.len() > k ==> precedes(a, b),
        b.len() == k ==> !precedes(a, b),
    decreases k,
{
    if k > 0 {
        assert(a[0] == b[0]);
        let x = a.skip(1);
        let y = b.skip(1);
        assert forall|i: int| 0 <= i < k - 1 implies x[i] == #[trigger] y[i] by {
            assert(x[i] == a[i + 1] && y[i] == b[i + 1]);
        }
        if k < a.len() && k < b.len() {
            assert(x[k - 1] == a[k] && y[k - 1] == b[k]);
        }
        lemma_precedes(x, y, k - 1);
    }
}

/// Of two texts that agree up to a place the one with the smaller character there is the
/// smaller; one that ends there is smaller than one that goes on.
pub proof fn texts_are_ordered_by_their_first_difference(a: &str, b: &str, k: int, r: bool)
    requires
        call_ensures(less, (a, b), r),
        0 <= k <= a@.len(),
        k <= b@.len(),
        forall|i: int| 0 <= i < k ==> a@[i] == #[trigger] b@[i],
        k < a@.len() && k < b@.len() ==> a@[k] != b@[k],
    ensures
        k < a@.len() && k < b@.len() ==> (r <==> a@[k] < b@[k]),
        k == b@.len() ==> !r,
        k == a@.len() && k < b@.len() ==> r,
{
    lemma_precedes(a@, b@, k);
}

/// A text begins with another exactly if it is that text and something more, holds a character
/// exactly if it stands somewhere, and equals another exactly if nothing differs.
pub proof fn texts_are_compared_whole(
    s: &str,
    t: &str,
    c: char,
    opens: bool,
    holds: bool,
    equal: bool,
    length: usize,
)
    requires
        call_ensures(starts_with, (s, t), opens),
        call_ensures(has_char, (s, c), holds),
        call_ensures(same, (s, t), equal),
        call_ensures(byte_len, (s,), length),
    ensures
        opens <==> exists|rest: Seq<char>| s@ == #[trigger] (t@ + rest),
        holds <==> exists|i: int| 0 <= i < s@.len() && #[trigger] s@[i] == c,
        equal <==> s@ == t@,
        length == vstd::utf8::encode_utf8(s@).len(),
{
    if opens {
        assert(s@ =~= t@ + s@.skip(t@.len() as int));
    }
    if exists|rest: Seq<char>| s@ == #[trigger] (t@ + rest) {
        let rest = choose|rest: Seq<char>| s@ == #[trigger] (t@ + rest);
        assert(s@.take(t@.len() as int) =~= t@);
    }
}

/// A text that is filled up ends in itself, has the width or its own if that is greater, and
/// begins with zeros. Letters up to `f` become capitals, and nothing else changes.
pub proof fn numerals_are_filled_up_and_capitalized(
    s: &str,
    width: usize,
    filled: String,
    capital: String,
    i: int,
)
    requires
        call_ensures(zero_fill, (s, width), filled),
        call_ensures(to_upper_hex, (s,), capital),
    ensures
        filled@.len() == if s@.len() < width {
            width as nat
        } else {
            s@.len()
        },
        filled@.skip(filled@.len() - s@.len()) == s@,
        0 <= i < filled@.len() - s@.len() ==> filled@[i] == '0',
        capital@.len() == s@.len(),
        0 <= i < s@.len() && 'a' <= s@[i] <= 'f' ==> capital@[i] as u32 == s@[i] as u32 - 0x61
            + 0x41,
        0 <= i < s@.len() && !('a' <= s@[i] <= 'f') ==> capital@[i] == s@[i],
{
    assert(filled@.skip(filled@.len() - s@.len()) =~= s@);
    if 0 <= i < s@.len() && 'a' <= s@[i] <= 'f' {
        let c = s@[i];
        assert(capital@[i] == (c as u32 - 32) as char);
    }
}

/// A text that joins a list is followed by the separator and the next text when the list grows;
/// a list of one is that one, and an empty list is nothing.
pub proof fn lists_are_joined_one_by_one(
    shorter: &Vec<String>,
    longer: &Vec<String>,
    separator: &str,
    x: String,
    a: String,
    b: String,
)
    requires
        call_ensures(join, (shorter, separator), a),
        call_ensures(join, (longer, separator), b),
        longer@ == shorter@.push(x),
    ensures
        shorter@.len() == 0 ==> a@.len() == 0 && b@ == x@,
        shorter@.len() > 0 ==> b@ == a@ + separator@ + x@,
{
    let l = texts(longer@);
    assert(l.len() == longer@.len());
    assert(l.drop_last() =~= texts(shorter@));
    assert(l.last() == x@);
    assert(l[l.len() - 1] == x@);
}

/// Two lists are the same exactly if they have the same texts in the same order.
pub proof fn lists_are_compared_text_by_text(a: &Vec<String>, b: &Vec<String>, r: bool)
    requires
        call_ensures(same_texts, (a, b), r),
    ensures
        r <==> a@.len() == b@.len() && forall|i: int|
            0 <= i < a@.len() ==> (#[trigger] a@[i])@ == b@[i]@,
{
    assert(texts(a@).len() == a@.len() && texts(b@).len() == b@.len());
    if r {
        assert forall|i: int| 0 <= i < a@.len() implies (#[trigger] a@[i])@ == b@[i]@ by {
            assert(texts(a@)[i] == texts(b@)[i]);
        }
    }
    if a@.len() == b@.len() && forall|i: int|
        0 <= i < a@.len() ==> (#[trigger] a@[i])@ == b@[i]@ {
        assert(texts(a@) =~= texts(b@));
    }
}

proof fn lemma_behind(s: Seq<char>, c: char, k: int)
    requires
        0 <= k < s.len(),
        s[k] == c,
        forall|i: int| k < i < s.len() ==> #[trigger] s[i] != c,
    ensures
        after_last(s, c) == Some(s.skip(k + 1)),
    decreases s.len(),
{
    if k < s.len() - 1 {
        let t = s.drop_last();
        assert(s.last() == s[s.len() - 1]);
        assert forall|i: int| k < i < t.len() implies #[trigger] t[i] != c by {
            assert(t[i] == s[i]);
        }
        lemma_behind(t, c, k);
        assert(t.skip(k + 1).push(s.last()) =~= s.skip(k + 1));
    } else {
        assert(s.skip(k + 1) =~= Seq::empty());
    }
}

/// The place behind the last of a kind of character is one further than where it stands; a text
/// is taken apart into its characters and put together from them.
pub proof fn texts_are_taken_apart_at_their_characters(
    all: &Vec<char>,
    c: char,
    k: int,
    r: Option<usize>,
    text: &str,
    chars: Vec<char>,
    from: usize,
    to: usize,
    part: String,
)
    requires
        call_ensures(find_after_last, (all, c), r),
        0 <= k < all@.len(),
        all@[k] == c,
        forall|i: int| k < i < all@.len() ==> #[trigger] all@[i] != c,
        call_ensures(chars_of, (text,), chars),
        from <= to <= all@.len(),
        call_ensures(text_of, (all, from, to), part),
    ensures
        r == Some((k + 1) as usize),
        chars@ == text@,
        part@.len() == to - from,
        part@ == all@.subrange(from as int, to as int),
{
    lemma_behind(all@, c, k);
    assert(r is Some);
    assert(all@.skip(r->0 as int).len() == all@.skip(k + 1).len());
}

} // verus!
