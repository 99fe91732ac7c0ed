//! Text helpers: comparison, classification, numerals and words.
use vstd::prelude::*;

verus! {

/// `String::push`: the character becomes the last one of the text.
pub assume_specification[ String::push ](s: &mut String, c: char)
    ensures
        final(s)@ == old(s)@.push(c),
;

/// Whether two texts are equal.
pub fn same(a: &str, b: &str) -> (r: bool)
    ensures
        r == (a@ == b@),
{
    a.to_owned() == b.to_owned()
}

/// Number of bytes of a text in UTF-8.
pub open spec fn bytes(s: Seq<char>) -> nat {
    vstd::utf8::encode_utf8(s).len()
}

/// Number of bytes of a text in UTF-8.
pub fn byte_len(s: &str) -> (r: usize)
    ensures
        r == bytes(s@),
{
    s.as_bytes().len()
}

/// Control characters (general category Cc).
pub open spec fn control(c: char) -> bool {
    c as u32 <= 0x1f || 0x7f <= c as u32 <= 0x9f
}

/// Whether a character is a control character.
pub fn is_control(c: char) -> (r: bool)
    ensures
        r == control(c),
{
    let n: u32 = c as u32;
    n <= 0x1f || (0x7f <= n && n <= 0x9f)
}

/// Characters with the property White_Space.
pub open spec fn white_space(c: char) -> bool {
    let n = c as u32;
    ||| 0x09 <= n <= 0x0d
    ||| n == 0x20
    ||| n == 0x85
    ||| n == 0xa0
    ||| n == 0x1680
    ||| 0x2000 <= n <= 0x200a
    ||| n == 0x2028
    ||| n == 0x2029
    ||| n == 0x202f
    ||| n == 0x205f
    ||| n == 0x3000
}

/// Whether a character separates words.
pub fn is_white_space(c: char) -> (r: bool)
    ensures
        r == white_space(c),
{
    let n: u32 = c as u32;
    (0x09 <= n && n <= 0x0d) || n == 0x20 || n == 0x85 || n == 0xa0 || n == 0x1680 || (0x2000 <= n
        && n <= 0x200a) || n == 0x2028 || n == 0x2029 || n == 0x202f || n == 0x205f || n == 0x3000
}

/// The characters of a text.
pub fn chars_of(s: &str) -> (r: Vec<char>)
    ensures
        r@ == s@,
{
    let mut v: Vec<char> = Vec::new();
    for c in it: s.chars()
        invariant
            v@ == s@.take(it.index()),
            it.seq() == s@,
    {
        v.push(c);
    }
    assert(s@.take(s@.len() as int) == s@);
    v
}

/// The text made of a run of characters.
pub fn text_of(chars: &Vec<char>, from: usize, to: usize) -> (r: String)
    requires
        from <= to <= chars@.len(),
    ensures
        r@ == chars@.subrange(from as int, to as int),
{
    let mut s = String::new();
    let mut i: usize = from;
    while i < to
        invariant
            from <= i <= to <= chars@.len(),
            s@ == chars@.subrange(from as int, i as int),
        decreases to - i,
    {
        s.push(chars[i]);
        i = i + 1;
        assert(chars@.subrange(from as int, i as int).drop_last() == chars@.subrange(from as int, i - 1));
    }
    s
}

/// Whether a text begins with another.
pub open spec fn begins(s: Seq<char>, prefix: Seq<char>) -> bool {
    prefix.len() <= s.len() && s.take(prefix.len() as int) == prefix
}

fn matches_at(s: &Vec<char>, at: usize, part: &Vec<char>) -> (r: bool)
    requires
        at + part@.len() <= s@.len(),
    ensures
        r == (s@.subrange(at as int, at + part@.len()) == part@),
{
    let mut i: usize = 0;
    let end: usize = s.len();
    while i < part.len()
        invariant
            end == s@.len(),
            i <= part@.len(),
            at + part@.len() <= s@.len(),
            forall|j: int| 0 <= j < i ==> s@[at + j] == part@[j],
        decreases part@.len() - i,
    {
        if s[at + i] != part[i] {
            assert(s@.subrange(at as int, at + part@.len())[i as int] != part@[i as int]);
            return false;
        }
        i = i + 1;
    }
    assert(s@.subrange(at as int, at + part@.len()) =~= part@);
    true
}

/// Whether a text begins with another.
pub fn starts_with(s: &str, prefix: &str) -> (r: bool)
    ensures
        r == begins(s@, prefix@),
{
    let all = chars_of(s);
    let part = chars_of(prefix);
    if part.len() > all.len() {
        return false;
    }
    assert(all@.subrange(0, part@.len() as int) == all@.take(part@.len() as int));
    matches_at(&all, 0, &part)
}

/// Whether a character occurs in a text.
pub fn has_char(s: &str, c: char) -> (r: bool)
    ensures
        r == s@.contains(c),
{
    let all = chars_of(s);
    let mut i: usize = 0;
    while i < all.len()
        invariant
            i <= all@.len(),
            all@ == s@,
            forall|j: int| 0 <= j < i ==> all@[j] != c,
        decreases all@.len() - i,
    {
        if all[i] == c {
            assert(s@[i as int] == c);
            return true;
        }
        i = i + 1;
    }
    false
}

/// The digit of a value below the base, with letters in lower case.
pub open spec fn digit(n: nat) -> char {
    if n < 10 {
        (48 + n) as char
    } else {
        (87 + n) as char
    }
}

/// A number written in a base of at most sixteen, without leading zeros.
pub open spec fn numeral(n: nat, base: nat) -> Seq<char>
    decreases n,
{
    if base < 2 || n < base {
        seq![digit(n)]
    } else {
        proof {
            assert(n / base < n) by (nonlinear_arith)
                requires
                    n >= base,
                    base >= 2,
            ;
        }
        numeral(n / base, base).push(digit(n % base))
    }
}

/// A text filled up with zeros on the left to a width.
pub open spec fn zero_filled(s: Seq<char>, width: nat) -> Seq<char> {
    if s.len() < width {
        Seq::new((width - s.len()) as nat, |i: int| '0') + s
    } else {
        s
    }
}

/// Letters of hexadecimal digits in upper case.
pub open spec fn upper_hex(s: Seq<char>) -> Seq<char> {
    s.map_values(|c: char| if 'a' <= c && c <= 'f' { (c as u32 - 32) as char } else { c })
}

fn digit_char(n: u64) -> (r: char)
    requires
        n < 16,
    ensures
        r == digit(n as nat),
{
    if n == 0 {
        '0'
    } else if n == 1 {
        '1'
    } else if n == 2 {
        '2'
    } else if n == 3 {
        '3'
    } else if n == 4 {
        '4'
    } else if n == 5 {
        '5'
    } else if n == 6 {
        '6'
    } else if n == 7 {
        '7'
    } else if n == 8 {
        '8'
    } else if n == 9 {
        '9'
    } else if n == 10 {
        'a'
    } else if n == 11 {
        'b'
    } else if n == 12 {
        'c'
    } else if n == 13 {
        'd'
    } else if n == 14 {
        'e'
    } else {
        'f'
    }
}

/// A number written in a base of at most sixteen.
pub fn to_base(n: u64, base: u64) -> (r: String)
    requires
        2 <= base <= 16,
    ensures
        r@ == numeral(n as nat, base as nat),
    decreases n,
{
    if n < base {
        let mut s = String::new();
        s.push(digit_char(n));
        s
    } else {
        assert(n / base < n) by (nonlinear_arith)
            requires
                n >= base,
                base >= 2,
        ;
        let mut s = to_base(n / base, base);
        s.push(digit_char(n % base));
        s
    }
}

/// A number in decimal.
pub fn decimal(n: u64) -> (r: String)
    ensures
        r@ == numeral(n as nat, 10),
{
    to_base(n, 10)
}

/// Fills a text up with zeros on the left.
pub fn zero_fill(s: &str, width: usize) -> (r: String)
    ensures
        r@ == zero_filled(s@, width as nat),
{
    let all = chars_of(s);
    let mut out = String::new();
    let mut i: usize = all.len();
    let ghost start = i;
    while i < width
        invariant
            all@ == s@,
            start == all@.len(),
            start <= i,
            i <= width || i == start,
            out@ == Seq::new((i - start) as nat, |j: int| '0'),
        decreases width - i,
    {
        out.push('0');
        i = i + 1;
        assert(out@ =~= Seq::new((i - start) as nat, |j: int| '0'));
    }
    out.append(s);
    assert(out@ =~= zero_filled(s@, width as nat));
    out
}

/// Writes hexadecimal letters in upper case.
pub fn to_upper_hex(s: &str) -> (r: String)
    ensures
        r@ == upper_hex(s@),
{
    let all = chars_of(s);
    let mut out = String::new();
    let mut i: usize = 0;
    while i < all.len()
        invariant
            i <= all@.len(),
            all@ == s@,
            out@ == upper_hex(s@.take(i as int)),
        decreases all@.len() - i,
    {
        let c = all[i];
        let u = if c == 'a' {
            'A'
        } else if c == 'b' {
            'B'
        } else if c == 'c' {
            'C'
        } else if c == 'd' {
            'D'
        } else if c == 'e' {
            'E'
        } else if c == 'f' {
            'F'
        } else {
            c
        };
        out.push(u);
        i = i + 1;
        assert(out@ =~= upper_hex(s@.take(i as int)));
    }
    assert(s@.take(s@.len() as int) == s@);
    out
}

/// Joins texts: each follows the one before it, with the separator between.
pub open spec fn joined(parts: Seq<Seq<char>>, separator: Seq<char>) -> Seq<char>
    decreases parts.len(),
{
    if parts.len() == 0 {
        Seq::empty()
    } else if parts.len() == 1 {
        parts[0]
    } else {
        joined(parts.drop_last(), separator) + separator + parts.last()
    }
}

/// The texts that a vector holds.
pub open spec fn texts(v: Seq<String>) -> Seq<Seq<char>> {
    v.map_values(|s: String| s@)
}

/// Joins texts with a separator.
pub fn join(parts: &Vec<String>, separator: &str) -> (r: String)
    ensures
        r@ == joined(texts(parts@), separator@),
{
    let mut out = String::new();
    let mut i: usize = 0;
    while i < parts.len()
        invariant
            i <= parts@.len(),
            out@ == joined(texts(parts@).take(i as int), separator@),
        decreases parts@.len() - i,
    {
        if i > 0 {
            out.append(separator);
        }
        out.append(parts[i].as_str());
        i = i + 1;
        assert(texts(parts@).take(i as int).drop_last() == texts(parts@).take(i - 1));
    }
    assert(texts(parts@).take(parts@.len() as int) == texts(parts@));
    out
}

/// Copies a list of texts.
pub fn copy_texts(v: &Vec<String>) -> (r: Vec<String>)
    ensures
        r@ == v@,
{
    let r = v.clone();
    assert(r@ =~= v@);
    r
}

/// Length of the word at the start of a text: what stands before the first white space.
pub open spec fn word_length(s: Seq<char>) -> nat
    decreases s.len(),
{
    if s.len() == 0 || white_space(s[0]) {
        0
    } else {
        1 + word_length(s.drop_first())
    }
}

/// The words of a text: its longest runs without white space, in order.
pub open spec fn words(s: Seq<char>) -> Seq<Seq<char>>
    decreases s.len(),
{
    if s.len() == 0 {
        Seq::empty()
    } else if white_space(s[0]) {
        words(s.drop_first())
    } else {
        let n = word_length(s);
        if 0 < n <= s.len() {
            seq![s.take(n as int)] + words(s.skip(n as int))
        } else {
            Seq::empty()
        }
    }
}

proof fn lemma_word_length(s: Seq<char>, n: int)
    requires
        0 <= n <= s.len(),
        forall|j: int| 0 <= j < n ==> !white_space(#[trigger] s[j]),
        n < s.len() ==> white_space(s[n]),
    ensures
        word_length(s) == n,
    decreases n,
{
    if n > 0 {
        let t = s.drop_first();
        assert forall|j: int| 0 <= j < n - 1 implies !white_space(#[trigger] t[j]) by {
            assert(t[j] == s[j + 1]);
        }
        if n < s.len() {
            assert(t[n - 1] == s[n]);
        }
        lemma_word_length(t, n - 1);
    }
}

/// Splits the characters from a place on into words.
pub fn split_words(all: &Vec<char>, from: usize) -> (r: Vec<String>)
    requires
        from <= all@.len(),
    ensures
        texts(r@) == words(all@.skip(from as int)),
{
    let mut out: Vec<String> = Vec::new();
    let mut i: usize = from;
    assert(texts(out@) + words(all@.skip(i as int)) =~= words(all@.skip(from as int)));
    while i < all.len()
        invariant
            from <= i <= all@.len(),
            texts(out@) + words(all@.skip(i as int)) == words(all@.skip(from as int)),
        decreases all@.len() - i,
    {
        let ghost rest = all@.skip(i as int);
        if is_white_space(all[i]) {
            assert(rest.drop_first() == all@.skip(i + 1));
            i = i + 1;
        } else {
            let start: usize = i;
            while i < all.len() && !is_white_space(all[i])
                invariant
                    start <= i <= all@.len(),
                    forall|j: int| start <= j < i ==> !white_space(#[trigger] all@[j]),
                decreases all@.len() - i,
            {
                i = i + 1;
            }
            proof {
                let n = (i - start) as int;
                assert forall|j: int| 0 <= j < n implies !white_space(#[trigger] rest[j]) by {
                    assert(rest[j] == all@[start + j]);
                }
                if n < rest.len() {
                    assert(rest[n] == all@[i as int]);
                }
                lemma_word_length(rest, n);
                assert(rest.take(n) == all@.subrange(start as int, i as int));
                assert(rest.skip(n) == all@.skip(i as int));
            }
            let ghost before = out@;
            out.push(text_of(all, start, i));
            proof {
                assert(texts(out@) =~= texts(before).push(all@.subrange(start as int, i as int)));
                assert(texts(out@) + words(all@.skip(i as int)) =~= texts(before) + words(rest));
            }
        }
    }
    assert(words(all@.skip(i as int)) == Seq::<Seq<char>>::empty());
    assert(texts(out@) =~= words(all@.skip(from as int)));
    out
}

/// Whether a character is a decimal digit.
pub open spec fn decimal_digit(c: char) -> bool {
    '0' <= c && c <= '9'
}

/// The number that a run of decimal digits stands for.
pub open spec fn digits_value(s: Seq<char>) -> nat
    decreases s.len(),
{
    if s.len() == 0 {
        0
    } else {
        digits_value(s.drop_last()) * 10 + (s.last() as u32 - 48) as nat
    }
}

/// Whether every character is a decimal digit.
pub open spec fn all_digits(s: Seq<char>) -> bool {
    forall|i: int| 0 <= i < s.len() ==> decimal_digit(#[trigger] s[i])
}

/// A text without its leading plus sign.
pub open spec fn without_plus(s: Seq<char>) -> Seq<char> {
    if s.len() > 0 && s[0] == '+' {
        s.drop_first()
    } else {
        s
    }
}

/// A whole number as `str::parse` takes it: digits after an optional plus sign, up to a
/// greatest value.
pub open spec fn parsed(s: Seq<char>, most: nat) -> Option<nat> {
    let digits = without_plus(s);
    if digits.len() > 0 && all_digits(digits) && digits_value(digits) <= most {
        Some(digits_value(digits))
    } else {
        None
    }
}

proof fn lemma_digits_grow(s: Seq<char>, n: int)
    requires
        0 <= n <= s.len(),
        all_digits(s),
    ensures
        digits_value(s.take(n)) <= digits_value(s),
    decreases s.len() - n,
{
    if n < s.len() {
        lemma_digits_grow(s, n + 1);
        assert(s.take(n + 1).drop_last() == s.take(n));
    } else {
        assert(s.take(n) == s);
    }
}

/// Reads a whole number up to a greatest value.
pub fn parse_number(s: &str, most: u64) -> (r: Option<u64>)
    ensures
        match r {
            Some(n) => parsed(s@, most as nat) == Some(n as nat),
            None => parsed(s@, most as nat) is None,
        },
{
    let all = chars_of(s);
    let start: usize = if all.len() > 0 && all[0] == '+' {
        1
    } else {
        0
    };
    let ghost digits = without_plus(s@);
    proof {
        assert(digits =~= all@.skip(start as int));
    }
    if start == all.len() {
        return None;
    }
    let mut i: usize = start;
    let mut n: u64 = 0;
    assert(digits.take(0) =~= Seq::<char>::empty());
    while i < all.len()
        invariant
            start <= i <= all@.len(),
            start <= 1,
            start < all@.len(),
            all@ == s@,
            digits == all@.skip(start as int),
            digits == without_plus(s@),
            n == digits_value(digits.take(i - start)),
            n <= most,
            forall|j: int| 0 <= j < i - start ==> decimal_digit(#[trigger] digits[j]),
        decreases all@.len() - i,
    {
        let c = all[i];
        assert(digits[i - start] == c);
        if c < '0' || '9' < c {
            assert(!decimal_digit(digits[i - start]));
            return None;
        }
        let code: u32 = c as u32;
        let d: u64 = (code - 48) as u64;
        proof {
            assert(digits.take(i + 1 - start).drop_last() == digits.take(i - start));
            assert(digits_value(digits.take(i + 1 - start)) == n * 10 + d);
        }
        let wide: u128 = n as u128 * 10 + d as u128;
        if wide > most as u128 {
            proof {
                if all_digits(digits) {
                    lemma_digits_grow(digits, i + 1 - start);
                }
            }
            return None;
        }
        n = wide as u64;
        i = i + 1;
    }
    assert(digits.take(digits.len() as int) == digits);
    Some(n)
}

/// Place of the first of a kind of character from a place on, or the end.
pub open spec fn find_from(s: Seq<char>, c: char, from: int) -> int
    decreases s.len() - from,
{
    if from < 0 || from >= s.len() {
        s.len() as int
    } else if s[from] == c {
        from
    } else {
        find_from(s, c, from + 1)
    }
}

/// The parts of a text between separators, empty ones too.
pub open spec fn split_on(s: Seq<char>, c: char) -> Seq<Seq<char>>
    decreases s.len(),
{
    let k = find_from(s, c, 0);
    if 0 <= k < s.len() {
        seq![s.take(k)] + split_on(s.skip(k + 1), c)
    } else {
        seq![s]
    }
}

proof fn lemma_find(s: Seq<char>, c: char, from: int, k: int)
    requires
        0 <= from <= k <= s.len(),
        forall|j: int| from <= j < k ==> s[j] != c,
        k < s.len() ==> s[k] == c,
    ensures
        find_from(s, c, from) == k,
    decreases k - from,
{
    if from < k {
        lemma_find(s, c, from + 1, k);
    }
}

/// Splits a text at every separator.
pub fn split(s: &str, c: char) -> (r: Vec<String>)
    ensures
        texts(r@) == split_on(s@, c),
{
    let all = chars_of(s);
    let mut out: Vec<String> = Vec::new();
    let mut start: usize = 0;
    let mut i: usize = 0;
    assert(all@.skip(0) =~= all@);
    assert(texts(out@) + split_on(all@.skip(0), c) =~= split_on(s@, c));
    while i < all.len()
        invariant
            start <= i <= all@.len(),
            all@ == s@,
            forall|j: int| start <= j < i ==> all@[j] != c,
            texts(out@) + split_on(all@.skip(start as int), c) == split_on(s@, c),
        decreases all@.len() - i,
    {
        if all[i] == c {
            let ghost rest = all@.skip(start as int);
            let ghost was = texts(out@);
            out.push(text_of(&all, start, i));
            proof {
                assert forall|j: int| 0 <= j < i - start implies rest[j] != c by {
                    assert(rest[j] == all@[start + j]);
                }
                assert(rest[i - start] == c);
                lemma_find(rest, c, 0, i - start);
                assert(rest.take(i - start) =~= all@.subrange(start as int, i as int));
                assert(rest.skip(i - start + 1) =~= all@.skip(i + 1));
                assert(texts(out@) =~= was.push(rest.take(i - start)));
                assert(texts(out@) + split_on(all@.skip(i + 1), c) =~= was + split_on(rest, c));
            }
            start = i + 1;
        }
        i = i + 1;
    }
    let ghost rest = all@.skip(start as int);
    let ghost was = texts(out@);
    out.push(text_of(&all, start, i));
    proof {
        assert forall|j: int| 0 <= j < i - start implies rest[j] != c by {
            assert(rest[j] == all@[start + j]);
        }
        lemma_find(rest, c, 0, i - start);
        assert(rest =~= all@.subrange(start as int, i as int));
        assert(texts(out@) =~= was + split_on(rest, c));
    }
    out
}

/// What follows the last of a kind of character, if there is any.
pub open spec fn after_last(s: Seq<char>, c: char) -> Option<Seq<char>>
    decreases s.len(),
{
    if s.len() == 0 {
        None
    } else if s.last() == c {
        Some(Seq::empty())
    } else {
        match after_last(s.drop_last(), c) {
            Some(rest) => Some(rest.push(s.last())),
            None => None,
        }
    }
}

proof fn lemma_after_last(s: Seq<char>, c: char, k: int)
    requires
        0 <= k < s.len(),
        s[k] == c,
        forall|j: int| k < j < s.len() ==> s[j] != c,
    ensures
        after_last(s, c) == Some(s.skip(k + 1)),
    decreases s.len(),
{
    if k == s.len() - 1 {
        assert(s.skip(k + 1) =~= Seq::empty());
    } else {
        lemma_after_last(s.drop_last(), c, k);
        assert(s.skip(k + 1) =~= s.drop_last().skip(k + 1).push(s.last()));
    }
}

proof fn lemma_no_last(s: Seq<char>, c: char)
    requires
        forall|j: int| 0 <= j < s.len() ==> s[j] != c,
    ensures
        after_last(s, c) is None,
    decreases s.len(),
{
    if s.len() > 0 {
        lemma_no_last(s.drop_last(), c);
    }
}

/// Place behind the last of a kind of character, if there is any.
pub fn find_after_last(all: &Vec<char>, c: char) -> (r: Option<usize>)
    ensures
        match r {
            Some(k) => k <= all@.len() && after_last(all@, c) == Some(all@.skip(k as int)),
            None => after_last(all@, c) is None,
        },
{
    let mut i: usize = all.len();
    while i > 0
        invariant
            i <= all@.len(),
            forall|j: int| i <= j < all@.len() ==> all@[j] != c,
        decreases i,
    {
        if all[i - 1] == c {
            proof {
                lemma_after_last(all@, c, i - 1);
            }
            return Some(i);
        }
        i = i - 1;
    }
    proof {
        lemma_no_last(all@, c);
    }
    None
}

/// Whether a text stands before another in the order of characters.
pub open spec fn precedes(a: Seq<char>, b: Seq<char>) -> bool
    decreases a.len(),
{
    if b.len() == 0 {
        false
    } else if a.len() == 0 {
        true
    } else if a[0] != b[0] {
        a[0] < b[0]
    } else {
        precedes(a.skip(1), b.skip(1))
    }
}

/// Whether a text stands before another.
pub fn less(a: &str, b: &str) -> (r: bool)
    ensures
        r == precedes(a@, b@),
{
    let x = chars_of(a);
    let y = chars_of(b);
    let mut i: usize = 0;
    assert(x@.skip(0) =~= a@);
    assert(y@.skip(0) =~= b@);
    while i < x.len() && i < y.len()
        invariant
            i <= x@.len(),
            i <= y@.len(),
            precedes(a@, b@) == precedes(x@.skip(i as int), y@.skip(i as int)),
        decreases x@.len() - i,
    {
        let ghost p = x@.skip(i as int);
        let ghost q = y@.skip(i as int);
        assert(p[0] == x@[i as int] && q[0] == y@[i as int]);
        assert(p.skip(1) =~= x@.skip(i + 1));
        assert(q.skip(1) =~= y@.skip(i + 1));
        if x[i] != y[i] {
            return x[i] < y[i];
        }
        i = i + 1;
    }
    i < y.len()
}

/// The order of texts is strict.
pub proof fn no_text_precedes_itself(a: Seq<char>)
    ensures
        !precedes(a, a),
    decreases a.len(),
{
    if a.len() > 0 {
        no_text_precedes_itself(a.skip(1));
    }
}

/// Of two different texts one precedes the other.
pub proof fn texts_are_ordered(a: Seq<char>, b: Seq<char>)
    requires
        a != b,
    ensures
        precedes(a, b) || precedes(b, a),
    decreases a.len(),
{
    if a.len() > 0 && b.len() > 0 && a[0] == b[0] {
        if a.skip(1) == b.skip(1) {
            assert(a.skip(1).len() == a.len() - 1);
            assert(b.skip(1).len() == b.len() - 1);
            assert forall|i: int| 0 <= i < a.len() implies a[i] == b[i] by {
                if i > 0 {
                    assert(a[i] == a.skip(1)[i - 1]);
                    assert(b[i] == b.skip(1)[i - 1]);
                }
            }
            assert(a.len() == b.len());
            assert(a =~= b);
        }
        texts_are_ordered(a.skip(1), b.skip(1));
    } else if a.len() == 0 && b.len() == 0 {
        assert(a =~= b);
    }
}

/// What precedes something that precedes a text precedes that text.
pub proof fn precedence_is_transitive(a: Seq<char>, b: Seq<char>, c: Seq<char>)
    requires
        precedes(a, b),
        precedes(b, c),
    ensures
        precedes(a, c),
    decreases a.len(),
{
    if a.len() > 0 && b.len() > 0 && c.len() > 0 && a[0] == b[0] && b[0] == c[0] {
        precedence_is_transitive(a.skip(1), b.skip(1), c.skip(1));
    }
}

/// A text without the white space that it begins with.
pub open spec fn without_lead(s: Seq<char>) -> Seq<char>
    decreases s.len(),
{
    if s.len() > 0 && white_space(s[0]) {
        without_lead(s.skip(1))
    } else {
        s
    }
}

/// A text without the white space that it ends with.
pub open spec fn without_trail(s: Seq<char>) -> Seq<char>
    decreases s.len(),
{
    if s.len() > 0 && white_space(s.last()) {
        without_trail(s.drop_last())
    } else {
        s
    }
}

/// A text without the white space around it.
pub fn trim(s: &str) -> (r: String)
    ensures
        r@ == without_trail(without_lead(s@)),
{
    let all = chars_of(s);
    let n: usize = all.len();
    let mut from: usize = 0;
    assert(all@.skip(0) =~= s@);
    while from < n && is_white_space(all[from])
        invariant
            from <= n,
            n == all@.len(),
            without_lead(s@) == without_lead(all@.skip(from as int)),
        decreases n - from,
    {
        assert(all@.skip(from as int)[0] == all@[from as int]);
        assert(all@.skip(from as int).skip(1) =~= all@.skip(from + 1));
        from = from + 1;
    }
    let ghost rest = all@.skip(from as int);
    proof {
        if from < n {
            assert(rest[0] == all@[from as int]);
        }
        assert(without_lead(s@) == rest);
    }
    let mut to: usize = n;
    assert(all@.subrange(from as int, n as int) =~= rest);
    while to > from && is_white_space(all[to - 1])
        invariant
            from <= to <= n,
            n == all@.len(),
            without_trail(rest) == without_trail(all@.subrange(from as int, to as int)),
        decreases to,
    {
        let ghost t = all@.subrange(from as int, to as int);
        assert(t.last() == all@[to - 1]);
        assert(t.drop_last() =~= all@.subrange(from as int, to - 1));
        to = to - 1;
    }
    proof {
        let t = all@.subrange(from as int, to as int);
        if to > from {
            assert(t.last() == all@[to - 1]);
        }
        assert(without_trail(t) == t);
    }
    text_of(&all, from, to)
}

/// Whether two lists of texts are equal.
pub fn same_texts(a: &Vec<String>, b: &Vec<String>) -> (r: bool)
    ensures
        r == (texts(a@) == texts(b@)),
{
    assert(texts(a@).len() == a@.len() && texts(b@).len() == b@.len());
    if a.len() != b.len() {
        return false;
    }
    let mut i: usize = 0;
    while i < a.len()
        invariant
            i <= a@.len(),
            a@.len() == b@.len(),
            forall|j: int| 0 <= j < i ==> #[trigger] texts(a@)[j] == texts(b@)[j],
        decreases a@.len() - i,
    {
        assert(texts(a@)[i as int] == a@[i as int]@);
        assert(texts(b@)[i as int] == b@[i as int]@);
        if !same(a[i].as_str(), b[i].as_str()) {
            return false;
        }
        i = i + 1;
    }
    assert(texts(a@) =~= texts(b@));
    true
}

} // verus!
