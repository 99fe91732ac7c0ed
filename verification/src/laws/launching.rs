//! What an installed application is started with, and which one a name stands for.
use vstd::prelude::*;

use crate::backend::applications::{
    alike, all_args, ascii_lower, check_entry, eq_ignore_ascii_case, expand_exec, expanded,
    goes_by, left_out, only_one, optional_str, replacement, word_args, words_view, Chosen,
    DesktopApplication, Entry, Listing, WorkingDirectory,
};
use crate::model::{ErrorCode, Fault, FaultView};
use crate::text::texts;

verus! {

/// The ten words that stand for files, addresses or for nothing any more.
pub open spec fn openers() -> Seq<Seq<char>> {
    seq!["%f"@, "%F"@, "%u"@, "%U"@, "%d"@, "%D"@, "%n"@, "%N"@, "%v"@, "%m"@]
}

/// Whether a text holds no code.
pub open spec fn literal(s: Seq<char>) -> bool {
    forall|i: int| 0 <= i < s.len() ==> #[trigger] s[i] != '%'
}

/// Whether a text can be the program of a launch definition as it stands.
pub open spec fn program(s: Seq<char>) -> bool {
    s.len() > 0 && literal(s) && forall|i: int| 0 <= i < s.len() ==> #[trigger] s[i] != '='
}

proof fn lemma_openers(k: int)
    requires
        0 <= k < 10,
    ensures
        left_out(openers()[k]),
        openers()[k].len() == 2,
        openers()[k][0] == '%',
{
    reveal_strlit("%f");
    reveal_strlit("%F");
    reveal_strlit("%u");
    reveal_strlit("%U");
    reveal_strlit("%d");
    reveal_strlit("%D");
    reveal_strlit("%n");
    reveal_strlit("%N");
    reveal_strlit("%v");
    reveal_strlit("%m");
}

proof fn lemma_literal(word: Seq<char>, rest: Seq<char>, name: Seq<char>, file: Seq<char>)
    requires
        literal(word),
    ensures
        expanded(word + rest, name, file) == (match expanded(rest, name, file) {
            Some(t) => Some(word + t),
            None => None,
        }),
    decreases word.len(),
{
    if word.len() == 0 {
        assert(word + rest =~= rest);
        if expanded(rest, name, file) is Some {
            assert(word + expanded(rest, name, file)->0 =~= expanded(rest, name, file)->0);
        }
    } else {
        lemma_literal(word.skip(1), rest, name, file);
        assert((word + rest).skip(1) =~= word.skip(1) + rest);
        assert((word + rest)[0] == word[0]);
        if expanded(rest, name, file) is Some {
            let t = expanded(rest, name, file)->0;
            assert(seq![word[0]] + (word.skip(1) + t) =~= word + t);
        }
    }
}

proof fn lemma_whole(word: Seq<char>, name: Seq<char>, file: Seq<char>)
    requires
        literal(word),
    ensures
        expanded(word, name, file) == Some(word),
{
    lemma_literal(word, Seq::empty(), name, file);
    assert(word + Seq::<char>::empty() =~= word);
}

proof fn lemma_not_special(word: Seq<char>)
    requires
        literal(word),
    ensures
        !left_out(word),
        word != "%i"@,
{
    reveal_strlit("%f");
    reveal_strlit("%F");
    reveal_strlit("%u");
    reveal_strlit("%U");
    reveal_strlit("%d");
    reveal_strlit("%D");
    reveal_strlit("%n");
    reveal_strlit("%N");
    reveal_strlit("%v");
    reveal_strlit("%m");
    reveal_strlit("%i");
    if word.len() == 2 {
        assert(word[0] != '%');
    }
}

proof fn lemma_literal_word(
    word: Seq<char>,
    name: Seq<char>,
    file: Seq<char>,
    icon: Option<Seq<char>>,
)
    requires
        literal(word),
    ensures
        word_args(Some(word), name, file, icon) == Ok::<Seq<Seq<char>>, FaultView>(seq![word]),
{
    lemma_whole(word, name, file);
    lemma_not_special(word);
}

proof fn lemma_two(
    first: Seq<char>,
    second: Seq<char>,
    name: Seq<char>,
    file: Seq<char>,
    icon: Option<Seq<char>>,
)
    requires
        program(first),
    ensures
        all_args(seq![Some(first), Some(second)], name, file, icon) == (match word_args(
            Some(second),
            name,
            file,
            icon,
        ) {
            Ok(more) => Ok::<Seq<Seq<char>>, FaultView>(seq![first] + more),
            Err(f) => Err(f),
        }),
{
    let both = seq![Some(first), Some(second)];
    let one = seq![Some(first)];
    assert(both.drop_last() =~= one);
    assert(one.drop_last() =~= Seq::empty());
    lemma_literal_word(first, name, file, icon);
    reveal_with_fuel(all_args, 3);
    assert(Seq::<Seq<char>>::empty() + seq![first] =~= seq![first]);
}

/// What a launch definition of a program and one word becomes.
pub open spec fn started(words: Seq<Option<String>>, first: Seq<char>, second: Seq<char>) -> bool {
    &&& words.len() == 2
    &&& words[0] matches Some(a)
    &&& a@ == first
    &&& words[1] matches Some(b)
    &&& b@ == second
    &&& program(first)
}

proof fn lemma_started(words: Seq<Option<String>>, first: Seq<char>, second: Seq<char>)
    requires
        started(words, first, second),
    ensures
        words_view(words) == seq![Some(first), Some(second)],
        !first.contains('='),
{
    assert(words_view(words) =~= seq![Some(first), Some(second)]);
}

/// Nothing is opened: each of the ten words that stand for files, addresses or nothing, standing
/// alone after the program, becomes no argument.
pub proof fn words_for_files_are_left_out(
    words: &Vec<Option<String>>,
    name: &str,
    file: &str,
    icon: Option<&str>,
    r: Result<Vec<String>, Fault>,
    first: Seq<char>,
    k: int,
)
    requires
        call_ensures(expand_exec, (words, name, file, icon), r),
        0 <= k < 10,
        started(words@, first, openers()[k]),
    ensures
        r matches Ok(v) && v@.len() == 1 && v@[0]@ == first,
{
    lemma_openers(k);
    lemma_started(words@, first, openers()[k]);
    lemma_two(first, openers()[k], name@, file@, optional_str(icon));
    assert(seq![first] + Seq::<Seq<char>>::empty() =~= seq![first]);
    assert(texts(r->Ok_0@).len() == r->Ok_0@.len());
    assert(texts(r->Ok_0@)[0] == r->Ok_0@[0]@);
}

proof fn lemma_inserted(
    words: Seq<Option<Seq<char>>>,
    at: int,
    word: Seq<char>,
    name: Seq<char>,
    file: Seq<char>,
    icon: Option<Seq<char>>,
)
    requires
        0 <= at <= words.len(),
        left_out(word),
    ensures
        all_args(words.insert(at, Some(word)), name, file, icon) == all_args(
            words,
            name,
            file,
            icon,
        ),
    decreases words.len(),
{
    let more = words.insert(at, Some(word));
    if at == words.len() {
        assert(more.drop_last() =~= words);
        assert(more.last() == Some(word));
        if all_args(words, name, file, icon) is Ok {
            let a = all_args(words, name, file, icon)->Ok_0;
            assert(a + Seq::<Seq<char>>::empty() =~= a);
        }
    } else {
        lemma_inserted(words.drop_last(), at, word, name, file, icon);
        assert(more.drop_last() =~= words.drop_last().insert(at, Some(word)));
        assert(more.last() == words.last());
    }
}

/// The same holds anywhere in any launch definition: with or without such a word, what is
/// started is the same.
pub proof fn words_for_files_change_nothing(
    words: &Vec<Option<String>>,
    more: &Vec<Option<String>>,
    name: &str,
    file: &str,
    icon: Option<&str>,
    r: Result<Vec<String>, Fault>,
    s: Result<Vec<String>, Fault>,
    at: int,
    k: int,
)
    requires
        call_ensures(expand_exec, (words, name, file, icon), r),
        call_ensures(expand_exec, (more, name, file, icon), s),
        0 <= k < 10,
        0 <= at <= words@.len(),
        words_view(more@) == words_view(words@).insert(at, Some(openers()[k])),
    ensures
        r is Ok == s is Ok,
        r is Ok ==> texts(r->Ok_0@) == texts(s->Ok_0@),
        r is Err ==> r->Err_0@ == s->Err_0@,
{
    lemma_openers(k);
    lemma_inserted(words_view(words@), at, openers()[k], name@, file@, optional_str(icon));
}

proof fn lemma_plain(
    words: Seq<Option<Seq<char>>>,
    name: Seq<char>,
    file: Seq<char>,
    icon: Option<Seq<char>>,
)
    requires
        forall|i: int|
            0 <= i < words.len() ==> (#[trigger] words[i] matches Some(w) && literal(w)),
    ensures
        all_args(words, name, file, icon) matches Ok(args) && args.len() == words.len() && forall|
            i: int,
        |
            0 <= i < words.len() ==> Some(#[trigger] args[i]) == words[i],
    decreases words.len(),
{
    if words.len() > 0 {
        lemma_plain(words.drop_last(), name, file, icon);
        assert(words.last() == words[words.len() - 1]);
        lemma_literal_word(words.last()->0, name, file, icon);
    }
}

/// Words without codes become the arguments as they stand, in their order.
pub proof fn plain_words_are_kept(
    words: &Vec<Option<String>>,
    name: &str,
    file: &str,
    icon: Option<&str>,
    r: Result<Vec<String>, Fault>,
)
    requires
        call_ensures(expand_exec, (words, name, file, icon), r),
        words@.len() > 0,
        words@[0] matches Some(w) && program(w@),
        forall|i: int|
            0 <= i < words@.len() ==> (#[trigger] words@[i] matches Some(w) && literal(w@)),
    ensures
        r matches Ok(v) && v@.len() == words@.len() && forall|i: int|
            0 <= i < words@.len() ==> (#[trigger] v@[i])@ == words@[i]->0@,
{
    let w = words_view(words@);
    assert forall|i: int| 0 <= i < w.len() implies (#[trigger] w[i] matches Some(t) && literal(
        t,
    )) by {
        assert(words@[i] is Some);
    }
    lemma_plain(w, name@, file@, optional_str(icon));
    let args = all_args(w, name@, file@, optional_str(icon))->Ok_0;
    assert(w[0] == Some(words@[0]->0@));
    assert(Some(args[0]) == w[0]);
    assert(!args[0].contains('='));
    let v = r->Ok_0@;
    assert(texts(v).len() == v.len());
    assert forall|i: int| 0 <= i < words@.len() implies (#[trigger] v[i])@ == words@[i]->0@ by {
        assert(texts(v)[i] == v[i]@);
        assert(w[i] == Some(words@[i]->0@));
        assert(Some(args[i]) == w[i]);
    }
}

/// What a code within a word stands for: the name, the file of the entry, a percent sign, or
/// nothing. Whatever stands around it stays, and all of it is one argument.
pub proof fn codes_stay_within_their_word(
    words: &Vec<Option<String>>,
    name: &str,
    file: &str,
    icon: Option<&str>,
    r: Result<Vec<String>, Fault>,
    first: Seq<char>,
    before: Seq<char>,
    code: char,
    behind: Seq<char>,
)
    requires
        call_ensures(expand_exec, (words, name, file, icon), r),
        literal(before),
        literal(behind),
        before.len() + behind.len() > 0,
        started(words@, first, before + seq!['%', code] + behind),
    ensures
        code == 'c' ==> (r matches Ok(v) && v@.len() == 2 && v@[0]@ == first && v@[1]@ == before
            + name@ + behind),
        code == 'k' ==> (r matches Ok(v) && v@.len() == 2 && v@[0]@ == first && v@[1]@ == before
            + file@ + behind),
        code == '%' ==> (r matches Ok(v) && v@.len() == 2 && v@[0]@ == first && v@[1]@ == before
            + seq!['%'] + behind),
        code == 'd' || code == 'D' || code == 'n' || code == 'N' || code == 'v' || code == 'm' ==> (
        r matches Ok(v) && v@.len() == 2 && v@[0]@ == first && v@[1]@ == before + behind),
        code == 'f' || code == 'F' || code == 'u' || code == 'U' || code == 'i' || code == 'a'
            || code == 'x' ==> (r matches Err(e) && e.code == ErrorCode::Unsupported),
        r is Ok ==> code == 'c' || code == 'k' || code == '%' || code == 'd' || code == 'D' || code
            == 'n' || code == 'N' || code == 'v' || code == 'm',
{
    let word = before + seq!['%', code] + behind;
    lemma_started(words@, first, word);
    lemma_two(first, word, name@, file@, optional_str(icon));
    assert(word =~= before + (seq!['%', code] + behind));
    lemma_literal(before, seq!['%', code] + behind, name@, file@);
    let tail = seq!['%', code] + behind;
    assert(tail.skip(2) =~= behind);
    lemma_whole(behind, name@, file@);
    reveal_strlit("%f");
    reveal_strlit("%F");
    reveal_strlit("%u");
    reveal_strlit("%U");
    reveal_strlit("%d");
    reveal_strlit("%D");
    reveal_strlit("%n");
    reveal_strlit("%N");
    reveal_strlit("%v");
    reveal_strlit("%m");
    reveal_strlit("%i");
    assert(word.len() > 2);
    assert(!left_out(word));
    if r is Ok {
        let v = r->Ok_0@;
        let text = replacement(code, name@, file@)->0;
        assert(before + (text + behind) =~= before + text + behind);
        assert(texts(v).len() == v.len());
        assert(texts(v)[0] == v[0]@);
        assert(texts(v)[1] == v[1]@);
        assert(before + Seq::<char>::empty() + behind =~= before + behind);
    }
}

/// A name, a file or an icon that stands alone is an argument of its own; the icon is announced
/// as such, and left out where there is none.
pub proof fn codes_alone_are_arguments(
    words: &Vec<Option<String>>,
    name: &str,
    file: &str,
    icon: Option<&str>,
    r: Result<Vec<String>, Fault>,
    first: Seq<char>,
    second: Seq<char>,
)
    requires
        call_ensures(expand_exec, (words, name, file, icon), r),
        started(words@, first, second),
    ensures
        second == "%c"@ ==> (r matches Ok(v) && v@.len() == 2 && v@[1]@ == name@),
        second == "%k"@ ==> (r matches Ok(v) && v@.len() == 2 && v@[1]@ == file@),
        second == "%i"@ ==> match icon {
            Some(i) => if i@.len() > 0 {
                r matches Ok(v) && v@.len() == 3 && v@[1]@ == "--icon"@ && v@[2]@ == i@
            } else {
                r matches Ok(v) && v@.len() == 1
            },
            None => r matches Ok(v) && v@.len() == 1,
        },
{
    lemma_started(words@, first, second);
    lemma_two(first, second, name@, file@, optional_str(icon));
    reveal_strlit("%f");
    reveal_strlit("%F");
    reveal_strlit("%u");
    reveal_strlit("%U");
    reveal_strlit("%d");
    reveal_strlit("%D");
    reveal_strlit("%n");
    reveal_strlit("%N");
    reveal_strlit("%v");
    reveal_strlit("%m");
    reveal_strlit("%i");
    reveal_strlit("%c");
    reveal_strlit("%k");
    if second == "%c"@ || second == "%k"@ {
        assert(second[1] == 'c' || second[1] == 'k');
        assert(!left_out(second));
        assert(second != "%i"@);
        reveal_with_fuel(expanded, 3);
        assert(second.skip(2) =~= Seq::empty());
        assert(name@ + Seq::<char>::empty() =~= name@);
        assert(file@ + Seq::<char>::empty() =~= file@);
    }
    if second == "%i"@ {
        assert(second[1] == 'i');
        assert(!left_out(second));
    }
    if r is Ok {
        let v = r->Ok_0@;
        assert(texts(v).len() == v.len());
        assert forall|i: int| 0 <= i < v.len() implies texts(v)[i] == (#[trigger] v[i])@ by {}
    }
}

/// A launch definition must name a program: it does not begin with a setting or with nothing,
/// and a word that is no text spoils it.
pub proof fn launch_definitions_name_a_program(
    words: &Vec<Option<String>>,
    name: &str,
    file: &str,
    icon: Option<&str>,
    r: Result<Vec<String>, Fault>,
)
    requires
        call_ensures(expand_exec, (words, name, file, icon), r),
    ensures
        r matches Ok(v) ==> {
            &&& v@.len() > 0
            &&& v@[0]@.len() > 0
            &&& forall|i: int| 0 <= i < v@[0]@.len() ==> #[trigger] v@[0]@[i] != '='
        },
        words@.len() == 0 ==> (r matches Err(e) && e.code == ErrorCode::InvalidRequest),
        words@.len() > 0 && words@[0] is None ==> r is Err,
{
    if r is Ok {
        let v = r->Ok_0@;
        assert(texts(v).len() == v.len());
        assert(texts(v)[0] == v[0]@);
        assert forall|i: int| 0 <= i < v[0]@.len() implies #[trigger] v[0]@[i] != '=' by {
            assert(!texts(v)[0].contains('='));
        }
        if words@.len() > 0 && words@[0] is None {
            lemma_first(words_view(words@), name@, file@, optional_str(icon));
        }
    }
}

proof fn lemma_first(
    words: Seq<Option<Seq<char>>>,
    name: Seq<char>,
    file: Seq<char>,
    icon: Option<Seq<char>>,
)
    requires
        words.len() > 0,
        words[0] is None,
    ensures
        all_args(words, name, file, icon) is Err,
    decreases words.len(),
{
    if words.len() > 1 {
        lemma_first(words.drop_last(), name, file, icon);
    }
}

/// Whether two texts differ in the case of Latin letters at most.
pub open spec fn same_letters(a: Seq<char>, b: Seq<char>) -> bool {
    a.len() == b.len() && forall|i: int|
        0 <= i < a.len() ==> {
            ||| #[trigger] a[i] == b[i]
            ||| 'A' <= a[i] <= 'Z' && b[i] as int == a[i] as int + 32
            ||| 'A' <= b[i] <= 'Z' && a[i] as int == b[i] as int + 32
        }
}

proof fn lemma_letters(a: Seq<char>, b: Seq<char>)
    ensures
        alike(a, b) == same_letters(a, b),
{
    assert forall|c: char, d: char|
        (#[trigger] ascii_lower(c) == #[trigger] ascii_lower(d)) == {
            ||| c == d
            ||| 'A' <= c <= 'Z' && d as int == c as int + 32
            ||| 'A' <= d <= 'Z' && c as int == d as int + 32
        } by {}
}

/// Two texts are taken for the same name exactly if they differ in the case of Latin letters at
/// most.
pub proof fn names_differ_in_case_at_most(a: &str, b: &str, r: bool)
    requires
        call_ensures(eq_ignore_ascii_case, (a, b), r),
    ensures
        r <==> same_letters(a@, b@),
{
    lemma_letters(a@, b@);
}

/// Whether an application that is shown to the user goes by a name: as its shown name, its plain
/// name, or its program.
pub open spec fn goes_by_name(l: Listing, name: Seq<char>) -> bool {
    &&& !l.hidden
    &&& !l.no_display
    &&& {
        ||| same_letters(l.display_name@, name)
        ||| (l.name matches Some(n) && same_letters(n@, name))
        ||| (l.program matches Some(p) && same_letters(p@, name))
    }
}

proof fn lemma_goes_by(l: Listing, name: Seq<char>)
    ensures
        goes_by(l, name) == goes_by_name(l, name),
{
    lemma_letters(l.display_name@, name);
    if l.name is Some {
        lemma_letters(l.name->0@, name);
    }
    if l.program is Some {
        lemma_letters(l.program->0@, name);
    }
}

/// An identifier stands for its own entry, before any name does. A name stands for the one
/// application that goes by it, and for none where several do or none does.
pub proof fn names_stand_for_one_visible_application(
    request: &str,
    by_id: bool,
    ended: bool,
    listings: &Vec<Listing>,
    r: Result<Chosen, Fault>,
)
    requires
        call_ensures(DesktopApplication::resolve, (request, by_id, ended, listings), r),
    ensures
        by_id ==> r == Ok::<Chosen, Fault>(Chosen::ById),
        !by_id && ended ==> r == Ok::<Chosen, Fault>(Chosen::ByIdWithEnding),
        !by_id && !ended ==> {
            &&& r matches Ok(c) ==> {
                &&& c matches Chosen::Listed(k)
                &&& k < listings@.len()
                &&& goes_by_name(listings@[k as int], request@)
            }
            &&& forall|i: int, j: int|
                0 <= i < j < listings@.len() && goes_by_name(#[trigger] listings@[i], request@)
                    && goes_by_name(#[trigger] listings@[j], request@) ==> r is Err
            &&& r matches Err(e) ==> {
                &&& e.code == ErrorCode::InvalidRequest
                &&& forall|i: int|
                    0 <= i < listings@.len() && goes_by_name(#[trigger] listings@[i], request@)
                        ==> exists|j: int|
                        0 <= j < listings@.len() && j != i && goes_by_name(
                            #[trigger] listings@[j],
                            request@,
                        )
            }
        },
{
    let l = listings@;
    assert forall|i: int| 0 <= i < l.len() implies goes_by(#[trigger] l[i], request@)
        == goes_by_name(l[i], request@) by {
        lemma_goes_by(l[i], request@);
    }
    if !by_id && !ended && r is Err {
        assert forall|i: int|
            0 <= i < l.len() && goes_by_name(#[trigger] l[i], request@) implies exists|j: int|
            0 <= j < l.len() && j != i && goes_by_name(#[trigger] l[j], request@) by {
            assert(!only_one(listings@, request@, i));
        }
    }
}

/// An entry is launched only where it is neither hidden nor needs a terminal, and has a file
/// and a launch definition.
pub proof fn entries_are_launched_where_they_can_be(e: &Entry, r: Result<(), Fault>)
    requires
        call_ensures(check_entry, (e,), r),
    ensures
        r is Ok <==> !e.hidden && !e.terminal && e.has_file && e.has_exec,
        r matches Err(f) ==> f.code == ErrorCode::Unsupported,
{
}

/// An application runs the program that was found with the words behind the program's, in the
/// directory of its entry if that is a whole path that exists, under the entry's identifier or
/// else its file.
pub proof fn applications_run_what_was_found(
    id: Option<String>,
    name: String,
    argv: Vec<String>,
    program: Option<Vec<u8>>,
    directory: Option<WorkingDirectory>,
    desktop_file: Vec<u8>,
    file_text: &str,
    r: Result<DesktopApplication, Fault>,
)
    requires
        call_ensures(
            DesktopApplication::from_parts,
            (id, name, argv, program, directory, desktop_file, file_text),
            r,
        ),
        argv@.len() > 0,
    ensures
        program is None ==> (r matches Err(e) && e.code == ErrorCode::BackendUnavailable
            && e.message@ == "桌面条目的启动程序不存在或不可执行"@),
        r is Ok ==> program is Some,
        r matches Ok(app) ==> {
            &&& app.program@ == program->0@
            &&& app.name@ == name@
            &&& app.desktop_file@ == desktop_file@
            &&& id matches Some(s) ==> app.id@ == s@
            &&& id is None ==> app.id@ == file_text@
            &&& app.args@.len() == argv@.len() - 1
            &&& forall|i: int| 1 <= i < argv@.len() ==> app.args@[i - 1]@ == (#[trigger] argv@[i])@
            &&& app.directory matches Some(d) ==> {
                &&& directory matches Some(w)
                &&& w.exists
                &&& d@ == w.path@
                &&& d@.len() > 0
                &&& d@[0] == 47
            }
            &&& app.directory is None ==> directory is None || directory->0.path@.len() == 0
        },
        program is Some && (directory is None || directory->0.path@.len() == 0) ==> r is Ok,
        program is Some && directory is Some && directory->0.path@.len() > 0 ==> (r is Ok <==> {
            &&& directory->0.exists
            &&& directory->0.path@[0] == 47
        }),
{
    if r is Ok {
        let app = r->Ok_0;
        assert(texts(app.args@).len() == app.args@.len());
        assert(texts(argv@).skip(1).len() == argv@.len() - 1);
        assert forall|i: int| 1 <= i < argv@.len() implies app.args@[i - 1]@ == (
        #[trigger] argv@[i])@ by {
            assert(texts(app.args@)[i - 1] == app.args@[i - 1]@);
            assert(texts(argv@).skip(1)[i - 1] == argv@[i]@);
        }
    }
}

} // verus!
