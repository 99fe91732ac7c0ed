//! Installed applications that a client may ask for by name. Their launch definition comes
//! from the local desktop entry; no command or argument of a client is taken.
use vstd::prelude::*;

use crate::model::{fault, optional, ErrorCode, Fault, FaultView};
use crate::path::{absolute, is_absolute};
use crate::text::{chars_of, copy_texts, has_char, same, texts};

verus! {

/// An installed application.
#[derive(Debug)]
pub struct DesktopApplication {
    pub id: String,
    pub name: String,
    pub program: Vec<u8>,
    pub args: Vec<String>,
    pub directory: Option<Vec<u8>>,
    pub desktop_file: Vec<u8>,
}

/// An installed application by its values.
#[verifier::ext_equal]
pub struct ApplicationView {
    pub id: Seq<char>,
    pub name: Seq<char>,
    pub program: Seq<u8>,
    pub args: Seq<Seq<char>>,
    pub directory: Option<Seq<u8>>,
    pub desktop_file: Seq<u8>,
}

impl View for DesktopApplication {
    type V = ApplicationView;

    open spec fn view(&self) -> ApplicationView {
        ApplicationView {
            id: self.id@,
            name: self.name@,
            program: self.program@,
            args: texts(self.args@),
            directory: match self.directory {
                Some(d) => Some(d@),
                None => None,
            },
            desktop_file: self.desktop_file@,
        }
    }
}

fn copy_bytes(v: &Vec<u8>) -> (r: Vec<u8>)
    ensures
        r@ == v@,
{
    let r = v.clone();
    assert(r@ =~= v@);
    r
}

impl Clone for DesktopApplication {
    fn clone(&self) -> (r: Self)
        ensures
            r@ == self@,
    {
        DesktopApplication {
            id: self.id.clone(),
            name: self.name.clone(),
            program: copy_bytes(&self.program),
            args: copy_texts(&self.args),
            directory: match &self.directory {
                Some(d) => Some(copy_bytes(d)),
                None => None,
            },
            desktop_file: copy_bytes(&self.desktop_file),
        }
    }
}

/// A letter of the Latin alphabet in lower case; any other character as it is.
pub open spec fn ascii_lower(c: char) -> char {
    if 'A' <= c && c <= 'Z' {
        (c as u32 + 32) as char
    } else {
        c
    }
}

/// Whether two texts differ at most in the case of Latin letters.
pub open spec fn alike(a: Seq<char>, b: Seq<char>) -> bool {
    a.len() == b.len() && forall|i: int|
        0 <= i < a.len() ==> ascii_lower(#[trigger] a[i]) == ascii_lower(b[i])
}

fn lower_code(c: char) -> (r: u32)
    ensures
        r == ascii_lower(c) as u32,
{
    let n: u32 = c as u32;
    if 65 <= n && n <= 90 {
        n + 32
    } else {
        n
    }
}

/// Whether two texts differ at most in the case of Latin letters.
pub fn eq_ignore_ascii_case(a: &str, b: &str) -> (r: bool)
    ensures
        r == alike(a@, b@),
{
    let x = chars_of(a);
    let y = chars_of(b);
    if x.len() != y.len() {
        return false;
    }
    let mut i: usize = 0;
    while i < x.len()
        invariant
            i <= x@.len(),
            x@.len() == y@.len(),
            x@ == a@,
            y@ == b@,
            forall|j: int| 0 <= j < i ==> ascii_lower(#[trigger] a@[j]) == ascii_lower(b@[j]),
        decreases x@.len() - i,
    {
        if lower_code(x[i]) != lower_code(y[i]) {
            assert(ascii_lower(a@[i as int]) != ascii_lower(b@[i as int]));
            return false;
        }
        i = i + 1;
    }
    true
}

/// What is known of an installed application before it is chosen.
#[derive(Debug)]
pub struct Listing {
    pub hidden: bool,
    pub no_display: bool,
    pub display_name: String,
    pub name: Option<String>,
    /// Name of the program file.
    pub program: Option<String>,
}

/// Whether a visible application goes by a name: its shown name, its plain name or its
/// program.
pub open spec fn goes_by(l: Listing, request: Seq<char>) -> bool {
    &&& !l.hidden
    &&& !l.no_display
    &&& alike(l.display_name@, request) || (l.name matches Some(n) && alike(n@, request)) || (
    l.program matches Some(p) && alike(p@, request))
}

fn is_called(l: &Listing, request: &str) -> (r: bool)
    ensures
        r == goes_by(*l, request@),
{
    if l.hidden || l.no_display {
        return false;
    }
    if eq_ignore_ascii_case(l.display_name.as_str(), request) {
        return true;
    }
    match &l.name {
        Some(n) => {
            if eq_ignore_ascii_case(n.as_str(), request) {
                return true;
            }
        },
        None => {},
    }
    match &l.program {
        Some(p) => eq_ignore_ascii_case(p.as_str(), request),
        None => false,
    }
}

/// Whether one application, and no other, goes by a name.
pub open spec fn only_one(listings: Seq<Listing>, request: Seq<char>, i: int) -> bool {
    &&& 0 <= i < listings.len()
    &&& goes_by(listings[i], request)
    &&& forall|j: int|
        0 <= j < listings.len() && j != i ==> !goes_by(#[trigger] listings[j], request)
}

/// What a request for an application stands for.
#[derive(Debug, Clone, Copy, PartialEq, Eq, Structural)]
pub enum Chosen {
    /// The entry whose identifier it is.
    ById,
    /// The entry whose identifier it is with the usual ending.
    ByIdWithEnding,
    /// The listed application that goes by it.
    Listed(usize),
}

/// Whether a request is resolved as it should be: by its identifier, by the identifier with the
/// usual ending, or by the one name.
pub open spec fn resolved(
    request: Seq<char>,
    by_id: bool,
    by_id_with_ending: bool,
    listings: Seq<Listing>,
    r: Result<Chosen, Fault>,
) -> bool {
    if by_id {
        r == Ok::<Chosen, Fault>(Chosen::ById)
    } else if by_id_with_ending {
        r == Ok::<Chosen, Fault>(Chosen::ByIdWithEnding)
    } else {
        match r {
            Ok(Chosen::Listed(i)) => only_one(listings, request, i as int),
            Ok(_) => false,
            Err(e) => {
                &&& e.says(
                    ErrorCode::InvalidRequest,
                    "应用名称无法唯一对应本机桌面条目；请提供准确的 .desktop ID"@,
                )
                &&& forall|i: int| !#[trigger] only_one(listings, request, i)
            },
        }
    }
}

/// A request as an identifier with the usual ending.
pub fn with_ending(request: &str) -> (r: String)
    ensures
        r@ == request@ + ".desktop"@,
{
    let mut s = request.to_owned();
    s.append(".desktop");
    s
}

impl DesktopApplication {
    /// What a request stands for, given whether it is the identifier of an entry as it is, or
    /// with the usual ending. Identifiers go before names, which may be translated or occur
    /// twice; among names there is no choice.
    pub fn resolve(
        request: &str,
        by_id: bool,
        by_id_with_ending: bool,
        listings: &Vec<Listing>,
    ) -> (r: Result<Chosen, Fault>)
        ensures
            resolved(request@, by_id, by_id_with_ending, listings@, r),
    {
        if by_id {
            return Ok(Chosen::ById);
        }
        if by_id_with_ending {
            return Ok(Chosen::ByIdWithEnding);
        }
        match unique_match(listings, request) {
            Ok(i) => Ok(Chosen::Listed(i)),
            Err(e) => {
                proof {
                    assert forall|i: int| !#[trigger] only_one(listings@, request@, i) by {
                        if only_one(listings@, request@, i) {
                            assert(goes_by(listings@[i], request@));
                        }
                    }
                }
                Err(e)
            },
        }
    }
}

/// Finds the only application that goes by a name.
pub fn unique_match(listings: &Vec<Listing>, request: &str) -> (r: Result<usize, Fault>)
    ensures
        match r {
            Ok(i) => {
                &&& i < listings@.len()
                &&& goes_by(listings@[i as int], request@)
                &&& forall|j: int|
                    0 <= j < listings@.len() && j != i ==> !goes_by(
                        #[trigger] listings@[j],
                        request@,
                    )
            },
            Err(e) => {
                &&& e.says(
                    ErrorCode::InvalidRequest,
                    "应用名称无法唯一对应本机桌面条目；请提供准确的 .desktop ID"@,
                )
                &&& (forall|j: int|
                    0 <= j < listings@.len() ==> !goes_by(#[trigger] listings@[j], request@))
                    || exists|i: int, j: int|
                    0 <= i < j < listings@.len() && goes_by(#[trigger] listings@[i], request@)
                        && goes_by(#[trigger] listings@[j], request@)
            },
        },
{
    let mut found: Option<usize> = None;
    let mut i: usize = 0;
    while i < listings.len()
        invariant
            i <= listings@.len(),
            match found {
                None => forall|j: int|
                    0 <= j < i ==> !goes_by(#[trigger] listings@[j], request@),
                Some(k) => {
                    &&& k < i
                    &&& goes_by(listings@[k as int], request@)
                    &&& forall|j: int|
                        0 <= j < i && j != k ==> !goes_by(#[trigger] listings@[j], request@)
                },
            },
        decreases listings@.len() - i,
    {
        if is_called(&listings[i], request) {
            match found {
                Some(k) => {
                    assert(goes_by(listings@[k as int], request@) && goes_by(
                        listings@[i as int],
                        request@,
                    ));
                    return Err(
                        Fault::invalid(
                            "应用名称无法唯一对应本机桌面条目；请提供准确的 .desktop ID",
                        ),
                    );
                },
                None => {
                    found = Some(i);
                },
            }
        }
        i = i + 1;
    }
    match found {
        Some(k) => Ok(k),
        None => Err(
            Fault::invalid("应用名称无法唯一对应本机桌面条目；请提供准确的 .desktop ID"),
        ),
    }
}

/// Whether a word stands for files, addresses or nothing, and is left out.
pub open spec fn left_out(word: Seq<char>) -> bool {
    ||| word == "%f"@
    ||| word == "%F"@
    ||| word == "%u"@
    ||| word == "%U"@
    ||| word == "%d"@
    ||| word == "%D"@
    ||| word == "%n"@
    ||| word == "%N"@
    ||| word == "%v"@
    ||| word == "%m"@
}

fn is_left_out(word: &str) -> (r: bool)
    ensures
        r == left_out(word@),
{
    same(word, "%f") || same(word, "%F") || same(word, "%u") || same(word, "%U") || same(word, "%d")
        || same(word, "%D") || same(word, "%n") || same(word, "%N") || same(word, "%v") || same(
        word,
        "%m",
    )
}

/// Whether a code after a percent sign stands for nothing any more.
pub open spec fn obsolete(c: char) -> bool {
    c == 'd' || c == 'D' || c == 'n' || c == 'N' || c == 'v' || c == 'm'
}

/// A word with its codes replaced; nothing if it holds a code that is unknown or stands for
/// files.
pub open spec fn expanded(word: Seq<char>, name: Seq<char>, file: Seq<char>) -> Option<Seq<char>>
    decreases word.len(),
{
    if word.len() == 0 {
        Some(Seq::empty())
    } else if word[0] != '%' {
        match expanded(word.skip(1), name, file) {
            Some(rest) => Some(seq![word[0]] + rest),
            None => None,
        }
    } else if word.len() == 1 {
        None
    } else {
        match replacement(word[1], name, file) {
            None => None,
            Some(text) => match expanded(word.skip(2), name, file) {
                Some(rest) => Some(text + rest),
                None => None,
            },
        }
    }
}

/// What a code stands for.
pub open spec fn replacement(c: char, name: Seq<char>, file: Seq<char>) -> Option<Seq<char>> {
    if c == '%' {
        Some(seq!['%'])
    } else if c == 'c' {
        Some(name)
    } else if c == 'k' {
        Some(file)
    } else if obsolete(c) {
        Some(Seq::empty())
    } else {
        None
    }
}

fn expand_word(word: &str, name: &str, file: &str) -> (r: Option<String>)
    ensures
        match r {
            Some(s) => expanded(word@, name@, file@) == Some(s@),
            None => expanded(word@, name@, file@) is None,
        },
{
    let all = chars_of(word);
    let n: usize = all.len();
    let mut out = String::new();
    let mut i: usize = 0;
    assert(word@.skip(0) =~= word@);
    proof {
        match expanded(word@, name@, file@) {
            Some(s) => {
                assert(out@ + s =~= s);
            },
            None => {},
        }
    }
    while i < n
        invariant
            i <= n == all@.len(),
            all@ == word@,
            match expanded(word@.skip(i as int), name@, file@) {
                Some(rest) => expanded(word@, name@, file@) == Some(out@ + rest),
                None => expanded(word@, name@, file@) is None,
            },
        decreases n - i,
    {
        let c = all[i];
        let ghost rest = word@.skip(i as int);
        let ghost was = out@;
        assert(rest[0] == c);
        if c != '%' {
            out.push(c);
            proof {
                assert(rest.skip(1) =~= word@.skip(i + 1));
                match expanded(rest.skip(1), name@, file@) {
                    Some(tail) => {
                        assert(was + (seq![c] + tail) =~= out@ + tail);
                    },
                    None => {},
                }
            }
            i = i + 1;
        } else {
            if n - i == 1 {
                return None;
            }
            let code = all[i + 1];
            assert(rest[1] == code);
            if code == '%' {
                out.push('%');
            } else if code == 'c' {
                out.append(name);
            } else if code == 'k' {
                out.append(file);
            } else if code == 'd' || code == 'D' || code == 'n' || code == 'N' || code == 'v'
                || code == 'm' {
            } else {
                return None;
            }
            proof {
                let text = replacement(code, name@, file@)->0;
                assert(out@ =~= was + text);
                assert(rest.skip(2) =~= word@.skip(i + 2));
                match expanded(rest.skip(2), name@, file@) {
                    Some(tail) => {
                        assert(was + (text + tail) =~= out@ + tail);
                    },
                    None => {},
                }
            }
            i = i + 2;
        }
    }
    assert(word@.skip(i as int) =~= Seq::empty());
    assert(out@ + Seq::empty() =~= out@);
    Some(out)
}

/// The arguments that a word of a launch definition becomes; a word that is no text is none.
pub open spec fn word_args(
    word: Option<Seq<char>>,
    name: Seq<char>,
    file: Seq<char>,
    icon: Option<Seq<char>>,
) -> Result<Seq<Seq<char>>, FaultView> {
    match word {
        None => Err(fault(ErrorCode::InvalidRequest, "启动参数不是 UTF-8"@)),
        Some(w) => if left_out(w) {
            Ok(Seq::empty())
        } else if w == "%i"@ {
            match icon {
                Some(i) => if i.len() > 0 {
                    Ok(seq!["--icon"@, i])
                } else {
                    Ok(Seq::empty())
                },
                None => Ok(Seq::empty()),
            }
        } else {
            match expanded(w, name, file) {
                Some(text) => Ok(seq![text]),
                None => Err(
                    fault(ErrorCode::Unsupported, "桌面条目包含未知或非独立的文件占位符"@),
                ),
            }
        },
    }
}

/// The arguments that the words of a launch definition become, in order.
pub open spec fn all_args(
    words: Seq<Option<Seq<char>>>,
    name: Seq<char>,
    file: Seq<char>,
    icon: Option<Seq<char>>,
) -> Result<Seq<Seq<char>>, FaultView>
    decreases words.len(),
{
    if words.len() == 0 {
        Ok(Seq::empty())
    } else {
        match all_args(words.drop_last(), name, file, icon) {
            Err(f) => Err(f),
            Ok(before) => match word_args(words.last(), name, file, icon) {
                Err(f) => Err(f),
                Ok(more) => Ok(before + more),
            },
        }
    }
}

/// Whether a launch definition begins with a program, and not with a setting.
pub open spec fn launchable(args: Seq<Seq<char>>) -> bool {
    args.len() > 0 && args[0].len() > 0 && !args[0].contains('=')
}

/// What a launch definition means, or what is wrong with it.
pub open spec fn launch_args(
    words: Seq<Option<Seq<char>>>,
    name: Seq<char>,
    file: Seq<char>,
    icon: Option<Seq<char>>,
) -> Result<Seq<Seq<char>>, FaultView> {
    match all_args(words, name, file, icon) {
        Err(f) => Err(f),
        Ok(args) => if launchable(args) {
            Ok(args)
        } else {
            Err(fault(ErrorCode::InvalidRequest, "桌面条目没有有效启动程序"@))
        },
    }
}

/// Words by their values.
pub open spec fn words_view(v: Seq<Option<String>>) -> Seq<Option<Seq<char>>> {
    v.map_values(|w: Option<String>| optional(w))
}

/// The value of an optional borrowed text.
pub open spec fn optional_str(t: Option<&str>) -> Option<Seq<char>> {
    match t {
        Some(s) => Some(s@),
        None => None,
    }
}

proof fn lemma_args_error(
    words: Seq<Option<Seq<char>>>,
    name: Seq<char>,
    file: Seq<char>,
    icon: Option<Seq<char>>,
    n: int,
)
    requires
        0 <= n <= words.len(),
        all_args(words.take(n), name, file, icon) is Err,
    ensures
        all_args(words, name, file, icon) == all_args(words.take(n), name, file, icon),
    decreases words.len() - n,
{
    if n < words.len() {
        assert(words.take(n + 1).drop_last() =~= words.take(n));
        lemma_args_error(words, name, file, icon, n + 1);
    } else {
        assert(words.take(n) =~= words);
    }
}

/// Expands the words of a launch definition without a shell: a replaced code stays within
/// its argument, and what stands for files is left out, since nothing is opened.
pub fn expand_exec(
    words: &Vec<Option<String>>,
    name: &str,
    file: &str,
    icon: Option<&str>,
) -> (r: Result<Vec<String>, Fault>)
    ensures
        match launch_args(words_view(words@), name@, file@, optional_str(icon)) {
            Ok(args) => r matches Ok(v) && texts(v@) == args,
            Err(f) => r matches Err(e) && e@ == f,
        },
{
    let ghost all = words_view(words@);
    let ghost ic = optional_str(icon);
    let mut args: Vec<String> = Vec::new();
    let mut i: usize = 0;
    assert(texts(args@) =~= Seq::empty());
    while i < words.len()
        invariant
            i <= words@.len(),
            all == words_view(words@),
            ic == optional_str(icon),
            all_args(all.take(i as int), name@, file@, ic) == Ok::<Seq<Seq<char>>, FaultView>(
                texts(args@),
            ),
        decreases words@.len() - i,
    {
        let ghost was = texts(args@);
        proof {
            assert(all.take(i + 1).drop_last() =~= all.take(i as int));
            assert(all.take(i + 1).last() == all[i as int]);
        }
        match &words[i] {
            None => {
                proof {
                    lemma_args_error(all, name@, file@, ic, i + 1);
                }
                return Err(Fault::invalid("启动参数不是 UTF-8"));
            },
            Some(word) => {
                if is_left_out(word.as_str()) {
                    assert(was + Seq::empty() =~= was);
                } else if same(word.as_str(), "%i") {
                    match icon {
                        Some(text) => {
                            if chars_of(text).len() > 0 {
                                args.push("--icon".to_owned());
                                args.push(text.to_owned());
                                assert(texts(args@) =~= was + seq!["--icon"@, text@]);
                            } else {
                                assert(was + Seq::empty() =~= was);
                            }
                        },
                        None => {
                            assert(was + Seq::empty() =~= was);
                        },
                    }
                } else {
                    match expand_word(word.as_str(), name, file) {
                        None => {
                            proof {
                                lemma_args_error(all, name@, file@, ic, i + 1);
                            }
                            return Err(
                                Fault::unsupported("桌面条目包含未知或非独立的文件占位符"),
                            );
                        },
                        Some(text) => {
                            args.push(text);
                            assert(texts(args@) =~= was + seq![text@]);
                        },
                    }
                }
            },
        }
        i = i + 1;
    }
    assert(all.take(i as int) =~= all);
    if args.len() == 0 {
        return Err(Fault::invalid("桌面条目没有有效启动程序"));
    }
    assert(texts(args@)[0] == args@[0]@);
    if chars_of(args[0].as_str()).len() == 0 || has_char(args[0].as_str(), '=') {
        return Err(Fault::invalid("桌面条目没有有效启动程序"));
    }
    Ok(args)
}

/// A desktop entry as far as it is read before its launch definition.
#[derive(Debug)]
pub struct Entry {
    pub hidden: bool,
    pub terminal: bool,
    pub has_file: bool,
    pub has_exec: bool,
}

/// Why an entry cannot be launched at all, if it cannot.
pub open spec fn unlaunchable(e: Entry) -> Option<FaultView> {
    if e.hidden || e.terminal {
        Some(
            fault(
                ErrorCode::Unsupported,
                "该条目已隐藏或需要外部终端；请申请独立的图形应用"@,
            ),
        )
    } else if !e.has_file {
        Some(fault(ErrorCode::Unsupported, "应用缺少桌面条目文件"@))
    } else if !e.has_exec {
        Some(
            fault(
                ErrorCode::Unsupported,
                "应用没有可独立启动的 Exec；不使用宿主 D-Bus 激活"@,
            ),
        )
    } else {
        None
    }
}

/// Checks an entry before its launch definition is read.
pub fn check_entry(e: &Entry) -> (r: Result<(), Fault>)
    ensures
        match unlaunchable(*e) {
            None => r is Ok,
            Some(f) => r matches Err(x) && x@ == f,
        },
{
    if e.hidden || e.terminal {
        Err(Fault::unsupported("该条目已隐藏或需要外部终端；请申请独立的图形应用"))
    } else if !e.has_file {
        Err(Fault::unsupported("应用缺少桌面条目文件"))
    } else if !e.has_exec {
        Err(Fault::unsupported("应用没有可独立启动的 Exec；不使用宿主 D-Bus 激活"))
    } else {
        Ok(())
    }
}

/// The working directory of an entry, and whether it exists.
#[derive(Debug)]
pub struct WorkingDirectory {
    pub path: Vec<u8>,
    pub exists: bool,
}

impl DesktopApplication {
    /// Puts an application together, once its program was looked for.
    pub fn from_parts(
        id: Option<String>,
        name: String,
        argv: Vec<String>,
        program: Option<Vec<u8>>,
        directory: Option<WorkingDirectory>,
        desktop_file: Vec<u8>,
        file_text: &str,
    ) -> (r: Result<Self, Fault>)
        requires
            argv@.len() > 0,
        ensures
            match program {
                None => r matches Err(e) && e.says(
                    ErrorCode::BackendUnavailable,
                    "桌面条目的启动程序不存在或不可执行"@,
                ),
                Some(found) => if directory matches Some(d) && d.path@.len() > 0 && (!absolute(
                    d.path@,
                ) || !d.exists) {
                    r matches Err(e) && e.says(ErrorCode::Unsupported, "桌面条目的工作目录无效"@)
                } else {
                    r matches Ok(app) && app@ == (ApplicationView {
                        id: match id {
                            Some(s) => s@,
                            None => file_text@,
                        },
                        name: name@,
                        program: found@,
                        args: texts(argv@).skip(1),
                        directory: match directory {
                            Some(d) => if d.path@.len() > 0 {
                                Some(d.path@)
                            } else {
                                None
                            },
                            None => None,
                        },
                        desktop_file: desktop_file@,
                    })
                },
            },
    {
        let program = match program {
            Some(program) => program,
            None => {
                return Err(Fault::unavailable("桌面条目的启动程序不存在或不可执行"));
            },
        };
        let directory = match directory {
            Some(d) => {
                if d.path.len() == 0 {
                    None
                } else if !is_absolute(&d.path) || !d.exists {
                    return Err(Fault::unsupported("桌面条目的工作目录无效"));
                } else {
                    Some(d.path)
                }
            },
            None => None,
        };
        let mut args: Vec<String> = Vec::new();
        let mut i: usize = 1;
        while i < argv.len()
            invariant
                1 <= i <= argv@.len(),
                args@ == argv@.subrange(1, i as int),
            decreases argv@.len() - i,
        {
            args.push(argv[i].clone());
            i = i + 1;
            assert(args@ =~= argv@.subrange(1, i as int));
        }
        assert(texts(args@) =~= texts(argv@).skip(1));
        let id = match id {
            Some(id) => id,
            None => file_text.to_owned(),
        };
        Ok(DesktopApplication { id, name, program, args, directory, desktop_file })
    }
}

/// The most arguments that a launch definition becomes: one for a word, or two for a word
/// that stands for the icon.
pub proof fn words_stay_within_their_arguments(
    words: Seq<Option<Seq<char>>>,
    name: Seq<char>,
    file: Seq<char>,
    icon: Option<Seq<char>>,
)
    ensures
        all_args(words, name, file, icon) matches Ok(args) ==> args.len() <= 2 * words.len(),
        (forall|i: int| 0 <= i < words.len() ==> #[trigger] words[i] != Some("%i"@)) ==> (all_args(
            words,
            name,
            file,
            icon,
        ) matches Ok(args) ==> args.len() <= words.len()),
    decreases words.len(),
{
    if words.len() > 0 {
        words_stay_within_their_arguments(words.drop_last(), name, file, icon);
        assert(words.last() == words[words.len() - 1]);
        assert(forall|i: int|
            0 <= i < words.len() - 1 ==> #[trigger] words.drop_last()[i] == words[i]);
    }
}

} // verus!
