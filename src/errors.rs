//! Expected-diagnostic annotations (`//~ ERROR msg`) and the diagnostics they describe.
use vstd::prelude::*;
use crate::text::{
    CharClass, chars_of, contains, decimal_value, digits_value, find, first_occurrence, lead_len,
    run_len, substring, trim, trim_bounds,
};

verus! {

#[derive(Clone, Copy, PartialEq, Eq, Structural, Debug)]
pub enum ErrorKind {
    Help,
    Error,
    Note,
    Suggestion,
    Warning,
}

/// What `str::to_uppercase` makes of a string.
pub uninterp spec fn upper_of(s: Seq<char>) -> Seq<char>;

/// Relies on `str::to_uppercase`: the Unicode uppercase mapping, a function of the characters alone.
#[verifier::external_body]
fn to_upper(s: &str) -> (r: String)
    ensures
        r@ == upper_of(s@),
{
    s.to_uppercase()
}

/// The kind that an uppercased severity word names: the part before its first `:`.
pub open spec fn kind_of_upper(u: Seq<char>) -> Option<ErrorKind> {
    let w = u.take(lead_len(u, CharClass::NotColon) as int);
    if w == "HELP"@ {
        Some(ErrorKind::Help)
    } else if w == "ERROR"@ {
        Some(ErrorKind::Error)
    } else if w == "NOTE"@ {
        Some(ErrorKind::Note)
    } else if w == "SUGGESTION"@ {
        Some(ErrorKind::Suggestion)
    } else if w == "WARN"@ || w == "WARNING"@ {
        Some(ErrorKind::Warning)
    } else {
        None
    }
}

/// The kind that a severity word names, in any case.
pub open spec fn kind_of_word(s: Seq<char>) -> Option<ErrorKind> {
    kind_of_upper(upper_of(s))
}

pub open spec fn kind_name(k: ErrorKind) -> Seq<char> {
    match k {
        ErrorKind::Help => "help"@,
        ErrorKind::Error => "error"@,
        ErrorKind::Note => "note"@,
        ErrorKind::Suggestion => "suggestion"@,
        ErrorKind::Warning => "warning"@,
    }
}

fn same_chars(v: &Vec<char>, n: usize, w: &str) -> (r: bool)
    requires
        n <= v@.len(),
    ensures
        r == (v@.take(n as int) == w@),
{
    let wv = chars_of(w);
    if wv.len() != n {
        assert(v@.take(n as int).len() != w@.len());
        return false;
    }
    let mut i: usize = 0;
    while i < n
        invariant
            n <= v@.len(),
            wv@ == w@,
            wv@.len() == n,
            i <= n,
            forall|j: int| 0 <= j < i ==> v@[j] == wv@[j],
        decreases n - i,
    {
        if v[i] != wv[i] {
            assert(v@.take(n as int)[i as int] != w@[i as int]);
            return false;
        }
        i = i + 1;
    }
    assert(v@.take(n as int) =~= w@);
    true
}

/// The kind named by `u`, a severity word already in upper case.
pub fn kind_from_upper(u: &str) -> (r: Option<ErrorKind>)
    ensures
        r == kind_of_upper(u@),
{
    let v = chars_of(u);
    let n = run_len(&v, 0, CharClass::NotColon);
    assert(v@.skip(0) =~= v@);
    if same_chars(&v, n, "HELP") {
        Some(ErrorKind::Help)
    } else if same_chars(&v, n, "ERROR") {
        Some(ErrorKind::Error)
    } else if same_chars(&v, n, "NOTE") {
        Some(ErrorKind::Note)
    } else if same_chars(&v, n, "SUGGESTION") {
        Some(ErrorKind::Suggestion)
    } else if same_chars(&v, n, "WARN") || same_chars(&v, n, "WARNING") {
        Some(ErrorKind::Warning)
    } else {
        None
    }
}

impl ErrorKind {
    /// The kind that a severity word names, case-insensitively; anything after a `:` is ignored.
    pub fn from_str(s: &str) -> (r: Result<ErrorKind, ()>)
        ensures
            r == (match kind_of_word(s@) {
                Some(k) => Ok(k),
                None => Err(()),
            }),
    {
        let u = to_upper(s);
        match kind_from_upper(u.as_str()) {
            Some(k) => Ok(k),
            None => Err(()),
        }
    }

    /// The lower-case name of the kind, as diagnostics print it.
    pub fn as_str(&self) -> (r: &'static str)
        ensures
            r@ == kind_name(*self),
    {
        match self {
            ErrorKind::Help => "help",
            ErrorKind::Error => "error",
            ErrorKind::Note => "note",
            ErrorKind::Suggestion => "suggestion",
            ErrorKind::Warning => "warning",
        }
    }

    pub fn to_string(&self) -> (r: String)
        ensures
            r@ == kind_name(*self),
    {
        String::from_str(self.as_str())
    }
}

/// One diagnostic, expected by an annotation or reported by the compiler.
#[derive(Debug)]
pub struct Error {
    pub line_num: usize,
    /// What kind of message is expected; `None` when unspecified or unknown.
    pub kind: Option<ErrorKind>,
    pub msg: String,
    /// How many sub-spans are expected; `None` when several actual messages on the line count
    /// as one.
    pub count: Option<u32>,
}

pub ghost struct ErrorModel {
    pub line_num: nat,
    pub kind: Option<ErrorKind>,
    pub msg: Seq<char>,
    pub count: Option<nat>,
}

impl View for Error {
    type V = ErrorModel;

    open spec fn view(&self) -> ErrorModel {
        ErrorModel {
            line_num: self.line_num as nat,
            kind: self.kind,
            msg: self.msg@,
            count: match self.count {
                Some(c) => Some(c as nat),
                None => None,
            },
        }
    }
}

impl Error {
    pub fn new(line_num: usize, kind: Option<ErrorKind>, msg: String, count: Option<u32>) -> (r:
        Error)
        ensures
            r.line_num == line_num,
            r.kind == kind,
            r.msg@ == msg@,
            r.count == count,
    {
        Error { line_num, kind, msg, count }
    }

    pub fn copy(&self) -> (r: Error)
        ensures
            r@ == self@,
    {
        Error {
            line_num: self.line_num,
            kind: self.kind,
            msg: String::from_str(self.msg.as_str()),
            count: self.count,
        }
    }
}

/// Which line an annotation refers to.
#[derive(Clone, Copy, PartialEq, Eq, Structural, Debug)]
pub enum WhichLine {
    /// `//~`: the line of the comment.
    ThisLine,
    /// `//~|`: the line of the previous annotation that was not of this form.
    FollowPrevious(usize),
    /// `//~^^`: that many lines above the comment.
    AdjustBackward(usize),
}

/// Why an annotation cannot be read.
#[derive(Clone, Copy, PartialEq, Eq, Structural, Debug)]
pub enum AnnotationError {
    /// `//~|` with no earlier annotation to follow.
    FollowWithoutPrevious,
    /// `KIND*` not followed by a count that fits in `u32`.
    IncorrectMessageCount,
    /// More carets than lines above the comment.
    AboveFirstLine,
}

pub type Parsed = Result<Option<(WhichLine, ErrorModel)>, AnnotationError>;

/// Where the severity word of the annotation that starts at `p` (just after the tag) begins,
/// and the two anchoring facts read before it.
pub open spec fn follows(line: Seq<char>, p: int) -> bool {
    p < line.len() && line[p] == '|'
}

pub open spec fn carets(line: Seq<char>, p: int) -> int {
    if follows(line, p) {
        0
    } else {
        lead_len(line.skip(p), CharClass::Caret) as int
    }
}

pub open spec fn word_start(line: Seq<char>, p: int) -> int {
    let ks = p + carets(line, p) + if follows(line, p) {
        1int
    } else {
        0int
    };
    ks + lead_len(line.skip(ks), CharClass::Whitespace)
}

pub open spec fn word_end(line: Seq<char>, p: int) -> int {
    let ts = word_start(line, p);
    ts + lead_len(line.skip(ts), CharClass::Word)
}

/// The word after the tag and its anchoring marks, where a severity may stand.
pub open spec fn annotation_word(line: Seq<char>, tag: Seq<char>) -> Seq<char> {
    let start = choose|i: int| first_occurrence(line, tag, i);
    let p = start + tag.len();
    line.subrange(word_start(line, p), word_end(line, p))
}

/// The annotation that `line`, line `line_num` of its file, holds after `tag`, if any;
/// `prev` is the line of the last earlier annotation that did not use `|`.
pub open spec fn annotation(
    prev: Option<usize>,
    line_num: nat,
    line: Seq<char>,
    tag: Seq<char>,
) -> Parsed {
    annotation_with_kind(prev, line_num, line, tag, kind_of_word(annotation_word(line, tag)))
}

/// The annotation of `line`, where its severity word names `kind` (`None`: no kind, and the
/// word belongs to the message).
pub open spec fn annotation_with_kind(
    prev: Option<usize>,
    line_num: nat,
    line: Seq<char>,
    tag: Seq<char>,
    kind: Option<ErrorKind>,
) -> Parsed {
    if !contains(line, tag) {
        Ok(None)
    } else {
        let start = choose|i: int| first_occurrence(line, tag, i);
        let p = start + tag.len();
        let ts = word_start(line, p);
        let we = word_end(line, p);
        let star = kind is Some && we < line.len() && line[we] == '*';
        let dl = lead_len(line.skip(we + 1), CharClass::Digit) as int;
        let count_value = digits_value(line.subrange(we + 1, we + 1 + dl));
        let msg_from = if kind is None {
            ts
        } else if star {
            we + 1 + dl
        } else {
            we
        };
        let msg = trim(line.skip(msg_from));
        let adjusts = carets(line, p);
        if star && (dl == 0 || count_value > u32::MAX) {
            Err(AnnotationError::IncorrectMessageCount)
        } else if follows(line, p) && prev is None {
            Err(AnnotationError::FollowWithoutPrevious)
        } else if !follows(line, p) && adjusts > line_num {
            Err(AnnotationError::AboveFirstLine)
        } else {
            let which = if follows(line, p) {
                WhichLine::FollowPrevious(prev->0)
            } else if adjusts > 0 {
                WhichLine::AdjustBackward(adjusts as usize)
            } else {
                WhichLine::ThisLine
            };
            let target = if follows(line, p) {
                prev->0 as nat
            } else {
                (line_num - adjusts) as nat
            };
            Ok(
                Some(
                    (
                        which,
                        ErrorModel {
                            line_num: target,
                            kind,
                            msg,
                            count: if star {
                                Some(count_value)
                            } else {
                                None
                            },
                        },
                    ),
                ),
            )
        }
    }
}

pub open spec fn parsed_view(r: Result<Option<(WhichLine, Error)>, AnnotationError>) -> Parsed {
    match r {
        Ok(Some((w, e))) => Ok(Some((w, e@))),
        Ok(None) => Ok(None),
        Err(e) => Err(e),
    }
}

/// Reads the annotation that follows `tag` on `line`, line `line_num` of its file.
///
/// `//~| KIND MESSAGE` refers to the same line as the last earlier annotation without `|`
/// (`last_nonfollow_error`); `//~^^ KIND MESSAGE` to the line that many lines up; a plain
/// `//~ KIND MESSAGE` to its own line. `KIND*N` expects `N` sub-spans. A word that names no
/// kind belongs to the message.
pub fn parse_expected(last_nonfollow_error: Option<usize>, line_num: usize, line: &str, tag: &str) -> (r:
    Result<Option<(WhichLine, Error)>, AnnotationError>)
    ensures
        parsed_view(r) == annotation(last_nonfollow_error, line_num as nat, line@, tag@),
{
    match severity_word(line, tag) {
        None => Ok(None),
        Some(w) => {
            let upper = to_upper(w.as_str());
            parse_expected_upper(last_nonfollow_error, line_num, line, tag, upper.as_str())
        },
    }
}

/// The word of an annotation on `line` where a severity may stand; `None` when the line
/// holds no `tag`.
pub fn severity_word(line: &str, tag: &str) -> (r: Option<String>)
    ensures
        r is None <==> !contains(line@, tag@),
        r matches Some(w) ==> w@ == annotation_word(line@, tag@),
{
    let v = chars_of(line);
    let t = chars_of(tag);
    let start = match find(&v, &t) {
        None => return None,
        Some(i) => i,
    };
    proof {
        let s = choose|i: int| first_occurrence(line@, tag@, i);
        if s < start {
            assert(!crate::text::occurs_at(line@, tag@, s));
        }
        if start < s {
            assert(!crate::text::occurs_at(line@, tag@, start as int));
        }
    }
    assert(crate::text::occurs_at(v@, t@, start as int));
    let tl = t.len();
    let vl = v.len();
    assert(start + tl <= vl);
    let p = start + tl;
    let follow = p < v.len() && v[p] == '|';
    let adjusts = if follow {
        0
    } else {
        run_len(&v, p, CharClass::Caret)
    };
    let ks = if follow {
        p + 1
    } else {
        p + adjusts
    };
    let ts = ks + run_len(&v, ks, CharClass::Whitespace);
    let we = ts + run_len(&v, ts, CharClass::Word);
    Some(substring(line, ts, we))
}

/// Reads the annotation on `line` as `parse_expected` does, where `upper` is its severity
/// word (`severity_word`) in upper case.
#[verifier::rlimit(50)]
pub fn parse_expected_upper(
    last_nonfollow_error: Option<usize>,
    line_num: usize,
    line: &str,
    tag: &str,
    upper: &str,
) -> (r: Result<Option<(WhichLine, Error)>, AnnotationError>)
    ensures
        parsed_view(r) == annotation_with_kind(
            last_nonfollow_error,
            line_num as nat,
            line@,
            tag@,
            kind_of_upper(upper@),
        ),
{
    let v = chars_of(line);
    let t = chars_of(tag);
    let start = match find(&v, &t) {
        None => return Ok(None),
        Some(i) => i,
    };
    proof {
        let s = choose|i: int| first_occurrence(line@, tag@, i);
        if s < start {
            assert(!crate::text::occurs_at(line@, tag@, s));
        }
        if start < s {
            assert(!crate::text::occurs_at(line@, tag@, start as int));
        }
    }
    assert(crate::text::occurs_at(v@, t@, start as int));
    let tl = t.len();
    let vl = v.len();
    assert(start + tl <= vl);
    let p = start + tl;
    let follow = p < v.len() && v[p] == '|';
    let adjusts = if follow {
        0
    } else {
        run_len(&v, p, CharClass::Caret)
    };
    let ks = if follow {
        p + 1
    } else {
        p + adjusts
    };
    let ts = ks + run_len(&v, ks, CharClass::Whitespace);
    let we = ts + run_len(&v, ts, CharClass::Word);
    let kind = kind_from_upper(upper);
    let star = kind.is_some() && we < v.len() && v[we] == '*';
    let mut count: Option<u32> = None;
    let mut msg_from = if kind.is_none() {
        ts
    } else {
        we
    };
    if star {
        let dl = run_len(&v, we + 1, CharClass::Digit);
        proof {
            let d = v@.subrange(we + 1, we + 1 + dl);
            assert forall|i: int| 0 <= i < d.len() implies crate::text::is_digit(#[trigger] d[i]) by {
                crate::text::lemma_lead_prefix(v@.skip(we + 1), CharClass::Digit, i);
                assert(v@.skip(we + 1)[i] == d[i]);
            }
        }
        match decimal_value(&v, we + 1, we + 1 + dl, 0xffff_ffff) {
            Some(c) if dl > 0 => {
                count = Some(c as u32);
            },
            _ => {
                return Err(AnnotationError::IncorrectMessageCount);
            },
        }
        msg_from = we + 1 + dl;
    }
    let (a, b) = trim_bounds(&v, msg_from, v.len());
    assert(v@.subrange(msg_from as int, v@.len() as int) =~= line@.skip(msg_from as int));
    let msg = substring(line, a, b);
    let (which, target) = if follow {
        match last_nonfollow_error {
            None => return Err(AnnotationError::FollowWithoutPrevious),
            Some(l) => (WhichLine::FollowPrevious(l), l),
        }
    } else {
        if adjusts > line_num {
            return Err(AnnotationError::AboveFirstLine);
        }
        if adjusts > 0 {
            (WhichLine::AdjustBackward(adjusts), line_num - adjusts)
        } else {
            (WhichLine::ThisLine, line_num)
        }
    };
    Ok(Some((which, Error { line_num: target, kind, msg, count })))
}

} // verus!

verus! {

/// The marker that starts an annotation: `//~`, or `//[rev]~` for revision `rev`.
pub open spec fn tag_for(cfg: Option<Seq<char>>) -> Seq<char> {
    match cfg {
        Some(rev) => "//["@ + rev + "]~"@,
        None => "//~"@,
    }
}

pub open spec fn line_views(lines: Seq<String>) -> Seq<Seq<char>> {
    lines.map_values(|l: String| l@)
}

/// The annotations of the first `n` lines, and the line of the last one without `|`.
pub open spec fn annotations_upto(lines: Seq<Seq<char>>, tag: Seq<char>, n: nat) -> Result<
    (Seq<ErrorModel>, Option<usize>),
    AnnotationError,
>
    decreases n,
{
    if n == 0 {
        Ok((Seq::empty(), None))
    } else {
        match annotations_upto(lines, tag, (n - 1) as nat) {
            Err(e) => Err(e),
            Ok((errs, last)) => match annotation(last, n, lines[n - 1], tag) {
                Err(e) => Err(e),
                Ok(None) => Ok((errs, last)),
                Ok(Some((w, e))) => Ok(
                    (
                        errs.push(e),
                        if w is FollowPrevious {
                            last
                        } else {
                            Some(e.line_num as usize)
                        },
                    ),
                ),
            },
        }
    }
}

pub proof fn lemma_error_persists(
    lines: Seq<Seq<char>>,
    tag: Seq<char>,
    m: nat,
    n: nat,
    e: AnnotationError,
)
    requires
        m <= n,
        annotations_upto(lines, tag, m) == Err::<(Seq<ErrorModel>, Option<usize>), AnnotationError>(
            e,
        ),
    ensures
        annotations_upto(lines, tag, n) == Err::<(Seq<ErrorModel>, Option<usize>), AnnotationError>(
            e,
        ),
    decreases n - m,
{
    if m < n {
        lemma_error_persists(lines, tag, m, (n - 1) as nat, e);
    }
}

pub open spec fn annotations_of(lines: Seq<Seq<char>>, tag: Seq<char>) -> Result<
    Seq<ErrorModel>,
    AnnotationError,
> {
    match annotations_upto(lines, tag, lines.len()) {
        Ok((errs, _)) => Ok(errs),
        Err(e) => Err(e),
    }
}

pub open spec fn errors_view(v: Seq<Error>) -> Seq<ErrorModel> {
    v.map_values(|e: Error| e@)
}

pub fn annotation_tag(cfg: Option<&str>) -> (r: String)
    ensures
        r@ == tag_for(
            match cfg {
                Some(s) => Some(s@),
                None => None,
            },
        ),
{
    match cfg {
        Some(rev) => {
            let mut t = String::from_str("//[");
            t.append(rev);
            t.append("]~");
            t
        },
        None => String::from_str("//~"),
    }
}

/// The expected diagnostics that the lines of a file declare, in file order. Lines are numbered
/// from 1. With `cfg` set to a revision, only `//[rev]~` annotations of that revision count.
pub fn parse_errors(lines: &Vec<String>, cfg: Option<&str>) -> (r: Result<
    Vec<Error>,
    AnnotationError,
>)
    requires
        lines@.len() < usize::MAX,
    ensures
        match r {
            Ok(v) => annotations_of(
                line_views(lines@),
                tag_for(
                    match cfg {
                        Some(s) => Some(s@),
                        None => None,
                    },
                ),
            ) == Ok::<Seq<ErrorModel>, AnnotationError>(errors_view(v@)),
            Err(e) => annotations_of(
                line_views(lines@),
                tag_for(
                    match cfg {
                        Some(s) => Some(s@),
                        None => None,
                    },
                ),
            ) == Err::<Seq<ErrorModel>, AnnotationError>(e),
        },
{
    let tag = annotation_tag(cfg);
    let ghost lv = line_views(lines@);
    let mut out: Vec<Error> = Vec::new();
    let mut last: Option<usize> = None;
    let mut i: usize = 0;
    assert(errors_view(out@) =~= Seq::<ErrorModel>::empty());
    while i < lines.len()
        invariant
            i <= lines@.len() < usize::MAX,
            lv == line_views(lines@),
            tag@ == tag_for(
                match cfg {
                    Some(s) => Some(s@),
                    None => None,
                },
            ),
            annotations_upto(lv, tag@, i as nat) == Ok::<
                (Seq<ErrorModel>, Option<usize>),
                AnnotationError,
            >((errors_view(out@), last)),
        decreases lines@.len() - i,
    {
        let res = parse_expected(last, i + 1, lines[i].as_str(), tag.as_str());
        assert(lv[i as int] == lines@[i as int]@);
        match res {
            Err(e) => {
                proof {
                    assert(lv.len() == lines@.len());
                    assert(annotations_upto(lv, tag@, (i + 1) as nat) == Err::<
                        (Seq<ErrorModel>, Option<usize>),
                        AnnotationError,
                    >(e));
                    lemma_error_persists(lv, tag@, (i + 1) as nat, lv.len(), e);
                }
                return Err(e);
            },
            Ok(None) => {},
            Ok(Some((w, e))) => {
                let ln = e.line_num;
                let follow = match w {
                    WhichLine::FollowPrevious(_) => true,
                    _ => false,
                };
                let ghost em = e@;
                let ghost prev = out@;
                out.push(e);
                if !follow {
                    last = Some(ln);
                }
                assert(errors_view(out@) =~= errors_view(prev).push(em));
            },
        }
        i = i + 1;
    }
    Ok(out)
}

} // verus!

verus! {

proof fn lemma_lead_concat(a: Seq<char>, b: Seq<char>, cls: CharClass)
    requires
        forall|i: int| 0 <= i < a.len() ==> crate::text::in_class(#[trigger] a[i], cls),
    ensures
        lead_len(a + b, cls) == a.len() + lead_len(b, cls),
    decreases a.len(),
{
    if a.len() > 0 {
        assert((a + b).drop_first() =~= a.drop_first() + b);
        assert((a + b)[0] == a[0]);
        lemma_lead_concat(a.drop_first(), b, cls);
    } else {
        assert(a + b =~= b);
    }
}

proof fn lemma_lead_zero(s: Seq<char>, cls: CharClass)
    requires
        s.len() > 0,
        !crate::text::in_class(s[0], cls),
    ensures
        lead_len(s, cls) == 0,
{
}

proof fn lemma_tag_first(code: Seq<char>, tag: Seq<char>, rest: Seq<char>)
    requires
        forall|i: int| 0 <= i < code.len() ==> !crate::text::occurs_at(code + tag, tag, i),
    ensures
        first_occurrence(code + tag + rest, tag, code.len() as int),
        (choose|i: int| first_occurrence(code + tag + rest, tag, i)) == code.len(),
{
    let line = code + tag + rest;
    let ct = code + tag;
    let c = code.len() as int;
    assert(line =~= ct + rest);
    assert(line.subrange(c, c + tag.len()) =~= tag);
    assert(crate::text::occurs_at(line, tag, c));
    assert forall|j: int| 0 <= j < c implies !crate::text::occurs_at(line, tag, j) by {
        if crate::text::occurs_at(line, tag, j) {
            assert(line.subrange(j, j + tag.len()) =~= ct.subrange(j, j + tag.len()));
            assert(crate::text::occurs_at(ct, tag, j));
        }
    }
    assert(first_occurrence(line, tag, c));
    let start = choose|i: int| first_occurrence(line, tag, i);
    if start < c {
        assert(!crate::text::occurs_at(line, tag, start));
    }
    if c < start {
        assert(!crate::text::occurs_at(line, tag, c));
    }
}

/// The comment text of an annotation: the tag, `carets` carets, a space, the severity word,
/// a space and the message.
pub open spec fn annotation_text(tag: Seq<char>, carets: nat, word: Seq<char>, msg: Seq<char>) -> Seq<
    char,
> {
    tag + Seq::new(carets, |i: int| '^') + seq![' '] + word + seq![' '] + msg
}

/// An annotation written after some code reads back as the line it points at, the kind its
/// severity word names and its message, where `word` names `kind`: `carets` carets point
/// that many lines above the comment's own line `line_num`. The message has no whitespace at
/// its ends, since reading trims it, and the code holds no earlier tag.
#[verifier::rlimit(100)]
#[verifier::spinoff_prover]
pub proof fn lemma_annotation_with_kind(
    prev: Option<usize>,
    line_num: nat,
    code: Seq<char>,
    tag: Seq<char>,
    carets: nat,
    word: Seq<char>,
    kind: ErrorKind,
    msg: Seq<char>,
)
    requires
        carets <= line_num,
        line_num <= usize::MAX,
        forall|i: int| 0 <= i < code.len() ==> !crate::text::occurs_at(code + tag, tag, i),
        word.len() > 0,
        forall|i: int| 0 <= i < word.len() ==> crate::text::in_class(#[trigger] word[i], CharClass::Word),
        msg.len() > 0 ==> !crate::text::is_ws(msg[0]) && !crate::text::is_ws(msg.last()),
    ensures
        annotation_with_kind(
            prev,
            line_num,
            code + annotation_text(tag, carets, word, msg),
            tag,
            Some(kind),
        ) == Ok::<
            Option<(WhichLine, ErrorModel)>,
            AnnotationError,
        >(
            Some(
                (
                    if carets > 0 {
                        WhichLine::AdjustBackward(carets as usize)
                    } else {
                        WhichLine::ThisLine
                    },
                    ErrorModel {
                        line_num: (line_num - carets) as nat,
                        kind: Some(kind),
                        msg,
                        count: None,
                    },
                ),
            ),
        ),
{
    let sp = seq![' '];
    let cs = Seq::new(carets, |i: int| '^');
    let tail = sp + word + sp + msg;
    let rest = cs + tail;
    let line = code + annotation_text(tag, carets, word, msg);
    assert(line =~= code + tag + rest);
    let c = code.len() as int;
    let p = c + tag.len();
    // The tag's first occurrence is just after the code.
    lemma_tag_first(code, tag, rest);
    let start = choose|i: int| first_occurrence(line, tag, i);
    assert(start == c);
    // Carets.
    assert(line.skip(p) =~= rest);
    lemma_lead_concat(cs, tail, CharClass::Caret);
    assert(tail[0] == ' ');
    lemma_lead_zero(tail, CharClass::Caret);
    assert(!follows(line, p));
    assert(self::carets(line, p) == carets);
    // The space before the word.
    let ks = p + carets;
    assert(line.skip(ks) =~= tail);
    assert(crate::text::in_class(word[0], CharClass::Word));
    lemma_lead_concat(sp, word + sp + msg, CharClass::Whitespace);
    assert(sp + (word + sp + msg) =~= tail);
    assert((word + sp + msg)[0] == word[0]);
    lemma_lead_zero(word + sp + msg, CharClass::Whitespace);
    let ts = ks + 1;
    assert(word_start(line, p) == ts);
    // The word.
    assert(line.skip(ts) =~= word + (sp + msg));
    lemma_lead_concat(word, sp + msg, CharClass::Word);
    assert((sp + msg)[0] == ' ');
    lemma_lead_zero(sp + msg, CharClass::Word);
    let we = ts + word.len();
    assert(word_end(line, p) == we);
    assert(line.subrange(ts, we) =~= word);
    assert(line[we] == ' ');
    // The message.
    assert(line.skip(we) =~= sp + msg);
    lemma_lead_concat(sp, msg, CharClass::Whitespace);
    if msg.len() > 0 {
        lemma_lead_zero(msg, CharClass::Whitespace);
        assert(crate::text::trail_len(msg, CharClass::Whitespace) == 0);
    }
    assert(crate::text::trim_start(sp + msg) =~= msg);
    assert(msg.take(msg.len() as int) =~= msg);
    assert(trim(sp + msg) =~= msg);
}

} // verus!

verus! {

/// The name of a kind in upper case, as annotations write it.
pub open spec fn kind_upper_name(k: ErrorKind) -> Seq<char> {
    match k {
        ErrorKind::Help => "HELP"@,
        ErrorKind::Error => "ERROR"@,
        ErrorKind::Note => "NOTE"@,
        ErrorKind::Suggestion => "SUGGESTION"@,
        ErrorKind::Warning => "WARNING"@,
    }
}

proof fn lemma_lead_all(s: Seq<char>, cls: CharClass)
    requires
        forall|i: int| 0 <= i < s.len() ==> crate::text::in_class(#[trigger] s[i], cls),
    ensures
        lead_len(s, cls) == s.len(),
{
    lemma_lead_concat(s, Seq::empty(), cls);
    assert(s + Seq::<char>::empty() =~= s);
}

/// Each kind's upper-case name reads as that kind, and is a word of letters.
pub proof fn lemma_kind_upper_name(k: ErrorKind)
    ensures
        kind_of_upper(kind_upper_name(k)) == Some(k),
        kind_upper_name(k).len() > 0,
        forall|i: int|
            0 <= i < kind_upper_name(k).len() ==> crate::text::in_class(
                #[trigger] kind_upper_name(k)[i],
                CharClass::Word,
            ),
        forall|i: int|
            0 <= i < kind_upper_name(k).len() ==> crate::text::in_class(
                #[trigger] kind_upper_name(k)[i],
                CharClass::NotColon,
            ),
{
    reveal_strlit("HELP");
    reveal_strlit("ERROR");
    reveal_strlit("NOTE");
    reveal_strlit("SUGGESTION");
    reveal_strlit("WARN");
    reveal_strlit("WARNING");
    let n = kind_upper_name(k);
    assert forall|i: int| 0 <= i < n.len() implies crate::text::in_class(
        #[trigger] n[i],
        CharClass::NotColon,
    ) && crate::text::in_class(n[i], CharClass::Word) by {
        assert('A' <= n[i] && n[i] <= 'Z');
    }
    lemma_lead_all(n, CharClass::NotColon);
    assert(n.take(n.len() as int) =~= n);
    assert("HELP"@.len() == 4 && "ERROR"@.len() == 5 && "NOTE"@.len() == 4);
    assert("SUGGESTION"@.len() == 10 && "WARN"@.len() == 4 && "WARNING"@.len() == 7);
    assert("HELP"@[0] == 'H' && "NOTE"@[0] == 'N' && "WARN"@[0] == 'W');
    assert("HELP"@ != "ERROR"@);
    assert("HELP"@ != "NOTE"@ && "ERROR"@ != "NOTE"@);
    assert("SUGGESTION"@ != "HELP"@ && "SUGGESTION"@ != "ERROR"@ && "SUGGESTION"@ != "NOTE"@);
    assert("WARNING"@ != "HELP"@ && "WARNING"@ != "ERROR"@ && "WARNING"@ != "NOTE"@);
    assert("WARNING"@ != "SUGGESTION"@);
}

/// An annotation that names its kind in upper case reads back as the line it points at,
/// that kind and its message: `carets` carets point that many lines above the comment's own
/// line `line_num`. The message has no whitespace at its ends, since reading trims it, and
/// the code holds no earlier tag. (`parse_expected_upper` reads the line with the kind's
/// name as its upper-cased severity word.)
pub proof fn lemma_annotation_round_trip(
    prev: Option<usize>,
    line_num: nat,
    code: Seq<char>,
    tag: Seq<char>,
    carets: nat,
    kind: ErrorKind,
    msg: Seq<char>,
)
    requires
        carets <= line_num,
        line_num <= usize::MAX,
        forall|i: int| 0 <= i < code.len() ==> !crate::text::occurs_at(code + tag, tag, i),
        msg.len() > 0 ==> !crate::text::is_ws(msg[0]) && !crate::text::is_ws(msg.last()),
    ensures
        annotation_with_kind(
            prev,
            line_num,
            code + annotation_text(tag, carets, kind_upper_name(kind), msg),
            tag,
            kind_of_upper(kind_upper_name(kind)),
        ) == Ok::<Option<(WhichLine, ErrorModel)>, AnnotationError>(
            Some(
                (
                    if carets > 0 {
                        WhichLine::AdjustBackward(carets as usize)
                    } else {
                        WhichLine::ThisLine
                    },
                    ErrorModel {
                        line_num: (line_num - carets) as nat,
                        kind: Some(kind),
                        msg,
                        count: None,
                    },
                ),
            ),
        ),
{
    lemma_kind_upper_name(kind);
    lemma_annotation_with_kind(
        prev,
        line_num,
        code,
        tag,
        carets,
        kind_upper_name(kind),
        kind,
        msg,
    );
}

} // verus!
