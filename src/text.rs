//! Character classes and plain text operations over the view of a string.
use vstd::prelude::*;

verus! {

/// Rust's `char::is_whitespace`: the Unicode `White_Space` property.
pub open spec fn is_ws(c: char) -> bool {
    ('\u{9}' <= c && c <= '\u{d}') || c == ' ' || c == '\u{85}' || c == '\u{a0}' || c
        == '\u{1680}' || ('\u{2000}' <= c && c <= '\u{200a}') || c == '\u{2028}' || c
        == '\u{2029}' || c == '\u{202f}' || c == '\u{205f}' || c == '\u{3000}'
}

pub open spec fn is_digit(c: char) -> bool {
    '0' <= c && c <= '9'
}

/// Classes of characters that the scanners of this crate skip over.
#[derive(Clone, Copy, PartialEq, Eq, Structural, Debug)]
pub enum CharClass {
    Whitespace,
    Caret,
    /// Anything but whitespace and `*`.
    Word,
    Digit,
    /// Anything but `:`.
    NotColon,
    /// Anything but a line feed.
    NotNewline,
    /// Anything but whitespace.
    NotWhitespace,
    NotColonOrSpace,
    NotDash,
    NotEquals,
    NotQuote,
    NotCloseBracket,
    SpaceOrDash,
    NotSpaceOrDash,
    NotSpace,
}

pub open spec fn in_class(c: char, cls: CharClass) -> bool {
    match cls {
        CharClass::Whitespace => is_ws(c),
        CharClass::Caret => c == '^',
        CharClass::Word => !is_ws(c) && c != '*',
        CharClass::Digit => is_digit(c),
        CharClass::NotColon => c != ':',
        CharClass::NotNewline => c != '\n',
        CharClass::NotWhitespace => !is_ws(c),
        CharClass::NotColonOrSpace => c != ':' && c != ' ',
        CharClass::NotDash => c != '-',
        CharClass::NotEquals => c != '=',
        CharClass::NotQuote => c != '"',
        CharClass::NotCloseBracket => c != ']',
        CharClass::SpaceOrDash => c == ' ' || c == '-',
        CharClass::NotSpaceOrDash => c != ' ' && c != '-',
        CharClass::NotSpace => c != ' ',
    }
}

/// Separator classes and the class of everything else.
pub open spec fn complement(sep: CharClass) -> CharClass {
    match sep {
        CharClass::SpaceOrDash => CharClass::NotSpaceOrDash,
        _ => CharClass::NotWhitespace,
    }
}

pub open spec fn is_separator(sep: CharClass) -> bool {
    sep == CharClass::Whitespace || sep == CharClass::SpaceOrDash
}

/// Length of the longest prefix of `s` whose characters are all in `cls`.
pub open spec fn lead_len(s: Seq<char>, cls: CharClass) -> nat
    decreases s.len(),
{
    if s.len() > 0 && in_class(s[0], cls) {
        1 + lead_len(s.drop_first(), cls)
    } else {
        0
    }
}

/// Length of the longest suffix of `s` whose characters are all in `cls`.
pub open spec fn trail_len(s: Seq<char>, cls: CharClass) -> nat
    decreases s.len(),
{
    if s.len() > 0 && in_class(s.last(), cls) {
        1 + trail_len(s.drop_last(), cls)
    } else {
        0
    }
}

pub open spec fn trim_start(s: Seq<char>) -> Seq<char> {
    s.skip(lead_len(s, CharClass::Whitespace) as int)
}

pub open spec fn trim_end(s: Seq<char>) -> Seq<char> {
    s.take(s.len() - trail_len(s, CharClass::Whitespace))
}

/// `str::trim`: whitespace removed at both ends.
pub open spec fn trim(s: Seq<char>) -> Seq<char> {
    trim_end(trim_start(s))
}

pub open spec fn occurs_at(s: Seq<char>, p: Seq<char>, i: int) -> bool {
    0 <= i && i + p.len() <= s.len() && s.subrange(i, i + p.len()) == p
}

pub open spec fn contains(s: Seq<char>, p: Seq<char>) -> bool {
    exists|i: int| occurs_at(s, p, i)
}

pub open spec fn starts_with(s: Seq<char>, p: Seq<char>) -> bool {
    occurs_at(s, p, 0)
}

/// The decimal number that the digits of `s` spell.
pub open spec fn digits_value(s: Seq<char>) -> nat
    decreases s.len(),
{
    if s.len() == 0 {
        0
    } else {
        10 * digits_value(s.drop_last()) + (s.last() as nat - '0' as nat) as nat
    }
}

pub open spec fn all_digits(s: Seq<char>) -> bool {
    forall|i: int| 0 <= i < s.len() ==> is_digit(#[trigger] s[i])
}

/// `i` is where `p` first occurs in `s`.
pub open spec fn first_occurrence(s: Seq<char>, p: Seq<char>, i: int) -> bool {
    occurs_at(s, p, i) && forall|j: int| 0 <= j < i ==> !occurs_at(s, p, j)
}

pub proof fn lemma_lead_len_bound(s: Seq<char>, cls: CharClass)
    ensures
        lead_len(s, cls) <= s.len(),
    decreases s.len(),
{
    if s.len() > 0 && in_class(s[0], cls) {
        lemma_lead_len_bound(s.drop_first(), cls);
    }
}

/// Every character of the leading run is in the class.
pub proof fn lemma_lead_prefix(s: Seq<char>, cls: CharClass, i: int)
    requires
        0 <= i < lead_len(s, cls),
    ensures
        in_class(s[i], cls),
    decreases s.len(),
{
    lemma_lead_len_bound(s, cls);
    if i > 0 {
        lemma_lead_prefix(s.drop_first(), cls, i - 1);
    }
}

pub proof fn lemma_trail_len_bound(s: Seq<char>, cls: CharClass)
    ensures
        trail_len(s, cls) <= s.len(),
    decreases s.len(),
{
    if s.len() > 0 && in_class(s.last(), cls) {
        lemma_trail_len_bound(s.drop_last(), cls);
    }
}

pub fn is_whitespace(c: char) -> (r: bool)
    ensures
        r == is_ws(c),
{
    ('\u{9}' <= c && c <= '\u{d}') || c == ' ' || c == '\u{85}' || c == '\u{a0}' || c
        == '\u{1680}' || ('\u{2000}' <= c && c <= '\u{200a}') || c == '\u{2028}' || c
        == '\u{2029}' || c == '\u{202f}' || c == '\u{205f}' || c == '\u{3000}'
}

pub fn char_in_class(c: char, cls: CharClass) -> (r: bool)
    ensures
        r == in_class(c, cls),
{
    match cls {
        CharClass::Whitespace => is_whitespace(c),
        CharClass::Caret => c == '^',
        CharClass::Word => !is_whitespace(c) && c != '*',
        CharClass::Digit => '0' <= c && c <= '9',
        CharClass::NotColon => c != ':',
        CharClass::NotNewline => c != '\n',
        CharClass::NotWhitespace => !is_whitespace(c),
        CharClass::NotColonOrSpace => c != ':' && c != ' ',
        CharClass::NotDash => c != '-',
        CharClass::NotEquals => c != '=',
        CharClass::NotQuote => c != '"',
        CharClass::NotCloseBracket => c != ']',
        CharClass::SpaceOrDash => c == ' ' || c == '-',
        CharClass::NotSpaceOrDash => c != ' ' && c != '-',
        CharClass::NotSpace => c != ' ',
    }
}

/// The characters of `s`, one element each.
pub fn chars_of(s: &str) -> (r: Vec<char>)
    ensures
        r@ == s@,
{
    let n = s.unicode_len();
    let mut r: Vec<char> = Vec::new();
    let mut i: usize = 0;
    while i < n
        invariant
            n == s@.len(),
            i <= n,
            r@ == s@.take(i as int),
        decreases n - i,
    {
        let c = s.get_char(i);
        r.push(c);
        i = i + 1;
        assert(r@ =~= s@.take(i as int));
    }
    assert(r@ =~= s@);
    r
}

/// Number of characters of `v` in `cls` from index `from` on, up to the first one outside it.
pub fn run_len(v: &Vec<char>, from: usize, cls: CharClass) -> (r: usize)
    requires
        from <= v@.len(),
    ensures
        r == lead_len(v@.skip(from as int), cls),
        from + r <= v@.len(),
        from + r <= v.len(),
{
    let mut i: usize = from;
    while i < v.len() && char_in_class(v[i], cls)
        invariant
            from <= i <= v@.len(),
            lead_len(v@.skip(from as int), cls) == (i - from) + lead_len(v@.skip(i as int), cls),
        decreases v@.len() - i,
    {
        assert(v@.skip(i as int).drop_first() =~= v@.skip(i + 1));
        i = i + 1;
    }
    i - from
}

/// Number of characters of `v[..to]` in `cls` counted from its end.
pub fn run_len_back(v: &Vec<char>, to: usize, cls: CharClass) -> (r: usize)
    requires
        to <= v@.len(),
    ensures
        r == trail_len(v@.take(to as int), cls),
        r <= to,
{
    let mut i: usize = to;
    while i > 0 && char_in_class(v[i - 1], cls)
        invariant
            i <= to <= v@.len(),
            trail_len(v@.take(to as int), cls) == (to - i) + trail_len(v@.take(i as int), cls),
        decreases i,
    {
        assert(v@.take(i as int).drop_last() =~= v@.take(i - 1));
        i = i - 1;
    }
    to - i
}

/// Bounds `(a, b)` of `trim(v[from..to])` within `v`.
pub fn trim_bounds(v: &Vec<char>, from: usize, to: usize) -> (r: (usize, usize))
    requires
        from <= to <= v@.len(),
    ensures
        from <= r.0 <= r.1 <= to,
        v@.subrange(r.0 as int, r.1 as int) == trim(v@.subrange(from as int, to as int)),
{
    let ghost s = v@.subrange(from as int, to as int);
    let mut a: usize = from;
    while a < to && char_in_class(v[a], CharClass::Whitespace)
        invariant
            from <= a <= to <= v@.len(),
            lead_len(s, CharClass::Whitespace) == (a - from) + lead_len(
                v@.subrange(a as int, to as int),
                CharClass::Whitespace,
            ),
        decreases to - a,
    {
        assert(v@.subrange(a as int, to as int).drop_first() =~= v@.subrange(a + 1, to as int));
        a = a + 1;
    }
    assert(v@.subrange(from as int, to as int) =~= s);
    assert(trim_start(s) =~= v@.subrange(a as int, to as int));
    let ghost t = v@.subrange(a as int, to as int);
    let mut b: usize = to;
    while b > a && char_in_class(v[b - 1], CharClass::Whitespace)
        invariant
            a <= b <= to <= v@.len(),
            t == v@.subrange(a as int, to as int),
            trail_len(t, CharClass::Whitespace) == (to - b) + trail_len(
                v@.subrange(a as int, b as int),
                CharClass::Whitespace,
            ),
        decreases b,
    {
        assert(v@.subrange(a as int, b as int).drop_last() =~= v@.subrange(a as int, b - 1));
        b = b - 1;
    }
    assert(trim_end(t) =~= v@.subrange(a as int, b as int));
    (a, b)
}

/// Whether `p` occurs in `v` at index `i`.
pub fn occurs_at_exec(v: &Vec<char>, p: &Vec<char>, i: usize) -> (r: bool)
    ensures
        r == occurs_at(v@, p@, i as int),
{
    if i > v.len() || p.len() > v.len() - i {
        return false;
    }
    let mut k: usize = 0;
    while k < p.len()
        invariant
            i + p@.len() <= v@.len(),
            v@.len() == v.len(),
            k <= p@.len(),
            forall|j: int| 0 <= j < k ==> v@[i + j] == p@[j],
        decreases p@.len() - k,
    {
        if v[i + k] != p[k] {
            assert(v@.subrange(i as int, i + p@.len())[k as int] != p@[k as int]);
            return false;
        }
        k = k + 1;
    }
    assert(v@.subrange(i as int, i + p@.len()) =~= p@);
    true
}

/// Where `p` first occurs in `v`, if anywhere.
pub fn find(v: &Vec<char>, p: &Vec<char>) -> (r: Option<usize>)
    ensures
        r is None <==> !contains(v@, p@),
        r matches Some(i) ==> first_occurrence(v@, p@, i as int),
{
    if p.len() == 0 {
        assert(v@.subrange(0, 0) =~= p@);
        assert(occurs_at(v@, p@, 0));
        return Some(0);
    }
    let mut i: usize = 0;
    while i < v.len()
        invariant
            i <= v@.len(),
            p@.len() > 0,
            forall|j: int| 0 <= j < i ==> !occurs_at(v@, p@, j),
        decreases v@.len() - i,
    {
        if occurs_at_exec(v, p, i) {
            return Some(i);
        }
        i = i + 1;
    }
    assert forall|j: int| !occurs_at(v@, p@, j) by {
        if 0 <= j < i {
        }
    }
    None
}

/// `str::contains` on the views of two strings.
pub fn str_contains(s: &str, p: &str) -> (r: bool)
    ensures
        r == contains(s@, p@),
{
    let v = chars_of(s);
    let w = chars_of(p);
    find(&v, &w).is_some()
}

/// `str::starts_with` on the views of two strings.
pub fn str_starts_with(s: &str, p: &str) -> (r: bool)
    ensures
        r == starts_with(s@, p@),
{
    let v = chars_of(s);
    let w = chars_of(p);
    occurs_at_exec(&v, &w, 0)
}

/// `v[from..to]` as a new string.
pub fn substring(s: &str, from: usize, to: usize) -> (r: String)
    requires
        from <= to <= s@.len(),
    ensures
        r@ == s@.subrange(from as int, to as int),
{
    String::from_str(s.substring_char(from, to))
}

/// `str::trim`, as a new string.
pub fn trimmed(s: &str) -> (r: String)
    ensures
        r@ == trim(s@),
{
    let v = chars_of(s);
    let (a, b) = trim_bounds(&v, 0, v.len());
    assert(v@.subrange(0, v@.len() as int) =~= s@);
    substring(s, a, b)
}

} // verus!

verus! {

pub proof fn lemma_digits_value_prefix(s: Seq<char>, n: int)
    requires
        0 <= n <= s.len(),
        all_digits(s),
    ensures
        digits_value(s.take(n)) <= digits_value(s),
    decreases s.len(),
{
    if n < s.len() {
        assert(s.drop_last().take(n) =~= s.take(n));
        lemma_digits_value_prefix(s.drop_last(), n);
        assert(digits_value(s) >= digits_value(s.drop_last()));
    } else {
        assert(s.take(n) =~= s);
    }
}

/// The value of the digits `v[from..to]`, where it is at most `bound`.
pub fn decimal_value(v: &Vec<char>, from: usize, to: usize, bound: u64) -> (r: Option<u64>)
    requires
        from <= to <= v@.len(),
        all_digits(v@.subrange(from as int, to as int)),
    ensures
        r == (if digits_value(v@.subrange(from as int, to as int)) <= bound {
            Some(digits_value(v@.subrange(from as int, to as int)) as u64)
        } else {
            None
        }),
{
    let ghost s = v@.subrange(from as int, to as int);
    let mut acc: u64 = 0;
    let mut i: usize = from;
    while i < to
        invariant
            from <= i <= to <= v@.len(),
            s == v@.subrange(from as int, to as int),
            all_digits(s),
            acc as nat == digits_value(v@.subrange(from as int, i as int)),
            acc <= bound,
        decreases to - i,
    {
        assert(v@.subrange(from as int, i + 1).drop_last() =~= v@.subrange(from as int, i as int));
        assert(is_digit(s[i - from]));
        let d = (v[i] as u32 - '0' as u32) as u64;
        if d > bound || acc > (bound - d) / 10 {
            proof {
                if d <= bound {
                    assert(10 * acc + d > bound) by (nonlinear_arith)
                        requires
                            acc > (bound - d) / 10,
                            d <= bound,
                    ;
                }
                assert(s.take(i + 1 - from) =~= v@.subrange(from as int, i + 1));
                lemma_digits_value_prefix(s, i + 1 - from);
            }
            return None;
        }
        assert(10 * acc + d <= bound) by (nonlinear_arith)
            requires
                acc <= (bound - d) / 10,
                d <= bound,
        ;
        acc = 10 * acc + d;
        i = i + 1;
    }
    assert(v@.subrange(from as int, i as int) =~= s);
    Some(acc)
}

} // verus!

verus! {

/// A line without the carriage return that may end it.
pub open spec fn strip_cr(l: Seq<char>) -> Seq<char> {
    if l.len() > 0 && l.last() == '\r' {
        l.drop_last()
    } else {
        l
    }
}

/// `str::lines`: the pieces between line feeds, each without a final `\r`; a line feed at the
/// very end starts no further line.
pub open spec fn lines_of(s: Seq<char>) -> Seq<Seq<char>>
    decreases s.len(),
{
    if s.len() == 0 {
        Seq::empty()
    } else {
        let k = lead_len(s, CharClass::NotNewline) as int;
        if k >= s.len() {
            seq![strip_cr(s)]
        } else {
            seq![strip_cr(s.take(k))] + lines_of(s.skip(k + 1))
        }
    }
}

pub open spec fn string_views(v: Seq<String>) -> Seq<Seq<char>> {
    v.map_values(|l: String| l@)
}

fn strip_cr_end(v: &Vec<char>, from: usize, to: usize) -> (r: usize)
    requires
        from <= to <= v@.len(),
    ensures
        from <= r <= to,
        v@.subrange(from as int, r as int) == strip_cr(v@.subrange(from as int, to as int)),
{
    if to > from && v[to - 1] == '\r' {
        assert(v@.subrange(from as int, to as int).drop_last() =~= v@.subrange(from as int, to - 1));
        to - 1
    } else {
        to
    }
}

/// The lines of `s`, as `str::lines` cuts them.
pub fn split_lines(s: &str) -> (r: Vec<String>)
    ensures
        string_views(r@) == lines_of(s@),
{
    let v = chars_of(s);
    let mut out: Vec<String> = Vec::new();
    let mut start: usize = 0;
    assert(string_views(out@) =~= Seq::<Seq<char>>::empty());
    assert(v@.skip(0) =~= v@);
    while start < v.len()
        invariant
            start <= v@.len(),
            v@ == s@,
            lines_of(s@) == string_views(out@) + lines_of(v@.skip(start as int)),
        decreases v@.len() - start,
    {
        let ghost rest = v@.skip(start as int);
        let k = run_len(&v, start, CharClass::NotNewline);
        let ghost prev = out@;
        if start + k == v.len() {
            let e = strip_cr_end(&v, start, v.len());
            out.push(substring(s, start, e));
            assert(rest =~= v@.subrange(start as int, v@.len() as int));
            assert(string_views(out@) =~= string_views(prev).push(strip_cr(rest)));
            assert(lines_of(s@) =~= string_views(out@));
            assert(v@.skip(v@.len() as int) =~= Seq::<char>::empty());
            return out;
        }
        let e = strip_cr_end(&v, start, start + k);
        out.push(substring(s, start, e));
        assert(rest.take(k as int) =~= v@.subrange(start as int, start + k));
        assert(rest.skip(k + 1) =~= v@.skip(start + k + 1));
        assert(string_views(out@) =~= string_views(prev).push(strip_cr(rest.take(k as int))));
        assert(lines_of(s@) =~= string_views(out@) + lines_of(v@.skip(start + k + 1)));
        start = start + k + 1;
    }
    assert(v@.skip(start as int) =~= Seq::<char>::empty());
    assert(lines_of(s@) =~= string_views(out@));
    out
}

} // verus!

verus! {

/// Equality of the views of two strings.
pub fn str_eq(a: &str, b: &str) -> (r: bool)
    ensures
        r == (a@ == b@),
{
    let v = chars_of(a);
    let w = chars_of(b);
    if v.len() != w.len() {
        return false;
    }
    let r = occurs_at_exec(&v, &w, 0);
    assert(v@.subrange(0, v@.len() as int) =~= v@);
    r
}

} // verus!

verus! {

/// `str::replace`: each occurrence of `from`, taken from the left without overlap, replaced by
/// `to`.
pub open spec fn replace_all(s: Seq<char>, from: Seq<char>, to: Seq<char>) -> Seq<char>
    recommends
        from.len() > 0,
    decreases s.len(),
{
    if from.len() == 0 || !contains(s, from) {
        s
    } else {
        let i = choose|i: int| first_occurrence(s, from, i);
        if 0 <= i && i + from.len() <= s.len() {
            s.take(i) + to + replace_all(s.skip(i + from.len()), from, to)
        } else {
            s
        }
    }
}

/// Whether `p` occurs in `v` at or after `start`, and where first.
fn find_from(v: &Vec<char>, p: &Vec<char>, start: usize) -> (r: Option<usize>)
    requires
        start <= v@.len(),
    ensures
        r is None ==> !contains(v@.skip(start as int), p@),
        r matches Some(i) ==> start <= i && first_occurrence(v@.skip(start as int), p@, i - start),
{
    let mut w: Vec<char> = Vec::new();
    let mut k: usize = start;
    while k < v.len()
        invariant
            start <= k <= v@.len(),
            w@ == v@.subrange(start as int, k as int),
        decreases v@.len() - k,
    {
        w.push(v[k]);
        k = k + 1;
        assert(w@ =~= v@.subrange(start as int, k as int));
    }
    assert(w@ =~= v@.skip(start as int));
    match find(&w, p) {
        Some(i) => Some(start + i),
        None => None,
    }
}

/// `s` with each occurrence of `from` replaced by `to`.
pub fn replace(s: &str, from: &str, to: &str) -> (r: String)
    requires
        from@.len() > 0,
    ensures
        r@ == replace_all(s@, from@, to@),
{
    let v = chars_of(s);
    let p = chars_of(from);
    let mut out = String::new();
    let mut pos: usize = 0;
    assert(v@.skip(0) =~= v@);
    while pos <= v.len()
        invariant
            pos <= v@.len(),
            v@ == s@,
            p@ == from@,
            p@.len() > 0,
            replace_all(s@, from@, to@) == out@ + replace_all(v@.skip(pos as int), from@, to@),
        decreases v@.len() - pos,
    {
        let ghost rest = v@.skip(pos as int);
        match find_from(&v, &p, pos) {
            None => {
                out.append(s.substring_char(pos, v.len()));
                assert(rest =~= v@.subrange(pos as int, v@.len() as int));
                return out;
            },
            Some(i) => {
                let ghost j = choose|j: int| first_occurrence(rest, from@, j);
                assert(j == i - pos) by {
                    if j < i - pos {
                        assert(!occurs_at(rest, from@, j));
                    }
                    if i - pos < j {
                        assert(!occurs_at(rest, from@, i - pos));
                    }
                }
                assert(occurs_at(rest, from@, i - pos));
                out.append(s.substring_char(pos, i));
                out.append(to);
                assert(rest.take(i - pos) =~= v@.subrange(pos as int, i as int));
                assert(rest.skip(i - pos + p@.len()) =~= v@.skip(i + p@.len()));
                pos = i + p.len();
            },
        }
    }
    out
}

/// The non-empty pieces of `s` between runs of separators of class `sep`.
pub open spec fn fields_of(s: Seq<char>, sep: CharClass) -> Seq<Seq<char>>
    decreases s.len(),
{
    let t = s.skip(lead_len(s, sep) as int);
    if t.len() == 0 || t.len() > s.len() {
        Seq::empty()
    } else {
        let k = lead_len(t, complement(sep)) as int;
        if 0 < k <= t.len() {
            seq![t.take(k)] + fields_of(t.skip(k), sep)
        } else {
            Seq::empty()
        }
    }
}

/// `str::split_whitespace`: the pieces between runs of whitespace.
pub open spec fn words_of(s: Seq<char>) -> Seq<Seq<char>> {
    fields_of(s, CharClass::Whitespace)
}

/// The non-empty pieces of `s` between runs of separators of class `sep`.
pub fn split_fields(s: &str, sep: CharClass) -> (r: Vec<String>)
    requires
        is_separator(sep),
    ensures
        string_views(r@) == fields_of(s@, sep),
{
    let v = chars_of(s);
    let non = match sep {
        CharClass::SpaceOrDash => CharClass::NotSpaceOrDash,
        _ => CharClass::NotWhitespace,
    };
    let mut out: Vec<String> = Vec::new();
    let mut pos: usize = 0;
    assert(v@.skip(0) =~= v@);
    assert(string_views(out@) =~= Seq::<Seq<char>>::empty());
    while pos < v.len()
        invariant
            pos <= v@.len(),
            v@ == s@,
            is_separator(sep),
            non == complement(sep),
            fields_of(s@, sep) == string_views(out@) + fields_of(v@.skip(pos as int), sep),
        decreases v@.len() - pos,
    {
        let ghost rest = v@.skip(pos as int);
        let ws = run_len(&v, pos, sep);
        let start = pos + ws;
        assert(rest.skip(ws as int) =~= v@.skip(start as int));
        if start == v.len() {
            assert(fields_of(rest, sep) =~= Seq::<Seq<char>>::empty());
            assert(string_views(out@) + fields_of(rest, sep) =~= string_views(out@));
            return out;
        }
        let k = run_len(&v, start, non);
        proof {
            assert(v@.skip(start as int)[0] == v@[start as int]);
            lemma_lead_stop(rest, sep);
            assert(!in_class(v@[start as int], sep));
        }
        let ghost prev = out@;
        out.push(substring(s, start, start + k));
        assert(v@.skip(start as int).take(k as int) =~= v@.subrange(start as int, start + k));
        assert(v@.skip(start as int).skip(k as int) =~= v@.skip(start + k));
        assert(string_views(out@) =~= string_views(prev).push(v@.subrange(start as int, start + k)));
        assert(fields_of(s@, sep) =~= string_views(out@) + fields_of(v@.skip(start + k), sep));
        pos = start + k;
    }
    assert(v@.skip(pos as int) =~= Seq::<char>::empty());
    assert(fields_of(v@.skip(pos as int), sep) =~= Seq::<Seq<char>>::empty());
    assert(string_views(out@) + Seq::<Seq<char>>::empty() =~= string_views(out@));
    out
}

/// `str::split_whitespace`.
pub fn split_whitespace(s: &str) -> (r: Vec<String>)
    ensures
        string_views(r@) == words_of(s@),
{
    split_fields(s, CharClass::Whitespace)
}

/// The character just after the leading run is outside the class.
pub proof fn lemma_lead_stop(s: Seq<char>, cls: CharClass)
    ensures
        lead_len(s, cls) < s.len() ==> !in_class(s[lead_len(s, cls) as int], cls),
    decreases s.len(),
{
    if s.len() > 0 && in_class(s[0], cls) {
        lemma_lead_stop(s.drop_first(), cls);
    }
}

} // verus!

verus! {

/// `s` without its whitespace characters.
pub open spec fn without_ws(s: Seq<char>) -> Seq<char>
    decreases s.len(),
{
    if s.len() == 0 {
        s
    } else if is_ws(s.last()) {
        without_ws(s.drop_last())
    } else {
        without_ws(s.drop_last()).push(s.last())
    }
}

/// `s` with its whitespace characters taken out.
pub fn remove_whitespace(s: &str) -> (r: String)
    ensures
        r@ == without_ws(s@),
{
    let v = chars_of(s);
    let mut out = String::new();
    let mut i: usize = 0;
    while i < v.len()
        invariant
            i <= v@.len(),
            v@ == s@,
            out@ == without_ws(v@.take(i as int)),
        decreases v@.len() - i,
    {
        assert(v@.take(i + 1).drop_last() =~= v@.take(i as int));
        if !is_whitespace(v[i]) {
            out.append(s.substring_char(i, i + 1));
            assert(s@.subrange(i as int, i + 1) =~= seq![v@[i as int]]);
            assert(out@ =~= without_ws(v@.take(i as int)).push(v@[i as int]));
        }
        i = i + 1;
    }
    assert(v@.take(v@.len() as int) =~= v@);
    out
}

/// `s` with `to` put before, between and after its characters, as `str::replace` does with
/// an empty pattern.
pub open spec fn interleave(s: Seq<char>, to: Seq<char>) -> Seq<char>
    decreases s.len(),
{
    if s.len() == 0 {
        to
    } else {
        interleave(s.drop_last(), to) + seq![s.last()] + to
    }
}

/// `str::replace`: with an empty pattern, `to` goes around every character.
pub open spec fn replaced(s: Seq<char>, from: Seq<char>, to: Seq<char>) -> Seq<char> {
    if from.len() == 0 {
        interleave(s, to)
    } else {
        replace_all(s, from, to)
    }
}

/// `str::replace`: `s` with each occurrence of `from` replaced by `to`.
pub fn replace_str(s: &str, from: &str, to: &str) -> (r: String)
    ensures
        r@ == replaced(s@, from@, to@),
{
    if from.unicode_len() > 0 {
        return replace(s, from, to);
    }
    let v = chars_of(s);
    let mut out = String::from_str(to);
    let mut i: usize = 0;
    while i < v.len()
        invariant
            i <= v@.len(),
            v@ == s@,
            out@ == interleave(v@.take(i as int), to@),
        decreases v@.len() - i,
    {
        assert(v@.take(i + 1).drop_last() =~= v@.take(i as int));
        out.append(s.substring_char(i, i + 1));
        out.append(to);
        assert(s@.subrange(i as int, i + 1) =~= seq![v@[i as int]]);
        i = i + 1;
    }
    assert(v@.take(v@.len() as int) =~= v@);
    out
}

} // verus!

verus! {

pub open spec fn ends_with(s: Seq<char>, p: Seq<char>) -> bool {
    p.len() <= s.len() && occurs_at(s, p, s.len() - p.len())
}

/// `str::ends_with` on the views of two strings.
pub fn str_ends_with(s: &str, p: &str) -> (r: bool)
    ensures
        r == ends_with(s@, p@),
{
    let v = chars_of(s);
    let w = chars_of(p);
    if w.len() > v.len() {
        return false;
    }
    occurs_at_exec(&v, &w, v.len() - w.len())
}

} // verus!
