//! Pairs the diagnostics a compiler reported with the ones a test expects.
use vstd::prelude::*;
use crate::errors::{Error, ErrorKind, ErrorModel, errors_view};
use crate::text::{contains, str_contains};

verus! {

/// An unmatched diagnostic of this kind is a failure: errors and warnings always, helps and
/// notes only where the test expects at least one of their kind, suggestions and kindless ones
/// never.
pub open spec fn reportable(kind: Option<ErrorKind>, expect_help: bool, expect_note: bool) -> bool {
    match kind {
        Some(ErrorKind::Help) => expect_help,
        Some(ErrorKind::Note) => expect_note,
        Some(ErrorKind::Error) | Some(ErrorKind::Warning) => true,
        Some(ErrorKind::Suggestion) | None => false,
    }
}

/// Whether an actual diagnostic that matched no expectation is reported as unexpected.
pub fn is_unexpected_compiler_message(actual_error: &Error, expect_help: bool, expect_note: bool) -> (r:
    bool)
    ensures
        r == reportable(actual_error.kind, expect_help, expect_note),
{
    match actual_error.kind {
        Some(ErrorKind::Help) => expect_help,
        Some(ErrorKind::Note) => expect_note,
        Some(ErrorKind::Error) | Some(ErrorKind::Warning) => true,
        Some(ErrorKind::Suggestion) | None => false,
    }
}

/// The expectation `e` accepts the actual diagnostic `a`.
pub open spec fn fits(e: ErrorModel, a: ErrorModel) -> bool {
    e.line_num == a.line_num && (e.kind is None || e.kind == a.kind) && contains(a.msg, e.msg)
}

/// The first expectation from `i` on that is not yet consumed and accepts `a`; `exp.len()` if
/// there is none.
pub open spec fn first_fit(exp: Seq<ErrorModel>, found: Seq<bool>, a: ErrorModel, i: int) -> int
    decreases exp.len() - i,
{
    if i >= exp.len() || i < 0 {
        exp.len() as int
    } else if !found[i] && fits(exp[i], a) {
        i
    } else {
        first_fit(exp, found, a, i + 1)
    }
}

pub open spec fn expects_kind(exp: Seq<ErrorModel>, k: ErrorKind) -> bool {
    exists|i: int| 0 <= i < exp.len() && exp[i].kind == Some(k)
}

/// After the first `n` actual diagnostics: which expectations are consumed, and the indices
/// of the actual diagnostics reported as unexpected.
pub open spec fn match_upto(exp: Seq<ErrorModel>, act: Seq<ErrorModel>, n: nat) -> (
    Seq<bool>,
    Seq<int>,
)
    decreases n,
{
    if n == 0 {
        (Seq::new(exp.len(), |i: int| false), Seq::empty())
    } else {
        let (found, unexpected) = match_upto(exp, act, (n - 1) as nat);
        let a = act[n - 1];
        let j = first_fit(exp, found, a, 0);
        if j < exp.len() {
            (found.update(j, true), unexpected)
        } else if reportable(
            a.kind,
            expects_kind(exp, ErrorKind::Help),
            expects_kind(exp, ErrorKind::Note),
        ) {
            (found, unexpected.push(n - 1))
        } else {
            (found, unexpected)
        }
    }
}

/// The indices of the first `n` expectations that were never consumed.
pub open spec fn unconsumed(found: Seq<bool>, n: nat) -> Seq<int>
    decreases n,
{
    if n == 0 {
        Seq::empty()
    } else if !found[n - 1] {
        unconsumed(found, (n - 1) as nat).push(n - 1)
    } else {
        unconsumed(found, (n - 1) as nat)
    }
}

pub open spec fn unexpected_of(exp: Seq<ErrorModel>, act: Seq<ErrorModel>) -> Seq<int> {
    match_upto(exp, act, act.len()).1
}

pub open spec fn missing_of(exp: Seq<ErrorModel>, act: Seq<ErrorModel>) -> Seq<int> {
    unconsumed(match_upto(exp, act, act.len()).0, exp.len())
}

/// The mismatches between expected and actual diagnostics, as indices: `unexpected` into the
/// actual ones in the order met, `missing` into the expected ones in file order.
#[derive(Debug)]
pub struct MatchReport {
    pub unexpected: Vec<usize>,
    pub missing: Vec<usize>,
}

pub open spec fn indices(v: Seq<usize>) -> Seq<int> {
    v.map_values(|i: usize| i as int)
}

impl MatchReport {
    pub open spec fn is_clean_spec(&self) -> bool {
        self.unexpected@.len() == 0 && self.missing@.len() == 0
    }

    /// No expectation is missing and no diagnostic is unexpected.
    pub fn is_clean(&self) -> (r: bool)
        ensures
            r == self.is_clean_spec(),
    {
        self.unexpected.len() == 0 && self.missing.len() == 0
    }
}

fn any_of_kind(exp: &Vec<Error>, k: ErrorKind) -> (r: bool)
    ensures
        r == expects_kind(errors_view(exp@), k),
{
    let ghost ev = errors_view(exp@);
    let mut i: usize = 0;
    while i < exp.len()
        invariant
            i <= exp@.len(),
            ev == errors_view(exp@),
            forall|j: int| 0 <= j < i ==> ev[j].kind != Some(k),
        decreases exp@.len() - i,
    {
        if exp[i].kind == Some(k) {
            assert(ev[i as int].kind == Some(k));
            return true;
        }
        i = i + 1;
    }
    false
}

fn fits_exec(e: &Error, a: &Error) -> (r: bool)
    ensures
        r == fits(e@, a@),
{
    e.line_num == a.line_num && (e.kind.is_none() || e.kind == a.kind) && str_contains(
        a.msg.as_str(),
        e.msg.as_str(),
    )
}

fn first_fit_exec(exp: &Vec<Error>, found: &Vec<bool>, a: &Error) -> (r: usize)
    requires
        found@.len() == exp@.len(),
    ensures
        r as int == first_fit(errors_view(exp@), found@, a@, 0),
{
    let ghost ev = errors_view(exp@);
    let mut j: usize = 0;
    while j < exp.len()
        invariant
            j <= exp@.len() == found@.len() == ev.len(),
            ev == errors_view(exp@),
            first_fit(ev, found@, a@, 0) == first_fit(ev, found@, a@, j as int),
        decreases exp@.len() - j,
    {
        if !found[j] && fits_exec(&exp[j], a) {
            return j;
        }
        j = j + 1;
    }
    j
}

/// Matches each actual diagnostic, in order, with the first expectation not yet consumed that
/// names its line, its kind (or none) and a part of its message. What stays unmatched on
/// either side is reported.
pub fn match_errors(expected: &Vec<Error>, actual: &Vec<Error>) -> (r: MatchReport)
    ensures
        indices(r.unexpected@) == unexpected_of(errors_view(expected@), errors_view(actual@)),
        indices(r.missing@) == missing_of(errors_view(expected@), errors_view(actual@)),
{
    let ghost ev = errors_view(expected@);
    let ghost av = errors_view(actual@);
    let expect_help = any_of_kind(expected, ErrorKind::Help);
    let expect_note = any_of_kind(expected, ErrorKind::Note);
    let mut found: Vec<bool> = Vec::new();
    let mut k: usize = 0;
    while k < expected.len()
        invariant
            k <= expected@.len(),
            found@ == Seq::new(k as nat, |i: int| false),
        decreases expected@.len() - k,
    {
        found.push(false);
        k = k + 1;
        assert(found@ =~= Seq::new(k as nat, |i: int| false));
    }
    let mut unexpected: Vec<usize> = Vec::new();
    let mut n: usize = 0;
    assert(indices(unexpected@) =~= Seq::<int>::empty());
    while n < actual.len()
        invariant
            n <= actual@.len(),
            ev == errors_view(expected@),
            av == errors_view(actual@),
            expect_help == expects_kind(ev, ErrorKind::Help),
            expect_note == expects_kind(ev, ErrorKind::Note),
            found@.len() == expected@.len(),
            match_upto(ev, av, n as nat) == (found@, indices(unexpected@)),
        decreases actual@.len() - n,
    {
        let j = first_fit_exec(expected, &found, &actual[n]);
        assert(av[n as int] == actual@[n as int]@);
        if j < expected.len() {
            found.set(j, true);
        } else if is_unexpected_compiler_message(&actual[n], expect_help, expect_note) {
            let ghost prev = unexpected@;
            unexpected.push(n);
            assert(indices(unexpected@) =~= indices(prev).push(n as int));
        }
        n = n + 1;
    }
    let mut missing: Vec<usize> = Vec::new();
    let mut i: usize = 0;
    assert(indices(missing@) =~= Seq::<int>::empty());
    while i < expected.len()
        invariant
            i <= expected@.len() == found@.len(),
            indices(missing@) == unconsumed(found@, i as nat),
        decreases expected@.len() - i,
    {
        if !found[i] {
            let ghost prev = missing@;
            missing.push(i);
            assert(indices(missing@) =~= indices(prev).push(i as int));
        }
        i = i + 1;
    }
    MatchReport { unexpected, missing }
}

/// Matching twice on the same diagnostics reports the same: the outcome is a function of
/// the expected and the actual diagnostics alone.
pub proof fn lemma_match_is_deterministic(
    expected: Seq<ErrorModel>,
    actual: Seq<ErrorModel>,
    expected2: Seq<ErrorModel>,
    actual2: Seq<ErrorModel>,
)
    requires
        expected == expected2,
        actual == actual2,
    ensures
        unexpected_of(expected, actual) == unexpected_of(expected2, actual2),
        missing_of(expected, actual) == missing_of(expected2, actual2),
{
}

} // verus!
