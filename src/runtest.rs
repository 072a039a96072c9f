//! The decisions of a test run: what a process result means for the test, which checks pass,
//! and whether a test is stale.
use vstd::prelude::*;
use crate::errors::{Error, ErrorKind, errors_view};
use crate::matcher::{MatchReport, expects_kind, match_errors, missing_of, unexpected_of};
use crate::text::{
    contains, lines_of, split_lines, starts_with, str_contains, str_eq, str_starts_with,
    string_views, trim, trimmed,
};

verus! {

/// The environment variable through which the loader of `os` finds dynamic libraries.
pub fn dylib_env_var(os: &str) -> (r: &'static str)
    ensures
        os@ == "windows"@ ==> r@ == "PATH"@,
        os@ == "macos"@ ==> r@ == "DYLD_LIBRARY_PATH"@,
        os@ == "haiku"@ ==> r@ == "LIBRARY_PATH"@,
        os@ != "windows"@ && os@ != "macos"@ && os@ != "haiku"@ ==> r@ == "LD_LIBRARY_PATH"@,
{
    proof {
        reveal_strlit("windows");
        reveal_strlit("macos");
        reveal_strlit("haiku");
        assert("windows"@.len() != "macos"@.len());
        assert("windows"@.len() != "haiku"@.len());
        assert("macos"@[0] != "haiku"@[0]);
    }
    if str_eq(os, "windows") {
        "PATH"
    } else if str_eq(os, "macos") {
        "DYLD_LIBRARY_PATH"
    } else if str_eq(os, "haiku") {
        "LIBRARY_PATH"
    } else {
        "LD_LIBRARY_PATH"
    }
}

/// The exit code of a compiler that reported errors, and of a program that panicked.
pub const RUST_ERR: i32 = 101;

/// The exit code that valgrind is configured to give on a memory error.
pub const VALGRIND_ERR: i32 = 100;

/// The marker of a compiler crash in its standard error.
pub const ICE_MARKER: &'static str = "error: internal compiler error";

/// What one external process did: its exit code (`None` when a signal ended it), its output,
/// and the command line that started it.
#[derive(Debug)]
pub struct ProcRes {
    pub code: Option<i32>,
    pub stdout: String,
    pub stderr: String,
    pub cmdline: String,
}

impl ProcRes {
    pub open spec fn succeeded(&self) -> bool {
        self.code == Some(0i32)
    }

    pub fn success(&self) -> (r: bool)
        ensures
            r == self.succeeded(),
    {
        self.code == Some(0i32)
    }
}

/// Why a test fails.
#[derive(Debug)]
pub enum Failure {
    /// A test that should not compile did.
    CompiledUnexpectedly,
    /// A test marked to compile successfully did not.
    CompileFailedUnexpectedly,
    /// The process failed with another exit code than the one for a reported failure.
    WrongFailureStatus,
    /// The test did not compile where it has to be run.
    CompilationFailed,
    /// The compiled test did not exit successfully.
    RunFailed,
    /// A run-fail test made valgrind report a memory error.
    ValgrindUnclean,
    /// The file both has error patterns and expected-error annotations.
    PatternsAndAnnotations,
    /// A run-pass test has expected-error annotations.
    AnnotationsInRunPass,
    /// No error pattern is given where one is needed.
    NoErrorPattern,
    /// The error patterns from this index on were not found in order.
    MissingPatterns(usize),
    /// The compiler exited successfully though an error is expected.
    NoErrorStatus,
    /// Diagnostics were missing or unexpected.
    Mismatch(MatchReport),
    /// The compiler crashed.
    CompilerCrash,
    /// The output holds the forbidden pattern with this index.
    ForbiddenOutput(usize),
    /// An incremental revision's name does not say what is expected of it.
    BadRevisionName,
    /// An output file is older than the source it was made from.
    StaleOutput,
}

/// The output that error patterns are checked against: standard output then standard error
/// with `check-stdout`, else standard error alone.
pub fn output_to_check(check_stdout: bool, proc_res: &ProcRes) -> (r: String)
    ensures
        r@ == (if check_stdout {
            proc_res.stdout@ + proc_res.stderr@
        } else {
            proc_res.stderr@
        }),
{
    if check_stdout {
        let mut s = String::from_str(proc_res.stdout.as_str());
        s.append(proc_res.stderr.as_str());
        s
    } else {
        String::from_str(proc_res.stderr.as_str())
    }
}

/// How many of the patterns are found, in order, when the lines are read one after another:
/// a line that contains the next pattern (trimmed) moves on to the one after it.
pub open spec fn pattern_cursor(pats: Seq<Seq<char>>, lines: Seq<Seq<char>>, n: nat) -> nat
    decreases n,
{
    if n == 0 {
        0
    } else {
        let c = pattern_cursor(pats, lines, (n - 1) as nat);
        if c < pats.len() && contains(lines[n - 1], trim(pats[c as int])) {
            c + 1
        } else {
            c
        }
    }
}

pub proof fn lemma_pattern_cursor_bound(pats: Seq<Seq<char>>, lines: Seq<Seq<char>>, n: nat)
    ensures
        pattern_cursor(pats, lines, n) <= pats.len(),
    decreases n,
{
    if n > 0 {
        lemma_pattern_cursor_bound(pats, lines, (n - 1) as nat);
    }
}

pub open spec fn patterns_outcome(
    pats: Seq<Seq<char>>,
    output: Seq<char>,
    must_compile_successfully: bool,
) -> Result<(), nat> {
    let lines = lines_of(output);
    let c = pattern_cursor(pats, lines, lines.len());
    if pats.len() == 0 {
        if must_compile_successfully {
            Ok(())
        } else {
            Err(0)
        }
    } else if c == pats.len() {
        Ok(())
    } else {
        Err(c)
    }
}

/// Checks that the error patterns occur in the output in order, each in a later line than
/// the one before. With no patterns, only a test that must compile successfully passes.
pub fn check_error_patterns(
    patterns: &Vec<String>,
    output: &str,
    must_compile_successfully: bool,
) -> (r: Result<(), Failure>)
    ensures
        r is Ok <==> patterns_outcome(string_views(patterns@), output@, must_compile_successfully) is Ok,
        patterns@.len() == 0 ==> (r is Ok <==> must_compile_successfully),
        patterns@.len() == 0 && !must_compile_successfully ==> r matches Err(
            Failure::NoErrorPattern,
        ),
        patterns@.len() > 0 ==> match patterns_outcome(
            string_views(patterns@),
            output@,
            must_compile_successfully,
        ) {
            Ok(()) => r is Ok,
            Err(c) => r matches Err(Failure::MissingPatterns(i)) && i == c,
        },
{
    if patterns.len() == 0 {
        if must_compile_successfully {
            return Ok(());
        } else {
            return Err(Failure::NoErrorPattern);
        }
    }
    let lines = split_lines(output);
    let ghost pv = string_views(patterns@);
    let ghost lv = string_views(lines@);
    let mut cur: usize = 0;
    let mut n: usize = 0;
    while n < lines.len()
        invariant
            n <= lines@.len(),
            pv == string_views(patterns@),
            lv == string_views(lines@),
            cur == pattern_cursor(pv, lv, n as nat),
            cur <= patterns@.len(),
        decreases lines@.len() - n,
    {
        if cur < patterns.len() {
            let pat = trimmed(patterns[cur].as_str());
            assert(pv[cur as int] == patterns@[cur as int]@);
            assert(lv[n as int] == lines@[n as int]@);
            if str_contains(lines[n].as_str(), pat.as_str()) {
                cur = cur + 1;
            }
        }
        n = n + 1;
    }
    if cur == patterns.len() {
        Ok(())
    } else {
        Err(Failure::MissingPatterns(cur))
    }
}

/// Whether some line of the compiler's standard error reports a crash.
pub fn has_compiler_crash(stderr: &str) -> (r: bool)
    ensures
        r == exists|i: int|
            0 <= i < lines_of(stderr@).len() && contains(
                #[trigger] lines_of(stderr@)[i],
                ICE_MARKER@,
            ),
{
    let lines = split_lines(stderr);
    let ghost lv = string_views(lines@);
    let mut i: usize = 0;
    while i < lines.len()
        invariant
            i <= lines@.len(),
            lv == string_views(lines@),
            lv == lines_of(stderr@),
            forall|j: int| 0 <= j < i ==> !contains(#[trigger] lv[j], ICE_MARKER@),
        decreases lines@.len() - i,
    {
        assert(lv[i as int] == lines@[i as int]@);
        if str_contains(lines[i].as_str(), ICE_MARKER) {
            return true;
        }
        i = i + 1;
    }
    false
}

/// The first forbidden pattern that the output contains, if any.
pub fn find_forbidden_output(forbid_output: &Vec<String>, output: &str) -> (r: Option<usize>)
    ensures
        r is None ==> forall|i: int|
            0 <= i < forbid_output@.len() ==> !contains(output@, #[trigger] forbid_output@[i]@),
        r matches Some(i) ==> i < forbid_output@.len() && contains(output@, forbid_output@[i as int]@)
            && forall|j: int| 0 <= j < i ==> !contains(output@, #[trigger] forbid_output@[j]@),
{
    let mut i: usize = 0;
    while i < forbid_output.len()
        invariant
            i <= forbid_output@.len(),
            forall|j: int| 0 <= j < i ==> !contains(output@, #[trigger] forbid_output@[j]@),
        decreases forbid_output@.len() - i,
    {
        if str_contains(output, forbid_output[i].as_str()) {
            return Some(i);
        }
        i = i + 1;
    }
    None
}

/// The exit status of a failed compile or run must be the one for a reported failure.
pub fn check_correct_failure_status(proc_res: &ProcRes) -> (r: Result<(), Failure>)
    ensures
        r is Ok <==> proc_res.code == Some(RUST_ERR),
        r is Err ==> r matches Err(Failure::WrongFailureStatus),
{
    if proc_res.code == Some(RUST_ERR) {
        Ok(())
    } else {
        Err(Failure::WrongFailureStatus)
    }
}

} // verus!

verus! {

/// What an incremental revision expects, from the start of its name.
#[derive(Clone, Copy, PartialEq, Eq, Structural, Debug)]
pub enum RevisionKind {
    /// `rpass`: compiles and runs successfully.
    RunPass,
    /// `rfail`: compiles, and its run fails.
    RunFail,
    /// `cfail`: does not compile.
    CompileFail,
}

pub open spec fn revision_kind_of(name: Seq<char>) -> Option<RevisionKind> {
    if starts_with(name, "rpass"@) {
        Some(RevisionKind::RunPass)
    } else if starts_with(name, "rfail"@) {
        Some(RevisionKind::RunFail)
    } else if starts_with(name, "cfail"@) {
        Some(RevisionKind::CompileFail)
    } else {
        None
    }
}

/// What the incremental revision `revision` expects. A name that starts with none of
/// `rpass`, `rfail` and `cfail` is an error, never a default.
pub fn incremental_revision_kind(revision: &str) -> (r: Result<RevisionKind, Failure>)
    ensures
        match revision_kind_of(revision@) {
            Some(k) => r matches Ok(x) && x == k,
            None => r matches Err(Failure::BadRevisionName),
        },
{
    if str_starts_with(revision, "rpass") {
        Ok(RevisionKind::RunPass)
    } else if str_starts_with(revision, "rfail") {
        Ok(RevisionKind::RunFail)
    } else if str_starts_with(revision, "cfail") {
        Ok(RevisionKind::CompileFail)
    } else {
        Err(Failure::BadRevisionName)
    }
}

/// A modification time: seconds and nanoseconds since the Unix epoch. Times order by seconds,
/// then nanoseconds.
#[derive(Clone, Copy, PartialEq, Eq, Structural, Debug)]
pub struct Stamp {
    pub seconds: i64,
    pub nanos: u32,
}

pub open spec fn newer(a: Stamp, b: Stamp) -> bool {
    a.seconds > b.seconds || (a.seconds == b.seconds && a.nanos > b.nanos)
}

impl Stamp {
    /// Whether this time is later than `other`.
    pub fn is_newer_than(&self, other: &Stamp) -> (r: bool)
        ensures
            r == newer(*self, *other),
    {
        self.seconds > other.seconds || (self.seconds == other.seconds && self.nanos > other.nanos)
    }
}

pub open spec fn none_newer(times: Seq<Stamp>, stamp: Stamp) -> bool {
    forall|i: int| 0 <= i < times.len() ==> !newer(#[trigger] times[i], stamp)
}

/// A test may be skipped when the configuration it last passed with is the current one and
/// none of its inputs changed since: the test file, its auxiliary files and its golden files
/// are all no newer than the stamp file.
pub open spec fn up_to_date(
    stored_hash: Seq<char>,
    config_hash: Seq<char>,
    stamp: Stamp,
    test_file: Stamp,
    aux_files: Seq<Stamp>,
    golden_files: Seq<Stamp>,
) -> bool {
    stored_hash == config_hash && !newer(test_file, stamp) && none_newer(aux_files, stamp)
        && none_newer(golden_files, stamp)
}

fn none_newer_exec(times: &Vec<Stamp>, stamp: &Stamp) -> (r: bool)
    ensures
        r == none_newer(times@, *stamp),
{
    let mut i: usize = 0;
    while i < times.len()
        invariant
            i <= times@.len(),
            forall|j: int| 0 <= j < i ==> !newer(#[trigger] times@[j], *stamp),
        decreases times@.len() - i,
    {
        if times[i].is_newer_than(stamp) {
            return false;
        }
        i = i + 1;
    }
    true
}

/// Whether a test that passed before may be skipped: `stored_hash` is what the stamp file
/// holds, `stamp` its modification time, and the other times those of the test's inputs.
pub fn is_up_to_date(
    stored_hash: &str,
    config_hash: &str,
    stamp: Stamp,
    test_file: Stamp,
    aux_files: &Vec<Stamp>,
    golden_files: &Vec<Stamp>,
) -> (r: bool)
    ensures
        r == up_to_date(stored_hash@, config_hash@, stamp, test_file, aux_files@, golden_files@),
{
    str_eq(stored_hash, config_hash) && !test_file.is_newer_than(&stamp) && none_newer_exec(
        aux_files,
        &stamp,
    ) && none_newer_exec(golden_files, &stamp)
}

/// An auxiliary file touched after the stamp was written makes the test stale, whatever
/// the test file and the stamp are.
pub proof fn lemma_touched_aux_file_is_stale(
    stored_hash: Seq<char>,
    config_hash: Seq<char>,
    stamp: Stamp,
    test_file: Stamp,
    aux_files: Seq<Stamp>,
    golden_files: Seq<Stamp>,
    i: int,
    touched: Stamp,
)
    requires
        0 <= i < aux_files.len(),
        newer(touched, stamp),
    ensures
        !up_to_date(
            stored_hash,
            config_hash,
            stamp,
            test_file,
            aux_files.update(i, touched),
            golden_files,
        ),
{
    assert(aux_files.update(i, touched)[i] == touched);
}


} // verus!

verus! {

pub open spec fn compile_status_ok(must_compile_successfully: bool, proc_res: ProcRes) -> bool {
    if must_compile_successfully {
        proc_res.succeeded()
    } else {
        !proc_res.succeeded() && proc_res.code == Some(RUST_ERR)
    }
}

/// How a diagnostic-check test's compile must have ended: successfully when it is marked
/// to, else with the status of a reported compile error.
pub fn check_compile_status(must_compile_successfully: bool, proc_res: &ProcRes) -> (r: Result<
    (),
    Failure,
>)
    ensures
        r is Ok <==> compile_status_ok(must_compile_successfully, *proc_res),
        must_compile_successfully ==> (r is Ok <==> proc_res.succeeded()),
        must_compile_successfully && !proc_res.succeeded() ==> r matches Err(
            Failure::CompileFailedUnexpectedly,
        ),
        !must_compile_successfully && proc_res.succeeded() ==> r matches Err(
            Failure::CompiledUnexpectedly,
        ),
        !must_compile_successfully && !proc_res.succeeded() ==> (r is Ok <==> proc_res.code == Some(
            RUST_ERR,
        )),
        !must_compile_successfully && !proc_res.succeeded() && r is Err ==> r matches Err(
            Failure::WrongFailureStatus,
        ),
{
    if must_compile_successfully {
        if !proc_res.success() {
            return Err(Failure::CompileFailedUnexpectedly);
        }
        Ok(())
    } else {
        if proc_res.success() {
            return Err(Failure::CompiledUnexpectedly);
        }
        check_correct_failure_status(proc_res)
    }
}

/// The annotations are satisfied: no error is expected from a compile that succeeded,
/// and matching leaves nothing unexpected or missing.
pub open spec fn errors_clean(
    expected: Seq<crate::errors::ErrorModel>,
    actual: Seq<crate::errors::ErrorModel>,
    compile_succeeded: bool,
) -> bool {
    !(compile_succeeded && expects_kind(expected, ErrorKind::Error)) && unexpected_of(
        expected,
        actual,
    ).len() == 0 && missing_of(expected, actual).len() == 0
}

/// Checks the compiler's diagnostics against the annotations: a compile that succeeded
/// while an error is expected fails at once; otherwise every mismatch is reported together.
pub fn check_expected_errors(expected: &Vec<Error>, actual: &Vec<Error>, compile_succeeded: bool) -> (r:
    Result<(), Failure>)
    ensures
        r is Ok <==> errors_clean(errors_view(expected@), errors_view(actual@), compile_succeeded),
        compile_succeeded && expects_kind(errors_view(expected@), ErrorKind::Error) ==> r matches Err(
            Failure::NoErrorStatus,
        ),
        !(compile_succeeded && expects_kind(errors_view(expected@), ErrorKind::Error)) && !errors_clean(
            errors_view(expected@),
            errors_view(actual@),
            compile_succeeded,
        ) ==> r matches Err(Failure::Mismatch(_)),
        r matches Err(Failure::Mismatch(rep)) ==> indices_of(rep.unexpected@) == unexpected_of(
            errors_view(expected@),
            errors_view(actual@),
        ) && indices_of(rep.missing@) == missing_of(errors_view(expected@), errors_view(actual@)),
{
    if compile_succeeded {
        let ghost ev = errors_view(expected@);
        let mut i: usize = 0;
        while i < expected.len()
            invariant
                i <= expected@.len(),
                compile_succeeded,
                ev == errors_view(expected@),
                forall|j: int| 0 <= j < i ==> ev[j].kind != Some(ErrorKind::Error),
            decreases expected@.len() - i,
        {
            if expected[i].kind == Some(ErrorKind::Error) {
                assert(ev[i as int].kind == Some(ErrorKind::Error));
                assert(0 <= i < ev.len());
                assert(expects_kind(ev, ErrorKind::Error));
                return Err(Failure::NoErrorStatus);
            }
            i = i + 1;
        }
    }
    let report = match_errors(expected, actual);
    if report.is_clean() {
        Ok(())
    } else {
        Err(Failure::Mismatch(report))
    }
}

pub open spec fn indices_of(v: Seq<usize>) -> Seq<int> {
    crate::matcher::indices(v)
}

/// The checks of a diagnostic-check test after its compile, in order: the exit status, the
/// annotations (or, where there are none, the error patterns), a compiler crash, and
/// forbidden output. `expected` are the file's annotations, `actual` the diagnostics the
/// compiler reported.
pub open spec fn output_of(check_stdout: bool, proc_res: ProcRes) -> Seq<char> {
    if check_stdout {
        proc_res.stdout@ + proc_res.stderr@
    } else {
        proc_res.stderr@
    }
}

/// Every check of a diagnostic-check test passes: the exit status; the annotations, which
/// exclude error patterns, or else the error patterns in order; no compiler crash; no
/// forbidden output.
pub open spec fn compile_fail_ok(
    props: crate::header::PropsView,
    proc_res: ProcRes,
    expected: Seq<crate::errors::ErrorModel>,
    actual: Seq<crate::errors::ErrorModel>,
) -> bool {
    &&& compile_status_ok(props.must_compile_successfully, proc_res)
    &&& (expected.len() > 0 ==> props.error_patterns.len() == 0 && errors_clean(
        expected,
        actual,
        proc_res.succeeded(),
    ))
    &&& (expected.len() == 0 ==> patterns_outcome(
        props.error_patterns,
        output_of(props.check_stdout, proc_res),
        props.must_compile_successfully,
    ) is Ok)
    &&& !exists|i: int|
        0 <= i < lines_of(proc_res.stderr@).len() && contains(
            #[trigger] lines_of(proc_res.stderr@)[i],
            ICE_MARKER@,
        )
    &&& forall|i: int|
        0 <= i < props.forbid_output.len() ==> !contains(
            output_of(props.check_stdout, proc_res),
            #[trigger] props.forbid_output[i],
        )
}

pub fn check_compile_fail(
    props: &crate::header::TestProps,
    proc_res: &ProcRes,
    expected: &Vec<Error>,
    actual: &Vec<Error>,
) -> (r: Result<(), Failure>)
    ensures
        r is Ok <==> compile_fail_ok(props@, *proc_res, errors_view(expected@), errors_view(actual@)),
        !compile_status_ok(props.must_compile_successfully, *proc_res) ==> r is Err,
        expected@.len() > 0 && props.error_patterns@.len() > 0 && compile_status_ok(
            props.must_compile_successfully,
            *proc_res,
        ) ==> r matches Err(Failure::PatternsAndAnnotations),
{
    match check_compile_status(props.must_compile_successfully, proc_res) {
        Err(e) => return Err(e),
        Ok(()) => {},
    }
    let output = output_to_check(props.check_stdout, proc_res);
    if expected.len() > 0 {
        if props.error_patterns.len() > 0 {
            return Err(Failure::PatternsAndAnnotations);
        }
        match check_expected_errors(expected, actual, proc_res.success()) {
            Err(e) => return Err(e),
            Ok(()) => {},
        }
    } else {
        match check_error_patterns(
            &props.error_patterns,
            output.as_str(),
            props.must_compile_successfully,
        ) {
            Err(e) => return Err(e),
            Ok(()) => {},
        }
    }
    if has_compiler_crash(proc_res.stderr.as_str()) {
        return Err(Failure::CompilerCrash);
    }
    match find_forbidden_output(&props.forbid_output, output.as_str()) {
        Some(i) => {
            assert(props@.forbid_output[i as int] == props.forbid_output@[i as int]@);
            Err(Failure::ForbiddenOutput(i))
        },
        None => {
            assert forall|i: int| 0 <= i < props@.forbid_output.len() implies !contains(
                output_of(props.check_stdout, *proc_res),
                #[trigger] props@.forbid_output[i],
            ) by {
                assert(props@.forbid_output[i] == props.forbid_output@[i]@);
            }
            Ok(())
        },
    }
}

/// A test that is to be run must first have compiled; a run-pass test has no annotations.
pub fn check_compiled_for_run(compile: &ProcRes, n_expected_errors: usize, run_pass: bool) -> (r:
    Result<(), Failure>)
    ensures
        !compile.succeeded() ==> r matches Err(Failure::CompilationFailed),
        compile.succeeded() && run_pass && n_expected_errors > 0 ==> r matches Err(
            Failure::AnnotationsInRunPass,
        ),
        compile.succeeded() && !(run_pass && n_expected_errors > 0) ==> r is Ok,
{
    if !compile.success() {
        return Err(Failure::CompilationFailed);
    }
    if run_pass && n_expected_errors > 0 {
        return Err(Failure::AnnotationsInRunPass);
    }
    Ok(())
}

/// The run of a run-pass test must succeed.
pub fn check_run_pass(run: &ProcRes) -> (r: Result<(), Failure>)
    ensures
        r is Ok <==> run.succeeded(),
        r is Err ==> r matches Err(Failure::RunFailed),
{
    if run.success() {
        Ok(())
    } else {
        Err(Failure::RunFailed)
    }
}

/// The run of a run-fail test must end as a panic does, not with valgrind's error status,
/// and its output must show the error patterns in order.
pub fn check_run_fail(run: &ProcRes, check_stdout: bool, error_patterns: &Vec<String>, must_compile_successfully: bool) -> (r:
    Result<(), Failure>)
    ensures
        run.code == Some(VALGRIND_ERR) ==> r matches Err(Failure::ValgrindUnclean),
        run.code != Some(VALGRIND_ERR) && run.code != Some(RUST_ERR) ==> r matches Err(
            Failure::WrongFailureStatus,
        ),
        run.code == Some(RUST_ERR) ==> match patterns_outcome(
            string_views(error_patterns@),
            (if check_stdout {
                run.stdout@ + run.stderr@
            } else {
                run.stderr@
            }),
            must_compile_successfully,
        ) {
            Ok(()) => r is Ok,
            Err(c) => r is Err && (error_patterns@.len() > 0 ==> (r matches Err(
                Failure::MissingPatterns(i),
            ) && i == c)),
        },
        run.code == Some(RUST_ERR) && error_patterns@.len() == 0 && !must_compile_successfully
            ==> r matches Err(Failure::NoErrorPattern),
{
    if run.code == Some(VALGRIND_ERR) {
        return Err(Failure::ValgrindUnclean);
    }
    let output = output_to_check(check_stdout, run);
    match check_correct_failure_status(run) {
        Err(e) => return Err(e),
        Ok(()) => {},
    }
    check_error_patterns(error_patterns, output.as_str(), must_compile_successfully)
}

} // verus!

verus! {

/// A line of a MIR dump without its `//` comment and the whitespace before it.
pub open spec fn mir_code(line: Seq<char>) -> Seq<char> {
    if contains(line, "//"@) {
        let i = choose|i: int| crate::text::first_occurrence(line, "//"@, i);
        crate::text::trim_end(line.take(i))
    } else {
        line
    }
}

/// `line` without a `//` comment and the whitespace before it.
pub fn nocomment_mir_line(line: &str) -> (r: String)
    ensures
        r@ == mir_code(line@),
{
    let v = crate::text::chars_of(line);
    let p = crate::text::chars_of("//");
    match crate::text::find(&v, &p) {
        None => String::from_str(line),
        Some(i) => {
            proof {
                let j = choose|j: int| crate::text::first_occurrence(line@, "//"@, j);
                if j < i {
                    assert(!crate::text::occurs_at(line@, "//"@, j));
                }
                if (i as int) < j {
                    assert(!crate::text::occurs_at(line@, "//"@, i as int));
                }
            }
            assert(crate::text::occurs_at(v@, p@, i as int));
            let k = crate::text::run_len_back(&v, i, crate::text::CharClass::Whitespace);
            let r = crate::text::substring(line, 0, i - k);
            assert(r@ =~= crate::text::trim_end(line@.take(i as int)));
            r
        },
    }
}

/// A MIR line as it is compared: no comment, no whitespace.
pub fn normalize_mir_line(line: &str) -> (r: String)
    ensures
        r@ == crate::text::without_ws(mir_code(line@)),
{
    let code = nocomment_mir_line(line);
    crate::text::remove_whitespace(code.as_str())
}

pub open spec fn apply_rules(s: Seq<char>, rules: Seq<(Seq<char>, Seq<char>)>) -> Seq<char>
    decreases rules.len(),
{
    if rules.len() == 0 {
        s
    } else {
        crate::text::replaced(
            apply_rules(s, rules.drop_last()),
            rules.last().0,
            rules.last().1,
        )
    }
}

/// Output as golden files hold it: the test's directory written `$DIR`, `\` as `/`, line
/// ends as `\n`, tabs visible as `\t`, then the test's own rules in order.
pub open spec fn normalized(
    output: Seq<char>,
    parent_dir: Seq<char>,
    rules: Seq<(Seq<char>, Seq<char>)>,
) -> Seq<char> {
    let s1 = crate::text::replaced(output, parent_dir, "$DIR"@);
    let s2 = crate::text::replaced(s1, "\\"@, "/"@);
    let s3 = crate::text::replaced(s2, "\r\n"@, "\n"@);
    let s4 = crate::text::replaced(s3, "\t"@, "\\t"@);
    apply_rules(s4, rules)
}

/// Normalizes the output of the test in directory `parent_dir` for comparison with a
/// golden file.
pub fn normalize_output(output: &str, parent_dir: &str, custom_rules: &Vec<(String, String)>) -> (r:
    String)
    ensures
        r@ == normalized(output@, parent_dir@, crate::header::pair_views(custom_rules@)),
{
    let s1 = crate::text::replace_str(output, parent_dir, "$DIR");
    let s2 = crate::text::replace_str(s1.as_str(), "\\", "/");
    let s3 = crate::text::replace_str(s2.as_str(), "\r\n", "\n");
    let mut normalized = crate::text::replace_str(s3.as_str(), "\t", "\\t");
    let ghost rv = crate::header::pair_views(custom_rules@);
    let ghost base = normalized@;
    let mut i: usize = 0;
    while i < custom_rules.len()
        invariant
            i <= custom_rules@.len(),
            rv == crate::header::pair_views(custom_rules@),
            normalized@ == apply_rules(base, rv.take(i as int)),
        decreases custom_rules@.len() - i,
    {
        assert(rv.take(i + 1).drop_last() =~= rv.take(i as int));
        assert(rv[i as int] == (custom_rules@[i as int].0@, custom_rules@[i as int].1@));
        normalized = crate::text::replace_str(
            normalized.as_str(),
            custom_rules[i].0.as_str(),
            custom_rules[i].1.as_str(),
        );
        i = i + 1;
    }
    assert(rv.take(rv.len() as int) =~= rv);
    normalized
}

} // verus!

verus! {

pub open spec fn mir_norm(line: Seq<char>) -> Seq<char> {
    crate::text::without_ws(mir_code(line))
}

pub open spec fn mir_norms(lines: Seq<Seq<char>>) -> Seq<Seq<char>> {
    lines.map_values(|l: Seq<char>| mir_norm(l))
}

/// The position just after the first dumped line from `d` on that equals `e`; `-1` if none.
pub open spec fn next_match(dumped: Seq<Seq<char>>, e: Seq<char>, d: int) -> int
    decreases dumped.len() - d,
{
    if d < 0 || d >= dumped.len() {
        -1
    } else if dumped[d] == e {
        d + 1
    } else {
        next_match(dumped, e, d + 1)
    }
}

/// After the first `j` expected lines: how far into the dumped lines the match has read, or
/// the index of the expected line that was not found. Each expected line must equal a later
/// dumped line than the one before; empty ones are passed over.
pub open spec fn mir_match_upto(expected: Seq<Seq<char>>, dumped: Seq<Seq<char>>, j: nat) -> Result<
    int,
    nat,
>
    decreases j,
{
    if j == 0 {
        Ok(0)
    } else {
        match mir_match_upto(expected, dumped, (j - 1) as nat) {
            Err(x) => Err(x),
            Ok(d) => {
                let e = mir_norm(expected[j - 1]);
                if e.len() == 0 {
                    Ok(d)
                } else if next_match(dumped, e, d) < 0 {
                    Err((j - 1) as nat)
                } else {
                    Ok(next_match(dumped, e, d))
                }
            },
        }
    }
}

proof fn lemma_mir_err_persists(expected: Seq<Seq<char>>, dumped: Seq<Seq<char>>, m: nat, n: nat, x: nat)
    requires
        m <= n,
        mir_match_upto(expected, dumped, m) == Err::<int, nat>(x),
    ensures
        mir_match_upto(expected, dumped, n) == Err::<int, nat>(x),
    decreases n - m,
{
    if m < n {
        lemma_mir_err_persists(expected, dumped, m, (n - 1) as nat, x);
    }
}

/// Checks a MIR dump against the expected lines of a test: comments and whitespace aside,
/// the expected lines occur in the dump's non-empty lines in order, other lines between
/// them. The error is the index of the first expected line not found.
pub fn compare_mir_lines(expected: &Vec<String>, dump: &str) -> (r: Result<(), usize>)
    requires
        expected@.len() < usize::MAX,
    ensures
        match mir_match_upto(
            string_views(expected@),
            mir_norms(crate::debugger::non_empty(lines_of(dump@))),
            expected@.len(),
        ) {
            Ok(_) => r is Ok,
            Err(x) => r == Err::<(), usize>(x as usize),
        },
{
    let all = split_lines(dump);
    let ghost ne = crate::debugger::non_empty(lines_of(dump@));
    let mut dumped: Vec<String> = Vec::new();
    let mut k: usize = 0;
    assert(string_views(dumped@) =~= mir_norms(crate::debugger::non_empty(
        string_views(all@).take(0),
    )));
    while k < all.len()
        invariant
            k <= all@.len(),
            string_views(all@) == lines_of(dump@),
            string_views(dumped@) == mir_norms(
                crate::debugger::non_empty(string_views(all@).take(k as int)),
            ),
        decreases all@.len() - k,
    {
        let ghost before = string_views(dumped@);
        assert(string_views(all@).take(k + 1).drop_last() =~= string_views(all@).take(k as int));
        assert(string_views(all@)[k as int] == all@[k as int]@);
        let ghost prefix = string_views(all@).take(k as int);
        assert(string_views(all@).take(k + 1).last() == all@[k as int]@);
        if all[k].unicode_len() > 0 {
            let ghost line = all@[k as int]@;
            dumped.push(normalize_mir_line(all[k].as_str()));
            assert(crate::debugger::non_empty(string_views(all@).take(k + 1))
                == crate::debugger::non_empty(prefix).push(line));
            assert(mir_norms(crate::debugger::non_empty(prefix).push(line)) =~= mir_norms(
                crate::debugger::non_empty(prefix),
            ).push(mir_norm(line)));
            assert(string_views(dumped@) =~= before.push(mir_norm(line)));
        }
        k = k + 1;
    }
    assert(string_views(all@).take(all@.len() as int) =~= string_views(all@));
    let ghost dv = string_views(dumped@);
    let ghost ev = string_views(expected@);
    let mut d: usize = 0;
    let mut j: usize = 0;
    while j < expected.len()
        invariant
            j <= expected@.len() < usize::MAX,
            d <= dumped@.len(),
            dv == string_views(dumped@),
            ev == string_views(expected@),
            dv == mir_norms(ne),
            ne == crate::debugger::non_empty(lines_of(dump@)),
            mir_match_upto(ev, dv, j as nat) == Ok::<int, nat>(d as int),
        decreases expected@.len() - j,
    {
        assert(ev[j as int] == expected@[j as int]@);
        let e = normalize_mir_line(expected[j].as_str());
        assert(e@ == mir_norm(ev[j as int]));
        if e.unicode_len() > 0 {
            let mut found = false;
            let ghost d0 = d as int;
            while d < dumped.len()
                invariant_except_break
                    !found,
                    next_match(dv, e@, d as int) == next_match(dv, e@, d0),
                invariant
                    d0 <= d <= dumped@.len(),
                    dv == string_views(dumped@),
                    dv == mir_norms(ne),
                    ne == crate::debugger::non_empty(lines_of(dump@)),
                    ev == string_views(expected@),
                    j < expected@.len() < usize::MAX,
                    e@ == mir_norm(ev[j as int]),
                    e@.len() > 0,
                    mir_match_upto(ev, dv, j as nat) == Ok::<int, nat>(d0),
                ensures
                    found ==> d == next_match(dv, e@, d0),
                    !found ==> next_match(dv, e@, d0) == -1,
                decreases dumped@.len() - d,
            {
                assert(dv[d as int] == dumped@[d as int]@);
                let eq = crate::text::str_eq(dumped[d].as_str(), e.as_str());
                if eq {
                    found = true;
                    d = d + 1;
                    break;
                }
                d = d + 1;
            }
            if !found {
                proof {
                    assert(mir_match_upto(ev, dv, (j + 1) as nat) == Err::<int, nat>(j as nat));
                    lemma_mir_err_persists(ev, dv, (j + 1) as nat, ev.len(), j as nat);
                }
                return Err(j);
            }
        }
        j = j + 1;
    }
    Ok(())
}

} // verus!

verus! {

/// A MIR dump is stale when the test's source is newer than it.
pub fn check_mir_test_timestamp(source: Stamp, output: Stamp) -> (r: Result<(), Failure>)
    ensures
        r is Ok <==> !newer(source, output),
        r is Err ==> r matches Err(Failure::StaleOutput),
{
    if source.is_newer_than(&output) {
        Err(Failure::StaleOutput)
    } else {
        Ok(())
    }
}

} // verus!

verus! {

/// Where a compile puts its output: a file, or a directory.
pub enum TargetLocation {
    ThisFile(String),
    ThisDirectory(String),
}

pub open spec fn any_starts_with(flags: Seq<Seq<char>>, p: Seq<char>) -> bool {
    exists|i: int| 0 <= i < flags.len() && starts_with(#[trigger] flags[i], p)
}

pub open spec fn opt_words(o: Option<String>) -> Seq<Seq<char>> {
    match o {
        Some(s) => crate::debugger::solid(crate::debugger::split_on(s@, " "@)),
        None => Seq::empty(),
    }
}

pub open spec fn target_part(config: crate::common::Config, props: crate::header::PropsView) -> Seq<
    Seq<char>,
> {
    if any_starts_with(props.compile_flags, "--target"@) {
        Seq::empty()
    } else {
        seq!["--target="@ + (if props.force_host {
            config.host@
        } else {
            config.target@
        })]
    }
}

pub open spec fn revision_part(revision: Option<Seq<char>>) -> Seq<Seq<char>> {
    match revision {
        Some(r) => seq!["--cfg"@, r],
        None => Seq::empty(),
    }
}

pub open spec fn incremental_part(props: crate::header::PropsView) -> Seq<Seq<char>> {
    match props.incremental_dir {
        Some(d) => seq!["-Z"@, "incremental="@ + d],
        None => Seq::empty(),
    }
}

pub open spec fn mode_part(
    config: crate::common::Config,
    props: crate::header::PropsView,
    mir_dump_dir: Seq<char>,
) -> Seq<Seq<char>> {
    match config.mode {
        crate::common::Mode::CompileFail | crate::common::Mode::ParseFail
        | crate::common::Mode::Incremental => if props.error_patterns.len() == 0 {
            seq!["--error-format"@, "json"@]
        } else {
            Seq::empty()
        },
        crate::common::Mode::MirOpt => seq![
            "-Zdump-mir=all"@,
            "-Zmir-opt-level=3"@,
            "-Zdump-mir-exclude-pass-number"@,
            "-Zdump-mir-dir="@ + mir_dump_dir,
        ],
        _ => Seq::empty(),
    }
}

pub open spec fn output_part(props: crate::header::PropsView, output: TargetLocation) -> Seq<
    Seq<char>,
> {
    (if props.no_prefer_dynamic {
        Seq::empty()
    } else {
        seq!["-C"@, "prefer-dynamic"@]
    }) + match output {
        TargetLocation::ThisFile(p) => seq!["-o"@, p@],
        TargetLocation::ThisDirectory(p) => seq!["--out-dir"@, p@],
    }
}

pub open spec fn flags_part(config: crate::common::Config, props: crate::header::PropsView) -> Seq<
    Seq<char>,
> {
    (if props.force_host {
        opt_words(config.host_rustcflags)
    } else {
        opt_words(config.target_rustcflags)
    }) + props.compile_flags
}

/// The compiler's arguments for a test: the input, the build directory as library path,
/// the target (unless the test's flags name one), the revision as a `cfg`, the incremental
/// directory, JSON diagnostics for diagnostic checks without error patterns, MIR dump
/// options, `prefer-dynamic` unless refused, the output, the configured flags for host or
/// target, and the test's own flags.
pub open spec fn compile_args(
    config: crate::common::Config,
    props: crate::header::PropsView,
    revision: Option<Seq<char>>,
    input_file: Seq<char>,
    output: TargetLocation,
    mir_dump_dir: Seq<char>,
) -> Seq<Seq<char>> {
    seq![input_file, "-L"@, config.build_base@] + target_part(config, props) + revision_part(
        revision,
    ) + incremental_part(props) + mode_part(config, props, mir_dump_dir) + output_part(
        props,
        output,
    ) + flags_part(config, props)
}

fn push_str(v: &mut Vec<String>, s: &str)
    ensures
        string_views(final(v)@) == string_views(old(v)@).push(s@),
{
    let ghost before = string_views(v@);
    v.push(String::from_str(s));
    assert(string_views(v@) =~= before.push(s@));
}

fn push_concat(v: &mut Vec<String>, a: &str, b: &str)
    ensures
        string_views(final(v)@) == string_views(old(v)@).push(a@ + b@),
{
    let mut s = String::from_str(a);
    s.append(b);
    let ghost before = string_views(v@);
    v.push(s);
    assert(string_views(v@) =~= before.push(a@ + b@));
}

fn extend_strings(v: &mut Vec<String>, w: &Vec<String>)
    ensures
        string_views(final(v)@) == string_views(old(v)@) + string_views(w@),
{
    let ghost start = string_views(v@);
    let mut i: usize = 0;
    while i < w.len()
        invariant
            i <= w@.len(),
            string_views(v@) == start + string_views(w@).take(i as int),
        decreases w@.len() - i,
    {
        push_str(v, w[i].as_str());
        assert(string_views(w@).take(i + 1) =~= string_views(w@).take(i as int).push(w@[i as int]@));
        i = i + 1;
    }
    assert(string_views(w@).take(w@.len() as int) =~= string_views(w@));
}

fn target_args(config: &crate::common::Config, props: &crate::header::TestProps) -> (r: Vec<String>)
    ensures
        string_views(r@) == target_part(*config, props@),
{
    let ghost pv = props@;
    let mut custom_target = false;
    let mut i: usize = 0;
    while i < props.compile_flags.len()
        invariant
            i <= props.compile_flags@.len(),
            pv == props@,
            custom_target == exists|j: int| 0 <= j < i && starts_with(
                #[trigger] pv.compile_flags[j],
                "--target"@,
            ),
        decreases props.compile_flags@.len() - i,
    {
        assert(pv.compile_flags[i as int] == props.compile_flags@[i as int]@);
        if str_starts_with(props.compile_flags[i].as_str(), "--target") {
            custom_target = true;
        }
        i = i + 1;
    }
    let mut args: Vec<String> = Vec::new();
    assert(string_views(args@) =~= Seq::<Seq<char>>::empty());
    if !custom_target {
        let target = if props.force_host {
            config.host.as_str()
        } else {
            config.target.as_str()
        };
        push_concat(&mut args, "--target=", target);
        assert(string_views(args@) =~= seq!["--target="@ + target@]);
    }
    args
}

fn mode_args(config: &crate::common::Config, props: &crate::header::TestProps, mir_dump_dir: &str) -> (r:
    Vec<String>)
    ensures
        string_views(r@) == mode_part(*config, props@, mir_dump_dir@),
{
    let mut args: Vec<String> = Vec::new();
    assert(string_views(args@) =~= Seq::<Seq<char>>::empty());
    match config.mode {
        crate::common::Mode::CompileFail | crate::common::Mode::ParseFail
        | crate::common::Mode::Incremental => {
            if props.error_patterns.len() == 0 {
                push_str(&mut args, "--error-format");
                push_str(&mut args, "json");
                assert(string_views(args@) =~= seq!["--error-format"@, "json"@]);
            }
        },
        crate::common::Mode::MirOpt => {
            push_str(&mut args, "-Zdump-mir=all");
            push_str(&mut args, "-Zmir-opt-level=3");
            push_str(&mut args, "-Zdump-mir-exclude-pass-number");
            push_concat(&mut args, "-Zdump-mir-dir=", mir_dump_dir);
            assert(string_views(args@) =~= seq![
                "-Zdump-mir=all"@,
                "-Zmir-opt-level=3"@,
                "-Zdump-mir-exclude-pass-number"@,
                "-Zdump-mir-dir="@ + mir_dump_dir@,
            ]);
        },
        _ => {},
    }
    args
}

fn output_args(props: &crate::header::TestProps, output: &TargetLocation) -> (r: Vec<String>)
    ensures
        string_views(r@) == output_part(props@, *output),
{
    let mut args: Vec<String> = Vec::new();
    if !props.no_prefer_dynamic {
        push_str(&mut args, "-C");
        push_str(&mut args, "prefer-dynamic");
    }
    let ghost a = string_views(args@);
    assert(a =~= (if props.no_prefer_dynamic {
        Seq::<Seq<char>>::empty()
    } else {
        seq!["-C"@, "prefer-dynamic"@]
    }));
    match output {
        TargetLocation::ThisFile(p) => {
            push_str(&mut args, "-o");
            push_str(&mut args, p.as_str());
            assert(string_views(args@) =~= a + seq!["-o"@, p@]);
        },
        TargetLocation::ThisDirectory(p) => {
            push_str(&mut args, "--out-dir");
            push_str(&mut args, p.as_str());
            assert(string_views(args@) =~= a + seq!["--out-dir"@, p@]);
        },
    }
    args
}

/// The arguments of the compile of `input_file` for a test with these properties, in its
/// revision if any. `mir_dump_dir` is where MIR dumps go in MIR tests.
pub fn make_compile_args(
    config: &crate::common::Config,
    props: &crate::header::TestProps,
    revision: Option<&str>,
    input_file: &str,
    output: TargetLocation,
    mir_dump_dir: &str,
) -> (r: Vec<String>)
    ensures
        string_views(r@) == compile_args(
            *config,
            props@,
            crate::header::cfg_view(revision),
            input_file@,
            output,
            mir_dump_dir@,
        ),
{
    let mut args: Vec<String> = Vec::new();
    push_str(&mut args, input_file);
    push_str(&mut args, "-L");
    push_str(&mut args, config.build_base.as_str());
    assert(string_views(args@) =~= seq![input_file@, "-L"@, config.build_base@]);
    extend_strings(&mut args, &target_args(config, props));
    let ghost a1 = string_views(args@);
    match revision {
        Some(r) => {
            push_str(&mut args, "--cfg");
            push_str(&mut args, r);
        },
        None => {},
    }
    assert(string_views(args@) =~= a1 + revision_part(crate::header::cfg_view(revision)));
    let ghost a2 = string_views(args@);
    match &props.incremental_dir {
        Some(d) => {
            push_str(&mut args, "-Z");
            push_concat(&mut args, "incremental=", d.as_str());
        },
        None => {},
    }
    assert(string_views(args@) =~= a2 + incremental_part(props@));
    extend_strings(&mut args, &mode_args(config, props, mir_dump_dir));
    extend_strings(&mut args, &output_args(props, &output));
    let flags = if props.force_host {
        crate::debugger::split_maybe_args(&config.host_rustcflags)
    } else {
        crate::debugger::split_maybe_args(&config.target_rustcflags)
    };
    let ghost a5 = string_views(args@);
    extend_strings(&mut args, &flags);
    extend_strings(&mut args, &props.compile_flags);
    assert(string_views(args@) =~= a5 + flags_part(*config, props@));
    args
}

} // verus!

verus! {

/// `pub mod name;` or `mod name;`: a module in a file of its own.
pub open spec fn is_mod_line(l: Seq<char>) -> bool {
    (starts_with(crate::text::trim_start(l), "pub mod "@) || starts_with(
        crate::text::trim_start(l),
        "mod "@,
    )) && crate::text::ends_with(l, ";"@)
}

/// The module that a `mod` line names: what follows its last `mod `, without `;`.
pub open spec fn mod_name(l: Seq<char>) -> Seq<char> {
    crate::text::replace_all(crate::debugger::split_on(l, "mod "@).last(), ";"@, ""@)
}

/// A line that opens or closes a code block, inside a doc comment or not.
pub open spec fn is_fence(l: Seq<char>) -> bool {
    starts_with(crate::text::trim_start(crate::debugger::split_on(l, "///"@).last()), "```"@)
}

/// Over the first `n` lines of a source file: the lines (from 1) that open a code block,
/// the modules it declares in other files, and whether a block is open.
pub open spec fn doc_upto(lines: Seq<Seq<char>>, n: nat) -> (Seq<int>, Seq<Seq<char>>, bool)
    decreases n,
{
    if n == 0 {
        (Seq::empty(), Seq::empty(), false)
    } else {
        let (f, m, open) = doc_upto(lines, (n - 1) as nat);
        let l = lines[n - 1];
        if is_mod_line(l) {
            (f, m.push(mod_name(l)), open)
        } else if is_fence(l) {
            if open {
                (f, m, false)
            } else {
                (f.push(n as int), m, true)
            }
        } else {
            (f, m, open)
        }
    }
}

fn trim_start_of(s: &str) -> (r: String)
    ensures
        r@ == crate::text::trim_start(s@),
{
    let v = crate::text::chars_of(s);
    let k = crate::text::run_len(&v, 0, crate::text::CharClass::Whitespace);
    assert(v@.skip(0) =~= v@);
    let r = crate::text::substring(s, k, v.len());
    assert(r@ =~= crate::text::trim_start(s@));
    r
}

fn last_piece(s: &str, sep: &str) -> (r: String)
    requires
        sep@.len() > 0,
    ensures
        r@ == crate::debugger::split_on(s@, sep@).last(),
{
    let pieces = crate::debugger::split_all(s, sep);
    proof {
        lemma_split_on_nonempty(s@, sep@);
    }
    assert(string_views(pieces@).last() == pieces@[pieces@.len() - 1]@);
    String::from_str(pieces[pieces.len() - 1].as_str())
}

proof fn lemma_split_on_nonempty(s: Seq<char>, sep: Seq<char>)
    ensures
        crate::debugger::split_on(s, sep).len() > 0,
    decreases s.len(),
{
    if sep.len() > 0 && contains(s, sep) {
        let i = choose|i: int| crate::text::first_occurrence(s, sep, i);
        if 0 <= i && i + sep.len() <= s.len() {
            lemma_split_on_nonempty(s.skip(i + sep.len()), sep);
        }
    }
}

/// The doc tests of a source file with these lines: the lines (from 1) that open a code
/// block, and the modules it declares in files of their own.
pub fn doc_test_lines(lines: &Vec<String>) -> (r: (Vec<usize>, Vec<String>))
    requires
        lines@.len() < usize::MAX,
    ensures
        r.0@.map_values(|i: usize| i as int) == doc_upto(string_views(lines@), lines@.len()).0,
        string_views(r.1@) == doc_upto(string_views(lines@), lines@.len()).1,
{
    proof {
        reveal_strlit("mod ");
        reveal_strlit(";");
        reveal_strlit("///");
    }
    let ghost lv = string_views(lines@);
    let mut fences: Vec<usize> = Vec::new();
    let mut mods: Vec<String> = Vec::new();
    let mut open = false;
    let mut n: usize = 0;
    assert(fences@.map_values(|i: usize| i as int) =~= Seq::<int>::empty());
    assert(string_views(mods@) =~= Seq::<Seq<char>>::empty());
    while n < lines.len()
        invariant
            n <= lines@.len() < usize::MAX,
            lv == string_views(lines@),
            "mod "@.len() == 4,
            ";"@.len() == 1,
            "///"@.len() == 3,
            doc_upto(lv, n as nat) == (
                fences@.map_values(|i: usize| i as int),
                string_views(mods@),
                open,
            ),
        decreases lines@.len() - n,
    {
        let l = lines[n].as_str();
        assert(lv[n as int] == l@);
        let t = trim_start_of(l);
        let ghost f0 = fences@;
        let ghost m0 = string_views(mods@);
        if (str_starts_with(t.as_str(), "pub mod ") || str_starts_with(t.as_str(), "mod "))
            && crate::text::str_ends_with(l, ";") {
            let piece = last_piece(l, "mod ");
            let name = crate::text::replace(piece.as_str(), ";", "");
            let ghost nv = name@;
            mods.push(name);
            assert(string_views(mods@) =~= m0.push(nv));
        } else {
            let doc = last_piece(l, "///");
            let d = trim_start_of(doc.as_str());
            if str_starts_with(d.as_str(), "```") {
                if open {
                    open = false;
                } else {
                    open = true;
                    fences.push(n + 1);
                    assert(fences@.map_values(|i: usize| i as int) =~= f0.map_values(
                        |i: usize| i as int,
                    ).push(n + 1));
                }
            }
        }
        n = n + 1;
    }
    (fences, mods)
}

} // verus!

verus! {

/// The crate type an auxiliary crate is built as: none when it refuses `prefer-dynamic`; a
/// plain library for targets without dynamic libraries (musl, unless built for the host,
/// and emscripten); a dynamic library otherwise.
pub open spec fn aux_crate_type_of(config: crate::common::Config, aux: crate::header::PropsView) -> Option<
    Seq<char>,
> {
    if aux.no_prefer_dynamic {
        None
    } else if (contains(config.target@, "musl"@) && !aux.force_host) || contains(
        config.target@,
        "emscripten"@,
    ) {
        Some("lib"@)
    } else {
        Some("dylib"@)
    }
}

pub fn aux_crate_type(config: &crate::common::Config, aux: &crate::header::TestProps) -> (r: Option<
    &'static str,
>)
    ensures
        match r {
            Some(t) => aux_crate_type_of(*config, aux@) == Some(t@),
            None => aux_crate_type_of(*config, aux@) is None,
        },
{
    if aux.no_prefer_dynamic {
        None
    } else if (str_contains(config.target.as_str(), "musl") && !aux.force_host) || str_contains(
        config.target.as_str(),
        "emscripten",
    ) {
        Some("lib")
    } else {
        Some("dylib")
    }
}

/// The compiler's arguments for an auxiliary crate of a test: those of any compile of it
/// (usually into a directory), then its crate type and `aux_dir` as a library path.
pub open spec fn aux_compile_args(
    config: crate::common::Config,
    aux: crate::header::PropsView,
    revision: Option<Seq<char>>,
    aux_file: Seq<char>,
    output: TargetLocation,
    aux_dir: Seq<char>,
) -> Seq<Seq<char>> {
    compile_args(config, aux, revision, aux_file, output, ""@) + match aux_crate_type_of(
        config,
        aux,
    ) {
        Some(t) => seq!["--crate-type"@, t],
        None => Seq::empty(),
    } + seq!["-L"@, aux_dir]
}

/// The arguments of the compile of the auxiliary crate `aux_file`, whose own properties are
/// `aux`, for a test in its revision if any.
pub fn make_aux_compile_args(
    config: &crate::common::Config,
    aux: &crate::header::TestProps,
    revision: Option<&str>,
    aux_file: &str,
    output: TargetLocation,
    aux_dir: &str,
) -> (r: Vec<String>)
    ensures
        string_views(r@) == aux_compile_args(
            *config,
            aux@,
            crate::header::cfg_view(revision),
            aux_file@,
            output,
            aux_dir@,
        ),
{
    let ghost out = output;
    let mut args = make_compile_args(config, aux, revision, aux_file, output, "");
    proof {
        reveal_strlit("");
    }
    let ghost a0 = string_views(args@);
    match aux_crate_type(config, aux) {
        Some(t) => {
            push_str(&mut args, "--crate-type");
            push_str(&mut args, t);
        },
        None => {},
    }
    push_str(&mut args, "-L");
    push_str(&mut args, aux_dir);
    assert(string_views(args@) =~= aux_compile_args(
        *config,
        aux@,
        crate::header::cfg_view(revision),
        aux_file@,
        out,
        aux_dir@,
    ));
    args
}

} // verus!
