//! A driver for compiler test suites: reads the directives and expected-diagnostic
//! annotations of test files, matches what the compiler reported against them, and decides
//! the outcome of each step of a test.
use vstd::prelude::*;
use crate::text::{CharClass, chars_of, digits_value, decimal_value, lead_len, run_len, trim, trim_bounds, substring};

pub mod text;
pub mod common;
pub mod errors;
pub mod matcher;
pub mod runtest;
pub mod header;
pub mod debugger;
pub mod codegen_units;

verus! {

/// The length of the run of digits that starts at `i`.
pub open spec fn digit_run(s: Seq<char>, i: int) -> int {
    lead_len(s.skip(i), CharClass::Digit) as int
}

/// The value of a version `major.minor[.patch]` whose one-digit major starts at `pos`: the
/// minor is required; a patch of one to three digits counts, anything else after the minor
/// counts as patch 0.
pub open spec fn gdb_version_at(s: Seq<char>, pos: int) -> Option<nat> {
    let ns = pos + digit_run(s, pos);
    if ns >= s.len() || s[ns] != '.' || digit_run(s, pos) != 1 {
        None
    } else {
        let ms = ns + 1;
        let me = ms + digit_run(s, ms);
        if me == ms {
            None
        } else {
            let major = digits_value(s.subrange(pos, ns));
            let minor = digits_value(s.subrange(ms, me));
            let pl = if me < s.len() && s[me] == '.' {
                digit_run(s, me + 1)
            } else {
                0
            };
            let patch = if 1 <= pl <= 3 {
                digits_value(s.subrange(me + 1, me + 1 + pl))
            } else {
                0
            };
            let v = (major * 1000 + minor) * 1000 + patch;
            if v <= u32::MAX {
                Some(v)
            } else {
                None
            }
        }
    }
}

/// A version number starts at `pos`: a digit that no digit precedes.
pub open spec fn number_starts_at(s: Seq<char>, pos: int) -> bool {
    0 <= pos < s.len() && crate::text::is_digit(s[pos]) && (pos == 0 || !crate::text::is_digit(
        s[pos - 1],
    ))
}

/// The first version found from position `i` on.
pub open spec fn gdb_version_from(s: Seq<char>, i: int) -> Option<nat>
    decreases s.len() - i,
{
    if i < 0 || i >= s.len() {
        None
    } else if number_starts_at(s, i) && gdb_version_at(s, i) is Some {
        gdb_version_at(s, i)
    } else {
        gdb_version_from(s, i + 1)
    }
}

/// The gdb version in a line such as `GNU gdb (GDB) 7.11.1`, as
/// `major * 1_000_000 + minor * 1_000 + patch`. The major version has one digit, so that a
/// distribution's own version number is not taken for it; the minor one is required.
pub fn extract_gdb_version(full_version_line: &str) -> (r: Option<u32>)
    ensures
        match r {
            Some(v) => gdb_version_from(trim(full_version_line@), 0) == Some(v as nat),
            None => gdb_version_from(trim(full_version_line@), 0) is None,
        },
{
    let all = chars_of(full_version_line);
    let (a, b) = trim_bounds(&all, 0, all.len());
    assert(all@.subrange(0, all@.len() as int) =~= full_version_line@);
    let t = substring(full_version_line, a, b);
    let v = chars_of(t.as_str());
    let ghost s = v@;
    assert(s == trim(full_version_line@));
    let mut i: usize = 0;
    let mut prev_was_digit = false;
    while i < v.len()
        invariant
            i <= v@.len(),
            s == v@,
            s == trim(full_version_line@),
            prev_was_digit == (i > 0 && crate::text::is_digit(s[i - 1])),
            gdb_version_from(s, 0) == gdb_version_from(s, i as int),
        decreases v@.len() - i,
    {
        let c = v[i];
        let is_d = crate::text::char_in_class(c, CharClass::Digit);
        if !prev_was_digit && is_d {
            let r = gdb_version_exec(&v, i);
            if r.is_some() {
                return r;
            }
        }
        prev_was_digit = is_d;
        i = i + 1;
    }
    None
}

fn gdb_version_exec(v: &Vec<char>, pos: usize) -> (r: Option<u32>)
    requires
        pos < v@.len(),
    ensures
        match r {
            Some(x) => gdb_version_at(v@, pos as int) == Some(x as nat),
            None => gdb_version_at(v@, pos as int) is None,
        },
{
    let ml = run_len(v, pos, CharClass::Digit);
    let ns = pos + ml;
    if ns >= v.len() || v[ns] != '.' || ml != 1 {
        return None;
    }
    let ms = ns + 1;
    let me = ms + run_len(v, ms, CharClass::Digit);
    if me == ms {
        return None;
    }
    proof {
        lemma_digit_run_digits(v@, pos as int);
        lemma_digit_run_digits(v@, ms as int);
        lemma_short_digits_rec(v@.subrange(pos as int, ns as int), 1);
    }
    let major = match decimal_value(v, pos, ns, 9) {
        Some(x) => x,
        None => return None,
    };
    let minor = match decimal_value(v, ms, me, 0xffff_ffff) {
        Some(x) => x,
        None => {
            assert(digits_value(v@.subrange(ms as int, me as int)) * 1000 > u32::MAX);
            return None;
        },
    };
    let mut patch: u64 = 0;
    if me < v.len() && v[me] == '.' {
        let pl = run_len(v, me + 1, CharClass::Digit);
        if 1 <= pl && pl <= 3 {
            proof {
                lemma_digit_run_digits(v@, me + 1);
            }
            patch = match decimal_value(v, me + 1, me + 1 + pl, 0xffff_ffff) {
                Some(x) => x,
                None => 0,
            };
            proof {
                lemma_short_digits(v@.subrange(me + 1, me + 1 + pl));
            }
        }
    }
    let value: u64 = (major * 1000 + minor) * 1000 + patch;
    if value <= 0xffff_ffff {
        Some(value as u32)
    } else {
        None
    }
}

proof fn lemma_digit_run_digits(s: Seq<char>, i: int)
    requires
        0 <= i <= s.len(),
    ensures
        crate::text::all_digits(s.subrange(i, i + digit_run(s, i))),
        i + digit_run(s, i) <= s.len(),
{
    crate::text::lemma_lead_len_bound(s.skip(i), CharClass::Digit);
    let d = s.subrange(i, i + digit_run(s, i));
    assert forall|j: int| 0 <= j < d.len() implies crate::text::is_digit(#[trigger] d[j]) by {
        crate::text::lemma_lead_prefix(s.skip(i), CharClass::Digit, j);
        assert(s.skip(i)[j] == d[j]);
    }
}

proof fn lemma_short_digits(s: Seq<char>)
    requires
        s.len() <= 3,
        crate::text::all_digits(s),
    ensures
        digits_value(s) < 1000,
    decreases s.len(),
{
    if s.len() > 0 {
        assert(crate::text::all_digits(s.drop_last()));
        lemma_short_digits_rec(s.drop_last(), 2);
        assert(crate::text::is_digit(s[s.len() - 1]));
    }
}

proof fn lemma_short_digits_rec(s: Seq<char>, n: nat)
    requires
        s.len() <= n,
        n <= 2,
        crate::text::all_digits(s),
    ensures
        n == 2 ==> digits_value(s) < 100,
        n == 1 ==> digits_value(s) < 10,
        n == 0 ==> digits_value(s) == 0,
    decreases s.len(),
{
    if s.len() > 0 {
        assert(crate::text::all_digits(s.drop_last()));
        lemma_short_digits_rec(s.drop_last(), (n - 1) as nat);
        assert(crate::text::is_digit(s[s.len() - 1]));
    }
}

} // verus!

verus! {

/// `lldb-` in either case, with digits after it, starts at `i`.
pub open spec fn lldb_marker_at(s: Seq<char>, i: int) -> bool {
    0 <= i && i + 5 < s.len() && (s[i] == 'l' || s[i] == 'L') && (s[i + 1] == 'l' || s[i + 1]
        == 'L') && (s[i + 2] == 'd' || s[i + 2] == 'D') && (s[i + 3] == 'b' || s[i + 3] == 'B')
        && s[i + 4] == '-' && digit_run(s, i + 5) > 0
}

/// The digits after the first `lldb-` marker from position `i` on.
pub open spec fn lldb_version_from(s: Seq<char>, i: int) -> Option<Seq<char>>
    decreases s.len() - i,
{
    if i < 0 || i >= s.len() {
        None
    } else if lldb_marker_at(s, i) {
        Some(s.subrange(i + 5, i + 5 + digit_run(s, i + 5)))
    } else {
        lldb_version_from(s, i + 1)
    }
}

/// The major version in an lldb version line such as `lldb-300.2.51` or `LLDB-179.5`.
pub fn extract_lldb_version(full_version_line: Option<String>) -> (r: Option<String>)
    ensures
        full_version_line is None ==> r is None,
        full_version_line matches Some(l) ==> (match lldb_version_from(trim(l@), 0) {
            Some(v) => r matches Some(x) && x@ == v,
            None => r is None,
        }),
{
    let line = match &full_version_line {
        None => return None,
        Some(l) => l,
    };
    let t = crate::text::trimmed(line.as_str());
    let v = chars_of(t.as_str());
    let mut i: usize = 0;
    while i < v.len()
        invariant
            i <= v@.len(),
            v@ == trim(line@),
            v@ == t@,
            full_version_line == Some(*line),
            lldb_version_from(v@, 0) == lldb_version_from(v@, i as int),
        decreases v@.len() - i,
    {
        if v.len() - i > 5 && (v[i] == 'l' || v[i] == 'L') && (v[i + 1] == 'l' || v[i + 1] == 'L')
            && (v[i + 2] == 'd' || v[i + 2] == 'D') && (v[i + 3] == 'b' || v[i + 3] == 'B') && v[i
            + 4] == '-' {
            let n = run_len(&v, i + 5, CharClass::Digit);
            if n > 0 {
                assert(lldb_marker_at(v@, i as int));
                assert(lldb_version_from(v@, i as int) == Some(
                    v@.subrange(i + 5, i + 5 + n),
                ));
                return Some(substring(t.as_str(), i + 5, i + 5 + n));
            }
        }
        i = i + 1;
    }
    None
}

/// Versions of lldb that the debuginfo tests do not support.
pub fn is_blacklisted_lldb_version(version: &str) -> (r: bool)
    ensures
        r == (version@ == "350"@),
{
    crate::text::str_eq(version, "350")
}

} // verus!

verus! {

/// Whether a file of this name is a test: it ends in `.rs` and does not start with `.`, `#`
/// or `~`, as editors' temporary files do.
pub fn is_test(file_name: &str) -> (r: bool)
    ensures
        r == (crate::text::ends_with(file_name@, ".rs"@) && !crate::text::starts_with(
            file_name@,
            "."@,
        ) && !crate::text::starts_with(file_name@, "#"@) && !crate::text::starts_with(
            file_name@,
            "~"@,
        )),
{
    crate::text::str_ends_with(file_name, ".rs") && !crate::text::str_starts_with(file_name, ".")
        && !crate::text::str_starts_with(file_name, "#") && !crate::text::str_starts_with(
        file_name,
        "~",
    )
}

} // verus!

verus! {

/// Path components joined by `/`, empty ones left out.
pub open spec fn path_of(parts: Seq<Seq<char>>) -> Seq<char>
    decreases parts.len(),
{
    if parts.len() == 0 {
        Seq::empty()
    } else if parts.last().len() == 0 {
        path_of(parts.drop_last())
    } else if path_of(parts.drop_last()).len() == 0 {
        parts.last()
    } else {
        path_of(parts.drop_last()) + "/"@ + parts.last()
    }
}

/// The name under which a test is reported: `[mode] suite/relative/dir/file.rs`, and
/// `#revision` for one revision of it.
pub open spec fn test_name(
    mode: crate::common::Mode,
    suite: Seq<char>,
    relative_dir: Seq<char>,
    file_name: Seq<char>,
    revision: Option<Seq<char>>,
) -> Seq<char> {
    "["@ + crate::common::mode_name(mode) + "] "@ + path_of(seq![suite, relative_dir, file_name])
        + match revision {
        Some(r) => "#"@ + r,
        None => Seq::empty(),
    }
}

fn push_component(path: &mut String, part: &str, ghost_parts: Ghost<Seq<Seq<char>>>)
    requires
        old(path)@ == path_of(ghost_parts@),
    ensures
        final(path)@ == path_of(ghost_parts@.push(part@)),
{
    proof {
        assert(ghost_parts@.push(part@).drop_last() =~= ghost_parts@);
    }
    if part.unicode_len() == 0 {
        return;
    }
    if path.unicode_len() > 0 {
        path.append("/");
    }
    path.append(part);
}

/// The name of a test for the test runner.
pub fn make_test_name(
    mode: crate::common::Mode,
    suite: &str,
    relative_dir: &str,
    file_name: &str,
    revision: Option<&str>,
) -> (r: String)
    ensures
        r@ == test_name(mode, suite@, relative_dir@, file_name@, crate::header::cfg_view(revision)),
{
    let mut path = String::new();
    assert(path@ =~= path_of(Seq::<Seq<char>>::empty()));
    push_component(&mut path, suite, Ghost(Seq::empty()));
    push_component(&mut path, relative_dir, Ghost(Seq::empty().push(suite@)));
    push_component(&mut path, file_name, Ghost(Seq::empty().push(suite@).push(relative_dir@)));
    assert(Seq::<Seq<char>>::empty().push(suite@).push(relative_dir@).push(file_name@) =~= seq![
        suite@,
        relative_dir@,
        file_name@,
    ]);
    let mut name = String::from_str("[");
    name.append(mode.as_str());
    name.append("] ");
    name.append(path.as_str());
    match revision {
        Some(r) => {
            name.append("#");
            name.append(r);
        },
        None => {},
    }
    assert(name@ =~= test_name(mode, suite@, relative_dir@, file_name@, crate::header::cfg_view(revision)));
    name
}

} // verus!

verus! {

/// A version `major.minor` starts at `pos`: one digit that no digit precedes, a dot, and at
/// least one digit.
pub open spec fn version_shape_at(s: Seq<char>, pos: int) -> bool {
    number_starts_at(s, pos) && digit_run(s, pos) == 1 && pos + 1 < s.len() && s[pos + 1] == '.'
        && digit_run(s, pos + 2) > 0
}

/// A gdb version is only ever read where a one-digit major version, a dot and a minor
/// version stand; a line without one gives no version, never a made-up one.
pub proof fn lemma_gdb_version_needs_shape(s: Seq<char>, i: int)
    ensures
        gdb_version_from(s, i) matches Some(v) ==> exists|pos: int|
            i <= pos && #[trigger] version_shape_at(s, pos) && gdb_version_at(s, pos) == Some(v),
        (forall|pos: int| i <= pos ==> !#[trigger] version_shape_at(s, pos)) ==> gdb_version_from(
            s,
            i,
        ) is None,
    decreases s.len() - i,
{
    if 0 <= i < s.len() {
        lemma_gdb_version_needs_shape(s, i + 1);
        if number_starts_at(s, i) && gdb_version_at(s, i) is Some {
            let ns = i + digit_run(s, i);
            crate::text::lemma_lead_len_bound(s.skip(i), CharClass::Digit);
            assert(s.skip(i + 1) =~= s.skip(i).drop_first());
            assert(version_shape_at(s, i));
        }
    }
}

} // verus!
