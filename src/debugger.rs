//! Debugger scripts: the commands and expected lines a test gives, and the check of a
//! debugger's output against them.
use vstd::prelude::*;
use crate::common::Config;
use crate::header::name_value;
use crate::text::{
    chars_of, contains, ends_with, first_occurrence, lines_of, occurs_at, split_lines, starts_with,
    str_contains, string_views, substring, trim, trimmed,
};

verus! {

/// The pieces of `s` between occurrences of `sep`, empty ones included.
pub open spec fn split_on(s: Seq<char>, sep: Seq<char>) -> Seq<Seq<char>>
    decreases s.len(),
{
    if sep.len() == 0 || !contains(s, sep) {
        seq![s]
    } else {
        let i = choose|i: int| first_occurrence(s, sep, i);
        if 0 <= i && i + sep.len() <= s.len() {
            seq![s.take(i)] + split_on(s.skip(i + sep.len()), sep)
        } else {
            seq![s]
        }
    }
}

/// The pieces that are not empty, in order.
pub open spec fn non_empty(pieces: Seq<Seq<char>>) -> Seq<Seq<char>>
    decreases pieces.len(),
{
    if pieces.len() == 0 {
        pieces
    } else if pieces.last().len() > 0 {
        non_empty(pieces.drop_last()).push(pieces.last())
    } else {
        non_empty(pieces.drop_last())
    }
}

/// What is left of `rest` after finding `frags[k..]` in it one after another, each after the
/// one before; `None` when one is not found.
pub open spec fn match_fragments(rest: Seq<char>, frags: Seq<Seq<char>>, k: int) -> Option<
    Seq<char>,
>
    decreases frags.len() - k, rest.len(),
{
    if k < 0 || k >= frags.len() {
        Some(rest)
    } else if !contains(rest, frags[k]) {
        None
    } else {
        let i = choose|i: int| first_occurrence(rest, frags[k], i);
        if 0 <= i && i + frags[k].len() <= rest.len() {
            match_fragments(rest.skip(i + frags[k].len()), frags, k + 1)
        } else {
            None
        }
    }
}

/// A line of debugger output matches a check line, where `[...]` stands for any text: the
/// fixed parts occur in order, and the line ends with the last one unless the check ends
/// in `[...]`. Both are trimmed first.
pub open spec fn matches_check_line(line: Seq<char>, check_line: Seq<char>) -> bool {
    let l = trim(line);
    let c = trim(check_line);
    let frags = non_empty(split_on(c, "[...]"@));
    if frags.len() == 0 {
        true
    } else {
        match match_fragments(l, frags, 0) {
            None => false,
            Some(rest) => ends_with(c, "[...]"@) || rest.len() == 0,
        }
    }
}

fn find_in(s: &str, p: &str) -> (r: Option<usize>)
    ensures
        r is None <==> !contains(s@, p@),
        r matches Some(i) ==> first_occurrence(s@, p@, i as int),
{
    let v = chars_of(s);
    let w = chars_of(p);
    crate::text::find(&v, &w)
}

proof fn lemma_first_unique(s: Seq<char>, p: Seq<char>, i: int)
    requires
        first_occurrence(s, p, i),
    ensures
        (choose|j: int| first_occurrence(s, p, j)) == i,
{
    let j = choose|j: int| first_occurrence(s, p, j);
    if j < i {
        assert(!occurs_at(s, p, j));
    }
    if i < j {
        assert(!occurs_at(s, p, i));
    }
}

/// The non-empty pieces of `s` between occurrences of `[...]`.
fn fragments(s: &str) -> (r: Vec<String>)
    ensures
        string_views(r@) == non_empty(split_on(s@, "[...]"@)),
{
    proof {
        reveal_strlit("[...]");
    }
    let mut out: Vec<String> = Vec::new();
    let mut rest = String::from_str(s);
    let ghost done: Seq<Seq<char>> = Seq::empty();
    assert(string_views(out@) =~= non_empty(done));
    loop
        invariant
            split_on(s@, "[...]"@) == done + split_on(rest@, "[...]"@),
            string_views(out@) == non_empty(done),
            "[...]"@.len() == 5,
        decreases rest@.len(),
    {
        let n = rest.unicode_len();
        let ghost before = out@;
        match find_in(rest.as_str(), "[...]") {
            None => {
                let ghost piece = rest@;
                if n > 0 {
                    out.push(String::from_str(rest.as_str()));
                }
                proof {
                    assert(split_on(rest@, "[...]"@) =~= seq![piece]);
                    assert((done + seq![piece]).drop_last() =~= done);
                    if piece.len() > 0 {
                        assert(string_views(out@) =~= string_views(before).push(piece));
                    }
                    assert(split_on(s@, "[...]"@) =~= done + seq![piece]);
                }
                return out;
            },
            Some(i) => {
                proof {
                    lemma_first_unique(rest@, "[...]"@, i as int);
                }
                let piece = substring(rest.as_str(), 0, i);
                let ghost pv = piece@;
                let next = substring(rest.as_str(), i + 5, n);
                if i > 0 {
                    out.push(piece);
                }
                proof {
                    assert(pv =~= rest@.take(i as int));
                    assert(next@ =~= rest@.skip(i + 5));
                    assert(split_on(rest@, "[...]"@) =~= seq![pv] + split_on(next@, "[...]"@));
                    assert((done + seq![pv]).drop_last() =~= done);
                    if i > 0 {
                        assert(string_views(out@) =~= string_views(before).push(pv));
                    }
                    assert(done + split_on(rest@, "[...]"@) =~= (done + seq![pv]) + split_on(
                        next@,
                        "[...]"@,
                    ));
                    done = done + seq![pv];
                }
                rest = next;
            },
        }
    }
}

/// Whether a line of debugger output matches a check line.
pub fn check_single_line(line: &str, check_line: &str) -> (r: bool)
    ensures
        r == matches_check_line(line@, check_line@),
{
    let l = trimmed(line);
    let c = trimmed(check_line);
    let frags = fragments(c.as_str());
    let ghost fv = string_views(frags@);
    if frags.len() == 0 {
        return true;
    }
    let mut rest = String::from_str(l.as_str());
    let mut k: usize = 0;
    assert(match_fragments(l@, fv, 0) == match_fragments(rest@, fv, 0));
    while k < frags.len()
        invariant
            k <= frags@.len(),
            fv == string_views(frags@),
            fv == non_empty(split_on(trim(check_line@), "[...]"@)),
            fv.len() > 0,
            c@ == trim(check_line@),
            match_fragments(trim(line@), fv, 0) == match_fragments(rest@, fv, k as int),
        decreases frags@.len() - k,
    {
        assert(fv[k as int] == frags@[k as int]@);
        match find_in(rest.as_str(), frags[k].as_str()) {
            None => {
                return false;
            },
            Some(i) => {
                proof {
                    lemma_first_unique(rest@, fv[k as int], i as int);
                }
                let n = rest.unicode_len();
                let next = substring(rest.as_str(), i + frags[k].unicode_len(), n);
                assert(next@ =~= rest@.skip(i + fv[k as int].len()));
                rest = next;
            },
        }
        k = k + 1;
    }
    crate::text::str_ends_with(c.as_str(), "[...]") || rest.unicode_len() == 0
}

/// How many check lines are found, in order, when the output lines are read one after
/// another.
pub open spec fn check_cursor(lines: Seq<Seq<char>>, checks: Seq<Seq<char>>, n: nat) -> nat
    decreases n,
{
    if n == 0 {
        0
    } else {
        let c = check_cursor(lines, checks, (n - 1) as nat);
        if c < checks.len() && matches_check_line(lines[n - 1], checks[c as int]) {
            c + 1
        } else {
            c
        }
    }
}

/// Checks that the debugger's standard output shows the check lines in order; the error
/// names the first one not found.
pub fn check_debugger_output(stdout: &str, check_lines: &Vec<String>) -> (r: Result<(), usize>)
    ensures
        ({
            let c = check_cursor(lines_of(stdout@), string_views(check_lines@), lines_of(stdout@).len());
            if c == check_lines@.len() {
                r is Ok
            } else {
                r == Err::<(), usize>(c as usize)
            }
        }),
{
    let lines = split_lines(stdout);
    let ghost lv = string_views(lines@);
    let ghost cv = string_views(check_lines@);
    let mut idx: usize = 0;
    let mut n: usize = 0;
    while n < lines.len()
        invariant
            n <= lines@.len(),
            lv == string_views(lines@),
            cv == string_views(check_lines@),
            idx == check_cursor(lv, cv, n as nat),
            idx <= check_lines@.len(),
        decreases lines@.len() - n,
    {
        if idx < check_lines.len() {
            assert(lv[n as int] == lines@[n as int]@);
            assert(cv[idx as int] == check_lines@[idx as int]@);
            if check_single_line(lines[n].as_str(), check_lines[idx].as_str()) {
                idx = idx + 1;
            }
        }
        n = n + 1;
    }
    if idx == check_lines.len() {
        Ok(())
    } else {
        Err(idx)
    }
}

} // verus!

verus! {

/// The commands for a debugger, the lines to find in its output, and the lines (from 1)
/// marked `#break`.
#[derive(Debug)]
pub struct DebuggerCommands {
    pub commands: Vec<String>,
    pub check_lines: Vec<String>,
    pub breakpoint_lines: Vec<usize>,
}

/// The values of `<prefix><suffix>: value` on `line`, for the first `k` prefixes in order.
pub open spec fn prefixed_values(
    line: Seq<char>,
    prefixes: Seq<Seq<char>>,
    suffix: Seq<char>,
    config: Config,
    k: nat,
) -> Seq<Seq<char>>
    decreases k,
{
    if k == 0 {
        Seq::empty()
    } else {
        prefixed_values(line, prefixes, suffix, config, (k - 1) as nat) + crate::header::opt_seq(
            name_value(line, prefixes[k - 1] + suffix, config),
        )
    }
}

pub ghost struct CommandsView {
    pub commands: Seq<Seq<char>>,
    pub check_lines: Seq<Seq<char>>,
    pub breakpoint_lines: Seq<int>,
}

/// What the first `n` lines of a test file give a debugger whose directives start with one
/// of `prefixes` (`gdb` for `gdb-command` and `gdb-check`).
pub open spec fn commands_upto(
    lines: Seq<Seq<char>>,
    prefixes: Seq<Seq<char>>,
    config: Config,
    n: nat,
) -> CommandsView
    decreases n,
{
    if n == 0 {
        CommandsView { commands: Seq::empty(), check_lines: Seq::empty(), breakpoint_lines: Seq::empty() }
    } else {
        let p = commands_upto(lines, prefixes, config, (n - 1) as nat);
        let line = lines[n - 1];
        CommandsView {
            commands: p.commands + prefixed_values(
                line,
                prefixes,
                "-command"@,
                config,
                prefixes.len(),
            ),
            check_lines: p.check_lines + prefixed_values(
                line,
                prefixes,
                "-check"@,
                config,
                prefixes.len(),
            ),
            breakpoint_lines: if contains(line, "#break"@) {
                p.breakpoint_lines.push(n as int)
            } else {
                p.breakpoint_lines
            },
        }
    }
}

fn push_values(
    out: &mut Vec<String>,
    config: &Config,
    line: &str,
    prefixes: &Vec<String>,
    suffix: &str,
)
    ensures
        string_views(final(out)@) == string_views(old(out)@) + prefixed_values(
            line@,
            string_views(prefixes@),
            suffix@,
            *config,
            prefixes@.len(),
        ),
{
    let ghost pv = string_views(prefixes@);
    let ghost start = string_views(out@);
    let mut k: usize = 0;
    assert(start + prefixed_values(line@, pv, suffix@, *config, 0) =~= start);
    while k < prefixes.len()
        invariant
            k <= prefixes@.len(),
            pv == string_views(prefixes@),
            string_views(out@) == start + prefixed_values(line@, pv, suffix@, *config, k as nat),
        decreases prefixes@.len() - k,
    {
        let mut directive = String::from_str(prefixes[k].as_str());
        directive.append(suffix);
        assert(directive@ == pv[k as int] + suffix@);
        let ghost before = string_views(out@);
        match config.parse_name_value_directive(line, directive.as_str()) {
            Some(v) => {
                let ghost vv = v@;
                out.push(v);
                assert(string_views(out@) =~= before.push(vv));
            },
            None => {},
        }
        assert(string_views(out@) =~= start + prefixed_values(
            line@,
            pv,
            suffix@,
            *config,
            (k + 1) as nat,
        ));
        k = k + 1;
    }
}

/// Reads the debugger directives of a test file with these lines.
pub fn parse_debugger_commands(lines: &Vec<String>, prefixes: &Vec<String>, config: &Config) -> (r:
    DebuggerCommands)
    requires
        lines@.len() < usize::MAX,
    ensures
        string_views(r.commands@) == commands_upto(
            string_views(lines@),
            string_views(prefixes@),
            *config,
            lines@.len(),
        ).commands,
        string_views(r.check_lines@) == commands_upto(
            string_views(lines@),
            string_views(prefixes@),
            *config,
            lines@.len(),
        ).check_lines,
        r.breakpoint_lines@.map_values(|b: usize| b as int) == commands_upto(
            string_views(lines@),
            string_views(prefixes@),
            *config,
            lines@.len(),
        ).breakpoint_lines,
{
    let ghost lv = string_views(lines@);
    let ghost pv = string_views(prefixes@);
    let mut commands: Vec<String> = Vec::new();
    let mut check_lines: Vec<String> = Vec::new();
    let mut breakpoint_lines: Vec<usize> = Vec::new();
    let mut i: usize = 0;
    assert(string_views(commands@) =~= Seq::<Seq<char>>::empty());
    assert(string_views(check_lines@) =~= Seq::<Seq<char>>::empty());
    assert(breakpoint_lines@.map_values(|b: usize| b as int) =~= Seq::<int>::empty());
    while i < lines.len()
        invariant
            i <= lines@.len() < usize::MAX,
            lv == string_views(lines@),
            pv == string_views(prefixes@),
            string_views(commands@) == commands_upto(lv, pv, *config, i as nat).commands,
            string_views(check_lines@) == commands_upto(lv, pv, *config, i as nat).check_lines,
            breakpoint_lines@.map_values(|b: usize| b as int) == commands_upto(
                lv,
                pv,
                *config,
                i as nat,
            ).breakpoint_lines,
        decreases lines@.len() - i,
    {
        let line = lines[i].as_str();
        assert(lv[i as int] == line@);
        if str_contains(line, "#break") {
            let ghost before = breakpoint_lines@;
            breakpoint_lines.push(i + 1);
            assert(breakpoint_lines@.map_values(|b: usize| b as int) =~= before.map_values(
                |b: usize| b as int,
            ).push(i + 1));
        }
        push_values(&mut commands, config, line, prefixes, "-command");
        push_values(&mut check_lines, config, line, prefixes, "-check");
        i = i + 1;
    }
    DebuggerCommands { commands, check_lines, breakpoint_lines }
}

} // verus!

verus! {

pub open spec fn all_ws(s: Seq<char>) -> bool {
    forall|i: int| 0 <= i < s.len() ==> crate::text::is_ws(#[trigger] s[i])
}

/// The pieces that hold more than whitespace, in order.
pub open spec fn solid(pieces: Seq<Seq<char>>) -> Seq<Seq<char>>
    decreases pieces.len(),
{
    if pieces.len() == 0 {
        pieces
    } else if !all_ws(pieces.last()) {
        solid(pieces.drop_last()).push(pieces.last())
    } else {
        solid(pieces.drop_last())
    }
}

fn is_all_ws(s: &str) -> (r: bool)
    ensures
        r == all_ws(s@),
{
    let v = chars_of(s);
    let n = crate::text::run_len(&v, 0, crate::text::CharClass::Whitespace);
    proof {
        assert(v@.skip(0) =~= v@);
        crate::text::lemma_lead_stop(v@, crate::text::CharClass::Whitespace);
        if n == v@.len() {
            assert forall|i: int| 0 <= i < v@.len() implies crate::text::is_ws(#[trigger] v@[i]) by {
                crate::text::lemma_lead_prefix(v@, crate::text::CharClass::Whitespace, i);
            }
        }
    }
    n == v.len()
}

/// Arguments given as one string: the pieces between single spaces that hold more than
/// whitespace.
pub fn split_maybe_args(argstr: &Option<String>) -> (r: Vec<String>)
    ensures
        argstr is None ==> r@.len() == 0,
        argstr matches Some(s) ==> string_views(r@) == solid(split_on(s@, " "@)),
{
    let s = match argstr {
        None => return Vec::new(),
        Some(s) => s,
    };
    proof {
        reveal_strlit(" ");
    }
    let mut out: Vec<String> = Vec::new();
    let mut rest = String::from_str(s.as_str());
    let ghost done: Seq<Seq<char>> = Seq::empty();
    assert(string_views(out@) =~= solid(done));
    loop
        invariant
            split_on(s@, " "@) == done + split_on(rest@, " "@),
            *argstr == Some(*s),
            string_views(out@) == solid(done),
            " "@.len() == 1,
        decreases rest@.len(),
    {
        let n = rest.unicode_len();
        let ghost before = out@;
        match find_in(rest.as_str(), " ") {
            None => {
                let ghost piece = rest@;
                if !is_all_ws(rest.as_str()) {
                    out.push(String::from_str(rest.as_str()));
                }
                proof {
                    assert(split_on(rest@, " "@) =~= seq![piece]);
                    assert((done + seq![piece]).drop_last() =~= done);
                    if !all_ws(piece) {
                        assert(string_views(out@) =~= string_views(before).push(piece));
                    }
                    assert(split_on(s@, " "@) =~= done + seq![piece]);
                }
                return out;
            },
            Some(i) => {
                proof {
                    lemma_first_unique(rest@, " "@, i as int);
                }
                let piece = substring(rest.as_str(), 0, i);
                let ghost pv = piece@;
                let next = substring(rest.as_str(), i + 1, n);
                if !is_all_ws(piece.as_str()) {
                    out.push(piece);
                }
                proof {
                    assert(pv =~= rest@.take(i as int));
                    assert(next@ =~= rest@.skip(i + 1));
                    assert(split_on(rest@, " "@) =~= seq![pv] + split_on(next@, " "@));
                    assert((done + seq![pv]).drop_last() =~= done);
                    if !all_ws(pv) {
                        assert(string_views(out@) =~= string_views(before).push(pv));
                    }
                    assert(done + split_on(rest@, " "@) =~= (done + seq![pv]) + split_on(
                        next@,
                        " "@,
                    ));
                    done = done + seq![pv];
                }
                rest = next;
            },
        }
    }
}

pub open spec fn unwanted_debug_option(o: Seq<char>) -> bool {
    o == "-O"@ || o == "-g"@ || o == "--debuginfo"@
}

pub open spec fn kept_options(opts: Seq<Seq<char>>) -> Seq<Seq<char>>
    decreases opts.len(),
{
    if opts.len() == 0 {
        opts
    } else if !unwanted_debug_option(opts.last()) {
        kept_options(opts.drop_last()).push(opts.last())
    } else {
        kept_options(opts.drop_last())
    }
}

/// The pieces joined with single spaces.
pub open spec fn joined(pieces: Seq<Seq<char>>) -> Seq<char>
    decreases pieces.len(),
{
    if pieces.len() == 0 {
        Seq::empty()
    } else if pieces.len() == 1 {
        pieces[0]
    } else {
        joined(pieces.drop_last()) + " "@ + pieces.last()
    }
}

/// Compiler options for a debugger test without the ones that are unwanted there (`-O`)
/// or would be given twice (`-g`, `--debuginfo`).
pub fn cleanup_debug_info_options(options: &Option<String>) -> (r: Option<String>)
    ensures
        options is None ==> r is None,
        options matches Some(s) ==> r matches Some(t) && t@ == joined(
            kept_options(solid(split_on(s@, " "@))),
        ),
{
    if options.is_none() {
        return None;
    }
    let parts = split_maybe_args(options);
    let ghost pv = string_views(parts@);
    let mut out = String::new();
    let ghost kept: Seq<Seq<char>> = Seq::empty();
    let mut i: usize = 0;
    let mut any = false;
    assert(kept_options(pv.take(0)) =~= kept);
    while i < parts.len()
        invariant
            i <= parts@.len(),
            pv == string_views(parts@),
            kept == kept_options(pv.take(i as int)),
            any == (kept.len() > 0),
            out@ == joined(kept),
        decreases parts@.len() - i,
    {
        assert(pv.take(i + 1).drop_last() =~= pv.take(i as int));
        assert(pv[i as int] == parts@[i as int]@);
        let p = parts[i].as_str();
        if !(crate::text::str_eq(p, "-O") || crate::text::str_eq(p, "-g") || crate::text::str_eq(
            p,
            "--debuginfo",
        )) {
            if any {
                out.append(" ");
            }
            out.append(p);
            any = true;
            proof {
                if kept.len() == 0 {
                    assert(out@ =~= joined(kept.push(p@)));
                } else {
                    assert(kept.push(p@).drop_last() =~= kept);
                    assert(out@ =~= joined(kept.push(p@)));
                }
                kept = kept.push(p@);
            }
        }
        i = i + 1;
    }
    assert(pv.take(pv.len() as int) =~= pv);
    Some(out)
}

} // verus!

verus! {

/// The pieces of `s` between occurrences of `sep`, as `str::split` gives them.
pub fn split_all(s: &str, sep: &str) -> (r: Vec<String>)
    requires
        sep@.len() > 0,
    ensures
        string_views(r@) == split_on(s@, sep@),
{
    let m = sep.unicode_len();
    let mut out: Vec<String> = Vec::new();
    let mut rest = String::from_str(s);
    let ghost done: Seq<Seq<char>> = Seq::empty();
    assert(string_views(out@) =~= done);
    loop
        invariant
            split_on(s@, sep@) == done + split_on(rest@, sep@),
            string_views(out@) == done,
            sep@.len() == m,
            m > 0,
        decreases rest@.len(),
    {
        let n = rest.unicode_len();
        let ghost before = string_views(out@);
        match find_in(rest.as_str(), sep) {
            None => {
                let ghost piece = rest@;
                out.push(String::from_str(rest.as_str()));
                proof {
                    assert(split_on(rest@, sep@) =~= seq![piece]);
                    assert(string_views(out@) =~= before.push(piece));
                    assert(split_on(s@, sep@) =~= done + seq![piece]);
                }
                return out;
            },
            Some(i) => {
                proof {
                    lemma_first_unique(rest@, sep@, i as int);
                }
                let piece = substring(rest.as_str(), 0, i);
                let ghost pv = piece@;
                let next = substring(rest.as_str(), i + m, n);
                out.push(piece);
                proof {
                    assert(pv =~= rest@.take(i as int));
                    assert(next@ =~= rest@.skip(i + m));
                    assert(split_on(rest@, sep@) =~= seq![pv] + split_on(next@, sep@));
                    assert(string_views(out@) =~= before.push(pv));
                    assert(done + split_on(rest@, sep@) =~= (done + seq![pv]) + split_on(
                        next@,
                        sep@,
                    ));
                    done = done + seq![pv];
                }
                rest = next;
            },
        }
    }
}

} // verus!

verus! {

pub open spec fn digit_char(d: nat) -> char {
    seq!['0', '1', '2', '3', '4', '5', '6', '7', '8', '9'][d as int]
}

/// The decimal digits of `n`.
pub open spec fn decimal_of(n: nat) -> Seq<char>
    decreases n,
{
    if n < 10 {
        seq![digit_char(n)]
    } else {
        decimal_of(n / 10).push(digit_char(n % 10))
    }
}

/// `n` written in decimal.
pub fn decimal_string(n: usize) -> (r: String)
    ensures
        r@ == decimal_of(n as nat),
    decreases n,
{
    let digits = "0123456789";
    proof {
        reveal_strlit("0123456789");
        assert(digits@ =~= seq!['0', '1', '2', '3', '4', '5', '6', '7', '8', '9']);
    }
    let d = n % 10;
    let last = digits.substring_char(d, d + 1);
    assert(last@ =~= seq![digit_char(d as nat)]);
    if n < 10 {
        String::from_str(last)
    } else {
        let mut s = decimal_string(n / 10);
        s.append(last);
        s
    }
}

/// The pieces joined by line feeds.
pub open spec fn joined_lines(pieces: Seq<Seq<char>>) -> Seq<char>
    decreases pieces.len(),
{
    if pieces.len() == 0 {
        Seq::empty()
    } else if pieces.len() == 1 {
        pieces[0]
    } else {
        joined_lines(pieces.drop_last()) + "\n"@ + pieces.last()
    }
}

/// One `break` command for each of the first `n` breakpoint lines.
pub open spec fn break_commands(file_name: Seq<char>, lines: Seq<usize>, n: nat) -> Seq<char>
    decreases n,
{
    if n == 0 {
        Seq::empty()
    } else {
        break_commands(file_name, lines, (n - 1) as nat) + "break '"@ + file_name + "':"@
            + decimal_of(lines[n - 1] as nat) + "\n"@
    }
}

/// A gdb script for a test: the character set, the version banner, the pretty printers'
/// directory as a safe auto-load path (for gdb after 7.4) and as a source directory, the
/// executable, the Rust language where gdb knows it, a breakpoint for each marked line, the
/// test's commands, and `quit`.
pub open spec fn gdb_script_text(
    charset: Seq<char>,
    gdb_version: Option<u32>,
    pp_dir: Seq<char>,
    exe_file: Seq<char>,
    native_rust: bool,
    file_name: Seq<char>,
    breakpoints: Seq<usize>,
    commands: Seq<Seq<char>>,
) -> Seq<char> {
    "set charset "@ + charset + "\n"@ + "show version\n"@ + (if gdb_version matches Some(v) && v
        > 7004000 {
        "add-auto-load-safe-path "@ + crate::text::replaced(pp_dir, "\\"@, "\\\\"@) + "\n"@
    } else {
        Seq::empty()
    }) + "set print pretty off\n"@ + "directory "@ + pp_dir + "\n"@ + "file "@
        + crate::text::replaced(exe_file, "\\"@, "\\\\"@) + "\n"@ + (if native_rust {
        "set language rust\n"@
    } else {
        Seq::empty()
    }) + break_commands(file_name, breakpoints, breakpoints.len()) + joined_lines(commands)
        + "\nquit\n"@
}

fn join_lines(pieces: &Vec<String>) -> (r: String)
    ensures
        r@ == joined_lines(string_views(pieces@)),
{
    let ghost pv = string_views(pieces@);
    let mut out = String::new();
    let mut i: usize = 0;
    assert(pv.take(0) =~= Seq::<Seq<char>>::empty());
    while i < pieces.len()
        invariant
            i <= pieces@.len(),
            pv == string_views(pieces@),
            out@ == joined_lines(pv.take(i as int)),
        decreases pieces@.len() - i,
    {
        assert(pv.take(i + 1).drop_last() =~= pv.take(i as int));
        assert(pv[i as int] == pieces@[i as int]@);
        if i > 0 {
            out.append("\n");
        }
        out.append(pieces[i].as_str());
        proof {
            if i == 0 {
                assert(out@ =~= pv.take(1)[0]);
            } else {
                assert(out@ =~= joined_lines(pv.take(i as int)) + "\n"@ + pv[i as int]);
            }
        }
        i = i + 1;
    }
    assert(pv.take(pv.len() as int) =~= pv);
    out
}

/// The script that gdb runs for a debuginfo test.
pub fn gdb_script(
    charset: &str,
    gdb_version: Option<u32>,
    pp_dir: &str,
    exe_file: &str,
    native_rust: bool,
    file_name: &str,
    breakpoints: &Vec<usize>,
    commands: &Vec<String>,
) -> (r: String)
    ensures
        r@ == gdb_script_text(
            charset@,
            gdb_version,
            pp_dir@,
            exe_file@,
            native_rust,
            file_name@,
            breakpoints@,
            string_views(commands@),
        ),
{
    let mut s = String::from_str("set charset ");
    s.append(charset);
    s.append("\n");
    s.append("show version\n");
    let ghost s0 = s@;
    match gdb_version {
        Some(v) => {
            if v > 7004000 {
                s.append("add-auto-load-safe-path ");
                let escaped = crate::text::replace_str(pp_dir, "\\", "\\\\");
                s.append(escaped.as_str());
                s.append("\n");
            }
        },
        None => {},
    }
    let ghost s1 = s@;
    s.append("set print pretty off\n");
    s.append("directory ");
    s.append(pp_dir);
    s.append("\n");
    s.append("file ");
    let exe = crate::text::replace_str(exe_file, "\\", "\\\\");
    s.append(exe.as_str());
    s.append("\n");
    if native_rust {
        s.append("set language rust\n");
    }
    let ghost s2 = s@;
    let mut i: usize = 0;
    while i < breakpoints.len()
        invariant
            i <= breakpoints@.len(),
            s@ == s2 + break_commands(file_name@, breakpoints@, i as nat),
        decreases breakpoints@.len() - i,
    {
        s.append("break '");
        s.append(file_name);
        s.append("':");
        let n = decimal_string(breakpoints[i]);
        s.append(n.as_str());
        s.append("\n");
        i = i + 1;
    }
    let cmds = join_lines(commands);
    s.append(cmds.as_str());
    s.append("\nquit\n");
    proof {
        assert(s@ =~= gdb_script_text(
            charset@,
            gdb_version,
            pp_dir@,
            exe_file@,
            native_rust,
            file_name@,
            breakpoints@,
            string_views(commands@),
        ));
    }
    s
}

/// The character set that gdb is told to use on `os`: FreeBSD's old gdb knows no `auto`.
pub fn charset(os: &str) -> (r: &'static str)
    ensures
        os@ == "bitrig"@ ==> r@ == "auto"@,
        os@ != "bitrig"@ && os@ == "freebsd"@ ==> r@ == "ISO-8859-1"@,
        os@ != "bitrig"@ && os@ != "freebsd"@ ==> r@ == "UTF-8"@,
{
    if crate::text::str_eq(os, "bitrig") {
        "auto"
    } else if crate::text::str_eq(os, "freebsd") {
        "ISO-8859-1"
    } else {
        "UTF-8"
    }
}

} // verus!
