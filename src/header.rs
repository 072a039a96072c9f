//! Directives: the comment lines at the head of a test file that configure it.
use vstd::prelude::*;
use crate::common::{Config, Mode};
use crate::text::{
    CharClass, chars_of, contains, is_ws, lead_len, replace, replace_all, run_len, split_whitespace,
    starts_with, str_eq, str_starts_with, string_views, substring, trim, trim_start, trimmed,
    words_of, find, first_occurrence, digits_value, decimal_value,
};

verus! {

/// `line` starts with the word `directive`: what follows it is nothing, whitespace or `:`.
pub open spec fn name_directive(line: Seq<char>, directive: Seq<char>) -> bool {
    starts_with(line, directive) && (line.len() == directive.len() || is_ws(line[directive.len() as int])
        || line[directive.len() as int] == ':')
}

/// The placeholders of a directive's value replaced by the run's directories.
pub open spec fn expand(value: Seq<char>, config: Config) -> Seq<char> {
    replace_all(
        replace_all(replace_all(value, "{{cwd}}"@, config.cwd@), "{{src-base}}"@, config.src_base@),
        "{{build-base}}"@,
        config.build_base@,
    )
}

/// The value of `directive: value` on `line`, placeholders expanded.
pub open spec fn name_value(line: Seq<char>, directive: Seq<char>, config: Config) -> Option<
    Seq<char>,
> {
    if starts_with(line, directive) && line.len() > directive.len() && line[directive.len() as int]
        == ':' {
        Some(expand(line.skip(directive.len() as int + 1), config))
    } else {
        None
    }
}

pub open spec fn opt_view(o: Option<String>) -> Option<Seq<char>> {
    match o {
        Some(s) => Some(s@),
        None => None,
    }
}

/// The first piece of `s` before any `:` or space.
pub open spec fn cfg_name(s: Seq<char>) -> Seq<char> {
    s.take(lead_len(s, CharClass::NotColonOrSpace) as int)
}

/// The configuration named on `line` after `prefix-` applies to this run: the target's
/// operating system, architecture, pointer width or environment, the stage, `test`, the
/// debugger or pretty-printing of the mode, or `cross-compile` when target and host differ.
pub open spec fn cfg_name_directive(line: Seq<char>, prefix: Seq<char>, config: Config) -> bool {
    if starts_with(line, prefix) && line.len() > prefix.len() && line[prefix.len() as int] == '-' {
        let name = cfg_name(line.skip(prefix.len() as int + 1));
        name == "test"@ || name == config.target_os@ || name == config.target_arch@ || name
            == config.target_pointer_width@ || name == config.stage_id@.take(
            lead_len(config.stage_id@, CharClass::NotDash) as int,
        ) || (config.target_env matches Some(e) && name == e@) || (config.mode
            == Mode::DebugInfoGdb && name == "gdb"@) || (config.mode == Mode::DebugInfoLldb && name
            == "lldb"@) || (config.mode == Mode::Pretty && name == "pretty"@) || (config.target@
            != config.host@ && name == "cross-compile"@)
    } else {
        false
    }
}

/// `name` or `name=value`: the name and the value, empty when there is none.
pub open spec fn env_pair(nv: Seq<char>) -> (Seq<char>, Seq<char>) {
    let k = lead_len(nv, CharClass::NotEquals) as int;
    if k < nv.len() {
        (nv.take(k), nv.skip(k + 1))
    } else {
        (nv, Seq::empty())
    }
}

pub open spec fn env_directive(line: Seq<char>, name: Seq<char>, config: Config) -> Option<
    (Seq<char>, Seq<char>),
> {
    match name_value(line, name, config) {
        Some(nv) => Some(env_pair(nv)),
        None => None,
    }
}

/// The contents of the first `"..."` in `s`, and what follows its closing quote.
pub open spec fn quoted(s: Seq<char>) -> Option<(Seq<char>, Seq<char>)> {
    let b = lead_len(s, CharClass::NotQuote) as int;
    if b >= s.len() {
        None
    } else {
        let rest = s.skip(b + 1);
        let e = lead_len(rest, CharClass::NotQuote) as int;
        if e >= rest.len() {
            None
        } else {
            Some((rest.take(e), rest.skip(e + 1)))
        }
    }
}

pub open spec fn normalization_rule(line: Seq<char>, prefix: Seq<char>, config: Config) -> Option<
    (Seq<char>, Seq<char>),
> {
    if cfg_name_directive(line, prefix, config) {
        match quoted(line) {
            Some((from, rest)) => match quoted(rest) {
                Some((to, _)) => Some((from, to)),
                None => None,
            },
            None => None,
        }
    } else {
        None
    }
}

impl Config {
    /// Whether `line` is the directive `directive` as a whole word: `ignore-x86` does not
    /// match a line `ignore-x86_64`.
    pub fn parse_name_directive(&self, line: &str, directive: &str) -> (r: bool)
        ensures
            r == name_directive(line@, directive@),
    {
        let v = chars_of(line);
        let d = chars_of(directive);
        if !crate::text::occurs_at_exec(&v, &d, 0) {
            return false;
        }
        let n = d.len();
        n == v.len() || crate::text::is_whitespace(v[n]) || v[n] == ':'
    }

    /// The value of the directive `directive: value` on `line`, with `{{cwd}}`,
    /// `{{src-base}}` and `{{build-base}}` replaced by the run's directories.
    pub fn parse_name_value_directive(&self, line: &str, directive: &str) -> (r: Option<String>)
        ensures
            opt_view(r) == name_value(line@, directive@, *self),
    {
        let v = chars_of(line);
        let d = chars_of(directive);
        if !crate::text::occurs_at_exec(&v, &d, 0) {
            return None;
        }
        let n = d.len();
        if n < v.len() && v[n] == ':' {
            let value = substring(line, n + 1, v.len());
            assert(value@ =~= line@.skip(n + 1));
            Some(self.expand_variables(&value))
        } else {
            None
        }
    }

    pub fn expand_variables(&self, value: &String) -> (r: String)
        ensures
            r@ == expand(value@, *self),
    {
        proof {
            reveal_strlit("{{cwd}}");
            reveal_strlit("{{src-base}}");
            reveal_strlit("{{build-base}}");
        }
        let a = replace(value.as_str(), "{{cwd}}", self.cwd.as_str());
        let b = replace(a.as_str(), "{{src-base}}", self.src_base.as_str());
        replace(b.as_str(), "{{build-base}}", self.build_base.as_str())
    }

    /// Whether the configuration named on `line` after `prefix-` (as in `ignore-windows` or
    /// `normalize-stderr-32bit`) applies to this run.
    pub fn parse_cfg_name_directive(&self, line: &str, prefix: &str) -> (r: bool)
        ensures
            r == cfg_name_directive(line@, prefix@, *self),
    {
        let v = chars_of(line);
        let p = chars_of(prefix);
        if !crate::text::occurs_at_exec(&v, &p, 0) {
            return false;
        }
        let n = p.len();
        if !(n < v.len() && v[n] == '-') {
            return false;
        }
        let k = run_len(&v, n + 1, CharClass::NotColonOrSpace);
        let name = substring(line, n + 1, n + 1 + k);
        assert(name@ =~= cfg_name(line@.skip(n + 1)));
        let sv = chars_of(self.stage_id.as_str());
        let sk = run_len(&sv, 0, CharClass::NotDash);
        assert(sv@.skip(0) =~= sv@);
        let stage = substring(self.stage_id.as_str(), 0, sk);
        assert(stage@ =~= self.stage_id@.take(sk as int));
        let nm = name.as_str();
        let env_match = match &self.target_env {
            Some(e) => str_eq(nm, e.as_str()),
            None => false,
        };
        str_eq(nm, "test") || str_eq(nm, self.target_os.as_str()) || str_eq(
            nm,
            self.target_arch.as_str(),
        ) || str_eq(nm, self.target_pointer_width.as_str()) || str_eq(nm, stage.as_str())
            || env_match || (self.mode == Mode::DebugInfoGdb && str_eq(nm, "gdb")) || (self.mode
            == Mode::DebugInfoLldb && str_eq(nm, "lldb")) || (self.mode == Mode::Pretty && str_eq(
            nm,
            "pretty",
        )) || (!str_eq(self.target.as_str(), self.host.as_str()) && str_eq(nm, "cross-compile"))
    }

    /// `name: NAME` or `name: NAME=VALUE`, as a pair; the value is empty when absent.
    pub fn parse_env(&self, line: &str, name: &str) -> (r: Option<(String, String)>)
        ensures
            match r {
                Some((k, v)) => env_directive(line@, name@, *self) == Some((k@, v@)),
                None => env_directive(line@, name@, *self) is None,
            },
    {
        match self.parse_name_value_directive(line, name) {
            None => None,
            Some(nv) => {
                let v = chars_of(nv.as_str());
                let k = run_len(&v, 0, CharClass::NotEquals);
                assert(v@.skip(0) =~= v@);
                if k < v.len() {
                    let key = substring(nv.as_str(), 0, k);
                    let val = substring(nv.as_str(), k + 1, v.len());
                    assert(val@ =~= nv@.skip(k + 1));
                    Some((key, val))
                } else {
                    Some((nv, String::new()))
                }
            },
        }
    }

    /// A rule `prefix-cfg: "from" -> "to"` whose configuration applies to this run.
    pub fn parse_custom_normalization(&self, line: &str, prefix: &str) -> (r: Option<
        (String, String),
    >)
        ensures
            match r {
                Some((f, t)) => normalization_rule(line@, prefix@, *self) == Some((f@, t@)),
                None => normalization_rule(line@, prefix@, *self) is None,
            },
    {
        if !self.parse_cfg_name_directive(line, prefix) {
            return None;
        }
        let mut rest: &str = line;
        let from = match parse_normalization_string(&mut rest) {
            Some(s) => s,
            None => return None,
        };
        let to = match parse_normalization_string(&mut rest) {
            Some(s) => s,
            None => return None,
        };
        Some((from, to))
    }
}

/// Finds the next quoted string `"..."` in `line` and returns its contents; `line` is moved
/// past the closing quote.
pub fn parse_normalization_string(line: &mut &str) -> (r: Option<String>)
    ensures
        match quoted(old(line)@) {
            Some((q, rest)) => r matches Some(s) && s@ == q && final(line)@ == rest,
            None => r is None && final(line)@ == old(line)@,
        },
{
    let l: &str = *line;
    let v = chars_of(l);
    let b = run_len(&v, 0, CharClass::NotQuote);
    assert(v@.skip(0) =~= v@);
    if b >= v.len() {
        return None;
    }
    let e = run_len(&v, b + 1, CharClass::NotQuote);
    if b + 1 + e >= v.len() {
        return None;
    }
    let result = substring(l, b + 1, b + 1 + e);
    assert(result@ =~= v@.skip(b + 1).take(e as int));
    *line = l.substring_char(b + 1 + e + 1, v.len());
    assert(v@.skip(b + 1).skip(e + 1) =~= v@.subrange(b + 1 + e + 1, v@.len() as int));
    Some(result)
}

} // verus!

verus! {

/// Why the head of a test file cannot be read.
#[derive(Clone, Copy, PartialEq, Eq, Structural, Debug)]
pub enum HeaderError {
    /// A line starts with `//[` and has no `]`.
    MalformedCondition,
}

/// What one line of a file's head is: where the head ends, a line to pass over, or a
/// directive with the comment marker taken off.
pub enum HeaderLine {
    End,
    Other,
    Directive(String),
}

pub ghost enum HeaderStep {
    End,
    Other,
    Directive(Seq<char>),
}

/// The head ends at the first line that starts a function or a module. `//[rev] text` is a
/// directive only when reading revision `rev`; `// text` always is.
pub open spec fn header_step(ln: Seq<char>, cfg: Option<Seq<char>>) -> Result<
    HeaderStep,
    HeaderError,
> {
    let t = trim(ln);
    if starts_with(t, "fn"@) || starts_with(t, "mod"@) {
        Ok(HeaderStep::End)
    } else if starts_with(t, "//["@) {
        let c = 3 + lead_len(t.skip(3), CharClass::NotCloseBracket) as int;
        if c >= t.len() {
            Err(HeaderError::MalformedCondition)
        } else if cfg == Some(t.subrange(3, c)) {
            Ok(HeaderStep::Directive(trim_start(t.skip(c + 1))))
        } else {
            Ok(HeaderStep::Other)
        }
    } else if starts_with(t, "//"@) {
        Ok(HeaderStep::Directive(trim_start(t.skip(2))))
    } else {
        Ok(HeaderStep::Other)
    }
}

pub open spec fn cfg_view(cfg: Option<&str>) -> Option<Seq<char>> {
    match cfg {
        Some(s) => Some(s@),
        None => None,
    }
}

/// Reads one line of a file's head for revision `cfg`, or for no revision.
pub fn header_line(ln: &str, cfg: Option<&str>) -> (r: Result<HeaderLine, HeaderError>)
    ensures
        match r {
            Ok(HeaderLine::End) => header_step(ln@, cfg_view(cfg)) == Ok::<
                HeaderStep,
                HeaderError,
            >(HeaderStep::End),
            Ok(HeaderLine::Other) => header_step(ln@, cfg_view(cfg)) == Ok::<
                HeaderStep,
                HeaderError,
            >(HeaderStep::Other),
            Ok(HeaderLine::Directive(d)) => header_step(ln@, cfg_view(cfg)) == Ok::<
                HeaderStep,
                HeaderError,
            >(HeaderStep::Directive(d@)),
            Err(e) => header_step(ln@, cfg_view(cfg)) == Err::<HeaderStep, HeaderError>(e),
        },
{
    let t = trimmed(ln);
    let ts = t.as_str();
    if str_starts_with(ts, "fn") || str_starts_with(ts, "mod") {
        return Ok(HeaderLine::End);
    }
    let v = chars_of(ts);
    if str_starts_with(ts, "//[") {
        proof {
            reveal_strlit("//[");
        }
        assert(v@.len() >= 3);
        let c = 3 + run_len(&v, 3, CharClass::NotCloseBracket);
        if c >= v.len() {
            return Err(HeaderError::MalformedCondition);
        }
        let lncfg = substring(ts, 3, c);
        let matches = match cfg {
            Some(s) => str_eq(s, lncfg.as_str()),
            None => false,
        };
        if matches {
            let d = trimmed_start(ts, &v, c + 1);
            Ok(HeaderLine::Directive(d))
        } else {
            Ok(HeaderLine::Other)
        }
    } else if str_starts_with(ts, "//") {
        proof {
            reveal_strlit("//");
        }
        let d = trimmed_start(ts, &v, 2);
        Ok(HeaderLine::Directive(d))
    } else {
        Ok(HeaderLine::Other)
    }
}

fn trimmed_start(s: &str, v: &Vec<char>, from: usize) -> (r: String)
    requires
        v@ == s@,
        from <= v@.len(),
    ensures
        r@ == trim_start(s@.skip(from as int)),
{
    let k = run_len(v, from, CharClass::Whitespace);
    let r = substring(s, from + k, v.len());
    assert(r@ =~= trim_start(s@.skip(from as int)));
    r
}

/// The directives of the head of a file, up to the line where it ends.
pub open spec fn header_upto(lines: Seq<Seq<char>>, cfg: Option<Seq<char>>, n: nat) -> Result<
    (Seq<Seq<char>>, bool),
    HeaderError,
>
    decreases n,
{
    if n == 0 {
        Ok((Seq::empty(), false))
    } else {
        match header_upto(lines, cfg, (n - 1) as nat) {
            Err(e) => Err(e),
            Ok((ds, true)) => Ok((ds, true)),
            Ok((ds, false)) => match header_step(lines[n - 1], cfg) {
                Err(e) => Err(e),
                Ok(HeaderStep::End) => Ok((ds, true)),
                Ok(HeaderStep::Other) => Ok((ds, false)),
                Ok(HeaderStep::Directive(d)) => Ok((ds.push(d), false)),
            },
        }
    }
}

pub open spec fn header_directives(lines: Seq<Seq<char>>, cfg: Option<Seq<char>>) -> Result<
    Seq<Seq<char>>,
    HeaderError,
> {
    match header_upto(lines, cfg, lines.len()) {
        Ok((ds, _)) => Ok(ds),
        Err(e) => Err(e),
    }
}

proof fn lemma_header_settled(
    lines: Seq<Seq<char>>,
    cfg: Option<Seq<char>>,
    m: nat,
    n: nat,
)
    requires
        m <= n,
        header_upto(lines, cfg, m) is Err || (header_upto(lines, cfg, m) matches Ok((_, stop))
            && stop),
    ensures
        header_upto(lines, cfg, n) == header_upto(lines, cfg, m),
    decreases n - m,
{
    if m < n {
        lemma_header_settled(lines, cfg, m, (n - 1) as nat);
    }
}

/// The directives in the head of a file with these lines, read for revision `cfg` (or for
/// none).
pub fn header_directives_of(lines: &Vec<String>, cfg: Option<&str>) -> (r: Result<
    Vec<String>,
    HeaderError,
>)
    ensures
        match r {
            Ok(ds) => header_directives(string_views(lines@), cfg_view(cfg)) == Ok::<
                Seq<Seq<char>>,
                HeaderError,
            >(string_views(ds@)),
            Err(e) => header_directives(string_views(lines@), cfg_view(cfg)) == Err::<
                Seq<Seq<char>>,
                HeaderError,
            >(e),
        },
{
    let ghost lv = string_views(lines@);
    let mut out: Vec<String> = Vec::new();
    let mut i: usize = 0;
    assert(string_views(out@) =~= Seq::<Seq<char>>::empty());
    while i < lines.len()
        invariant
            i <= lines@.len(),
            lv == string_views(lines@),
            header_upto(lv, cfg_view(cfg), i as nat) == Ok::<(Seq<Seq<char>>, bool), HeaderError>(
                (string_views(out@), false),
            ),
        decreases lines@.len() - i,
    {
        assert(lv[i as int] == lines@[i as int]@);
        match header_line(lines[i].as_str(), cfg) {
            Err(e) => {
                proof {
                    lemma_header_settled(lv, cfg_view(cfg), (i + 1) as nat, lv.len());
                }
                return Err(e);
            },
            Ok(HeaderLine::End) => {
                proof {
                    lemma_header_settled(lv, cfg_view(cfg), (i + 1) as nat, lv.len());
                }
                return Ok(out);
            },
            Ok(HeaderLine::Other) => {},
            Ok(HeaderLine::Directive(d)) => {
                let ghost prev = out@;
                let ghost dv = d@;
                out.push(d);
                assert(string_views(out@) =~= string_views(prev).push(dv));
            },
        }
        i = i + 1;
    }
    Ok(out)
}

} // verus!

verus! {

/// What `Path::file_name` makes of a path.
pub uninterp spec fn file_name_of(path: Seq<char>) -> Option<Seq<char>>;

/// Relies on `std::path::Path::file_name`: the last component of a path, where it is a
/// normal one.
#[verifier::external_body]
fn file_name(path: &str) -> (r: Option<String>)
    ensures
        opt_view(r) == file_name_of(path@),
{
    match std::path::Path::new(path).file_name() {
        Some(n) => Some(n.to_string_lossy().into_owned()),
        None => None,
    }
}

pub open spec fn pair_views(v: Seq<(String, String)>) -> Seq<(Seq<char>, Seq<char>)> {
    v.map_values(|p: (String, String)| (p.0@, p.1@))
}

pub open spec fn opt_seq<T>(o: Option<T>) -> Seq<T> {
    match o {
        Some(x) => seq![x],
        None => Seq::empty(),
    }
}

/// The properties of a test, as its directives set them.
#[derive(Debug)]
pub struct TestProps {
    /// Lines that must appear, in order, in the output.
    pub error_patterns: Vec<String>,
    /// Extra flags for the compiler.
    pub compile_flags: Vec<String>,
    /// Extra flags for the compiled program.
    pub run_flags: Option<String>,
    /// The file that the pretty-printed source must equal.
    pub pp_exact: Option<String>,
    /// Crates to build before the test.
    pub aux_builds: Vec<String>,
    /// Environment of the compiler.
    pub rustc_env: Vec<(String, String)>,
    /// Environment of the compiled program.
    pub exec_env: Vec<(String, String)>,
    /// Lines to look for in a debugger's output.
    pub check_lines: Vec<String>,
    /// Document the auxiliary crates too.
    pub build_aux_docs: bool,
    /// Build for the host rather than the target.
    pub force_host: bool,
    /// Look for error patterns in standard output too.
    pub check_stdout: bool,
    /// Do not ask for a dynamic library.
    pub no_prefer_dynamic: bool,
    /// Pretty-print with macros expanded.
    pub pretty_expanded: bool,
    /// How to pretty-print; `normal` unless a directive says otherwise.
    pub pretty_mode: String,
    /// Whether a `pretty-mode` directive has been read.
    pub pretty_mode_set: bool,
    /// Only compare the pretty-printed source, do not compile it.
    pub pretty_compare_only: bool,
    /// Patterns that must not appear in the output.
    pub forbid_output: Vec<String>,
    /// Revisions of the test.
    pub revisions: Vec<String>,
    /// The directory of incremental state; set by the harness, never by a directive.
    pub incremental_dir: Option<String>,
    /// A test that must compile without errors.
    pub must_compile_successfully: bool,
    /// Check the line numbers of `rustdoc --test`.
    pub check_test_line_numbers_match: bool,
    /// The test must compile and run successfully.
    pub run_pass: bool,
    /// Rewrites of the standard output and error before comparison.
    pub normalize_stdout: Vec<(String, String)>,
    pub normalize_stderr: Vec<(String, String)>,
}

pub ghost struct PropsView {
    pub error_patterns: Seq<Seq<char>>,
    pub compile_flags: Seq<Seq<char>>,
    pub run_flags: Option<Seq<char>>,
    pub pp_exact: Option<Seq<char>>,
    pub aux_builds: Seq<Seq<char>>,
    pub rustc_env: Seq<(Seq<char>, Seq<char>)>,
    pub exec_env: Seq<(Seq<char>, Seq<char>)>,
    pub check_lines: Seq<Seq<char>>,
    pub build_aux_docs: bool,
    pub force_host: bool,
    pub check_stdout: bool,
    pub no_prefer_dynamic: bool,
    pub pretty_expanded: bool,
    pub pretty_mode: Seq<char>,
    pub pretty_mode_set: bool,
    pub pretty_compare_only: bool,
    pub forbid_output: Seq<Seq<char>>,
    pub revisions: Seq<Seq<char>>,
    pub incremental_dir: Option<Seq<char>>,
    pub must_compile_successfully: bool,
    pub check_test_line_numbers_match: bool,
    pub run_pass: bool,
    pub normalize_stdout: Seq<(Seq<char>, Seq<char>)>,
    pub normalize_stderr: Seq<(Seq<char>, Seq<char>)>,
}

impl View for TestProps {
    type V = PropsView;

    open spec fn view(&self) -> PropsView {
        PropsView {
            error_patterns: string_views(self.error_patterns@),
            compile_flags: string_views(self.compile_flags@),
            run_flags: opt_view(self.run_flags),
            pp_exact: opt_view(self.pp_exact),
            aux_builds: string_views(self.aux_builds@),
            rustc_env: pair_views(self.rustc_env@),
            exec_env: pair_views(self.exec_env@),
            check_lines: string_views(self.check_lines@),
            build_aux_docs: self.build_aux_docs,
            force_host: self.force_host,
            check_stdout: self.check_stdout,
            no_prefer_dynamic: self.no_prefer_dynamic,
            pretty_expanded: self.pretty_expanded,
            pretty_mode: self.pretty_mode@,
            pretty_mode_set: self.pretty_mode_set,
            pretty_compare_only: self.pretty_compare_only,
            forbid_output: string_views(self.forbid_output@),
            revisions: string_views(self.revisions@),
            incremental_dir: opt_view(self.incremental_dir),
            must_compile_successfully: self.must_compile_successfully,
            check_test_line_numbers_match: self.check_test_line_numbers_match,
            run_pass: self.run_pass,
            normalize_stdout: pair_views(self.normalize_stdout@),
            normalize_stderr: pair_views(self.normalize_stderr@),
        }
    }
}

pub open spec fn default_props() -> PropsView {
    PropsView {
        error_patterns: Seq::empty(),
        compile_flags: Seq::empty(),
        run_flags: None,
        pp_exact: None,
        aux_builds: Seq::empty(),
        rustc_env: Seq::empty(),
        exec_env: Seq::empty(),
        check_lines: Seq::empty(),
        build_aux_docs: false,
        force_host: false,
        check_stdout: false,
        no_prefer_dynamic: false,
        pretty_expanded: false,
        pretty_mode: "normal"@,
        pretty_mode_set: false,
        pretty_compare_only: false,
        forbid_output: Seq::empty(),
        revisions: Seq::empty(),
        incremental_dir: None,
        must_compile_successfully: false,
        check_test_line_numbers_match: false,
        run_pass: false,
        normalize_stdout: Seq::empty(),
        normalize_stderr: Seq::empty(),
    }
}

pub open spec fn pp_exact_of(ln: Seq<char>, testfile: Seq<char>, config: Config) -> Option<
    Seq<char>,
> {
    match name_value(ln, "pp-exact"@, config) {
        Some(v) => Some(v),
        None => if name_directive(ln, "pp-exact"@) {
            file_name_of(testfile)
        } else {
            None
        },
    }
}

pub open spec fn flag_words(o: Option<Seq<char>>) -> Seq<Seq<char>> {
    match o {
        Some(v) => words_of(v),
        None => Seq::empty(),
    }
}

/// One directive read into the properties. List-valued directives add to their list; the
/// others are set by their first occurrence and keep that value.
pub open spec fn apply_directive(
    p: PropsView,
    ln: Seq<char>,
    testfile: Seq<char>,
    config: Config,
) -> PropsView {
    PropsView {
        error_patterns: p.error_patterns + opt_seq(name_value(ln, "error-pattern"@, config)),
        compile_flags: p.compile_flags + flag_words(name_value(ln, "compile-flags"@, config)),
        run_flags: if p.run_flags is Some {
            p.run_flags
        } else {
            name_value(ln, "run-flags"@, config)
        },
        pp_exact: if p.pp_exact is Some {
            p.pp_exact
        } else {
            pp_exact_of(ln, testfile, config)
        },
        aux_builds: p.aux_builds + opt_seq(name_value(ln, "aux-build"@, config)),
        rustc_env: p.rustc_env + opt_seq(env_directive(ln, "rustc-env"@, config)),
        exec_env: p.exec_env + opt_seq(env_directive(ln, "exec-env"@, config)),
        check_lines: p.check_lines + opt_seq(name_value(ln, "check"@, config)),
        build_aux_docs: p.build_aux_docs || name_directive(ln, "build-aux-docs"@),
        force_host: p.force_host || name_directive(ln, "force-host"@),
        check_stdout: p.check_stdout || name_directive(ln, "check-stdout"@),
        no_prefer_dynamic: p.no_prefer_dynamic || name_directive(ln, "no-prefer-dynamic"@),
        pretty_expanded: p.pretty_expanded || name_directive(ln, "pretty-expanded"@),
        pretty_mode: if !p.pretty_mode_set && name_value(ln, "pretty-mode"@, config) is Some {
            name_value(ln, "pretty-mode"@, config)->0
        } else {
            p.pretty_mode
        },
        pretty_mode_set: p.pretty_mode_set || name_value(ln, "pretty-mode"@, config) is Some,
        pretty_compare_only: p.pretty_compare_only || name_directive(ln, "pretty-compare-only"@),
        forbid_output: p.forbid_output + opt_seq(name_value(ln, "forbid-output"@, config)),
        revisions: p.revisions + flag_words(name_value(ln, "revisions"@, config)),
        incremental_dir: p.incremental_dir,
        must_compile_successfully: p.must_compile_successfully || name_directive(
            ln,
            "must-compile-successfully"@,
        ),
        check_test_line_numbers_match: p.check_test_line_numbers_match || name_directive(
            ln,
            "check-test-line-numbers-match"@,
        ),
        run_pass: p.run_pass || name_directive(ln, "run-pass"@),
        normalize_stdout: p.normalize_stdout + opt_seq(
            normalization_rule(ln, "normalize-stdout"@, config),
        ),
        normalize_stderr: p.normalize_stderr + opt_seq(
            normalization_rule(ln, "normalize-stderr"@, config),
        ),
    }
}

/// The properties after reading the first `n` directives.
pub open spec fn apply_all(
    p: PropsView,
    ds: Seq<Seq<char>>,
    n: nat,
    testfile: Seq<char>,
    config: Config,
) -> PropsView
    decreases n,
{
    if n == 0 {
        p
    } else {
        apply_directive(apply_all(p, ds, (n - 1) as nat, testfile, config), ds[n - 1], testfile, config)
    }
}

fn push_opt(v: &mut Vec<String>, o: Option<String>)
    ensures
        string_views(final(v)@) == string_views(old(v)@) + opt_seq(opt_view(o)),
{
    let ghost prev = v@;
    match o {
        Some(s) => {
            let ghost sv = s@;
            v.push(s);
            assert(string_views(v@) =~= string_views(prev) + seq![sv]);
        },
        None => {
            assert(string_views(v@) =~= string_views(prev) + Seq::<Seq<char>>::empty());
        },
    }
}

fn push_opt_pair(v: &mut Vec<(String, String)>, o: Option<(String, String)>, ghost_o: Ghost<
    Option<(Seq<char>, Seq<char>)>,
>)
    requires
        match o {
            Some((a, b)) => ghost_o@ == Some((a@, b@)),
            None => ghost_o@ is None,
        },
    ensures
        pair_views(final(v)@) == pair_views(old(v)@) + opt_seq(ghost_o@),
{
    let ghost prev = v@;
    match o {
        Some((a, b)) => {
            let ghost av = a@;
            let ghost bv = b@;
            v.push((a, b));
            assert(pair_views(v@) =~= pair_views(prev) + seq![(av, bv)]);
        },
        None => {
            assert(pair_views(v@) =~= pair_views(prev) + Seq::<(Seq<char>, Seq<char>)>::empty());
        },
    }
}

fn extend_words(v: &mut Vec<String>, o: Option<String>)
    ensures
        string_views(final(v)@) == string_views(old(v)@) + flag_words(opt_view(o)),
{
    match o {
        Some(s) => {
            let ws = split_whitespace(s.as_str());
            let ghost prev = v@;
            let mut i: usize = 0;
            while i < ws.len()
                invariant
                    i <= ws@.len(),
                    string_views(v@) == string_views(prev) + string_views(ws@).take(i as int),
                decreases ws@.len() - i,
            {
                let ghost before = v@;
                let w = String::from_str(ws[i].as_str());
                v.push(w);
                assert(string_views(ws@).take(i + 1) =~= string_views(ws@).take(i as int).push(
                    ws@[i as int]@,
                ));
                assert(string_views(v@) =~= string_views(before).push(ws@[i as int]@));
                i = i + 1;
            }
            assert(string_views(ws@).take(ws@.len() as int) =~= string_views(ws@));
        },
        None => {
            assert(string_views(v@) =~= string_views(v@) + Seq::<Seq<char>>::empty());
        },
    }
}

} // verus!

verus! {

impl TestProps {
    pub fn new() -> (r: TestProps)
        ensures
            r@ == default_props(),
    {
        let r = TestProps {
            error_patterns: Vec::new(),
            compile_flags: Vec::new(),
            run_flags: None,
            pp_exact: None,
            aux_builds: Vec::new(),
            rustc_env: Vec::new(),
            exec_env: Vec::new(),
            check_lines: Vec::new(),
            build_aux_docs: false,
            force_host: false,
            check_stdout: false,
            no_prefer_dynamic: false,
            pretty_expanded: false,
            pretty_mode: String::from_str("normal"),
            pretty_mode_set: false,
            pretty_compare_only: false,
            forbid_output: Vec::new(),
            revisions: Vec::new(),
            incremental_dir: None,
            must_compile_successfully: false,
            check_test_line_numbers_match: false,
            run_pass: false,
            normalize_stdout: Vec::new(),
            normalize_stderr: Vec::new(),
        };
        assert(string_views(r.error_patterns@) =~= Seq::<Seq<char>>::empty());
        assert(string_views(r.compile_flags@) =~= Seq::<Seq<char>>::empty());
        assert(string_views(r.aux_builds@) =~= Seq::<Seq<char>>::empty());
        assert(string_views(r.check_lines@) =~= Seq::<Seq<char>>::empty());
        assert(string_views(r.forbid_output@) =~= Seq::<Seq<char>>::empty());
        assert(string_views(r.revisions@) =~= Seq::<Seq<char>>::empty());
        assert(pair_views(r.rustc_env@) =~= Seq::<(Seq<char>, Seq<char>)>::empty());
        assert(pair_views(r.exec_env@) =~= Seq::<(Seq<char>, Seq<char>)>::empty());
        assert(pair_views(r.normalize_stdout@) =~= Seq::<(Seq<char>, Seq<char>)>::empty());
        assert(pair_views(r.normalize_stderr@) =~= Seq::<(Seq<char>, Seq<char>)>::empty());
        assert(r@ =~= default_props());
        r
    }

    fn parse_pp_exact(config: &Config, ln: &str, testfile: &str) -> (r: Option<String>)
        ensures
            opt_view(r) == pp_exact_of(ln@, testfile@, *config),
    {
        match config.parse_name_value_directive(ln, "pp-exact") {
            Some(v) => Some(v),
            None => if config.parse_name_directive(ln, "pp-exact") {
                file_name(testfile)
            } else {
                None
            },
        }
    }

    /// Reads one directive, `ln`, of the test file `testfile`.
    #[verifier::rlimit(100)]
    #[verifier::spinoff_prover]
    pub fn apply_directive(&mut self, ln: &str, testfile: &str, config: &Config)
        ensures
            final(self)@ == apply_directive(old(self)@, ln@, testfile@, *config),
    {
        let ghost p = self@;
        push_opt(&mut self.error_patterns, config.parse_name_value_directive(ln, "error-pattern"));
        extend_words(&mut self.compile_flags, config.parse_name_value_directive(ln, "compile-flags"));
        if self.run_flags.is_none() {
            self.run_flags = config.parse_name_value_directive(ln, "run-flags");
        }
        if self.pp_exact.is_none() {
            self.pp_exact = Self::parse_pp_exact(config, ln, testfile);
        }
        push_opt(&mut self.aux_builds, config.parse_name_value_directive(ln, "aux-build"));
        let re = config.parse_env(ln, "rustc-env");
        push_opt_pair(&mut self.rustc_env, re, Ghost(env_directive(ln@, "rustc-env"@, *config)));
        let ee = config.parse_env(ln, "exec-env");
        push_opt_pair(&mut self.exec_env, ee, Ghost(env_directive(ln@, "exec-env"@, *config)));
        push_opt(&mut self.check_lines, config.parse_name_value_directive(ln, "check"));
        if !self.build_aux_docs {
            self.build_aux_docs = config.parse_name_directive(ln, "build-aux-docs");
        }
        if !self.force_host {
            self.force_host = config.parse_name_directive(ln, "force-host");
        }
        if !self.check_stdout {
            self.check_stdout = config.parse_name_directive(ln, "check-stdout");
        }
        if !self.no_prefer_dynamic {
            self.no_prefer_dynamic = config.parse_name_directive(ln, "no-prefer-dynamic");
        }
        if !self.pretty_expanded {
            self.pretty_expanded = config.parse_name_directive(ln, "pretty-expanded");
        }
        if !self.pretty_mode_set {
            match config.parse_name_value_directive(ln, "pretty-mode") {
                Some(m) => {
                    self.pretty_mode = m;
                    self.pretty_mode_set = true;
                },
                None => {},
            }
        }
        if !self.pretty_compare_only {
            self.pretty_compare_only = config.parse_name_directive(ln, "pretty-compare-only");
        }
        push_opt(&mut self.forbid_output, config.parse_name_value_directive(ln, "forbid-output"));
        extend_words(&mut self.revisions, config.parse_name_value_directive(ln, "revisions"));
        if !self.must_compile_successfully {
            self.must_compile_successfully = config.parse_name_directive(
                ln,
                "must-compile-successfully",
            );
        }
        if !self.check_test_line_numbers_match {
            self.check_test_line_numbers_match = config.parse_name_directive(
                ln,
                "check-test-line-numbers-match",
            );
        }
        if !self.run_pass {
            self.run_pass = config.parse_name_directive(ln, "run-pass");
        }
        let so = config.parse_custom_normalization(ln, "normalize-stdout");
        push_opt_pair(
            &mut self.normalize_stdout,
            so,
            Ghost(normalization_rule(ln@, "normalize-stdout"@, *config)),
        );
        let se = config.parse_custom_normalization(ln, "normalize-stderr");
        push_opt_pair(
            &mut self.normalize_stderr,
            se,
            Ghost(normalization_rule(ln@, "normalize-stderr"@, *config)),
        );
        assert(self@ =~= apply_directive(p, ln@, testfile@, *config));
    }

    /// Reads the directives of the test file `testfile`, whose lines are `lines`, for revision
    /// `cfg` (or for none) into these properties. A directive `//[rev]` applies only when
    /// reading revision `rev`.
    pub fn load_from(&mut self, lines: &Vec<String>, testfile: &str, cfg: Option<&str>, config: &Config) -> (r:
        Result<(), HeaderError>)
        ensures
            match header_directives(string_views(lines@), cfg_view(cfg)) {
                Ok(ds) => r is Ok && final(self)@ == apply_all(
                    old(self)@,
                    ds,
                    ds.len(),
                    testfile@,
                    *config,
                ),
                Err(e) => r == Err::<(), HeaderError>(e) && final(self)@ == old(self)@,
            },
    {
        let ds = match header_directives_of(lines, cfg) {
            Ok(ds) => ds,
            Err(e) => return Err(e),
        };
        let ghost p0 = self@;
        let ghost dv = string_views(ds@);
        let mut i: usize = 0;
        while i < ds.len()
            invariant
                i <= ds@.len(),
                dv == string_views(ds@),
                self@ == apply_all(p0, dv, i as nat, testfile@, *config),
            decreases ds@.len() - i,
        {
            assert(dv[i as int] == ds@[i as int]@);
            self.apply_directive(ds[i].as_str(), testfile, config);
            i = i + 1;
        }
        Ok(())
    }

    /// The properties that the test file `testfile`, whose lines are `lines`, declares.
    pub fn from_file(lines: &Vec<String>, testfile: &str, config: &Config) -> (r: Result<
        TestProps,
        HeaderError,
    >)
        ensures
            match header_directives(string_views(lines@), None) {
                Ok(ds) => r matches Ok(p) && p@ == apply_all(
                    default_props(),
                    ds,
                    ds.len(),
                    testfile@,
                    *config,
                ),
                Err(e) => r matches Err(x) && x == e,
            },
    {
        let mut props = TestProps::new();
        match props.load_from(lines, testfile, None, config) {
            Ok(()) => Ok(props),
            Err(e) => Err(e),
        }
    }

    /// The properties of an auxiliary crate built for this test: its own directives, and
    /// only the incremental directory of this test.
    pub fn from_aux_file(&self, lines: &Vec<String>, testfile: &str, cfg: Option<&str>, config: &Config) -> (r:
        Result<TestProps, HeaderError>)
        ensures
            match header_directives(string_views(lines@), cfg_view(cfg)) {
                Ok(ds) => r matches Ok(p) && p@ == apply_all(
                    PropsView { incremental_dir: self@.incremental_dir, ..default_props() },
                    ds,
                    ds.len(),
                    testfile@,
                    *config,
                ),
                Err(e) => r matches Err(x) && x == e,
            },
    {
        let mut props = TestProps::new();
        props.incremental_dir = match &self.incremental_dir {
            Some(d) => Some(String::from_str(d.as_str())),
            None => None,
        };
        assert(props@ =~= PropsView { incremental_dir: self@.incremental_dir, ..default_props() });
        match props.load_from(lines, testfile, cfg, config) {
            Ok(()) => Ok(props),
            Err(e) => Err(e),
        }
    }
}

} // verus!

verus! {

/// `s` is what `isize::from_str` accepts: an optional sign and at least one digit, in range.
pub open spec fn int_text(s: Seq<char>) -> bool {
    let d = if s.len() > 0 && (s[0] == '+' || s[0] == '-') {
        s.skip(1)
    } else {
        s
    };
    d.len() > 0 && crate::text::all_digits(d) && isize::MIN <= int_value(s) <= isize::MAX
}

pub open spec fn int_value(s: Seq<char>) -> int {
    if s.len() > 0 && s[0] == '-' {
        -digits_value(s.skip(1))
    } else if s.len() > 0 && s[0] == '+' {
        digits_value(s.skip(1)) as int
    } else {
        digits_value(s) as int
    }
}

fn all_digits_exec(v: &Vec<char>, from: usize) -> (r: bool)
    requires
        from <= v@.len(),
    ensures
        r == crate::text::all_digits(v@.skip(from as int)),
{
    let n = run_len(v, from, CharClass::Digit);
    proof {
        let d = v@.skip(from as int);
        crate::text::lemma_lead_stop(d, CharClass::Digit);
        if n == d.len() {
            assert forall|i: int| 0 <= i < d.len() implies crate::text::is_digit(#[trigger] d[i]) by {
                crate::text::lemma_lead_prefix(d, CharClass::Digit, i);
            }
        }
    }
    from + n == v.len()
}

/// The integer that `s` spells, where it is one.
pub fn parse_int(s: &str) -> (r: Option<isize>)
    ensures
        r is Some <==> int_text(s@),
        r matches Some(x) ==> x == int_value(s@),
{
    let v = chars_of(s);
    if v.len() == 0 {
        return None;
    }
    let neg = v[0] == '-';
    let from: usize = if v[0] == '+' || v[0] == '-' {
        1
    } else {
        0
    };
    assert(v@.skip(0) =~= v@);
    if from == v.len() || !all_digits_exec(&v, from) {
        return None;
    }
    assert(v@.subrange(from as int, v@.len() as int) =~= v@.skip(from as int));
    let max = isize::MAX as u64;
    let bound: u64 = if neg {
        max + 1
    } else {
        max
    };
    match decimal_value(&v, from, v.len(), bound) {
        None => None,
        Some(x) => if neg {
            if x == max + 1 {
                Some(isize::MIN)
            } else {
                Some(-(x as isize))
            }
        } else {
            Some(x as isize)
        },
    }
}

/// The number of an lldb version such as `350`.
pub fn lldb_version_to_int(version_string: &str) -> (r: isize)
    requires
        int_text(version_string@),
    ensures
        r == int_value(version_string@),
{
    match parse_int(version_string) {
        Some(x) => x,
        None => 0,
    }
}

} // verus!

verus! {

/// Why the early properties of a test cannot be read.
#[derive(Clone, Copy, PartialEq, Eq, Structural, Debug)]
pub enum EarlyError {
    Header(HeaderError),
    /// `min-gdb-version` names a range.
    ExpectedSingleGdbVersion,
    /// `ignore-gdb-version` names a range whose end is before its start.
    ReversedGdbRange,
    /// A gdb version directive names no version, or more than two.
    MalformedGdbDirective,
    /// An lldb version is not a number.
    MalformedLldbVersion,
}

/// Lexicographic order of strings, as `str`'s `<` compares them.
pub open spec fn lex_lt(a: Seq<char>, b: Seq<char>) -> bool
    decreases a.len(),
{
    if a.len() == 0 {
        b.len() > 0
    } else if b.len() == 0 {
        false
    } else if a[0] != b[0] {
        (a[0] as u32) < (b[0] as u32)
    } else {
        lex_lt(a.drop_first(), b.drop_first())
    }
}

pub fn str_lt(a: &str, b: &str) -> (r: bool)
    ensures
        r == lex_lt(a@, b@),
{
    let v = chars_of(a);
    let w = chars_of(b);
    let mut i: usize = 0;
    assert(v@.skip(0) =~= v@);
    assert(w@.skip(0) =~= w@);
    while i < v.len() && i < w.len() && v[i] == w[i]
        invariant
            i <= v@.len(),
            i <= w@.len(),
            lex_lt(a@, b@) == lex_lt(v@.skip(i as int), w@.skip(i as int)),
            v@ == a@,
            w@ == b@,
        decreases v@.len() - i,
    {
        assert(v@.skip(i as int).drop_first() =~= v@.skip(i + 1));
        assert(w@.skip(i as int).drop_first() =~= w@.skip(i + 1));
        i = i + 1;
    }
    if i == v.len() {
        i < w.len()
    } else if i == w.len() {
        false
    } else {
        (v[i] as u32) < (w[i] as u32)
    }
}

/// The part of `s` after its last space.
pub open spec fn last_word(s: Seq<char>) -> Seq<char> {
    s.skip(s.len() - crate::text::trail_len(s, CharClass::NotSpace))
}

fn last_word_of(s: &str) -> (r: String)
    ensures
        r@ == last_word(crate::text::trim_end(s@)),
{
    let v = chars_of(s);
    let e = v.len() - crate::text::run_len_back(&v, v.len(), CharClass::Whitespace);
    assert(v@.take(v@.len() as int) =~= v@);
    let k = crate::text::run_len_back(&v, e, CharClass::NotSpace);
    let r = substring(s, e - k, e);
    assert(r@ =~= last_word(crate::text::trim_end(s@)));
    r
}

pub open spec fn gdb_version_of(piece: Seq<char>) -> Option<nat> {
    crate::gdb_version_from(trim(piece), 0)
}

/// The index of the first version among `vals` from `i` on; `vals.len()` if none.
pub open spec fn first_some(vals: Seq<Option<nat>>, i: int) -> int
    decreases vals.len() - i,
{
    if i < 0 || i >= vals.len() {
        vals.len() as int
    } else if vals[i] is Some {
        i
    } else {
        first_some(vals, i + 1)
    }
}

/// `version [- version]` read from a gdb version directive: the words are split at spaces
/// and dashes, and the first one that is a version starts the range.
pub open spec fn gdb_range(line: Seq<char>) -> Result<(nat, nat), EarlyError> {
    let vals = crate::text::fields_of(line, CharClass::SpaceOrDash).map_values(
        |p: Seq<char>| gdb_version_of(p),
    );
    let k = first_some(vals, 0);
    let rest = vals.skip(k);
    if k >= vals.len() || rest.len() >= 3 {
        Err(EarlyError::MalformedGdbDirective)
    } else if rest.len() == 1 {
        Ok((rest[0]->0, rest[0]->0))
    } else if rest[1] is Some {
        Ok((rest[0]->0, rest[1]->0))
    } else {
        Err(EarlyError::MalformedGdbDirective)
    }
}

fn gdb_range_of(line: &str) -> (r: Result<(u32, u32), EarlyError>)
    ensures
        match r {
            Ok((a, b)) => gdb_range(line@) == Ok::<(nat, nat), EarlyError>((a as nat, b as nat)),
            Err(e) => gdb_range(line@) == Err::<(nat, nat), EarlyError>(e),
        },
{
    let pieces = crate::text::split_fields(line, CharClass::SpaceOrDash);
    let ghost vals = crate::text::fields_of(line@, CharClass::SpaceOrDash).map_values(
        |p: Seq<char>| gdb_version_of(p),
    );
    let mut found: Vec<u32> = Vec::new();
    let mut k: usize = 0;
    let mut i: usize = 0;
    let mut started = false;
    let mut tail_bad = false;
    while i < pieces.len()
        invariant
            i <= pieces@.len(),
            vals.len() == pieces@.len(),
            forall|j: int|
                0 <= j < pieces@.len() ==> #[trigger] vals[j] == gdb_version_of(pieces@[j]@),
            !started ==> first_some(vals, 0) == first_some(vals, i as int) && found@.len() == 0
                && !tail_bad,
            started ==> k < i && first_some(vals, 0) == k,
            started ==> found@.len() == (if i - k <= 3 {
                i - k
            } else {
                3
            }),
            started ==> found@.len() >= 1 && vals[k as int] == Some(found@[0] as nat),
            started && i - k >= 2 && found@.len() >= 2 ==> (tail_bad <==> vals[k + 1] is None) && (
            !tail_bad ==> vals[k + 1] == Some(found@[1] as nat)),
            started && i - k < 2 ==> !tail_bad,
        decreases pieces@.len() - i,
    {
        assert(crate::text::string_views(pieces@)[i as int] == pieces@[i as int]@);
        let v = crate::extract_gdb_version(pieces[i].as_str());
        if !started {
            if v.is_some() {
                started = true;
                k = i;
                found.push(v.unwrap());
            }
        } else if found.len() < 3 {
            match v {
                Some(x) => found.push(x),
                None => {
                    if found.len() == 1 {
                        tail_bad = true;
                    }
                    found.push(0);
                },
            }
        }
        i = i + 1;
    }
    proof {
        if !started {
            assert(first_some(vals, pieces@.len() as int) == vals.len());
        }
    }
    if !started || found.len() >= 3 {
        return Err(EarlyError::MalformedGdbDirective);
    }
    if found.len() == 1 {
        Ok((found[0], found[0]))
    } else if !tail_bad {
        Ok((found[0], found[1]))
    } else {
        Err(EarlyError::MalformedGdbDirective)
    }
}

} // verus!

verus! {

/// Whether a gdb version directive on `line` excludes this run: `min-gdb-version V` when gdb
/// is older than `V`, `ignore-gdb-version A [- B]` when gdb is within the range.
pub open spec fn ignore_gdb(config: Config, line: Seq<char>) -> Result<bool, EarlyError> {
    if config.mode != Mode::DebugInfoGdb || config.gdb_version is None {
        Ok(false)
    } else {
        let actual = config.gdb_version->0 as nat;
        if starts_with(line, "min-gdb-version"@) {
            match gdb_range(line) {
                Err(e) => Err(e),
                Ok((a, b)) => if a != b {
                    Err(EarlyError::ExpectedSingleGdbVersion)
                } else {
                    Ok(actual < a)
                },
            }
        } else if starts_with(line, "ignore-gdb-version"@) {
            match gdb_range(line) {
                Err(e) => Err(e),
                Ok((a, b)) => if b < a {
                    Err(EarlyError::ReversedGdbRange)
                } else {
                    Ok(a <= actual <= b)
                },
            }
        } else {
            Ok(false)
        }
    }
}

/// Whether `min-lldb-version V` on `line` excludes this run: lldb is older than `V`.
pub open spec fn ignore_lldb(config: Config, line: Seq<char>) -> Result<bool, EarlyError> {
    if config.mode != Mode::DebugInfoLldb || config.lldb_version is None || !starts_with(
        line,
        "min-lldb-version"@,
    ) {
        Ok(false)
    } else {
        let actual = config.lldb_version->0@;
        let min = last_word(crate::text::trim_end(line));
        if !int_text(actual) || !int_text(min) {
            Err(EarlyError::MalformedLldbVersion)
        } else {
            Ok(int_value(actual) < int_value(min))
        }
    }
}

/// Whether `no-system-llvm` or `min-llvm-version V` on `line` excludes this run; versions
/// compare as strings.
pub open spec fn ignore_llvm(config: Config, line: Seq<char>) -> bool {
    if config.system_llvm && starts_with(line, "no-system-llvm"@) {
        true
    } else if config.llvm_version is Some && starts_with(line, "min-llvm-version"@) {
        lex_lt(config.llvm_version->0@, last_word(crate::text::trim_end(line)))
    } else {
        false
    }
}

fn ignore_gdb_exec(config: &Config, line: &str) -> (r: Result<bool, EarlyError>)
    ensures
        r == ignore_gdb(*config, line@),
{
    if config.mode != Mode::DebugInfoGdb {
        return Ok(false);
    }
    let actual = match config.gdb_version {
        None => return Ok(false),
        Some(v) => v,
    };
    if str_starts_with(line, "min-gdb-version") {
        match gdb_range_of(line) {
            Err(e) => Err(e),
            Ok((a, b)) => if a != b {
                Err(EarlyError::ExpectedSingleGdbVersion)
            } else {
                Ok(actual < a)
            },
        }
    } else if str_starts_with(line, "ignore-gdb-version") {
        match gdb_range_of(line) {
            Err(e) => Err(e),
            Ok((a, b)) => if b < a {
                Err(EarlyError::ReversedGdbRange)
            } else {
                Ok(a <= actual && actual <= b)
            },
        }
    } else {
        Ok(false)
    }
}

fn ignore_lldb_exec(config: &Config, line: &str) -> (r: Result<bool, EarlyError>)
    ensures
        r == ignore_lldb(*config, line@),
{
    if config.mode != Mode::DebugInfoLldb || !str_starts_with(line, "min-lldb-version") {
        return Ok(false);
    }
    let actual = match &config.lldb_version {
        None => return Ok(false),
        Some(v) => v,
    };
    let min = last_word_of(line);
    match (parse_int(actual.as_str()), parse_int(min.as_str())) {
        (Some(a), Some(m)) => Ok(a < m),
        _ => Err(EarlyError::MalformedLldbVersion),
    }
}

fn ignore_llvm_exec(config: &Config, line: &str) -> (r: bool)
    ensures
        r == ignore_llvm(*config, line@),
{
    if config.system_llvm && str_starts_with(line, "no-system-llvm") {
        return true;
    }
    match &config.llvm_version {
        Some(actual) => if str_starts_with(line, "min-llvm-version") {
            let min = last_word_of(line);
            str_lt(actual.as_str(), min.as_str())
        } else {
            false
        },
        None => false,
    }
}

/// Properties that must be known before a test runs.
#[derive(Debug)]
pub struct EarlyProps {
    pub ignore: bool,
    pub should_fail: bool,
    pub aux: Vec<String>,
}

pub ghost struct EarlyView {
    pub ignore: bool,
    pub should_fail: bool,
    pub aux: Seq<Seq<char>>,
}

impl View for EarlyProps {
    type V = EarlyView;

    open spec fn view(&self) -> EarlyView {
        EarlyView { ignore: self.ignore, should_fail: self.should_fail, aux: string_views(self.aux@) }
    }
}

/// Whether the test is ignored after directive `ln`; once ignored, later directives are not
/// asked.
pub open spec fn ignored_after(p: EarlyView, ln: Seq<char>, config: Config) -> Result<
    bool,
    EarlyError,
> {
    if p.ignore || cfg_name_directive(ln, "ignore"@, config) {
        Ok(true)
    } else {
        match ignore_gdb(config, ln) {
            Err(e) => Err(e),
            Ok(true) => Ok(true),
            Ok(false) => match ignore_lldb(config, ln) {
                Err(e) => Err(e),
                Ok(true) => Ok(true),
                Ok(false) => Ok(ignore_llvm(config, ln)),
            },
        }
    }
}

pub open spec fn early_step(p: EarlyView, ln: Seq<char>, config: Config) -> Result<
    EarlyView,
    EarlyError,
> {
    match ignored_after(p, ln, config) {
        Err(e) => Err(e),
        Ok(ig) => Ok(
            EarlyView {
                ignore: ig,
                should_fail: p.should_fail || name_directive(ln, "should-fail"@),
                aux: p.aux + opt_seq(name_value(ln, "aux-build"@, config)),
            },
        ),
    }
}

pub open spec fn early_upto(ds: Seq<Seq<char>>, n: nat, config: Config) -> Result<
    EarlyView,
    EarlyError,
>
    decreases n,
{
    if n == 0 {
        Ok(EarlyView { ignore: false, should_fail: false, aux: Seq::empty() })
    } else {
        match early_upto(ds, (n - 1) as nat, config) {
            Err(e) => Err(e),
            Ok(p) => early_step(p, ds[n - 1], config),
        }
    }
}

pub open spec fn early_props_of(lines: Seq<Seq<char>>, config: Config) -> Result<
    EarlyView,
    EarlyError,
> {
    match header_directives(lines, None) {
        Err(e) => Err(EarlyError::Header(e)),
        Ok(ds) => early_upto(ds, ds.len(), config),
    }
}

proof fn lemma_early_error_persists(ds: Seq<Seq<char>>, m: nat, n: nat, config: Config, e: EarlyError)
    requires
        m <= n,
        early_upto(ds, m, config) == Err::<EarlyView, EarlyError>(e),
    ensures
        early_upto(ds, n, config) == Err::<EarlyView, EarlyError>(e),
    decreases n - m,
{
    if m < n {
        lemma_early_error_persists(ds, m, (n - 1) as nat, config, e);
    }
}

impl EarlyProps {
    /// The early properties that the head of a test file with these lines declares: whether
    /// the test is ignored on this run, whether it should fail, and its auxiliary crates.
    pub fn from_file(config: &Config, lines: &Vec<String>) -> (r: Result<EarlyProps, EarlyError>)
        ensures
            match early_props_of(string_views(lines@), *config) {
                Ok(p) => r matches Ok(x) && x@ == p,
                Err(e) => r matches Err(x) && x == e,
            },
    {
        let ds = match header_directives_of(lines, None) {
            Ok(ds) => ds,
            Err(e) => return Err(EarlyError::Header(e)),
        };
        let ghost dv = string_views(ds@);
        let mut props = EarlyProps { ignore: false, should_fail: false, aux: Vec::new() };
        assert(string_views(props.aux@) =~= Seq::<Seq<char>>::empty());
        assert(props@ =~= EarlyView { ignore: false, should_fail: false, aux: Seq::empty() });
        let mut i: usize = 0;
        while i < ds.len()
            invariant
                i <= ds@.len(),
                dv == string_views(ds@),
                header_directives(string_views(lines@), None) == Ok::<
                    Seq<Seq<char>>,
                    HeaderError,
                >(dv),
                early_upto(dv, i as nat, *config) == Ok::<EarlyView, EarlyError>(props@),
            decreases ds@.len() - i,
        {
            let ln = ds[i].as_str();
            assert(dv[i as int] == ln@);
            let ig = if props.ignore || config.parse_cfg_name_directive(ln, "ignore") {
                true
            } else {
                match ignore_gdb_exec(config, ln) {
                    Err(e) => {
                        proof {
                            lemma_early_error_persists(dv, (i + 1) as nat, dv.len(), *config, e);
                        }
                        return Err(e);
                    },
                    Ok(true) => true,
                    Ok(false) => match ignore_lldb_exec(config, ln) {
                        Err(e) => {
                            proof {
                                lemma_early_error_persists(
                                    dv,
                                    (i + 1) as nat,
                                    dv.len(),
                                    *config,
                                    e,
                                );
                            }
                            return Err(e);
                        },
                        Ok(true) => true,
                        Ok(false) => ignore_llvm_exec(config, ln),
                    },
                }
            };
            props.ignore = ig;
            let aux = config.parse_name_value_directive(ln, "aux-build");
            push_opt(&mut props.aux, aux);
            if !props.should_fail {
                props.should_fail = config.parse_name_directive(ln, "should-fail");
            }
            i = i + 1;
        }
        Ok(props)
    }
}

} // verus!

verus! {

fn copy_strings(v: &Vec<String>) -> (r: Vec<String>)
    ensures
        string_views(r@) == string_views(v@),
{
    let mut r: Vec<String> = Vec::new();
    let mut i: usize = 0;
    while i < v.len()
        invariant
            i <= v@.len(),
            string_views(r@) == string_views(v@).take(i as int),
        decreases v@.len() - i,
    {
        let ghost before = string_views(r@);
        r.push(String::from_str(v[i].as_str()));
        assert(string_views(r@) =~= before.push(v@[i as int]@));
        assert(string_views(v@).take(i + 1) =~= string_views(v@).take(i as int).push(v@[i as int]@));
        i = i + 1;
    }
    assert(string_views(v@).take(v@.len() as int) =~= string_views(v@));
    r
}

fn copy_pairs(v: &Vec<(String, String)>) -> (r: Vec<(String, String)>)
    ensures
        pair_views(r@) == pair_views(v@),
{
    let mut r: Vec<(String, String)> = Vec::new();
    let mut i: usize = 0;
    while i < v.len()
        invariant
            i <= v@.len(),
            pair_views(r@) == pair_views(v@).take(i as int),
        decreases v@.len() - i,
    {
        let ghost before = pair_views(r@);
        let ghost item = (v@[i as int].0@, v@[i as int].1@);
        r.push((String::from_str(v[i].0.as_str()), String::from_str(v[i].1.as_str())));
        assert(pair_views(r@) =~= before.push(item));
        assert(pair_views(v@).take(i + 1) =~= pair_views(v@).take(i as int).push(item));
        i = i + 1;
    }
    assert(pair_views(v@).take(v@.len() as int) =~= pair_views(v@));
    r
}

fn copy_opt(o: &Option<String>) -> (r: Option<String>)
    ensures
        opt_view(r) == opt_view(*o),
{
    match o {
        Some(s) => Some(String::from_str(s.as_str())),
        None => None,
    }
}

impl TestProps {
    /// A copy of these properties.
    pub fn copy(&self) -> (r: TestProps)
        ensures
            r@ == self@,
    {
        TestProps {
            error_patterns: copy_strings(&self.error_patterns),
            compile_flags: copy_strings(&self.compile_flags),
            run_flags: copy_opt(&self.run_flags),
            pp_exact: copy_opt(&self.pp_exact),
            aux_builds: copy_strings(&self.aux_builds),
            rustc_env: copy_pairs(&self.rustc_env),
            exec_env: copy_pairs(&self.exec_env),
            check_lines: copy_strings(&self.check_lines),
            build_aux_docs: self.build_aux_docs,
            force_host: self.force_host,
            check_stdout: self.check_stdout,
            no_prefer_dynamic: self.no_prefer_dynamic,
            pretty_expanded: self.pretty_expanded,
            pretty_mode: String::from_str(self.pretty_mode.as_str()),
            pretty_mode_set: self.pretty_mode_set,
            pretty_compare_only: self.pretty_compare_only,
            forbid_output: copy_strings(&self.forbid_output),
            revisions: copy_strings(&self.revisions),
            incremental_dir: copy_opt(&self.incremental_dir),
            must_compile_successfully: self.must_compile_successfully,
            check_test_line_numbers_match: self.check_test_line_numbers_match,
            run_pass: self.run_pass,
            normalize_stdout: copy_pairs(&self.normalize_stdout),
            normalize_stderr: copy_pairs(&self.normalize_stderr),
        }
    }

    /// The properties of one revision of an incremental test: these, with the incremental
    /// directory `dir` and the flag that makes the compiler report on incremental work.
    pub fn for_incremental_revision(&self, dir: &str) -> (r: TestProps)
        ensures
            r@ == (PropsView {
                incremental_dir: Some(dir@),
                compile_flags: self@.compile_flags.push("-Zincremental-info"@),
                ..self@
            }),
    {
        let mut r = self.copy();
        r.incremental_dir = Some(String::from_str(dir));
        let ghost before = string_views(r.compile_flags@);
        r.compile_flags.push(String::from_str("-Zincremental-info"));
        assert(string_views(r.compile_flags@) =~= before.push("-Zincremental-info"@));
        assert(r@ =~= (PropsView {
            incremental_dir: Some(dir@),
            compile_flags: self@.compile_flags.push("-Zincremental-info"@),
            ..self@
        }));
        r
    }
}

} // verus!

verus! {

impl TestProps {
    /// The properties of revision `revision` of the test file `testfile`, whose lines are
    /// `lines`: read afresh from its directives for that revision, with only the incremental
    /// directory of these base properties.
    pub fn for_revision(&self, lines: &Vec<String>, testfile: &str, revision: &str, config: &Config) -> (r:
        Result<TestProps, HeaderError>)
        ensures
            match header_directives(string_views(lines@), Some(revision@)) {
                Ok(ds) => r matches Ok(p) && p@ == apply_all(
                    PropsView { incremental_dir: self@.incremental_dir, ..default_props() },
                    ds,
                    ds.len(),
                    testfile@,
                    *config,
                ),
                Err(e) => r matches Err(x) && x == e,
            },
    {
        self.from_aux_file(lines, testfile, Some(revision), config)
    }

    /// Gives the compiled program the harness's own value `value` of the environment
    /// variable `key`, unless the test sets `key` itself.
    pub fn inherit_exec_env(&mut self, key: &str, value: &str)
        ensures
            (exists|i: int| 0 <= i < old(self)@.exec_env.len() && #[trigger] old(self)@.exec_env[i].0 == key@)
                ==> final(self)@ == old(self)@,
            !(exists|i: int| 0 <= i < old(self)@.exec_env.len() && #[trigger] old(self)@.exec_env[i].0 == key@)
                ==> final(self)@ == (PropsView {
                exec_env: old(self)@.exec_env.push((key@, value@)),
                ..old(self)@
            }),
    {
        let ghost p = self@;
        let mut i: usize = 0;
        while i < self.exec_env.len()
            invariant
                i <= self.exec_env@.len(),
                self@ == p,
                forall|j: int| 0 <= j < i ==> #[trigger] p.exec_env[j].0 != key@,
            decreases self.exec_env@.len() - i,
        {
            assert(p.exec_env[i as int].0 == self.exec_env@[i as int].0@);
            if str_eq(self.exec_env[i].0.as_str(), key) {
                return;
            }
            i = i + 1;
        }
        let ghost before = pair_views(self.exec_env@);
        self.exec_env.push((String::from_str(key), String::from_str(value)));
        assert(pair_views(self.exec_env@) =~= before.push((key@, value@)));
        assert(self@ =~= (PropsView { exec_env: p.exec_env.push((key@, value@)), ..p }));
    }
}

} // verus!
