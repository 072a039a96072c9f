//! The kinds of test suite and where a test's files are.
use vstd::prelude::*;
use crate::text::str_eq;

verus! {

#[derive(Clone, Copy, PartialEq, Eq, Structural, Debug)]
pub enum Mode {
    CompileFail,
    ParseFail,
    RunFail,
    RunPass,
    RunPassValgrind,
    Pretty,
    DebugInfoGdb,
    DebugInfoLldb,
    Codegen,
    Rustdoc,
    CodegenUnits,
    Incremental,
    RunMake,
    Ui,
    MirOpt,
}

pub open spec fn mode_name(m: Mode) -> Seq<char> {
    match m {
        Mode::CompileFail => "compile-fail"@,
        Mode::ParseFail => "parse-fail"@,
        Mode::RunFail => "run-fail"@,
        Mode::RunPass => "run-pass"@,
        Mode::RunPassValgrind => "run-pass-valgrind"@,
        Mode::Pretty => "pretty"@,
        Mode::DebugInfoGdb => "debuginfo-gdb"@,
        Mode::DebugInfoLldb => "debuginfo-lldb"@,
        Mode::Codegen => "codegen"@,
        Mode::Rustdoc => "rustdoc"@,
        Mode::CodegenUnits => "codegen-units"@,
        Mode::Incremental => "incremental"@,
        Mode::RunMake => "run-make"@,
        Mode::Ui => "ui"@,
        Mode::MirOpt => "mir-opt"@,
    }
}

pub open spec fn disambiguator_of(m: Mode) -> Seq<char> {
    match m {
        Mode::Pretty => ".pretty"@,
        Mode::DebugInfoGdb => ".gdb"@,
        Mode::DebugInfoLldb => ".lldb"@,
        _ => ""@,
    }
}

impl Mode {
    /// The suffix that keeps apart the outputs of modes that may run the same test
    /// concurrently: pretty-printing and the two debuggers.
    pub fn disambiguator(self) -> (r: &'static str)
        ensures
            r@ == disambiguator_of(self),
    {
        match self {
            Mode::Pretty => ".pretty",
            Mode::DebugInfoGdb => ".gdb",
            Mode::DebugInfoLldb => ".lldb",
            _ => "",
        }
    }

    /// The name of the mode, as a suite directory is called.
    pub fn as_str(self) -> (r: &'static str)
        ensures
            r@ == mode_name(self),
    {
        match self {
            Mode::CompileFail => "compile-fail",
            Mode::ParseFail => "parse-fail",
            Mode::RunFail => "run-fail",
            Mode::RunPass => "run-pass",
            Mode::RunPassValgrind => "run-pass-valgrind",
            Mode::Pretty => "pretty",
            Mode::DebugInfoGdb => "debuginfo-gdb",
            Mode::DebugInfoLldb => "debuginfo-lldb",
            Mode::Codegen => "codegen",
            Mode::Rustdoc => "rustdoc",
            Mode::CodegenUnits => "codegen-units",
            Mode::Incremental => "incremental",
            Mode::RunMake => "run-make",
            Mode::Ui => "ui",
            Mode::MirOpt => "mir-opt",
        }
    }

    pub fn to_string(self) -> (r: String)
        ensures
            r@ == mode_name(self),
    {
        String::from_str(self.as_str())
    }

    /// The mode with the name `s`.
    pub fn from_str(s: &str) -> (r: Result<Mode, ()>)
        ensures
            r matches Ok(m) ==> mode_name(m) == s@,
            r is Err ==> forall|m: Mode| mode_name(m) != s@,
    {
        let all = [
            Mode::CompileFail,
            Mode::ParseFail,
            Mode::RunFail,
            Mode::RunPass,
            Mode::RunPassValgrind,
            Mode::Pretty,
            Mode::DebugInfoGdb,
            Mode::DebugInfoLldb,
            Mode::Codegen,
            Mode::Rustdoc,
            Mode::CodegenUnits,
            Mode::Incremental,
            Mode::RunMake,
            Mode::Ui,
            Mode::MirOpt,
        ];
        let mut i: usize = 0;
        while i < 15
            invariant
                i <= 15,
                all@.len() == 15,
                forall|m: Mode| all@.contains(m),
                forall|j: int| 0 <= j < i ==> mode_name(#[trigger] all@[j]) != s@,
            decreases 15 - i,
        {
            if str_eq(all[i].as_str(), s) {
                return Ok(all[i]);
            }
            i = i + 1;
        }
        Err(())
    }
}

/// Where a test's source file is: the file, the suite root it was found under, and the
/// directory between the two.
#[derive(Debug)]
pub struct TestPaths {
    pub file: String,
    pub base: String,
    pub relative_dir: String,
}

/// Extension of the golden file for standard error.
pub const UI_STDERR: &'static str = "stderr";

/// Extension of the golden file for standard output.
pub const UI_STDOUT: &'static str = "stdout";

/// Extension of the golden file for the source with suggestions applied.
pub const UI_FIXED: &'static str = "fixed";

} // verus!

verus! {

/// What the directives of a test are read against: the suite's mode, its directories, the
/// target and the versions of the tools.
#[derive(Debug)]
pub struct Config {
    pub mode: Mode,
    /// The directory that holds the suite's sources.
    pub src_base: String,
    /// The directory that outputs go to.
    pub build_base: String,
    /// The working directory of the run.
    pub cwd: String,
    /// The stage of the compiler under test, such as `stage2-x86_64-unknown-linux-gnu`.
    pub stage_id: String,
    pub target: String,
    pub host: String,
    /// The operating system, architecture, pointer width and environment of the target.
    pub target_os: String,
    pub target_arch: String,
    pub target_pointer_width: String,
    pub target_env: Option<String>,
    /// The version of gdb, as `extract_gdb_version` encodes it.
    pub gdb_version: Option<u32>,
    pub lldb_version: Option<String>,
    pub llvm_version: Option<String>,
    /// Whether the compiler uses the system's LLVM.
    pub system_llvm: bool,
    /// Flags for every compile for the host, and for the target.
    pub host_rustcflags: Option<String>,
    pub target_rustcflags: Option<String>,
}

} // verus!
