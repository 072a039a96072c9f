use compiletest_rs::common::{Config, Mode};
use compiletest_rs::header::{
    header_directives_of, lldb_version_to_int, parse_normalization_string, EarlyError,
    EarlyProps, HeaderError, TestProps,
};
use compiletest_rs::{extract_gdb_version, extract_lldb_version, is_blacklisted_lldb_version};

fn config(mode: Mode) -> Config {
    Config {
        mode,
        src_base: "/src".to_string(),
        build_base: "/build".to_string(),
        cwd: "/cwd".to_string(),
        stage_id: "stage2-x86_64-unknown-linux-gnu".to_string(),
        target: "x86_64-unknown-linux-gnu".to_string(),
        host: "x86_64-unknown-linux-gnu".to_string(),
        target_os: "linux".to_string(),
        target_arch: "x86_64".to_string(),
        target_pointer_width: "64bit".to_string(),
        target_env: Some("gnu".to_string()),
        gdb_version: Some(7011001),
        lldb_version: Some("350".to_string()),
        llvm_version: Some("4.0".to_string()),
        system_llvm: false,
        host_rustcflags: None,
        target_rustcflags: Some("-O -g".to_string()),
    }
}

fn strings(v: &[&str]) -> Vec<String> {
    v.iter().map(|s| s.to_string()).collect()
}

#[test]
fn gdb_versions() {
    assert_eq!(extract_gdb_version("7.11.1"), Some(7011001));
    assert_eq!(extract_gdb_version("7.12"), Some(7012000));
    assert_eq!(extract_gdb_version("GNU gdb (GDB) 7.11.1"), Some(7011001));
    assert_eq!(extract_gdb_version("GNU gdb (GDB) Fedora 7.12.1-48.fc25"), Some(7012001));
    assert_eq!(extract_gdb_version("GNU gdb (GDB; openSUSE 13.2) 7.9.1.20150325"), Some(7009001));
    assert_eq!(extract_gdb_version("GNU gdb 8.0.50.20170704-git"), Some(8000050));
    assert_eq!(extract_gdb_version("  GNU gdb (Ubuntu 8.1-0ubuntu3) 8.1.0.20180409-git  "), Some(8001000));
}

#[test]
fn gdb_version_needs_single_digit_major_and_minor() {
    assert_eq!(extract_gdb_version("12.1"), None);
    assert_eq!(extract_gdb_version("7"), None);
    assert_eq!(extract_gdb_version("7."), None);
    assert_eq!(extract_gdb_version(""), None);
}

#[test]
fn lldb_versions() {
    assert_eq!(extract_lldb_version(Some("LLDB-179.5".to_string())), Some("179".to_string()));
    assert_eq!(extract_lldb_version(Some("lldb-300.2.51".to_string())), Some("300".to_string()));
    assert_eq!(extract_lldb_version(Some("lldb version 3.9".to_string())), None);
    assert_eq!(extract_lldb_version(None), None);
    assert!(is_blacklisted_lldb_version("350"));
    assert!(!is_blacklisted_lldb_version("351"));
    assert_eq!(lldb_version_to_int("350"), 350);
    assert_eq!(lldb_version_to_int("-7"), -7);
}

#[test]
fn modes_by_name() {
    assert_eq!(Mode::from_str("compile-fail"), Ok(Mode::CompileFail));
    assert_eq!(Mode::from_str("mir-opt"), Ok(Mode::MirOpt));
    assert_eq!(Mode::from_str("nope"), Err(()));
    assert_eq!(Mode::DebugInfoGdb.to_string(), "debuginfo-gdb");
    assert_eq!(Mode::Pretty.disambiguator(), ".pretty");
    assert_eq!(Mode::Ui.disambiguator(), "");
}

#[test]
fn directives_stop_at_code() {
    let src = strings(&["// compile-flags: -O", "//[a] run-pass", "fn main() {}", "// aux-build: late.rs"]);
    assert_eq!(header_directives_of(&src, None).unwrap(), strings(&["compile-flags: -O"]));
    assert_eq!(
        header_directives_of(&src, Some("a")).unwrap(),
        strings(&["compile-flags: -O", "run-pass"])
    );
    let bad = strings(&["//[a run-pass"]);
    assert_eq!(header_directives_of(&bad, None), Err(HeaderError::MalformedCondition));
}

#[test]
fn test_props_from_directives() {
    let c = config(Mode::CompileFail);
    let src = strings(&[
        "// error-pattern: first",
        "// error-pattern: second",
        "// compile-flags: -C opt-level=3  -g",
        "// aux-build: helper.rs",
        "// exec-env: FOO=bar",
        "// rustc-env: BAZ",
        "// run-flags: --bench",
        "// run-flags: --ignored",
        "// pretty-mode: expanded",
        "// pretty-mode: typed",
        "// check-stdout",
        "// must-compile-successfully",
        "// revisions: a b",
        "// no-prefer-dynamicx",
        "// normalize-stderr-64bit: \"64 bits\" -> \"$WORD bits\"",
        "// normalize-stdout-32bit: \"32\" -> \"$W\"",
        "// forbid-output: {{src-base}}/x",
        "fn main() {}",
    ]);
    let p = TestProps::from_file(&src, "dir/test.rs", &c).unwrap();
    assert_eq!(p.error_patterns, strings(&[" first", " second"]));
    assert_eq!(p.compile_flags, strings(&["-C", "opt-level=3", "-g"]));
    assert_eq!(p.aux_builds, strings(&[" helper.rs"]));
    assert_eq!(p.exec_env, vec![(" FOO".to_string(), "bar".to_string())]);
    assert_eq!(p.rustc_env, vec![(" BAZ".to_string(), String::new())]);
    assert_eq!(p.run_flags, Some(" --bench".to_string()));
    assert_eq!(p.pretty_mode, " expanded");
    assert!(p.check_stdout);
    assert!(p.must_compile_successfully);
    assert!(!p.no_prefer_dynamic);
    assert_eq!(p.revisions, strings(&["a", "b"]));
    assert_eq!(p.normalize_stderr, vec![("64 bits".to_string(), "$WORD bits".to_string())]);
    assert!(p.normalize_stdout.is_empty());
    assert_eq!(p.forbid_output, strings(&[" /src/x"]));
}

#[test]
fn default_props() {
    let p = TestProps::new();
    assert_eq!(p.pretty_mode, "normal");
    assert!(p.error_patterns.is_empty());
    assert!(p.incremental_dir.is_none());
    assert!(!p.run_pass);
}

#[test]
fn aux_props_inherit_only_incremental_dir() {
    let c = config(Mode::Incremental);
    let mut base = TestProps::new();
    base.incremental_dir = Some("/inc".to_string());
    base.check_stdout = true;
    let p = base.from_aux_file(&strings(&["// force-host"]), "aux.rs", None, &c).unwrap();
    assert_eq!(p.incremental_dir, Some("/inc".to_string()));
    assert!(!p.check_stdout);
    assert!(p.force_host);
}

#[test]
fn word_boundary_of_directives() {
    let c = config(Mode::CompileFail);
    assert!(c.parse_name_directive("run-pass", "run-pass"));
    assert!(c.parse_name_directive("run-pass: x", "run-pass"));
    assert!(!c.parse_name_directive("run-passes", "run-pass"));
    assert!(c.parse_cfg_name_directive("ignore-x86_64", "ignore"));
    assert!(!c.parse_cfg_name_directive("ignore-x86", "ignore"));
    assert!(c.parse_cfg_name_directive("ignore-linux", "ignore"));
    assert!(c.parse_cfg_name_directive("ignore-stage2", "ignore"));
    assert!(!c.parse_cfg_name_directive("ignore-cross-compile", "ignore"));
}

#[test]
fn normalization_strings() {
    let mut s = "normalize-stderr-32bit: \"something (32 bits)\" -> \"something ($WORD bits)\".";
    let first = parse_normalization_string(&mut s);
    assert_eq!(first, Some("something (32 bits)".to_owned()));
    assert_eq!(s, " -> \"something ($WORD bits)\".");
    let mut t = "no quotes";
    assert_eq!(parse_normalization_string(&mut t), None);
    assert_eq!(t, "no quotes");
}

#[test]
fn early_props() {
    let c = config(Mode::DebugInfoGdb);
    let src = strings(&["// aux-build: a.rs", "// should-fail", "// min-gdb-version 7.12"]);
    let p = EarlyProps::from_file(&c, &src).unwrap();
    assert!(p.ignore);
    assert!(p.should_fail);
    assert_eq!(p.aux, strings(&[" a.rs"]));
    let src = strings(&["// ignore-gdb-version 7.0 - 7.10"]);
    assert!(!EarlyProps::from_file(&c, &src).unwrap().ignore);
    let src = strings(&["// ignore-gdb-version 7.0 - 7.12"]);
    assert!(EarlyProps::from_file(&c, &src).unwrap().ignore);
    let src = strings(&["// ignore-gdb-version 7.12 - 7.0"]);
    assert!(matches!(EarlyProps::from_file(&c, &src), Err(EarlyError::ReversedGdbRange)));
    let src = strings(&["// min-gdb-version 7.0 - 7.1"]);
    assert!(matches!(EarlyProps::from_file(&c, &src), Err(EarlyError::ExpectedSingleGdbVersion)));
    let src = strings(&["// ignore-linux"]);
    assert!(EarlyProps::from_file(&config(Mode::Ui), &src).unwrap().ignore);
}

#[test]
fn llvm_and_lldb_gates() {
    let c = config(Mode::DebugInfoLldb);
    assert!(!EarlyProps::from_file(&c, &strings(&["// min-lldb-version 310"])).unwrap().ignore);
    assert!(EarlyProps::from_file(&c, &strings(&["// min-lldb-version 400"])).unwrap().ignore);
    assert!(matches!(
        EarlyProps::from_file(&c, &strings(&["// min-lldb-version x"])),
        Err(EarlyError::MalformedLldbVersion)
    ));
    assert!(EarlyProps::from_file(&c, &strings(&["// min-llvm-version 5.0"])).unwrap().ignore);
    assert!(!EarlyProps::from_file(&c, &strings(&["// min-llvm-version 3.9"])).unwrap().ignore);
}
