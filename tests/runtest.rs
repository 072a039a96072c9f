use compiletest_rs::errors::{Error, ErrorKind};
use compiletest_rs::header::TestProps;
use compiletest_rs::runtest::{aux_crate_type, check_compile_fail, make_aux_compile_args, TargetLocation};
use compiletest_rs::runtest::{
    check_compile_status, check_error_patterns, check_run_fail, dylib_env_var, find_forbidden_output,
    has_compiler_crash, incremental_revision_kind, is_up_to_date, Failure, ProcRes, RevisionKind,
    Stamp,
};
use compiletest_rs::text::{replace, split_lines, split_whitespace};

fn proc_res(code: Option<i32>, stdout: &str, stderr: &str) -> ProcRes {
    ProcRes { code, stdout: stdout.to_string(), stderr: stderr.to_string(), cmdline: String::new() }
}

fn strings(v: &[&str]) -> Vec<String> {
    v.iter().map(|s| s.to_string()).collect()
}

#[test]
fn ordered_patterns_found() {
    let pats = strings(&["foo", "bar"]);
    assert!(check_error_patterns(&pats, "xfoo\nybar", false).is_ok());
}

#[test]
fn ordered_patterns_out_of_order() {
    let pats = strings(&["foo", "bar"]);
    match check_error_patterns(&pats, "ybar\nxfoo", false) {
        Err(Failure::MissingPatterns(i)) => assert_eq!(i, 1),
        other => panic!("unexpected {:?}", other),
    }
    match check_error_patterns(&pats, "ybar\nzzz", false) {
        Err(Failure::MissingPatterns(i)) => assert_eq!(i, 0),
        other => panic!("unexpected {:?}", other),
    }
}

#[test]
fn patterns_are_trimmed() {
    let pats = strings(&["  foo  "]);
    assert!(check_error_patterns(&pats, "a foo b", false).is_ok());
}

#[test]
fn no_patterns() {
    let pats: Vec<String> = vec![];
    assert!(check_error_patterns(&pats, "x", true).is_ok());
    assert!(matches!(check_error_patterns(&pats, "x", false), Err(Failure::NoErrorPattern)));
}

#[test]
fn stale_after_touching_aux_file() {
    let stamp = Stamp { seconds: 100, nanos: 0 };
    let test_file = Stamp { seconds: 50, nanos: 0 };
    let mut aux = vec![Stamp { seconds: 60, nanos: 0 }];
    let golden = vec![Stamp { seconds: 100, nanos: 0 }];
    assert!(is_up_to_date("h", "h", stamp, test_file, &aux, &golden));
    aux[0] = Stamp { seconds: 100, nanos: 1 };
    assert!(!is_up_to_date("h", "h", stamp, test_file, &aux, &golden));
}

#[test]
fn stale_when_configuration_changed() {
    let stamp = Stamp { seconds: 100, nanos: 0 };
    let t = Stamp { seconds: 1, nanos: 0 };
    assert!(!is_up_to_date("h1", "h2", stamp, t, &vec![], &vec![]));
}

#[test]
fn revision_names() {
    assert_eq!(incremental_revision_kind("rpass1").unwrap(), RevisionKind::RunPass);
    assert_eq!(incremental_revision_kind("rfail2").unwrap(), RevisionKind::RunFail);
    assert_eq!(incremental_revision_kind("cfail3").unwrap(), RevisionKind::CompileFail);
    assert!(matches!(incremental_revision_kind("pass1"), Err(Failure::BadRevisionName)));
    assert!(matches!(incremental_revision_kind(""), Err(Failure::BadRevisionName)));
}

#[test]
fn compile_status_rules() {
    assert!(check_compile_status(true, &proc_res(Some(0), "", "")).is_ok());
    assert!(matches!(
        check_compile_status(true, &proc_res(Some(1), "", "")),
        Err(Failure::CompileFailedUnexpectedly)
    ));
    assert!(matches!(
        check_compile_status(false, &proc_res(Some(0), "", "")),
        Err(Failure::CompiledUnexpectedly)
    ));
    assert!(check_compile_status(false, &proc_res(Some(101), "", "")).is_ok());
    assert!(matches!(
        check_compile_status(false, &proc_res(Some(1), "", "")),
        Err(Failure::WrongFailureStatus)
    ));
}

#[test]
fn run_fail_rules() {
    let pats = strings(&["panicked"]);
    assert!(matches!(
        check_run_fail(&proc_res(Some(100), "", ""), false, &pats, false),
        Err(Failure::ValgrindUnclean)
    ));
    assert!(check_run_fail(&proc_res(Some(101), "", "thread panicked"), false, &pats, false).is_ok());
    assert!(check_run_fail(&proc_res(Some(101), "thread panicked", ""), false, &pats, false).is_err());
    assert!(check_run_fail(&proc_res(Some(101), "thread panicked", ""), true, &pats, false).is_ok());
}

#[test]
fn compiler_crash_and_forbidden_output() {
    assert!(has_compiler_crash("ok\nerror: internal compiler error: boom\n"));
    assert!(!has_compiler_crash("error: internal\ncompiler error"));
    let forbid = strings(&["a", "zz"]);
    assert_eq!(find_forbidden_output(&forbid, "xzzx"), Some(1));
    assert_eq!(find_forbidden_output(&forbid, "xyz"), None);
}

#[test]
fn library_path_variables() {
    assert_eq!(dylib_env_var("windows"), "PATH");
    assert_eq!(dylib_env_var("macos"), "DYLD_LIBRARY_PATH");
    assert_eq!(dylib_env_var("haiku"), "LIBRARY_PATH");
    assert_eq!(dylib_env_var("linux"), "LD_LIBRARY_PATH");
}

#[test]
fn text_helpers() {
    assert_eq!(split_lines("a\r\nb\n\nc\n"), strings(&["a", "b", "", "c"]));
    assert_eq!(split_lines(""), Vec::<String>::new());
    assert_eq!(split_whitespace("  a \t b  c "), strings(&["a", "b", "c"]));
    assert_eq!(replace("aXbXXc", "X", "yy"), "ayybyyyyc");
    assert_eq!(replace("aaa", "aa", "b"), "ba");
}

#[test]
fn doc_test_fences() {
    let src = strings(&[
        "pub mod other;",
        "/// ```",
        "/// let x = 1;",
        "/// ```",
        "fn f() {}",
        "    ```rust",
        "```",
        "  mod inner;",
    ]);
    let (fences, mods) = compiletest_rs::runtest::doc_test_lines(&src);
    assert_eq!(fences, vec![2, 6]);
    assert_eq!(mods, strings(&["other", "inner"]));
}

#[test]
fn compile_fail_passes_when_every_check_does() {
    let props = TestProps::new();
    let res = proc_res(Some(101), "", "{json}\n");
    let expected = vec![Error::new(3, Some(ErrorKind::Error), "bad".to_string(), None)];
    let actual = vec![Error::new(3, Some(ErrorKind::Error), "bad thing".to_string(), None)];
    assert!(check_compile_fail(&props, &res, &expected, &actual).is_ok());
    let wrong = vec![Error::new(4, Some(ErrorKind::Error), "bad thing".to_string(), None)];
    match check_compile_fail(&props, &res, &expected, &wrong) {
        Err(Failure::Mismatch(r)) => {
            assert_eq!(r.unexpected, vec![0]);
            assert_eq!(r.missing, vec![0]);
        }
        other => panic!("unexpected {:?}", other),
    }
    let crashed = proc_res(Some(101), "", "error: internal compiler error: x\n");
    assert!(matches!(check_compile_fail(&props, &crashed, &expected, &actual), Err(Failure::CompilerCrash)));
    let mut both = TestProps::new();
    both.error_patterns.push("bad".to_string());
    assert!(matches!(check_compile_fail(&both, &res, &expected, &actual), Err(Failure::PatternsAndAnnotations)));
    let ok_res = proc_res(Some(0), "", "");
    assert!(matches!(check_compile_fail(&props, &ok_res, &expected, &actual), Err(Failure::CompiledUnexpectedly)));
}

#[test]
fn aux_builds_and_revisions() {
    let c = compiletest_rs::common::Config {
        mode: compiletest_rs::common::Mode::RunPass,
        src_base: "/src".to_string(),
        build_base: "/build".to_string(),
        cwd: "/cwd".to_string(),
        stage_id: "stage1".to_string(),
        target: "x86_64-unknown-linux-musl".to_string(),
        host: "x86_64-unknown-linux-gnu".to_string(),
        target_os: "linux".to_string(),
        target_arch: "x86_64".to_string(),
        target_pointer_width: "64bit".to_string(),
        target_env: Some("musl".to_string()),
        gdb_version: None,
        lldb_version: None,
        llvm_version: None,
        system_llvm: false,
        host_rustcflags: None,
        target_rustcflags: None,
    };
    let mut aux = TestProps::new();
    assert_eq!(aux_crate_type(&c, &aux), Some("lib"));
    aux.force_host = true;
    assert_eq!(aux_crate_type(&c, &aux), Some("dylib"));
    aux.no_prefer_dynamic = true;
    assert_eq!(aux_crate_type(&c, &aux), None);
    let args = make_aux_compile_args(&c, &aux, None, "a.rs", TargetLocation::ThisDirectory("/aux".to_string()), "/aux");
    assert_eq!(args, strings(&["a.rs", "-L", "/build", "--target=x86_64-unknown-linux-gnu", "--out-dir", "/aux", "-L", "/aux"]));

    let lines = strings(&["// revisions: a b", "// error-pattern: e", "//[a] compile-flags: -O", "fn main() {}"]);
    let mut base = TestProps::from_file(&lines, "t.rs", &c).unwrap();
    base.incremental_dir = Some("/inc".to_string());
    let a = base.for_revision(&lines, "t.rs", "a", &c).unwrap();
    assert_eq!(a.error_patterns, strings(&[" e"]));
    assert_eq!(a.compile_flags, strings(&["-O"]));
    assert_eq!(a.revisions, strings(&["a", "b"]));
    assert_eq!(a.incremental_dir, Some("/inc".to_string()));

    let mut p = TestProps::new();
    p.inherit_exec_env("RUST_TEST_THREADS", "1");
    p.inherit_exec_env("RUST_TEST_THREADS", "2");
    assert_eq!(p.exec_env, vec![("RUST_TEST_THREADS".to_string(), "1".to_string())]);
}

#[test]
fn run_fail_without_patterns() {
    let none: Vec<String> = vec![];
    assert!(matches!(check_run_fail(&proc_res(Some(101), "", ""), false, &none, false), Err(Failure::NoErrorPattern)));
}
