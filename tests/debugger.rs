use compiletest_rs::common::{Config, Mode};
use compiletest_rs::debugger::{
    check_debugger_output, check_single_line, cleanup_debug_info_options, parse_debugger_commands,
    split_maybe_args,
};
use compiletest_rs::header::TestProps;
use compiletest_rs::runtest::{
    make_compile_args, TargetLocation, check_mir_test_timestamp, compare_mir_lines, normalize_mir_line, normalize_output,
    nocomment_mir_line, Stamp,
};
use compiletest_rs::is_test;

fn strings(v: &[&str]) -> Vec<String> {
    v.iter().map(|s| s.to_string()).collect()
}

fn config() -> Config {
    Config {
        mode: Mode::DebugInfoGdb,
        src_base: "/src".to_string(),
        build_base: "/build".to_string(),
        cwd: "/cwd".to_string(),
        stage_id: "stage1-x".to_string(),
        target: "t".to_string(),
        host: "h".to_string(),
        target_os: "linux".to_string(),
        target_arch: "x86_64".to_string(),
        target_pointer_width: "64bit".to_string(),
        target_env: None,
        gdb_version: None,
        lldb_version: None,
        llvm_version: None,
        system_llvm: false,
        host_rustcflags: None,
        target_rustcflags: Some("-O -g".to_string()),
    }
}

#[test]
fn check_lines_with_wildcards() {
    assert!(check_single_line("  $1 = 5  ", "$1 = 5"));
    assert!(check_single_line("$1 = Foo { x: 7 }", "$1 = Foo[...]7 }"));
    assert!(check_single_line("abc", "[...]"));
    assert!(!check_single_line("$1 = 5 extra", "$1 = 5"));
    assert!(check_single_line("$1 = 5 extra", "$1 = 5[...]"));
    assert!(!check_single_line("$1 = 6", "$1 = 5"));
}

#[test]
fn debugger_output_in_order() {
    let checks = strings(&["a", "c"]);
    assert_eq!(check_debugger_output("a\nb\nc\n", &checks), Ok(()));
    assert_eq!(check_debugger_output("c\na\n", &checks), Err(1));
    assert_eq!(check_debugger_output("x", &strings(&[])), Ok(()));
}

#[test]
fn debugger_commands_from_lines() {
    let lines = strings(&[
        "gdb-command:run",
        "gdb-check:$1 = 5",
        "lldb-command:print x",
        "let x = 5; // #break",
        "gdb-command: next",
    ]);
    let c = parse_debugger_commands(&lines, &strings(&["gdb"]), &config());
    assert_eq!(c.commands, strings(&["run", " next"]));
    assert_eq!(c.check_lines, strings(&["$1 = 5"]));
    assert_eq!(c.breakpoint_lines, vec![4]);
}

#[test]
fn maybe_args() {
    assert_eq!(split_maybe_args(&Some("-O  -g x".to_string())), strings(&["-O", "-g", "x"]));
    assert!(split_maybe_args(&None).is_empty());
    assert_eq!(
        cleanup_debug_info_options(&Some("-O --cfg a -g --debuginfo".to_string())),
        Some("--cfg a".to_string())
    );
    assert_eq!(cleanup_debug_info_options(&None), None);
}

#[test]
fn mir_lines() {
    assert_eq!(nocomment_mir_line("let x = 1;   // scope 0"), "let x = 1;");
    assert_eq!(nocomment_mir_line("no comment "), "no comment ");
    assert_eq!(normalize_mir_line(" a = b ( c ) // x"), "a=b(c)");
}

#[test]
fn mir_dump_comparison() {
    let dump = "fn main() {\n  let x: i32; // decl\n\n  x = const 5i32;\n}\n";
    assert_eq!(compare_mir_lines(&strings(&["let x:i32;", "", "x = const 5i32;"]), dump), Ok(()));
    assert_eq!(compare_mir_lines(&strings(&["x = const 5i32;", "let x: i32;"]), dump), Err(1));
}

#[test]
fn mir_timestamps() {
    let old = Stamp { seconds: 1, nanos: 5 };
    let new = Stamp { seconds: 1, nanos: 6 };
    assert!(check_mir_test_timestamp(old, new).is_ok());
    assert!(check_mir_test_timestamp(new, old).is_err());
}

#[test]
fn output_normalization() {
    let rules = vec![("bits".to_string(), "BITS".to_string())];
    let out = normalize_output("/t/dir/a.rs:1\r\n\tx\\y 64 bits\n", "/t/dir", &rules);
    assert_eq!(out, "$DIR/a.rs:1\n\\tx/y 64 BITS\n");
    let empty: Vec<(String, String)> = vec![("".to_string(), "-".to_string())];
    assert_eq!(normalize_output("ab", "/nowhere", &empty), "-a-b-");
}

#[test]
fn test_file_names() {
    assert!(is_test("foo.rs"));
    assert!(!is_test(".foo.rs"));
    assert!(!is_test("#foo.rs"));
    assert!(!is_test("~foo.rs"));
    assert!(!is_test("foo.txt"));
}

#[test]
fn incremental_revision_props() {
    let mut p = TestProps::new();
    p.compile_flags.push("-O".to_string());
    let r = p.for_incremental_revision("/inc");
    assert_eq!(r.incremental_dir, Some("/inc".to_string()));
    assert_eq!(r.compile_flags, strings(&["-O", "-Zincremental-info"]));
    assert_eq!(p.compile_flags, strings(&["-O"]));
}

#[test]
fn compile_arguments() {
    let mut c = config();
    c.mode = Mode::CompileFail;
    let mut p = TestProps::new();
    p.compile_flags.push("--edition=2018".to_string());
    p.incremental_dir = Some("/inc".to_string());
    let args = make_compile_args(&c, &p, Some("a"), "t.rs", TargetLocation::ThisFile("t.exe".to_string()), "");
    assert_eq!(
        args,
        strings(&[
            "t.rs", "-L", "/build", "--target=t", "--cfg", "a", "-Z", "incremental=/inc",
            "--error-format", "json", "-C", "prefer-dynamic", "-o", "t.exe", "-O", "-g",
            "--edition=2018",
        ])
    );
    p.compile_flags.push("--target=x".to_string());
    p.no_prefer_dynamic = true;
    p.error_patterns.push("e".to_string());
    p.force_host = true;
    let args = make_compile_args(&c, &p, None, "t.rs", TargetLocation::ThisDirectory("out".to_string()), "");
    assert_eq!(
        args,
        strings(&[
            "t.rs", "-L", "/build", "-Z", "incremental=/inc", "--out-dir", "out",
            "--edition=2018", "--target=x",
        ])
    );
}

#[test]
fn gdb_scripts() {
    let script = compiletest_rs::debugger::gdb_script(
        "UTF-8",
        Some(7011001),
        "/rust/src/etc",
        "C:\\out\\t.exe",
        true,
        "t.rs",
        &vec![3, 12],
        &strings(&["run", "print x"]),
    );
    assert_eq!(
        script,
        "set charset UTF-8\nshow version\nadd-auto-load-safe-path /rust/src/etc\n\
         set print pretty off\ndirectory /rust/src/etc\nfile C:\\\\out\\\\t.exe\n\
         set language rust\nbreak 't.rs':3\nbreak 't.rs':12\nrun\nprint x\nquit\n"
    );
    let old = compiletest_rs::debugger::gdb_script("auto", Some(7004000), "p", "e", false, "f.rs", &vec![], &strings(&[]));
    assert_eq!(old, "set charset auto\nshow version\nset print pretty off\ndirectory p\nfile e\n\nquit\n");
    assert_eq!(compiletest_rs::debugger::decimal_string(0), "0");
    assert_eq!(compiletest_rs::debugger::decimal_string(1907), "1907");
    assert_eq!(compiletest_rs::debugger::charset("freebsd"), "ISO-8859-1");
    assert_eq!(compiletest_rs::debugger::charset("linux"), "UTF-8");
}

#[test]
fn test_names() {
    assert_eq!(
        compiletest_rs::make_test_name(Mode::Ui, "ui", "foo/bar", "baz.rs", None),
        "[ui] ui/foo/bar/baz.rs"
    );
    assert_eq!(
        compiletest_rs::make_test_name(Mode::Incremental, "incremental", "", "x.rs", Some("rpass1")),
        "[incremental] incremental/x.rs#rpass1"
    );
}
