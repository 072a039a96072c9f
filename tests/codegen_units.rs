use compiletest_rs::codegen_units::{compare_trans_items, item_line_ok, str_to_trans_item, TransItem};
use compiletest_rs::common::{Config, Mode};
use compiletest_rs::header::TestProps;

fn items(lines: &[&str]) -> Vec<TransItem> {
    lines.iter().map(|l| str_to_trans_item(l)).collect()
}

#[test]
fn item_lines_are_read() {
    let t = str_to_trans_item("TRANS_ITEM fn foo::bar[0] @@ cgu-a[Internal] cgu-b ");
    assert_eq!(t.name, "fn foo::bar[0]");
    let mut cgus = t.codegen_units.clone();
    cgus.sort();
    assert_eq!(cgus, vec!["cgu-a[Internal]".to_string(), "cgu-b".to_string()]);
    assert_eq!(t.string, "TRANS_ITEM fn foo::bar[0] @@ cgu-a[Internal] cgu-b");
    let u = str_to_trans_item("  fn baz  ");
    assert_eq!(u.name, "fn baz");
    assert!(u.codegen_units.is_empty());
}

#[test]
fn item_comparison() {
    let expected = items(&["fn a @@ x y", "fn b", "fn c @@ z", "fn d @@ x"]);
    let actual = items(&["TRANS_ITEM fn a @@ y x", "TRANS_ITEM fn c @@ w", "TRANS_ITEM fn e", "TRANS_ITEM fn d @@ x"]);
    let r = compare_trans_items(&expected, &actual);
    assert_eq!(r.missing, vec![1]);
    assert_eq!(r.wrong_cgus, vec![(2, 1)]);
    assert_eq!(r.unexpected, vec![2]);
}

#[test]
fn pp_exact_defaults_to_file_name() {
    let c = Config {
        mode: Mode::Pretty,
        src_base: "/src".to_string(),
        build_base: "/build".to_string(),
        cwd: "/cwd".to_string(),
        stage_id: "stage1".to_string(),
        target: "t".to_string(),
        host: "t".to_string(),
        target_os: "linux".to_string(),
        target_arch: "x86_64".to_string(),
        target_pointer_width: "64bit".to_string(),
        target_env: None,
        gdb_version: None,
        lldb_version: None,
        llvm_version: None,
        system_llvm: false,
        host_rustcflags: None,
        target_rustcflags: None,
    };
    let p = TestProps::from_file(&vec!["// pp-exact".to_string()], "dir/sub/test.rs", &c).unwrap();
    assert_eq!(p.pp_exact, Some("test.rs".to_string()));
    let p = TestProps::from_file(&vec!["// pp-exact:other.pp".to_string()], "dir/test.rs", &c).unwrap();
    assert_eq!(p.pp_exact, Some("other.pp".to_string()));
}

#[test]
fn item_lines_must_name_an_item() {
    assert!(item_line_ok("TRANS_ITEM fn a"));
    assert!(!item_line_ok("TRANS_ITEM  @@ @@ "));
    assert!(!item_line_ok(""));
}
