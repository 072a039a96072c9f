use compiletest_rs::errors::{parse_expected_upper, severity_word};
use compiletest_rs::errors::{parse_errors, parse_expected, AnnotationError, Error, ErrorKind, WhichLine};
use compiletest_rs::matcher::{is_unexpected_compiler_message, match_errors};

fn err(line: usize, kind: Option<ErrorKind>, msg: &str) -> Error {
    Error::new(line, kind, msg.to_string(), None)
}

fn lines(src: &[&str]) -> Vec<String> {
    src.iter().map(|s| s.to_string()).collect()
}

#[test]
fn caret_annotation_points_lines_up() {
    let r = parse_expected(None, 12, "    let y = x; //~^^ ERROR foo", "//~").unwrap().unwrap();
    assert_eq!(r.0, WhichLine::AdjustBackward(2));
    assert_eq!(r.1.line_num, 10);
    assert_eq!(r.1.kind, Some(ErrorKind::Error));
    assert_eq!(r.1.msg, "foo");
    assert_eq!(r.1.count, None);
}

#[test]
fn plain_annotation_is_this_line() {
    let r = parse_expected(None, 7, "x //~ WARN  unused variable  ", "//~").unwrap().unwrap();
    assert_eq!(r.0, WhichLine::ThisLine);
    assert_eq!(r.1.line_num, 7);
    assert_eq!(r.1.kind, Some(ErrorKind::Warning));
    assert_eq!(r.1.msg, "unused variable");
}

#[test]
fn follow_annotation_uses_previous_line() {
    let r = parse_expected(Some(4), 9, "//~| NOTE second", "//~").unwrap().unwrap();
    assert_eq!(r.0, WhichLine::FollowPrevious(4));
    assert_eq!(r.1.line_num, 4);
    assert_eq!(r.1.kind, Some(ErrorKind::Note));
    assert_eq!(r.1.msg, "second");
}

#[test]
fn follow_without_previous_is_an_error() {
    let r = parse_expected(None, 9, "//~| NOTE second", "//~");
    assert!(matches!(r, Err(AnnotationError::FollowWithoutPrevious)));
}

#[test]
fn too_many_carets_is_an_error() {
    let r = parse_expected(None, 1, "//~^^ ERROR x", "//~");
    assert!(matches!(r, Err(AnnotationError::AboveFirstLine)));
}

#[test]
fn message_count_is_read() {
    let r = parse_expected(None, 3, "//~ ERROR*3 three spans", "//~").unwrap().unwrap();
    assert_eq!(r.1.count, Some(3));
    assert_eq!(r.1.msg, "three spans");
}

#[test]
fn missing_message_count_is_an_error() {
    let r = parse_expected(None, 3, "//~ ERROR* none", "//~");
    assert!(matches!(r, Err(AnnotationError::IncorrectMessageCount)));
}

#[test]
fn unknown_kind_belongs_to_message() {
    let r = parse_expected(None, 5, "//~ mismatched types", "//~").unwrap().unwrap();
    assert_eq!(r.1.kind, None);
    assert_eq!(r.1.msg, "mismatched types");
}

#[test]
fn kind_is_case_insensitive() {
    assert_eq!(ErrorKind::from_str("help"), Ok(ErrorKind::Help));
    assert_eq!(ErrorKind::from_str("Error:"), Ok(ErrorKind::Error));
    assert_eq!(ErrorKind::from_str("warn"), Ok(ErrorKind::Warning));
    assert_eq!(ErrorKind::from_str("Suggestion"), Ok(ErrorKind::Suggestion));
    assert_eq!(ErrorKind::from_str("bogus"), Err(()));
    assert_eq!(ErrorKind::Warning.to_string(), "warning");
}

#[test]
fn line_without_tag_has_no_annotation() {
    assert!(parse_expected(None, 5, "let x = 1;", "//~").unwrap().is_none());
}

#[test]
fn parse_errors_tracks_follow_lines() {
    let src = lines(&[
        "fn main() {",
        "    bad();",
        "    //~^ ERROR cannot find",
        "    //~| HELP did you mean",
        "}",
    ]);
    let errs = parse_errors(&src, None).unwrap();
    assert_eq!(errs.len(), 2);
    assert_eq!(errs[0].line_num, 2);
    assert_eq!(errs[1].line_num, 2);
    assert_eq!(errs[1].kind, Some(ErrorKind::Help));
}

#[test]
fn parse_errors_for_revision() {
    let src = lines(&["x //[a]~ ERROR first", "y //[b]~ ERROR second", "z //~ ERROR both"]);
    let errs = parse_errors(&src, Some("b")).unwrap();
    assert_eq!(errs.len(), 1);
    assert_eq!(errs[0].msg, "second");
    assert_eq!(errs[0].line_num, 2);
}

#[test]
fn substring_match_is_clean() {
    let expected = vec![err(5, Some(ErrorKind::Error), "cannot borrow")];
    let actual = vec![err(5, Some(ErrorKind::Error), "cannot borrow `x` as mutable")];
    let r = match_errors(&expected, &actual);
    assert!(r.unexpected.is_empty());
    assert!(r.missing.is_empty());
    assert!(r.is_clean());
}

#[test]
fn expected_help_makes_helps_strict() {
    let expected = vec![err(5, Some(ErrorKind::Help), "foo")];
    let actual = vec![err(9, Some(ErrorKind::Help), "bar")];
    let r = match_errors(&expected, &actual);
    assert_eq!(r.unexpected, vec![0]);
    assert_eq!(r.missing, vec![0]);
}

#[test]
fn helps_ignored_when_none_expected() {
    let expected = vec![err(5, Some(ErrorKind::Error), "foo")];
    let actual = vec![err(5, Some(ErrorKind::Error), "foo bar"), err(9, Some(ErrorKind::Help), "bar")];
    let r = match_errors(&expected, &actual);
    assert!(r.is_clean());
}

#[test]
fn matching_twice_gives_same_result() {
    let expected = vec![err(1, None, "a"), err(2, Some(ErrorKind::Error), "b")];
    let actual = vec![err(2, Some(ErrorKind::Error), "xbx"), err(3, Some(ErrorKind::Warning), "w")];
    let r1 = match_errors(&expected, &actual);
    let r2 = match_errors(&expected, &actual);
    assert_eq!(r1.unexpected, r2.unexpected);
    assert_eq!(r1.missing, r2.missing);
    assert_eq!(r1.unexpected, vec![1]);
    assert_eq!(r1.missing, vec![0]);
}

#[test]
fn first_fit_consumes_each_expectation_once() {
    let expected = vec![err(4, None, "x")];
    let actual = vec![err(4, Some(ErrorKind::Error), "x"), err(4, Some(ErrorKind::Error), "x")];
    let r = match_errors(&expected, &actual);
    assert_eq!(r.unexpected, vec![1]);
    assert!(r.missing.is_empty());
}

#[test]
fn reportability_by_kind() {
    let e = err(1, Some(ErrorKind::Note), "n");
    assert!(!is_unexpected_compiler_message(&e, true, false));
    assert!(is_unexpected_compiler_message(&e, false, true));
    assert!(!is_unexpected_compiler_message(&err(1, Some(ErrorKind::Suggestion), "s"), true, true));
    assert!(!is_unexpected_compiler_message(&err(1, None, "s"), true, true));
    assert!(is_unexpected_compiler_message(&err(1, Some(ErrorKind::Warning), "s"), false, false));
}

#[test]
fn parse_with_given_upper_case_word() {
    let line = "x; //~^ warn: unused";
    assert_eq!(severity_word(line, "//~"), Some("warn:".to_string()));
    let r = parse_expected_upper(None, 4, line, "//~", "WARN:").unwrap().unwrap();
    assert_eq!(r.1.kind, Some(ErrorKind::Warning));
    assert_eq!(r.1.line_num, 3);
    assert_eq!(r.1.msg, "unused");
    let r = parse_expected_upper(None, 4, line, "//~", "NOPE").unwrap().unwrap();
    assert_eq!(r.1.kind, None);
    assert_eq!(r.1.msg, "warn: unused");
    assert_eq!(severity_word("no tag", "//~"), None);
}
