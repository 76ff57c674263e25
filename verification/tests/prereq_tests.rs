use acpied::prereq::{check_executable, check_prerequisites, check_user, PrereqError};
use acpied::text::str_to_chars;

#[test]
fn root_user_passes() {
    assert!(check_user(true, &str_to_chars("0\n")));
    assert!(check_user(true, &str_to_chars("0")));
}

#[test]
fn non_root_user_fails() {
    assert!(!check_user(true, &str_to_chars("1000\n")));
    assert!(!check_user(true, &str_to_chars("")));
}

#[test]
fn unrunnable_user_check_is_let_through() {
    // When the identity command itself could not run, the session may
    // still start.
    assert!(check_user(false, &str_to_chars("whatever")));
}

#[test]
fn executable_check_is_presence() {
    assert!(check_executable(true));
    assert!(!check_executable(false));
}

#[test]
fn prerequisites_pass_when_all_hold() {
    let r = check_prerequisites(true, &str_to_chars("0\n"), &vec![true, true, true, true]);
    assert!(r.is_none());
}

#[test]
fn prerequisites_report_non_root_first() {
    let r = check_prerequisites(true, &str_to_chars("1000\n"), &vec![false, true, true, true]);
    assert!(matches!(r, Some(PrereqError::NotRoot)));
}

#[test]
fn prerequisites_name_first_missing_tool() {
    let r = check_prerequisites(true, &str_to_chars("0\n"), &vec![true, false, false, true]);
    assert!(matches!(r, Some(PrereqError::MissingTool(1))));
}
