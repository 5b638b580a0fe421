//! Laws and edge cases of splitting off environment assignments.
use rtk_hook::env::strip_env_prefix;

#[test]
fn prefix_and_rest_give_the_command_back() {
    for cmd in ["A=1 B=2 git status", "git status", "X=1", "_x9=a=b  y", "  A=1 ls"] {
        let (prefix, rest) = strip_env_prefix(cmd);
        assert_eq!(format!("{}{}", prefix, rest), cmd);
    }
}

#[test]
fn stripping_twice_strips_nothing_more() {
    for cmd in ["A=1 B=2", "A=1 B=2 C", "A=1 B=2 git log", "A=1 1B=2 x", "X=1"] {
        let (_, rest) = strip_env_prefix(cmd);
        assert_eq!(strip_env_prefix(rest).0, "");
    }
}

#[test]
fn assignment_needs_a_following_space() {
    assert_eq!(strip_env_prefix("A=1"), ("", "A=1"));
    assert_eq!(strip_env_prefix("A=1 B=2"), ("A=1 ", "B=2"));
    assert_eq!(strip_env_prefix("A=1  B=x cmd"), ("A=1  B=x ", "cmd"));
}

#[test]
fn names_start_with_a_letter_or_underscore() {
    assert_eq!(strip_env_prefix("1A=1 cmd"), ("", "1A=1 cmd"));
    assert_eq!(strip_env_prefix("_A9=1 cmd"), ("_A9=1 ", "cmd"));
    assert_eq!(strip_env_prefix("A-B=1 cmd"), ("", "A-B=1 cmd"));
    assert_eq!(strip_env_prefix("A= cmd"), ("A= ", "cmd"));
}

#[test]
fn values_may_hold_any_non_space_characters() {
    assert_eq!(strip_env_prefix("P=a=b/\u{e9} x"), ("P=a=b/\u{e9} ", "x"));
    assert_eq!(strip_env_prefix("P=a\tb x"), ("P=a\tb ", "x"));
}
