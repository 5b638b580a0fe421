//! What the hook answers, from the command and from the JSON input.
use rtk_hook::hook::{decide, decision_slices_badly, process_hook_input, HookDecision, HookError};

fn rewritten(d: HookDecision) -> Option<String> {
    match d {
        HookDecision::Allow => None,
        HookDecision::Rewrite(s) => Some(s),
    }
}

const SHELL: &str = "run_shell_command";

#[test]
fn other_tools_are_allowed() {
    assert_eq!(rewritten(decide("read_file", "git status")), None);
    assert_eq!(rewritten(decide("", "git status")), None);
}

#[test]
fn skipped_commands_are_allowed() {
    assert_eq!(rewritten(decide(SHELL, "")), None);
    assert_eq!(rewritten(decide(SHELL, "rtk git status")), None);
    assert_eq!(rewritten(decide(SHELL, "/usr/local/bin/rtk git status")), None);
    assert_eq!(rewritten(decide(SHELL, "cat <<EOF")), None);
    assert_eq!(rewritten(decide(SHELL, "echo hi")), None);
}

#[test]
fn env_prefix_is_kept() {
    assert_eq!(
        rewritten(decide(SHELL, "A=1 B=2 git status")),
        Some("A=1 B=2 rtk git status".to_string())
    );
    assert_eq!(rewritten(decide(SHELL, "git status")), Some("rtk git status".to_string()));
}

#[test]
fn rewritten_commands_are_let_through() {
    for cmd in ["A=1 B=2 git status", "cargo test", "X=y ls -la", "pnpm test"] {
        let out = rewritten(decide(SHELL, cmd)).unwrap();
        assert_eq!(rewritten(decide(SHELL, &out)), None);
    }
}

#[test]
fn bad_slicing_is_reported() {
    assert!(decision_slices_badly(SHELL, "A=1 \u{3000}ls"));
    assert!(!decision_slices_badly("other", "\u{3000}ls"));
    assert!(!decision_slices_badly(SHELL, "ls"));
}

#[test]
fn json_input_is_read() {
    let input = r#"{"tool_name":"run_shell_command","tool_input":{"command":"GIT_PAGER=cat git log"}}"#;
    match process_hook_input(input) {
        Ok(Some(d)) => assert_eq!(rewritten(d), Some("GIT_PAGER=cat rtk git log".to_string())),
        _ => panic!("expected a decision"),
    }
}

#[test]
fn json_without_fields_is_allowed() {
    for input in [
        r#"{}"#,
        r#"{"tool_name":"run_shell_command"}"#,
        r#"{"tool_name":"run_shell_command","tool_input":{"command":5}}"#,
        r#"{"tool_name":7,"tool_input":{"command":"git status"}}"#,
        r#"[1, 2]"#,
    ] {
        match process_hook_input(input) {
            Ok(Some(d)) => assert_eq!(rewritten(d), None),
            _ => panic!("expected a decision"),
        }
    }
}

#[test]
fn invalid_json_is_an_error() {
    assert!(matches!(process_hook_input("not json"), Err(HookError::InvalidJson(_))));
    assert!(matches!(process_hook_input(""), Err(HookError::InvalidJson(_))));
}

#[test]
fn json_command_that_would_slice_badly() {
    let input = "{\"tool_name\":\"run_shell_command\",\"tool_input\":{\"command\":\"\u{3000}ls\"}}";
    assert!(matches!(process_hook_input(input), Ok(None)));
}
