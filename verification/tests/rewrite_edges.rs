//! Edge cases and laws of the rewrite, on concrete commands.
use rtk_hook::rewrite::{
    rewrite_slices_at_non_boundary, strip_git_flags, strip_kubectl_flags, try_rewrite,
    try_rewrite_cargo, try_rewrite_head, try_rewrite_python, try_rewrite_uv, try_rewrite_vitest,
};

fn rw(cmd: &str) -> Option<String> {
    try_rewrite(cmd)
}

#[test]
fn every_rewrite_starts_with_rtk_and_is_not_rewritten_again() {
    let cmds = [
        "git status", "gh pr list", "cargo test", "cat a.txt", "rg x", "grep x", "ls",
        "ls -la", "tree", "find .", "diff a b", "head -5 f", "vitest", "npx tsc",
        "pnpm lint", "npm test", "vue-tsc", "tsc -p .", "eslint .", "prettier -w .",
        "playwright test", "prisma generate", "docker ps", "kubectl get pods", "curl x",
        "wget x", "pytest", "python -m pytest", "ruff format", "pip list", "uv pip list",
        "go vet ./...", "golangci-lint run",
    ];
    for cmd in cmds {
        let out = rw(cmd).unwrap();
        assert!(out.starts_with("rtk "), "{}", out);
        assert_eq!(rw(&out), None);
    }
}

#[test]
fn leading_whitespace_offsets_are_bytes() {
    // The rest after the first word is taken at the byte length of the word,
    // counted from the start of the command.
    assert_eq!(rw("  cat file"), Some("rtk read at file".to_string()));
    assert_eq!(rw(" git status"), None);
    assert_eq!(rw("\tls -la"), Some("rtk lss -la".to_string()));
    assert_eq!(rw("\u{a0}ls x"), Some("rtk lsls x".to_string()));
    assert_eq!(rw("\u{3000}cat f"), Some("rtk read cat f".to_string()));
}

#[test]
fn slicing_inside_a_character_is_detected() {
    assert!(rewrite_slices_at_non_boundary("\u{3000}ls"));
    assert!(rewrite_slices_at_non_boundary("\u{a0}\u{3000}tree"));
    assert!(!rewrite_slices_at_non_boundary("\u{3000}tree"));
    assert_eq!(rw("\u{3000}tree"), Some("rtk treeree".to_string()));
    assert!(!rewrite_slices_at_non_boundary("ls -la"));
    assert!(!rewrite_slices_at_non_boundary("\u{3000}cat"));
}

#[test]
fn unicode_whitespace_separates_words() {
    assert_eq!(rw("cat\u{2003}f"), Some("rtk read f".to_string()));
    assert_eq!(rw("git\u{3000}status"), Some("rtk git\u{3000}status".to_string()));
}

#[test]
fn git_global_flags_are_skipped() {
    assert_eq!(strip_git_flags("-C /tmp -c a=b --no-pager --git-dir=x log -5"), "log -5");
    assert_eq!(rw("git -C /tmp status"), Some("rtk git -C /tmp status".to_string()));
    assert_eq!(rw("git --git-dir=x diff"), Some("rtk git --git-dir=x diff".to_string()));
    assert_eq!(rw("git -C"), None);
    assert_eq!(strip_git_flags("  "), "");
}

#[test]
fn kubectl_global_flags_are_skipped() {
    assert_eq!(strip_kubectl_flags("-n kube-system --context=x get pods"), "get pods");
    assert_eq!(
        rw("kubectl -n kube-system get pods"),
        Some("rtk kubectl -n kube-system get pods".to_string())
    );
    assert_eq!(rw("kubectl --namespace"), None);
    assert_eq!(rw("kubectl delete pod x"), None);
}

#[test]
fn cargo_toolchain_is_skipped() {
    assert_eq!(
        try_rewrite_cargo("cargo +nightly build", "+nightly build"),
        Some("rtk cargo +nightly build".to_string())
    );
    assert_eq!(try_rewrite_cargo("cargo +nightly", "+nightly"), None);
    assert_eq!(try_rewrite_cargo("cargo run", "run"), None);
}

#[test]
fn head_counts() {
    assert_eq!(try_rewrite_head("-n 5 f"), None);
    assert_eq!(try_rewrite_head("- f"), Some("rtk read f --max-lines ".to_string()));
    assert_eq!(try_rewrite_head("-20 a b"), Some("rtk read a b --max-lines 20".to_string()));
    assert_eq!(try_rewrite_head("--lines=x f"), None);
    assert_eq!(try_rewrite_head("-20"), None);
}

#[test]
fn python_pytest_arguments() {
    assert_eq!(try_rewrite_python("-m pytest"), Some("rtk pytest".to_string()));
    assert_eq!(try_rewrite_python("-m pytest "), Some("rtk pytest".to_string()));
    assert_eq!(try_rewrite_python("-m pytest  -v"), Some("rtk pytest  -v".to_string()));
    assert_eq!(try_rewrite_python("-m pytestx"), None);
    assert_eq!(try_rewrite_python("-m  pytest"), None);
    assert_eq!(try_rewrite_python("script.py"), None);
}

#[test]
fn uv_pip() {
    assert_eq!(try_rewrite_uv("pip show x"), Some("rtk pip show x".to_string()));
    assert_eq!(try_rewrite_uv("pip"), None);
    assert_eq!(try_rewrite_uv("pip freeze"), None);
}

#[test]
fn vitest_run_is_added_once() {
    assert_eq!(try_rewrite_vitest("vitest watch"), Some("rtk vitest run watch".to_string()));
    assert_eq!(try_rewrite_vitest("vitest running"), Some("rtk vitest running".to_string()));
    assert_eq!(try_rewrite_vitest(" vitest x"), Some("rtk vitest run".to_string()));
}

#[test]
fn package_managers() {
    assert_eq!(rw("npm run"), Some("rtk npm ".to_string()));
    assert_eq!(rw("npm install"), None);
    assert_eq!(rw("pnpm vitest run"), Some("rtk vitest run".to_string()));
    assert_eq!(rw("pnpm ls"), Some("rtk pnpm ls".to_string()));
    assert_eq!(rw("pnpm install"), None);
    assert_eq!(rw("npx jest"), None);
    assert_eq!(rw("npx prisma migrate"), Some("rtk prisma migrate".to_string()));
}

#[test]
fn passthrough_tools_keep_the_command() {
    assert_eq!(rw("docker exec -it x sh"), Some("rtk docker exec -it x sh".to_string()));
    assert_eq!(rw("docker rm x"), None);
    assert_eq!(rw("go vet ./..."), Some("rtk go vet ./...".to_string()));
    assert_eq!(rw("go mod tidy"), None);
    assert_eq!(rw("ruff  check ."), Some("rtk ruff check .".to_string()));
    assert_eq!(rw("pip freeze"), None);
    assert_eq!(rw("gh repo view"), None);
}

#[test]
fn empty_and_blank_commands() {
    assert_eq!(rw(""), None);
    assert_eq!(rw("   "), None);
    assert_eq!(rw("tsc"), Some("rtk tsc".to_string()));
    assert_eq!(rw("pytest   "), Some("rtk pytest".to_string()));
}

#[test]
fn stripping_flags_twice_changes_nothing_and_leaves_single_spaces() {
    for s in [
        "  -C /tmp   --no-pager\tlog  -5 ",
        "-c a=b status",
        "--bare",
        "x\u{3000}y  z",
        "",
    ] {
        let once = strip_git_flags(s);
        assert_eq!(strip_git_flags(&once), once);
        assert!(!once.starts_with(' ') && !once.ends_with(' ') && !once.contains("  "));
        let once = strip_kubectl_flags(s);
        assert_eq!(strip_kubectl_flags(&once), once);
        assert!(!once.starts_with(' ') && !once.ends_with(' ') && !once.contains("  "));
    }
    assert_eq!(strip_git_flags("x\u{3000}y  z"), "x y z");
}
