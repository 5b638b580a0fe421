//! The scenarios of the hook's command rewriting.
use rtk_hook::env::strip_env_prefix;
use rtk_hook::rewrite::try_rewrite;

// --- strip_env_prefix ---

#[test]
fn test_strip_env_prefix_none() {
    let (prefix, cmd) = strip_env_prefix("git status");
    assert_eq!(prefix, "");
    assert_eq!(cmd, "git status");
}

#[test]
fn test_strip_env_prefix_single() {
    let (prefix, cmd) = strip_env_prefix("GIT_PAGER=cat git status");
    assert_eq!(prefix, "GIT_PAGER=cat ");
    assert_eq!(cmd, "git status");
}

#[test]
fn test_strip_env_prefix_multi() {
    let (prefix, cmd) = strip_env_prefix("NODE_ENV=test CI=1 npx vitest run");
    assert_eq!(prefix, "NODE_ENV=test CI=1 ");
    assert_eq!(cmd, "npx vitest run");
}

// --- try_rewrite ---

#[test]
fn test_git_status() {
    assert_eq!(try_rewrite("git status"), Some("rtk git status".into()));
}

#[test]
fn test_git_log_flags() {
    assert_eq!(
        try_rewrite("git log --oneline -10"),
        Some("rtk git log --oneline -10".into())
    );
}

#[test]
fn test_git_no_pager() {
    assert_eq!(
        try_rewrite("git --no-pager log"),
        Some("rtk git --no-pager log".into())
    );
}

#[test]
fn test_git_diff() {
    assert_eq!(
        try_rewrite("git diff HEAD"),
        Some("rtk git diff HEAD".into())
    );
}

#[test]
fn test_git_unknown_subcmd() {
    assert_eq!(try_rewrite("git rebase main"), None);
}

#[test]
fn test_gh_pr() {
    assert_eq!(try_rewrite("gh pr list"), Some("rtk gh pr list".into()));
}

#[test]
fn test_gh_unknown() {
    assert_eq!(try_rewrite("gh auth login"), None);
}

#[test]
fn test_cargo_test() {
    assert_eq!(try_rewrite("cargo test"), Some("rtk cargo test".into()));
}

#[test]
fn test_cargo_clippy_flags() {
    assert_eq!(
        try_rewrite("cargo clippy --all-targets"),
        Some("rtk cargo clippy --all-targets".into())
    );
}

#[test]
fn test_cat() {
    assert_eq!(
        try_rewrite("cat package.json"),
        Some("rtk read package.json".into())
    );
}

#[test]
fn test_grep() {
    assert_eq!(
        try_rewrite("grep -rn pattern src/"),
        Some("rtk grep -rn pattern src/".into())
    );
}

#[test]
fn test_rg() {
    assert_eq!(
        try_rewrite("rg pattern src/"),
        Some("rtk grep pattern src/".into())
    );
}

#[test]
fn test_ls() {
    assert_eq!(try_rewrite("ls -la"), Some("rtk ls -la".into()));
}

#[test]
fn test_head_dash_n() {
    assert_eq!(
        try_rewrite("head -20 file.txt"),
        Some("rtk read file.txt --max-lines 20".into())
    );
}

#[test]
fn test_head_lines_eq() {
    assert_eq!(
        try_rewrite("head --lines=10 file.txt"),
        Some("rtk read file.txt --max-lines 10".into())
    );
}

#[test]
fn test_vitest_bare() {
    assert_eq!(try_rewrite("vitest"), Some("rtk vitest run".into()));
}

#[test]
fn test_vitest_run_no_double() {
    assert_eq!(try_rewrite("vitest run"), Some("rtk vitest run".into()));
}

#[test]
fn test_npx_playwright() {
    assert_eq!(
        try_rewrite("npx playwright test"),
        Some("rtk playwright test".into())
    );
}

#[test]
fn test_npx_vitest_run() {
    assert_eq!(try_rewrite("npx vitest run"), Some("rtk vitest run".into()));
}

#[test]
fn test_pnpm_test() {
    assert_eq!(try_rewrite("pnpm test"), Some("rtk vitest run".into()));
}

#[test]
fn test_pnpm_list() {
    assert_eq!(try_rewrite("pnpm list"), Some("rtk pnpm list".into()));
}

#[test]
fn test_npm_test() {
    assert_eq!(try_rewrite("npm test"), Some("rtk npm test".into()));
}

#[test]
fn test_npm_run() {
    assert_eq!(
        try_rewrite("npm run test:e2e"),
        Some("rtk npm test:e2e".into())
    );
}

#[test]
fn test_docker_ps() {
    assert_eq!(try_rewrite("docker ps"), Some("rtk docker ps".into()));
}

#[test]
fn test_docker_compose() {
    assert_eq!(
        try_rewrite("docker compose up -d"),
        Some("rtk docker compose up -d".into())
    );
}

#[test]
fn test_kubectl_get() {
    assert_eq!(
        try_rewrite("kubectl get pods"),
        Some("rtk kubectl get pods".into())
    );
}

#[test]
fn test_curl() {
    assert_eq!(
        try_rewrite("curl -s https://example.com"),
        Some("rtk curl -s https://example.com".into())
    );
}

#[test]
fn test_pytest() {
    assert_eq!(try_rewrite("pytest"), Some("rtk pytest".into()));
}

#[test]
fn test_python_m_pytest() {
    assert_eq!(
        try_rewrite("python -m pytest -v"),
        Some("rtk pytest -v".into())
    );
}

#[test]
fn test_ruff_check() {
    assert_eq!(try_rewrite("ruff check ."), Some("rtk ruff check .".into()));
}

#[test]
fn test_pip_list() {
    assert_eq!(try_rewrite("pip list"), Some("rtk pip list".into()));
}

#[test]
fn test_uv_pip_install() {
    assert_eq!(
        try_rewrite("uv pip install flask"),
        Some("rtk pip install flask".into())
    );
}

#[test]
fn test_go_test() {
    assert_eq!(
        try_rewrite("go test ./..."),
        Some("rtk go test ./...".into())
    );
}

#[test]
fn test_golangci_lint() {
    assert_eq!(
        try_rewrite("golangci-lint run"),
        Some("rtk golangci-lint run".into())
    );
}

#[test]
fn test_echo_no_rewrite() {
    assert_eq!(try_rewrite("echo hello"), None);
}

#[test]
fn test_cd_no_rewrite() {
    assert_eq!(try_rewrite("cd /tmp"), None);
}

#[test]
fn test_node_no_rewrite() {
    assert_eq!(try_rewrite("node -e 'console.log(1)'"), None);
}

// --- Full JSON flow ---

#[test]
fn test_env_prefix_with_rewrite() {
    let cmd = "TEST_SESSION_ID=2 npx playwright test --config=foo";
    let (prefix, match_cmd) = strip_env_prefix(cmd);
    let rewritten = try_rewrite(match_cmd).unwrap();
    let full = format!("{}{}", prefix, rewritten);
    assert_eq!(full, "TEST_SESSION_ID=2 rtk playwright test --config=foo");
}

#[test]
fn test_vue_tsc() {
    assert_eq!(
        try_rewrite("vue-tsc --noEmit"),
        Some("rtk tsc --noEmit".into())
    );
}

#[test]
fn test_npx_vue_tsc() {
    assert_eq!(
        try_rewrite("npx vue-tsc --noEmit"),
        Some("rtk tsc --noEmit".into())
    );
}

#[test]
fn test_pnpm_tsc() {
    assert_eq!(try_rewrite("pnpm tsc"), Some("rtk tsc".into()));
}

#[test]
fn test_pnpm_lint() {
    assert_eq!(try_rewrite("pnpm lint"), Some("rtk lint".into()));
}

#[test]
fn test_eslint() {
    assert_eq!(try_rewrite("eslint src/"), Some("rtk lint src/".into()));
}

#[test]
fn test_tree() {
    assert_eq!(try_rewrite("tree src/"), Some("rtk tree src/".into()));
}

#[test]
fn test_find() {
    assert_eq!(
        try_rewrite("find . -name '*.ts'"),
        Some("rtk find . -name '*.ts'".into())
    );
}

#[test]
fn test_wget() {
    assert_eq!(
        try_rewrite("wget https://example.com/file"),
        Some("rtk wget https://example.com/file".into())
    );
}
