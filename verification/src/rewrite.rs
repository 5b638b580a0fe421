//! Rewriting of shell commands into their `rtk` equivalents.
//!
//! Each tool has a specification (a spec function from the command text to
//! the rewritten command, `None` when the command is left alone) and an
//! executable function proved to compute exactly it.
use vstd::prelude::*;
use crate::text::{
    lemma_join_prepend, lemma_words_prepend, utf8_width, has_suffix, lemma_after_first_word_is_suffix, lemma_suffix_facts, lemma_first_word_is_first_of_words, lemma_first_word_of_join, is_word, lemma_join_single_spaced, lemma_words_are_words, lemma_words_of_join, single_spaced,
    skip_ws, word_end, after_first_word, all_ascii_digits, byte_suffix, concat2, concat3, contains_char, first_word,
    first_word_of, has_prefix, is_all_ascii_digits, join_spaced, join_with_spaces,
    join_with_spaces_from, rest_after_first_word, skip_chars, starts_with_char, suffix_from_byte, spaced, split_words, starts_with,
    str_eq, trim_start, trim_start_ws, view_opt, views, with_spaced_tail, words,
};

verus! {

/// The command prefixed with `rtk `.
pub open spec fn rtk_of(cmd: Seq<char>) -> Seq<char> {
    "rtk "@ + cmd
}

/// The words that follow `-C`/`-c` take a value.
pub open spec fn is_git_value_flag(w: Seq<char>) -> bool {
    w == "-C"@ || w == "-c"@
}

/// A `--key=value` flag.
pub open spec fn is_key_value_flag(w: Seq<char>) -> bool {
    has_prefix(w, "--"@) && w.contains('=')
}

/// The boolean global flags of git that are skipped.
pub open spec fn is_git_bool_flag(w: Seq<char>) -> bool {
    w == "--no-pager"@ || w == "--no-optional-locks"@ || w == "--bare"@ || w
        == "--literal-pathspecs"@
}

/// The words from index `i` on that remain once git's global flags (and the
/// values of `-C`/`-c`) are dropped.
pub open spec fn git_kept_from(ws: Seq<Seq<char>>, i: int) -> Seq<Seq<char>>
    decreases ws.len() - i,
{
    if i < 0 || i >= ws.len() {
        Seq::empty()
    } else if is_git_value_flag(ws[i]) {
        if i + 1 < ws.len() {
            git_kept_from(ws, i + 2)
        } else {
            Seq::empty()
        }
    } else if is_key_value_flag(ws[i]) || is_git_bool_flag(ws[i]) {
        git_kept_from(ws, i + 1)
    } else {
        seq![ws[i]] + git_kept_from(ws, i + 1)
    }
}

/// The arguments of a git command without its global flags, joined by spaces.
pub open spec fn git_flags_stripped(s: Seq<char>) -> Seq<char> {
    join_spaced(git_kept_from(words(s), 0))
}

/// The git subcommands that have an `rtk` equivalent.
pub open spec fn is_git_subcommand(w: Seq<char>) -> bool {
    ||| w == "status"@
    ||| w == "diff"@
    ||| w == "log"@
    ||| w == "add"@
    ||| w == "commit"@
    ||| w == "push"@
    ||| w == "pull"@
    ||| w == "branch"@
    ||| w == "fetch"@
    ||| w == "stash"@
    ||| w == "show"@
}

pub open spec fn git_rewrite(cmd: Seq<char>, rest: Seq<char>) -> Option<Seq<char>> {
    if is_git_subcommand(first_word(git_flags_stripped(rest))) {
        Some(rtk_of(cmd))
    } else {
        None
    }
}

pub open spec fn gh_rewrite(rest: Seq<char>) -> Option<Seq<char>> {
    let sub = first_word(rest);
    if sub == "pr"@ || sub == "issue"@ || sub == "run"@ || sub == "api"@ || sub == "release"@ {
        Some("rtk gh "@ + rest)
    } else {
        None
    }
}

/// The sequence without its first element (empty stays empty).
pub open spec fn skip_first<A>(ws: Seq<A>) -> Seq<A> {
    if ws.len() == 0 {
        ws
    } else {
        ws.drop_first()
    }
}

/// The cargo arguments with a leading `+toolchain` word removed.
pub open spec fn cargo_effective(rest: Seq<char>) -> Seq<char> {
    if rest.len() > 0 && rest[0] == '+' {
        join_spaced(skip_first(words(rest)))
    } else {
        rest
    }
}

pub open spec fn is_cargo_subcommand(w: Seq<char>) -> bool {
    ||| w == "test"@
    ||| w == "build"@
    ||| w == "clippy"@
    ||| w == "check"@
    ||| w == "install"@
    ||| w == "fmt"@
    ||| w == "nextest"@
}

pub open spec fn cargo_rewrite(cmd: Seq<char>, rest: Seq<char>) -> Option<Seq<char>> {
    if is_cargo_subcommand(first_word(cargo_effective(rest))) {
        Some(rtk_of(cmd))
    } else {
        None
    }
}

/// The line count of a `head` option: `-N` or `--lines=N` with `N` made of
/// ASCII digits (possibly none).
pub open spec fn head_count(opt: Seq<char>) -> Option<Seq<char>> {
    if opt.len() > 0 && opt[0] == '-' && all_ascii_digits(opt.drop_first()) {
        Some(opt.drop_first())
    } else if has_prefix(opt, "--lines="@) && all_ascii_digits(opt.skip("--lines="@.len() as int)) {
        Some(opt.skip("--lines="@.len() as int))
    } else {
        None
    }
}

pub open spec fn head_rewrite(rest: Seq<char>) -> Option<Seq<char>> {
    let parts = words(rest);
    if parts.len() >= 2 {
        match head_count(parts[0]) {
            Some(n) => Some("rtk read "@ + join_spaced(parts.drop_first()) + " --max-lines "@ + n),
            None => None,
        }
    } else {
        None
    }
}

/// `rtk vitest` with `run` added unless the arguments already begin with it.
pub open spec fn vitest_command(args: Seq<char>) -> Seq<char> {
    if args.len() == 0 {
        "rtk vitest run"@
    } else if has_prefix(args, "run"@) {
        "rtk vitest "@ + args
    } else {
        "rtk vitest run "@ + args
    }
}

pub open spec fn vitest_rewrite(cmd: Seq<char>) -> Option<Seq<char>> {
    let args = if has_prefix(cmd, "vitest"@) {
        trim_start(cmd.skip("vitest"@.len() as int))
    } else {
        Seq::empty()
    };
    Some(vitest_command(args))
}

pub open spec fn npx_rewrite(rest: Seq<char>) -> Option<Seq<char>> {
    let tool = first_word(rest);
    let args = after_first_word(rest);
    if tool == "vitest"@ {
        Some(vitest_command(args))
    } else if tool == "vue-tsc"@ || tool == "tsc"@ {
        Some("rtk tsc"@ + spaced(args))
    } else if tool == "eslint"@ {
        Some("rtk lint"@ + spaced(args))
    } else if tool == "prettier"@ {
        Some("rtk prettier"@ + spaced(args))
    } else if tool == "playwright"@ {
        Some("rtk playwright"@ + spaced(args))
    } else if tool == "prisma"@ {
        Some("rtk prisma"@ + spaced(args))
    } else {
        None
    }
}

pub open spec fn pnpm_rewrite(rest: Seq<char>) -> Option<Seq<char>> {
    let sub = first_word(rest);
    let args = after_first_word(rest);
    if sub == "vitest"@ {
        Some(vitest_command(args))
    } else if sub == "test"@ {
        Some("rtk vitest run"@ + spaced(args))
    } else if sub == "tsc"@ {
        Some("rtk tsc"@ + spaced(args))
    } else if sub == "lint"@ {
        Some("rtk lint"@ + spaced(args))
    } else if sub == "playwright"@ {
        Some("rtk playwright"@ + spaced(args))
    } else if sub == "list"@ || sub == "ls"@ || sub == "outdated"@ {
        Some("rtk pnpm "@ + rest)
    } else {
        None
    }
}

pub open spec fn npm_rewrite(rest: Seq<char>) -> Option<Seq<char>> {
    let sub = first_word(rest);
    let args = after_first_word(rest);
    if sub == "test"@ {
        Some("rtk npm test"@ + spaced(args))
    } else if sub == "run"@ {
        Some("rtk npm "@ + args)
    } else {
        None
    }
}

pub open spec fn is_docker_subcommand(w: Seq<char>) -> bool {
    ||| w == "compose"@
    ||| w == "ps"@
    ||| w == "images"@
    ||| w == "logs"@
    ||| w == "run"@
    ||| w == "build"@
    ||| w == "exec"@
}

pub open spec fn docker_rewrite(rest: Seq<char>, cmd: Seq<char>) -> Option<Seq<char>> {
    if is_docker_subcommand(first_word(rest)) {
        Some(rtk_of(cmd))
    } else {
        None
    }
}

/// The kubectl global flags that take a value.
pub open spec fn is_kubectl_value_flag(w: Seq<char>) -> bool {
    w == "--context"@ || w == "--kubeconfig"@ || w == "--namespace"@ || w == "-n"@
}

/// The words from index `i` on that remain once kubectl's global flags (and
/// their values) are dropped.
pub open spec fn kubectl_kept_from(ws: Seq<Seq<char>>, i: int) -> Seq<Seq<char>>
    decreases ws.len() - i,
{
    if i < 0 || i >= ws.len() {
        Seq::empty()
    } else if is_kubectl_value_flag(ws[i]) {
        if i + 1 < ws.len() {
            kubectl_kept_from(ws, i + 2)
        } else {
            Seq::empty()
        }
    } else if is_key_value_flag(ws[i]) {
        kubectl_kept_from(ws, i + 1)
    } else {
        seq![ws[i]] + kubectl_kept_from(ws, i + 1)
    }
}

pub open spec fn kubectl_flags_stripped(s: Seq<char>) -> Seq<char> {
    join_spaced(kubectl_kept_from(words(s), 0))
}

pub open spec fn kubectl_rewrite(rest: Seq<char>, cmd: Seq<char>) -> Option<Seq<char>> {
    let sub = first_word(kubectl_flags_stripped(rest));
    if sub == "get"@ || sub == "logs"@ || sub == "describe"@ || sub == "apply"@ {
        Some(rtk_of(cmd))
    } else {
        None
    }
}

/// `python -m pytest ARGS`: the arguments split off as `splitn(3, ' ')` does,
/// i.e. the text after `-m pytest ` (empty when the text is just `-m pytest`).
pub open spec fn python_rewrite(rest: Seq<char>) -> Option<Seq<char>> {
    if rest == "-m pytest"@ {
        Some("rtk pytest"@)
    } else if has_prefix(rest, "-m pytest "@) {
        Some("rtk pytest"@ + spaced(rest.skip("-m pytest "@.len() as int)))
    } else {
        None
    }
}

pub open spec fn ruff_rewrite(rest: Seq<char>) -> Option<Seq<char>> {
    let sub = first_word(rest);
    if sub == "check"@ || sub == "format"@ {
        Some("rtk ruff "@ + rest)
    } else {
        None
    }
}

pub open spec fn is_pip_subcommand(w: Seq<char>) -> bool {
    w == "list"@ || w == "outdated"@ || w == "install"@ || w == "show"@
}

pub open spec fn pip_rewrite(rest: Seq<char>) -> Option<Seq<char>> {
    if is_pip_subcommand(first_word(rest)) {
        Some("rtk pip "@ + rest)
    } else {
        None
    }
}

pub open spec fn uv_rewrite(rest: Seq<char>) -> Option<Seq<char>> {
    if has_prefix(rest, "pip "@) {
        let pip_rest = rest.skip("pip "@.len() as int);
        if is_pip_subcommand(first_word(pip_rest)) {
            Some("rtk pip "@ + pip_rest)
        } else {
            None
        }
    } else {
        None
    }
}

pub open spec fn go_rewrite(rest: Seq<char>, cmd: Seq<char>) -> Option<Seq<char>> {
    let sub = first_word(rest);
    if sub == "test"@ || sub == "build"@ || sub == "vet"@ {
        Some(rtk_of(cmd))
    } else {
        None
    }
}

/// A command name followed by the arguments, if any, after one space.
pub open spec fn with_args(name: Seq<char>, args: Seq<char>) -> Seq<char> {
    name + spaced(args)
}

/// The commands on which the rewrite slices the text at a byte offset that
/// is no character boundary (`ls` and `tree` preceded by multi-byte
/// whitespace), where slicing panics.
pub open spec fn rewrite_slices_badly(cmd: Seq<char>) -> bool {
    ||| first_word(cmd) == "ls"@ && byte_suffix(cmd, 2) is None
    ||| first_word(cmd) == "tree"@ && byte_suffix(cmd, 4) is None
}

/// The `rtk` equivalent of a command, or `None` when there is none.
pub open spec fn command_rewrite(cmd: Seq<char>) -> Option<Seq<char>> {
    let w = first_word(cmd);
    let rest = after_first_word(cmd);
    if w == "git"@ {
        git_rewrite(cmd, rest)
    } else if w == "gh"@ {
        gh_rewrite(rest)
    } else if w == "cargo"@ {
        cargo_rewrite(cmd, rest)
    } else if w == "cat"@ {
        Some("rtk read "@ + rest)
    } else if w == "rg"@ || w == "grep"@ {
        Some("rtk grep "@ + rest)
    } else if w == "ls"@ {
        Some("rtk ls"@ + byte_suffix(cmd, 2).unwrap())
    } else if w == "tree"@ {
        Some("rtk tree"@ + byte_suffix(cmd, 4).unwrap())
    } else if w == "find"@ {
        Some("rtk find "@ + rest)
    } else if w == "diff"@ {
        Some("rtk diff "@ + rest)
    } else if w == "head"@ {
        head_rewrite(rest)
    } else if w == "vitest"@ {
        vitest_rewrite(cmd)
    } else if w == "npx"@ {
        npx_rewrite(rest)
    } else if w == "pnpm"@ {
        pnpm_rewrite(rest)
    } else if w == "npm"@ {
        npm_rewrite(rest)
    } else if w == "vue-tsc"@ || w == "tsc"@ {
        Some(with_args("rtk tsc"@, rest))
    } else if w == "eslint"@ {
        Some(with_args("rtk lint"@, rest))
    } else if w == "prettier"@ {
        Some(with_args("rtk prettier"@, rest))
    } else if w == "playwright"@ {
        Some(with_args("rtk playwright"@, rest))
    } else if w == "prisma"@ {
        Some(with_args("rtk prisma"@, rest))
    } else if w == "docker"@ {
        docker_rewrite(rest, cmd)
    } else if w == "kubectl"@ {
        kubectl_rewrite(rest, cmd)
    } else if w == "curl"@ {
        Some("rtk curl "@ + rest)
    } else if w == "wget"@ {
        Some("rtk wget "@ + rest)
    } else if w == "pytest"@ {
        Some(with_args("rtk pytest"@, rest))
    } else if w == "python"@ {
        python_rewrite(rest)
    } else if w == "ruff"@ {
        ruff_rewrite(rest)
    } else if w == "pip"@ {
        pip_rewrite(rest)
    } else if w == "uv"@ {
        uv_rewrite(rest)
    } else if w == "go"@ {
        go_rewrite(rest, cmd)
    } else if w == "golangci-lint"@ {
        Some(with_args("rtk golangci-lint"@, rest))
    } else {
        None
    }
}

fn is_key_value_flag_exec(w: &str) -> (r: bool)
    ensures
        r == is_key_value_flag(w@),
{
    starts_with(w, "--") && contains_char(w, '=')
}

fn is_git_bool_flag_exec(w: &str) -> (r: bool)
    ensures
        r == is_git_bool_flag(w@),
{
    str_eq(w, "--no-pager") || str_eq(w, "--no-optional-locks") || str_eq(w, "--bare") || str_eq(
        w,
        "--literal-pathspecs",
    )
}

fn is_kubectl_value_flag_exec(w: &str) -> (r: bool)
    ensures
        r == is_kubectl_value_flag(w@),
{
    str_eq(w, "--context") || str_eq(w, "--kubeconfig") || str_eq(w, "--namespace") || str_eq(
        w,
        "-n",
    )
}

/// The arguments of a git command without its global flags (`-C DIR`,
/// `-c KEY=VAL`, `--key=value`, `--no-pager`, ...), joined by spaces.
pub fn strip_git_flags(s: &str) -> (r: String)
    ensures
        r@ == git_flags_stripped(s@),
{
    let ws = split_words(s);
    let ghost vs = views(ws@);
    let mut kept: Vec<&str> = Vec::new();
    let mut i: usize = 0;
    while i < ws.len()
        invariant
            i <= ws.len(),
            vs == views(ws@),
            vs == words(s@),
            views(kept@) + git_kept_from(vs, i as int) == git_kept_from(vs, 0),
        decreases ws.len() - i,
    {
        let w = ws[i];
        let ghost old_kept = kept@;
        if str_eq(w, "-C") || str_eq(w, "-c") {
            if i + 1 < ws.len() {
                i = i + 2;
            } else {
                i = ws.len();
            }
        } else if is_key_value_flag_exec(w) || is_git_bool_flag_exec(w) {
            i = i + 1;
        } else {
            kept.push(w);
            proof {
                assert(views(kept@) =~= views(old_kept) + seq![w@]);
                assert(views(kept@) + git_kept_from(vs, i + 1) =~= views(old_kept) + git_kept_from(
                    vs,
                    i as int,
                ));
            }
            i = i + 1;
        }
    }
    proof {
        assert(views(kept@) + git_kept_from(vs, i as int) =~= views(kept@));
    }
    join_with_spaces(&kept)
}

/// The arguments of a kubectl command without its global flags
/// (`--context X`, `--kubeconfig X`, `--namespace X`, `-n X`, `--key=value`),
/// joined by spaces.
pub fn strip_kubectl_flags(s: &str) -> (r: String)
    ensures
        r@ == kubectl_flags_stripped(s@),
{
    let ws = split_words(s);
    let ghost vs = views(ws@);
    let mut kept: Vec<&str> = Vec::new();
    let mut i: usize = 0;
    while i < ws.len()
        invariant
            i <= ws.len(),
            vs == views(ws@),
            vs == words(s@),
            views(kept@) + kubectl_kept_from(vs, i as int) == kubectl_kept_from(vs, 0),
        decreases ws.len() - i,
    {
        let w = ws[i];
        let ghost old_kept = kept@;
        if is_kubectl_value_flag_exec(w) {
            if i + 1 < ws.len() {
                i = i + 2;
            } else {
                i = ws.len();
            }
        } else if is_key_value_flag_exec(w) {
            i = i + 1;
        } else {
            kept.push(w);
            proof {
                assert(views(kept@) =~= views(old_kept) + seq![w@]);
                assert(views(kept@) + kubectl_kept_from(vs, i + 1) =~= views(old_kept)
                    + kubectl_kept_from(vs, i as int));
            }
            i = i + 1;
        }
    }
    proof {
        assert(views(kept@) + kubectl_kept_from(vs, i as int) =~= views(kept@));
    }
    join_with_spaces(&kept)
}

/// `rtk ` followed by the whole command.
fn rtk_prefixed(cmd: &str) -> (r: String)
    ensures
        r@ == rtk_of(cmd@),
{
    concat2("rtk ", cmd)
}

fn is_git_subcommand_exec(w: &str) -> (r: bool)
    ensures
        r == is_git_subcommand(w@),
{
    str_eq(w, "status") || str_eq(w, "diff") || str_eq(w, "log") || str_eq(w, "add") || str_eq(
        w,
        "commit",
    ) || str_eq(w, "push") || str_eq(w, "pull") || str_eq(w, "branch") || str_eq(w, "fetch")
        || str_eq(w, "stash") || str_eq(w, "show")
}

/// Rewrites `git SUBCOMMAND ...` for the subcommands that `rtk` handles,
/// keeping the whole command.
pub fn try_rewrite_git(cmd: &str, rest: &str) -> (r: Option<String>)
    ensures
        view_opt(r) == git_rewrite(cmd@, rest@),
{
    let subcmd = strip_git_flags(rest);
    let first = first_word_of(subcmd.as_str());
    if is_git_subcommand_exec(first) {
        Some(rtk_prefixed(cmd))
    } else {
        None
    }
}

/// Rewrites `gh pr|issue|run|api|release ...` to `rtk gh ...`.
pub fn try_rewrite_gh(rest: &str, _cmd: &str) -> (r: Option<String>)
    ensures
        view_opt(r) == gh_rewrite(rest@),
{
    let subcmd = first_word_of(rest);
    if str_eq(subcmd, "pr") || str_eq(subcmd, "issue") || str_eq(subcmd, "run") || str_eq(
        subcmd,
        "api",
    ) || str_eq(subcmd, "release") {
        Some(concat2("rtk gh ", rest))
    } else {
        None
    }
}

fn is_cargo_subcommand_exec(w: &str) -> (r: bool)
    ensures
        r == is_cargo_subcommand(w@),
{
    str_eq(w, "test") || str_eq(w, "build") || str_eq(w, "clippy") || str_eq(w, "check")
        || str_eq(w, "install") || str_eq(w, "fmt") || str_eq(w, "nextest")
}

/// Rewrites `cargo [+toolchain] SUBCOMMAND ...` for the subcommands that
/// `rtk` handles, keeping the whole command.
pub fn try_rewrite_cargo(cmd: &str, rest: &str) -> (r: Option<String>)
    ensures
        view_opt(r) == cargo_rewrite(cmd@, rest@),
{
    let effective = if starts_with_char(rest, '+') {
        let ws = split_words(rest);
        if ws.len() == 0 {
            proof {
                assert(skip_first(views(ws@)).skip(0) =~= views(ws@));
            }
            join_with_spaces(&ws)
        } else {
            proof {
                assert(skip_first(views(ws@)) =~= views(ws@).skip(1));
            }
            join_with_spaces_from(&ws, 1)
        }
    } else {
        String::from_str(rest)
    };
    let subcmd = first_word_of(effective.as_str());
    if is_cargo_subcommand_exec(subcmd) {
        Some(rtk_prefixed(cmd))
    } else {
        None
    }
}

/// The line count of a `head` option (`-N` or `--lines=N`), if it is one.
fn head_line_count(opt: &str) -> (r: Option<&str>)
    ensures
        match r {
            Some(n) => head_count(opt@) == Some(n@),
            None => head_count(opt@) is None,
        },
{
    if starts_with_char(opt, '-') {
        let n = skip_chars(opt, 1);
        proof {
            assert(opt@.skip(1) =~= opt@.drop_first());
        }
        if is_all_ascii_digits(n) {
            return Some(n);
        }
    }
    let p = "--lines=";
    if starts_with(opt, p) {
        let n = skip_chars(opt, p.unicode_len());
        if is_all_ascii_digits(n) {
            return Some(n);
        }
    }
    None
}

/// Rewrites `head -N FILE` and `head --lines=N FILE` to
/// `rtk read FILE --max-lines N`.
pub fn try_rewrite_head(rest: &str) -> (r: Option<String>)
    ensures
        view_opt(r) == head_rewrite(rest@),
{
    let parts = split_words(rest);
    if parts.len() >= 2 {
        match head_line_count(parts[0]) {
            Some(n) => {
                let file = join_with_spaces_from(&parts, 1);
                proof {
                    assert(views(parts@).skip(1) =~= views(parts@).drop_first());
                }
                let mut out = concat3("rtk read ", file.as_str(), " --max-lines ");
                out.append(n);
                Some(out)
            },
            None => None,
        }
    } else {
        None
    }
}

/// `rtk vitest` with `run` added unless the arguments begin with it.
fn vitest_run_command(args: &str) -> (r: String)
    ensures
        r@ == vitest_command(args@),
{
    if args.is_empty() {
        String::from_str("rtk vitest run")
    } else if starts_with(args, "run") {
        concat2("rtk vitest ", args)
    } else {
        concat2("rtk vitest run ", args)
    }
}

/// Rewrites `vitest ...` to `rtk vitest run ...` (without doubling `run`).
pub fn try_rewrite_vitest(cmd: &str) -> (r: Option<String>)
    ensures
        view_opt(r) == vitest_rewrite(cmd@),
{
    let p = "vitest";
    let args = if starts_with(cmd, p) {
        trim_start_ws(skip_chars(cmd, p.unicode_len()))
    } else {
        proof {
            reveal_strlit("");
        }
        ""
    };
    Some(vitest_run_command(args))
}

/// Rewrites `npx TOOL ...` for the JavaScript tools that `rtk` handles.
pub fn try_rewrite_npx(rest: &str) -> (r: Option<String>)
    ensures
        view_opt(r) == npx_rewrite(rest@),
{
    let tool = first_word_of(rest);
    let tool_rest = rest_after_first_word(rest);
    if str_eq(tool, "vitest") {
        Some(vitest_run_command(tool_rest))
    } else if str_eq(tool, "vue-tsc") || str_eq(tool, "tsc") {
        Some(with_spaced_tail("rtk tsc", tool_rest))
    } else if str_eq(tool, "eslint") {
        Some(with_spaced_tail("rtk lint", tool_rest))
    } else if str_eq(tool, "prettier") {
        Some(with_spaced_tail("rtk prettier", tool_rest))
    } else if str_eq(tool, "playwright") {
        Some(with_spaced_tail("rtk playwright", tool_rest))
    } else if str_eq(tool, "prisma") {
        Some(with_spaced_tail("rtk prisma", tool_rest))
    } else {
        None
    }
}

/// Rewrites `pnpm SUBCOMMAND ...` for the subcommands that `rtk` handles.
pub fn try_rewrite_pnpm(rest: &str) -> (r: Option<String>)
    ensures
        view_opt(r) == pnpm_rewrite(rest@),
{
    let subcmd = first_word_of(rest);
    let sub_rest = rest_after_first_word(rest);
    if str_eq(subcmd, "vitest") {
        Some(vitest_run_command(sub_rest))
    } else if str_eq(subcmd, "test") {
        Some(with_spaced_tail("rtk vitest run", sub_rest))
    } else if str_eq(subcmd, "tsc") {
        Some(with_spaced_tail("rtk tsc", sub_rest))
    } else if str_eq(subcmd, "lint") {
        Some(with_spaced_tail("rtk lint", sub_rest))
    } else if str_eq(subcmd, "playwright") {
        Some(with_spaced_tail("rtk playwright", sub_rest))
    } else if str_eq(subcmd, "list") || str_eq(subcmd, "ls") || str_eq(subcmd, "outdated") {
        Some(concat2("rtk pnpm ", rest))
    } else {
        None
    }
}

/// Rewrites `npm test ...` and `npm run ...`.
pub fn try_rewrite_npm(rest: &str) -> (r: Option<String>)
    ensures
        view_opt(r) == npm_rewrite(rest@),
{
    let subcmd = first_word_of(rest);
    let sub_rest = rest_after_first_word(rest);
    if str_eq(subcmd, "test") {
        Some(with_spaced_tail("rtk npm test", sub_rest))
    } else if str_eq(subcmd, "run") {
        Some(concat2("rtk npm ", sub_rest))
    } else {
        None
    }
}

fn is_docker_subcommand_exec(w: &str) -> (r: bool)
    ensures
        r == is_docker_subcommand(w@),
{
    str_eq(w, "compose") || str_eq(w, "ps") || str_eq(w, "images") || str_eq(w, "logs") || str_eq(
        w,
        "run",
    ) || str_eq(w, "build") || str_eq(w, "exec")
}

/// Rewrites `docker SUBCOMMAND ...` for the subcommands that `rtk` handles,
/// keeping the whole command.
pub fn try_rewrite_docker(rest: &str, cmd: &str) -> (r: Option<String>)
    ensures
        view_opt(r) == docker_rewrite(rest@, cmd@),
{
    let subcmd = first_word_of(rest);
    if is_docker_subcommand_exec(subcmd) {
        Some(rtk_prefixed(cmd))
    } else {
        None
    }
}

/// Rewrites `kubectl [flags] get|logs|describe|apply ...`, keeping the whole
/// command.
pub fn try_rewrite_kubectl(rest: &str, cmd: &str) -> (r: Option<String>)
    ensures
        view_opt(r) == kubectl_rewrite(rest@, cmd@),
{
    let subcmd = strip_kubectl_flags(rest);
    let first = first_word_of(subcmd.as_str());
    if str_eq(first, "get") || str_eq(first, "logs") || str_eq(first, "describe") || str_eq(
        first,
        "apply",
    ) {
        Some(rtk_prefixed(cmd))
    } else {
        None
    }
}

/// Rewrites `python -m pytest ...` to `rtk pytest ...`.
pub fn try_rewrite_python(rest: &str) -> (r: Option<String>)
    ensures
        view_opt(r) == python_rewrite(rest@),
{
    let p = "-m pytest ";
    if str_eq(rest, "-m pytest") {
        Some(String::from_str("rtk pytest"))
    } else if starts_with(rest, p) {
        let pytest_rest = skip_chars(rest, p.unicode_len());
        Some(with_spaced_tail("rtk pytest", pytest_rest))
    } else {
        None
    }
}

/// Rewrites `ruff check ...` and `ruff format ...`.
pub fn try_rewrite_ruff(rest: &str) -> (r: Option<String>)
    ensures
        view_opt(r) == ruff_rewrite(rest@),
{
    let subcmd = first_word_of(rest);
    if str_eq(subcmd, "check") || str_eq(subcmd, "format") {
        Some(concat2("rtk ruff ", rest))
    } else {
        None
    }
}

fn is_pip_subcommand_exec(w: &str) -> (r: bool)
    ensures
        r == is_pip_subcommand(w@),
{
    str_eq(w, "list") || str_eq(w, "outdated") || str_eq(w, "install") || str_eq(w, "show")
}

/// Rewrites `pip list|outdated|install|show ...` to `rtk pip ...`.
pub fn try_rewrite_pip(rest: &str, _cmd: &str) -> (r: Option<String>)
    ensures
        view_opt(r) == pip_rewrite(rest@),
{
    let subcmd = first_word_of(rest);
    if is_pip_subcommand_exec(subcmd) {
        Some(concat2("rtk pip ", rest))
    } else {
        None
    }
}

/// Rewrites `uv pip list|outdated|install|show ...` to `rtk pip ...`.
pub fn try_rewrite_uv(rest: &str) -> (r: Option<String>)
    ensures
        view_opt(r) == uv_rewrite(rest@),
{
    let p = "pip ";
    if starts_with(rest, p) {
        let pip_rest = skip_chars(rest, p.unicode_len());
        let subcmd = first_word_of(pip_rest);
        if is_pip_subcommand_exec(subcmd) {
            Some(concat2("rtk pip ", pip_rest))
        } else {
            None
        }
    } else {
        None
    }
}

/// Rewrites `go test|build|vet ...`, keeping the whole command.
pub fn try_rewrite_go(rest: &str, cmd: &str) -> (r: Option<String>)
    ensures
        view_opt(r) == go_rewrite(rest@, cmd@),
{
    let subcmd = first_word_of(rest);
    if str_eq(subcmd, "test") || str_eq(subcmd, "build") || str_eq(subcmd, "vet") {
        Some(rtk_prefixed(cmd))
    } else {
        None
    }
}

/// Whether rewriting `cmd` would slice it at a byte offset that is no
/// character boundary (the inputs on which the rewrite is undefined).
pub fn rewrite_slices_at_non_boundary(cmd: &str) -> (r: bool)
    ensures
        r == rewrite_slices_badly(cmd@),
{
    let first = first_word_of(cmd);
    (str_eq(first, "ls") && suffix_from_byte(cmd, 2).is_none()) || (str_eq(first, "tree")
        && suffix_from_byte(cmd, 4).is_none())
}

/// `head` followed by the text of `cmd` from byte offset `b` on.
fn rtk_with_byte_suffix(head: &str, cmd: &str, b: u128) -> (r: String)
    requires
        byte_suffix(cmd@, b as int) is Some,
    ensures
        r@ == head@ + byte_suffix(cmd@, b as int).unwrap(),
{
    match suffix_from_byte(cmd, b) {
        Some(t) => concat2(head, t),
        None => String::new(),
    }
}

/// Try to rewrite a command to its rtk equivalent. Returns None if no rewrite.
#[verifier::rlimit(40)]
pub fn try_rewrite(cmd: &str) -> (r: Option<String>)
    requires
        !rewrite_slices_badly(cmd@),
    ensures
        view_opt(r) == command_rewrite(cmd@),
{
    let first_word = first_word_of(cmd);
    let rest = rest_after_first_word(cmd);
    if str_eq(first_word, "git") {
        try_rewrite_git(cmd, rest)
    } else if str_eq(first_word, "gh") {
        try_rewrite_gh(rest, cmd)
    } else if str_eq(first_word, "cargo") {
        try_rewrite_cargo(cmd, rest)
    } else if str_eq(first_word, "cat") {
        Some(concat2("rtk read ", rest))
    } else if str_eq(first_word, "rg") || str_eq(first_word, "grep") {
        Some(concat2("rtk grep ", rest))
    } else if str_eq(first_word, "ls") {
        Some(rtk_with_byte_suffix("rtk ls", cmd, 2))
    } else if str_eq(first_word, "tree") {
        Some(rtk_with_byte_suffix("rtk tree", cmd, 4))
    } else if str_eq(first_word, "find") {
        Some(concat2("rtk find ", rest))
    } else if str_eq(first_word, "diff") {
        Some(concat2("rtk diff ", rest))
    } else if str_eq(first_word, "head") {
        try_rewrite_head(rest)
    } else if str_eq(first_word, "vitest") {
        try_rewrite_vitest(cmd)
    } else if str_eq(first_word, "npx") {
        try_rewrite_npx(rest)
    } else if str_eq(first_word, "pnpm") {
        try_rewrite_pnpm(rest)
    } else if str_eq(first_word, "npm") {
        try_rewrite_npm(rest)
    } else if str_eq(first_word, "vue-tsc") || str_eq(first_word, "tsc") {
        Some(with_spaced_tail("rtk tsc", rest))
    } else if str_eq(first_word, "eslint") {
        Some(with_spaced_tail("rtk lint", rest))
    } else if str_eq(first_word, "prettier") {
        Some(with_spaced_tail("rtk prettier", rest))
    } else if str_eq(first_word, "playwright") {
        Some(with_spaced_tail("rtk playwright", rest))
    } else if str_eq(first_word, "prisma") {
        Some(with_spaced_tail("rtk prisma", rest))
    } else if str_eq(first_word, "docker") {
        try_rewrite_docker(rest, cmd)
    } else if str_eq(first_word, "kubectl") {
        try_rewrite_kubectl(rest, cmd)
    } else if str_eq(first_word, "curl") {
        Some(concat2("rtk curl ", rest))
    } else if str_eq(first_word, "wget") {
        Some(concat2("rtk wget ", rest))
    } else if str_eq(first_word, "pytest") {
        Some(with_spaced_tail("rtk pytest", rest))
    } else if str_eq(first_word, "python") {
        try_rewrite_python(rest)
    } else if str_eq(first_word, "ruff") {
        try_rewrite_ruff(rest)
    } else if str_eq(first_word, "pip") {
        try_rewrite_pip(rest, cmd)
    } else if str_eq(first_word, "uv") {
        try_rewrite_uv(rest)
    } else if str_eq(first_word, "go") {
        try_rewrite_go(rest, cmd)
    } else if str_eq(first_word, "golangci-lint") {
        Some(with_spaced_tail("rtk golangci-lint", rest))
    } else {
        None
    }
}

proof fn lemma_prefix_extends(a: Seq<char>, b: Seq<char>, p: Seq<char>)
    requires
        has_prefix(a, p),
    ensures
        has_prefix(a + b, p),
{
    assert((a + b).subrange(0, p.len() as int) =~= a.subrange(0, p.len() as int));
}

proof fn lemma_rtk_literal(lit: Seq<char>)
    requires
        lit.len() >= 4,
        lit[0] == 'r',
        lit[1] == 't',
        lit[2] == 'k',
        lit[3] == ' ',
    ensures
        has_prefix(lit, "rtk "@),
{
    reveal_strlit("rtk ");
    assert(lit.subrange(0, 4) =~= "rtk "@);
}

/// Every output literal of the rewrite begins with `rtk `, and anything
/// appended to a text that begins with `rtk ` still does.
proof fn lemma_output_literals()
    ensures
        forall|a: Seq<char>, b: Seq<char>|
            has_prefix(a, "rtk "@) ==> #[trigger] has_prefix(a + b, "rtk "@),
        has_prefix("rtk "@, "rtk "@),
        has_prefix("rtk gh "@, "rtk "@),
        has_prefix("rtk read "@, "rtk "@),
        has_prefix("rtk grep "@, "rtk "@),
        has_prefix("rtk ls"@, "rtk "@),
        has_prefix("rtk tree"@, "rtk "@),
        has_prefix("rtk find "@, "rtk "@),
        has_prefix("rtk diff "@, "rtk "@),
        has_prefix("rtk vitest run"@, "rtk "@),
        has_prefix("rtk vitest "@, "rtk "@),
        has_prefix("rtk vitest run "@, "rtk "@),
        has_prefix("rtk tsc"@, "rtk "@),
        has_prefix("rtk lint"@, "rtk "@),
        has_prefix("rtk prettier"@, "rtk "@),
        has_prefix("rtk playwright"@, "rtk "@),
        has_prefix("rtk prisma"@, "rtk "@),
        has_prefix("rtk pnpm "@, "rtk "@),
        has_prefix("rtk npm test"@, "rtk "@),
        has_prefix("rtk npm "@, "rtk "@),
        has_prefix("rtk curl "@, "rtk "@),
        has_prefix("rtk wget "@, "rtk "@),
        has_prefix("rtk pytest"@, "rtk "@),
        has_prefix("rtk ruff "@, "rtk "@),
        has_prefix("rtk pip "@, "rtk "@),
        has_prefix("rtk golangci-lint"@, "rtk "@),
{
    assert forall|a: Seq<char>, b: Seq<char>| has_prefix(a, "rtk "@) implies #[trigger] has_prefix(
        a + b,
        "rtk "@,
    ) by {
        lemma_prefix_extends(a, b, "rtk "@);
    }
    reveal_strlit("rtk ");
    lemma_rtk_literal("rtk "@);
    reveal_strlit("rtk gh ");
    lemma_rtk_literal("rtk gh "@);
    reveal_strlit("rtk read ");
    lemma_rtk_literal("rtk read "@);
    reveal_strlit("rtk grep ");
    lemma_rtk_literal("rtk grep "@);
    reveal_strlit("rtk ls");
    lemma_rtk_literal("rtk ls"@);
    reveal_strlit("rtk tree");
    lemma_rtk_literal("rtk tree"@);
    reveal_strlit("rtk find ");
    lemma_rtk_literal("rtk find "@);
    reveal_strlit("rtk diff ");
    lemma_rtk_literal("rtk diff "@);
    reveal_strlit("rtk vitest run");
    lemma_rtk_literal("rtk vitest run"@);
    reveal_strlit("rtk vitest ");
    lemma_rtk_literal("rtk vitest "@);
    reveal_strlit("rtk vitest run ");
    lemma_rtk_literal("rtk vitest run "@);
    reveal_strlit("rtk tsc");
    lemma_rtk_literal("rtk tsc"@);
    reveal_strlit("rtk lint");
    lemma_rtk_literal("rtk lint"@);
    reveal_strlit("rtk prettier");
    lemma_rtk_literal("rtk prettier"@);
    reveal_strlit("rtk playwright");
    lemma_rtk_literal("rtk playwright"@);
    reveal_strlit("rtk prisma");
    lemma_rtk_literal("rtk prisma"@);
    reveal_strlit("rtk pnpm ");
    lemma_rtk_literal("rtk pnpm "@);
    reveal_strlit("rtk npm test");
    lemma_rtk_literal("rtk npm test"@);
    reveal_strlit("rtk npm ");
    lemma_rtk_literal("rtk npm "@);
    reveal_strlit("rtk curl ");
    lemma_rtk_literal("rtk curl "@);
    reveal_strlit("rtk wget ");
    lemma_rtk_literal("rtk wget "@);
    reveal_strlit("rtk pytest");
    lemma_rtk_literal("rtk pytest"@);
    reveal_strlit("rtk ruff ");
    lemma_rtk_literal("rtk ruff "@);
    reveal_strlit("rtk pip ");
    lemma_rtk_literal("rtk pip "@);
    reveal_strlit("rtk golangci-lint");
    lemma_rtk_literal("rtk golangci-lint"@);
}

/// Every rewritten command begins with `rtk `.
pub proof fn law_rewrite_starts_with_rtk(cmd: Seq<char>)
    ensures
        command_rewrite(cmd) matches Some(r) ==> has_prefix(r, "rtk "@),
{
    lemma_output_literals();
}

/// The first word of a text that begins with `rtk ` is `rtk`.
proof fn lemma_first_word_of_rtk(s: Seq<char>)
    requires
        has_prefix(s, "rtk "@),
    ensures
        first_word(s) == "rtk"@,
{
    reveal_strlit("rtk ");
    reveal_strlit("rtk");
    assert(s[0] == s.subrange(0, 4)[0]);
    assert(s[1] == s.subrange(0, 4)[1]);
    assert(s[2] == s.subrange(0, 4)[2]);
    assert(s[3] == s.subrange(0, 4)[3]);
    assert(skip_ws(s, 0) == 0);
    assert(word_end(s, 3) == 3);
    assert(word_end(s, 2) == 3);
    assert(word_end(s, 1) == 3);
    assert(word_end(s, 0) == 3);
    assert(s.subrange(0, 3) =~= "rtk"@);
}

/// The characters of the tool names that the rewrite dispatches on.
proof fn lemma_tool_names()
    ensures
        "git"@ == seq!['g', 'i', 't'],
        "gh"@ == seq!['g', 'h'],
        "cargo"@ == seq!['c', 'a', 'r', 'g', 'o'],
        "cat"@ == seq!['c', 'a', 't'],
        "rg"@ == seq!['r', 'g'],
        "grep"@ == seq!['g', 'r', 'e', 'p'],
        "ls"@ == seq!['l', 's'],
        "tree"@ == seq!['t', 'r', 'e', 'e'],
        "find"@ == seq!['f', 'i', 'n', 'd'],
        "diff"@ == seq!['d', 'i', 'f', 'f'],
        "head"@ == seq!['h', 'e', 'a', 'd'],
        "vitest"@ == seq!['v', 'i', 't', 'e', 's', 't'],
        "npx"@ == seq!['n', 'p', 'x'],
        "pnpm"@ == seq!['p', 'n', 'p', 'm'],
        "npm"@ == seq!['n', 'p', 'm'],
        "vue-tsc"@ == seq!['v', 'u', 'e', '-', 't', 's', 'c'],
        "tsc"@ == seq!['t', 's', 'c'],
        "eslint"@ == seq!['e', 's', 'l', 'i', 'n', 't'],
        "prettier"@ == seq!['p', 'r', 'e', 't', 't', 'i', 'e', 'r'],
        "playwright"@ == seq!['p', 'l', 'a', 'y', 'w', 'r', 'i', 'g', 'h', 't'],
        "prisma"@ == seq!['p', 'r', 'i', 's', 'm', 'a'],
        "docker"@ == seq!['d', 'o', 'c', 'k', 'e', 'r'],
        "kubectl"@ == seq!['k', 'u', 'b', 'e', 'c', 't', 'l'],
        "curl"@ == seq!['c', 'u', 'r', 'l'],
        "wget"@ == seq!['w', 'g', 'e', 't'],
        "pytest"@ == seq!['p', 'y', 't', 'e', 's', 't'],
        "python"@ == seq!['p', 'y', 't', 'h', 'o', 'n'],
        "ruff"@ == seq!['r', 'u', 'f', 'f'],
        "pip"@ == seq!['p', 'i', 'p'],
        "uv"@ == seq!['u', 'v'],
        "go"@ == seq!['g', 'o'],
        "golangci-lint"@ == seq!['g', 'o', 'l', 'a', 'n', 'g', 'c', 'i', '-', 'l', 'i', 'n', 't'],
        "rtk"@ == seq!['r', 't', 'k'],
{
    reveal_strlit("git");
    reveal_strlit("gh");
    reveal_strlit("cargo");
    reveal_strlit("cat");
    reveal_strlit("rg");
    reveal_strlit("grep");
    reveal_strlit("ls");
    reveal_strlit("tree");
    reveal_strlit("find");
    reveal_strlit("diff");
    reveal_strlit("head");
    reveal_strlit("vitest");
    reveal_strlit("npx");
    reveal_strlit("pnpm");
    reveal_strlit("npm");
    reveal_strlit("vue-tsc");
    reveal_strlit("tsc");
    reveal_strlit("eslint");
    reveal_strlit("prettier");
    reveal_strlit("playwright");
    reveal_strlit("prisma");
    reveal_strlit("docker");
    reveal_strlit("kubectl");
    reveal_strlit("curl");
    reveal_strlit("wget");
    reveal_strlit("pytest");
    reveal_strlit("python");
    reveal_strlit("ruff");
    reveal_strlit("pip");
    reveal_strlit("uv");
    reveal_strlit("go");
    reveal_strlit("golangci-lint");
    reveal_strlit("rtk");
    assert("git"@ =~= seq!['g', 'i', 't']);
    assert("gh"@ =~= seq!['g', 'h']);
    assert("cargo"@ =~= seq!['c', 'a', 'r', 'g', 'o']);
    assert("cat"@ =~= seq!['c', 'a', 't']);
    assert("rg"@ =~= seq!['r', 'g']);
    assert("grep"@ =~= seq!['g', 'r', 'e', 'p']);
    assert("ls"@ =~= seq!['l', 's']);
    assert("tree"@ =~= seq!['t', 'r', 'e', 'e']);
    assert("find"@ =~= seq!['f', 'i', 'n', 'd']);
    assert("diff"@ =~= seq!['d', 'i', 'f', 'f']);
    assert("head"@ =~= seq!['h', 'e', 'a', 'd']);
    assert("vitest"@ =~= seq!['v', 'i', 't', 'e', 's', 't']);
    assert("npx"@ =~= seq!['n', 'p', 'x']);
    assert("pnpm"@ =~= seq!['p', 'n', 'p', 'm']);
    assert("npm"@ =~= seq!['n', 'p', 'm']);
    assert("vue-tsc"@ =~= seq!['v', 'u', 'e', '-', 't', 's', 'c']);
    assert("tsc"@ =~= seq!['t', 's', 'c']);
    assert("eslint"@ =~= seq!['e', 's', 'l', 'i', 'n', 't']);
    assert("prettier"@ =~= seq!['p', 'r', 'e', 't', 't', 'i', 'e', 'r']);
    assert("playwright"@ =~= seq!['p', 'l', 'a', 'y', 'w', 'r', 'i', 'g', 'h', 't']);
    assert("prisma"@ =~= seq!['p', 'r', 'i', 's', 'm', 'a']);
    assert("docker"@ =~= seq!['d', 'o', 'c', 'k', 'e', 'r']);
    assert("kubectl"@ =~= seq!['k', 'u', 'b', 'e', 'c', 't', 'l']);
    assert("curl"@ =~= seq!['c', 'u', 'r', 'l']);
    assert("wget"@ =~= seq!['w', 'g', 'e', 't']);
    assert("pytest"@ =~= seq!['p', 'y', 't', 'e', 's', 't']);
    assert("python"@ =~= seq!['p', 'y', 't', 'h', 'o', 'n']);
    assert("ruff"@ =~= seq!['r', 'u', 'f', 'f']);
    assert("pip"@ =~= seq!['p', 'i', 'p']);
    assert("uv"@ =~= seq!['u', 'v']);
    assert("go"@ =~= seq!['g', 'o']);
    assert("golangci-lint"@ =~= seq!['g', 'o', 'l', 'a', 'n', 'g', 'c', 'i', '-', 'l', 'i', 'n', 't']);
    assert("rtk"@ =~= seq!['r', 't', 'k']);
}

/// A command whose first word is `rtk` has no rewrite.
proof fn lemma_rtk_word_not_rewritten(cmd: Seq<char>)
    requires
        first_word(cmd) == "rtk"@,
    ensures
        command_rewrite(cmd) is None,
        !rewrite_slices_badly(cmd),
{
    lemma_tool_names();
}

/// A rewritten command is not rewritten again.
pub proof fn law_rewrite_not_repeated(cmd: Seq<char>)
    ensures
        command_rewrite(cmd) matches Some(r) ==> {
            &&& command_rewrite(r) is None
            &&& !rewrite_slices_badly(r)
        },
{
    law_rewrite_starts_with_rtk(cmd);
    if let Some(r) = command_rewrite(cmd) {
        lemma_first_word_of_rtk(r);
        lemma_rtk_word_not_rewritten(r);
    }
}

/// For `git`, `cargo`, `docker`, `kubectl` and `go`, a rewrite is the whole
/// command, verbatim, after `rtk `.
pub proof fn law_passthrough_keeps_command(cmd: Seq<char>)
    requires
        first_word(cmd) == "git"@ || first_word(cmd) == "cargo"@ || first_word(cmd) == "docker"@
            || first_word(cmd) == "kubectl"@ || first_word(cmd) == "go"@,
    ensures
        command_rewrite(cmd) matches Some(r) ==> r == rtk_of(cmd),
{
    lemma_tool_names();
}

proof fn lemma_git_kept_props(ws: Seq<Seq<char>>, i: int)
    requires
        0 <= i,
        forall|k: int| 0 <= k < ws.len() ==> is_word(#[trigger] ws[k]),
    ensures
        forall|k: int|
            0 <= k < git_kept_from(ws, i).len() ==> {
                &&& is_word(#[trigger] git_kept_from(ws, i)[k])
                &&& !is_git_value_flag(git_kept_from(ws, i)[k])
                &&& !is_key_value_flag(git_kept_from(ws, i)[k])
                &&& !is_git_bool_flag(git_kept_from(ws, i)[k])
            },
    decreases ws.len() - i,
{
    if i >= ws.len() {
        assert(git_kept_from(ws, i) =~= Seq::<Seq<char>>::empty());
    } else {
        if is_git_value_flag(ws[i]) {
            if i + 2 <= ws.len() {
                lemma_git_kept_props(ws, i + 2);
                assert(git_kept_from(ws, i) == git_kept_from(ws, i + 2));
            } else {
                assert(git_kept_from(ws, i) =~= Seq::<Seq<char>>::empty());
            }
        } else if is_key_value_flag(ws[i]) || is_git_bool_flag(ws[i]) {
            lemma_git_kept_props(ws, i + 1);
            assert(git_kept_from(ws, i) == git_kept_from(ws, i + 1));
        } else {
            lemma_git_kept_props(ws, i + 1);
            assert(is_word(ws[i]));
            let kept = git_kept_from(ws, i);
            assert forall|k: int| 0 <= k < kept.len() implies {
                &&& is_word(#[trigger] kept[k])
                &&& !is_git_value_flag(kept[k])
                &&& !is_key_value_flag(kept[k])
                &&& !is_git_bool_flag(kept[k])
            } by {
                if k > 0 {
                    assert(kept[k] == git_kept_from(ws, i + 1)[k - 1]);
                } else {
                    assert(kept[k] == ws[i]);
                }
            }
        }
    }
}

proof fn lemma_git_kept_unchanged(ws: Seq<Seq<char>>, i: int)
    requires
        0 <= i <= ws.len(),
        forall|k: int|
            0 <= k < ws.len() ==> !is_git_value_flag(#[trigger] ws[k]) && !is_key_value_flag(ws[k])
                && !is_git_bool_flag(ws[k]),
    ensures
        git_kept_from(ws, i) == ws.skip(i),
    decreases ws.len() - i,
{
    if i < ws.len() {
        lemma_git_kept_unchanged(ws, i + 1);
        assert(ws.skip(i) =~= seq![ws[i]] + ws.skip(i + 1));
    } else {
        assert(ws.skip(i) =~= Seq::<Seq<char>>::empty());
    }
}

/// Stripping git's global flags is idempotent, and what it leaves has no
/// leading, trailing or doubled spaces.
pub proof fn law_git_flags_stripped_idempotent(s: Seq<char>)
    ensures
        git_flags_stripped(git_flags_stripped(s)) == git_flags_stripped(s),
        single_spaced(git_flags_stripped(s)),
{
    lemma_words_are_words(s, 0);
    let kept = git_kept_from(words(s), 0);
    lemma_git_kept_props(words(s), 0);
    lemma_join_single_spaced(kept);
    lemma_words_of_join(kept);
    lemma_git_kept_unchanged(kept, 0);
    assert(kept.skip(0) =~= kept);
}

proof fn lemma_kubectl_kept_props(ws: Seq<Seq<char>>, i: int)
    requires
        0 <= i,
        forall|k: int| 0 <= k < ws.len() ==> is_word(#[trigger] ws[k]),
    ensures
        forall|k: int|
            0 <= k < kubectl_kept_from(ws, i).len() ==> {
                &&& is_word(#[trigger] kubectl_kept_from(ws, i)[k])
                &&& !is_kubectl_value_flag(kubectl_kept_from(ws, i)[k])
                &&& !is_key_value_flag(kubectl_kept_from(ws, i)[k])
            },
    decreases ws.len() - i,
{
    if i >= ws.len() {
        assert(kubectl_kept_from(ws, i) =~= Seq::<Seq<char>>::empty());
    } else {
        if is_kubectl_value_flag(ws[i]) {
            if i + 2 <= ws.len() {
                lemma_kubectl_kept_props(ws, i + 2);
                assert(kubectl_kept_from(ws, i) == kubectl_kept_from(ws, i + 2));
            } else {
                assert(kubectl_kept_from(ws, i) =~= Seq::<Seq<char>>::empty());
            }
        } else if is_key_value_flag(ws[i]) {
            lemma_kubectl_kept_props(ws, i + 1);
            assert(kubectl_kept_from(ws, i) == kubectl_kept_from(ws, i + 1));
        } else {
            lemma_kubectl_kept_props(ws, i + 1);
            assert(is_word(ws[i]));
            let kept = kubectl_kept_from(ws, i);
            assert forall|k: int| 0 <= k < kept.len() implies {
                &&& is_word(#[trigger] kept[k])
                &&& !is_kubectl_value_flag(kept[k])
                &&& !is_key_value_flag(kept[k])
            } by {
                if k > 0 {
                    assert(kept[k] == kubectl_kept_from(ws, i + 1)[k - 1]);
                } else {
                    assert(kept[k] == ws[i]);
                }
            }
        }
    }
}

proof fn lemma_kubectl_kept_unchanged(ws: Seq<Seq<char>>, i: int)
    requires
        0 <= i <= ws.len(),
        forall|k: int|
            0 <= k < ws.len() ==> !is_kubectl_value_flag(#[trigger] ws[k]) && !is_key_value_flag(
                ws[k],
            ),
    ensures
        kubectl_kept_from(ws, i) == ws.skip(i),
    decreases ws.len() - i,
{
    if i < ws.len() {
        lemma_kubectl_kept_unchanged(ws, i + 1);
        assert(ws.skip(i) =~= seq![ws[i]] + ws.skip(i + 1));
    } else {
        assert(ws.skip(i) =~= Seq::<Seq<char>>::empty());
    }
}

/// Stripping kubectl's global flags is idempotent, and what it leaves has no
/// leading, trailing or doubled spaces.
pub proof fn law_kubectl_flags_stripped_idempotent(s: Seq<char>)
    ensures
        kubectl_flags_stripped(kubectl_flags_stripped(s)) == kubectl_flags_stripped(s),
        single_spaced(kubectl_flags_stripped(s)),
{
    lemma_words_are_words(s, 0);
    let kept = kubectl_kept_from(words(s), 0);
    lemma_kubectl_kept_props(words(s), 0);
    lemma_join_single_spaced(kept);
    lemma_words_of_join(kept);
    lemma_kubectl_kept_unchanged(kept, 0);
    assert(kept.skip(0) =~= kept);
}

/// The characters of the subcommand and flag names that the rewrites test.
proof fn lemma_subcommand_names()
    ensures
        "status"@ == seq!['s', 't', 'a', 't', 'u', 's'],
        "diff"@ == seq!['d', 'i', 'f', 'f'],
        "log"@ == seq!['l', 'o', 'g'],
        "add"@ == seq!['a', 'd', 'd'],
        "commit"@ == seq!['c', 'o', 'm', 'm', 'i', 't'],
        "push"@ == seq!['p', 'u', 's', 'h'],
        "pull"@ == seq!['p', 'u', 'l', 'l'],
        "branch"@ == seq!['b', 'r', 'a', 'n', 'c', 'h'],
        "fetch"@ == seq!['f', 'e', 't', 'c', 'h'],
        "stash"@ == seq!['s', 't', 'a', 's', 'h'],
        "show"@ == seq!['s', 'h', 'o', 'w'],
        "test"@ == seq!['t', 'e', 's', 't'],
        "build"@ == seq!['b', 'u', 'i', 'l', 'd'],
        "clippy"@ == seq!['c', 'l', 'i', 'p', 'p', 'y'],
        "check"@ == seq!['c', 'h', 'e', 'c', 'k'],
        "install"@ == seq!['i', 'n', 's', 't', 'a', 'l', 'l'],
        "fmt"@ == seq!['f', 'm', 't'],
        "nextest"@ == seq!['n', 'e', 'x', 't', 'e', 's', 't'],
        "get"@ == seq!['g', 'e', 't'],
        "logs"@ == seq!['l', 'o', 'g', 's'],
        "describe"@ == seq!['d', 'e', 's', 'c', 'r', 'i', 'b', 'e'],
        "apply"@ == seq!['a', 'p', 'p', 'l', 'y'],
        "vitest"@ == seq!['v', 'i', 't', 'e', 's', 't'],
        "tsc"@ == seq!['t', 's', 'c'],
        "lint"@ == seq!['l', 'i', 'n', 't'],
        "playwright"@ == seq!['p', 'l', 'a', 'y', 'w', 'r', 'i', 'g', 'h', 't'],
        "list"@ == seq!['l', 'i', 's', 't'],
        "ls"@ == seq!['l', 's'],
        "outdated"@ == seq!['o', 'u', 't', 'd', 'a', 't', 'e', 'd'],
        "run"@ == seq!['r', 'u', 'n'],
        "-C"@ == seq!['-', 'C'],
        "-c"@ == seq!['-', 'c'],
        "--"@ == seq!['-', '-'],
        "--no-pager"@ == seq!['-', '-', 'n', 'o', '-', 'p', 'a', 'g', 'e', 'r'],
        "--no-optional-locks"@ == seq!['-', '-', 'n', 'o', '-', 'o', 'p', 't', 'i', 'o', 'n', 'a', 'l', '-', 'l', 'o', 'c', 'k', 's'],
        "--bare"@ == seq!['-', '-', 'b', 'a', 'r', 'e'],
        "--literal-pathspecs"@ == seq!['-', '-', 'l', 'i', 't', 'e', 'r', 'a', 'l', '-', 'p', 'a', 't', 'h', 's', 'p', 'e', 'c', 's'],
        "--context"@ == seq!['-', '-', 'c', 'o', 'n', 't', 'e', 'x', 't'],
        "--kubeconfig"@ == seq!['-', '-', 'k', 'u', 'b', 'e', 'c', 'o', 'n', 'f', 'i', 'g'],
        "--namespace"@ == seq!['-', '-', 'n', 'a', 'm', 'e', 's', 'p', 'a', 'c', 'e'],
        "-n"@ == seq!['-', 'n'],
        "compose"@ == seq!['c', 'o', 'm', 'p', 'o', 's', 'e'],
        "ps"@ == seq!['p', 's'],
        "images"@ == seq!['i', 'm', 'a', 'g', 'e', 's'],
        "exec"@ == seq!['e', 'x', 'e', 'c'],
        "vet"@ == seq!['v', 'e', 't'],
        "pr"@ == seq!['p', 'r'],
        "issue"@ == seq!['i', 's', 's', 'u', 'e'],
        "api"@ == seq!['a', 'p', 'i'],
        "release"@ == seq!['r', 'e', 'l', 'e', 'a', 's', 'e'],
        "format"@ == seq!['f', 'o', 'r', 'm', 'a', 't'],
        "vue-tsc"@ == seq!['v', 'u', 'e', '-', 't', 's', 'c'],
        "eslint"@ == seq!['e', 's', 'l', 'i', 'n', 't'],
        "prettier"@ == seq!['p', 'r', 'e', 't', 't', 'i', 'e', 'r'],
        "prisma"@ == seq!['p', 'r', 'i', 's', 'm', 'a'],
        "-m pytest"@ == seq!['-', 'm', ' ', 'p', 'y', 't', 'e', 's', 't'],
        "-m pytest "@ == seq!['-', 'm', ' ', 'p', 'y', 't', 'e', 's', 't', ' '],
        "pip "@ == seq!['p', 'i', 'p', ' '],
{
    reveal_strlit("compose");
    assert("compose"@ =~= seq!['c', 'o', 'm', 'p', 'o', 's', 'e']);
    reveal_strlit("ps");
    assert("ps"@ =~= seq!['p', 's']);
    reveal_strlit("images");
    assert("images"@ =~= seq!['i', 'm', 'a', 'g', 'e', 's']);
    reveal_strlit("exec");
    assert("exec"@ =~= seq!['e', 'x', 'e', 'c']);
    reveal_strlit("vet");
    assert("vet"@ =~= seq!['v', 'e', 't']);
    reveal_strlit("pr");
    assert("pr"@ =~= seq!['p', 'r']);
    reveal_strlit("issue");
    assert("issue"@ =~= seq!['i', 's', 's', 'u', 'e']);
    reveal_strlit("api");
    assert("api"@ =~= seq!['a', 'p', 'i']);
    reveal_strlit("release");
    assert("release"@ =~= seq!['r', 'e', 'l', 'e', 'a', 's', 'e']);
    reveal_strlit("format");
    assert("format"@ =~= seq!['f', 'o', 'r', 'm', 'a', 't']);
    reveal_strlit("vue-tsc");
    assert("vue-tsc"@ =~= seq!['v', 'u', 'e', '-', 't', 's', 'c']);
    reveal_strlit("eslint");
    assert("eslint"@ =~= seq!['e', 's', 'l', 'i', 'n', 't']);
    reveal_strlit("prettier");
    assert("prettier"@ =~= seq!['p', 'r', 'e', 't', 't', 'i', 'e', 'r']);
    reveal_strlit("prisma");
    assert("prisma"@ =~= seq!['p', 'r', 'i', 's', 'm', 'a']);
    reveal_strlit("-m pytest");
    assert("-m pytest"@ =~= seq!['-', 'm', ' ', 'p', 'y', 't', 'e', 's', 't']);
    reveal_strlit("-m pytest ");
    assert("-m pytest "@ =~= seq!['-', 'm', ' ', 'p', 'y', 't', 'e', 's', 't', ' ']);
    reveal_strlit("pip ");
    assert("pip "@ =~= seq!['p', 'i', 'p', ' ']);
    reveal_strlit("status");
    reveal_strlit("diff");
    reveal_strlit("log");
    reveal_strlit("add");
    reveal_strlit("commit");
    reveal_strlit("push");
    reveal_strlit("pull");
    reveal_strlit("branch");
    reveal_strlit("fetch");
    reveal_strlit("stash");
    reveal_strlit("show");
    reveal_strlit("test");
    reveal_strlit("build");
    reveal_strlit("clippy");
    reveal_strlit("check");
    reveal_strlit("install");
    reveal_strlit("fmt");
    reveal_strlit("nextest");
    reveal_strlit("get");
    reveal_strlit("logs");
    reveal_strlit("describe");
    reveal_strlit("apply");
    reveal_strlit("vitest");
    reveal_strlit("tsc");
    reveal_strlit("lint");
    reveal_strlit("playwright");
    reveal_strlit("list");
    reveal_strlit("ls");
    reveal_strlit("outdated");
    reveal_strlit("run");
    reveal_strlit("-C");
    reveal_strlit("-c");
    reveal_strlit("--");
    reveal_strlit("--no-pager");
    reveal_strlit("--no-optional-locks");
    reveal_strlit("--bare");
    reveal_strlit("--literal-pathspecs");
    reveal_strlit("--context");
    reveal_strlit("--kubeconfig");
    reveal_strlit("--namespace");
    reveal_strlit("-n");
    assert("status"@ =~= seq!['s', 't', 'a', 't', 'u', 's']);
    assert("diff"@ =~= seq!['d', 'i', 'f', 'f']);
    assert("log"@ =~= seq!['l', 'o', 'g']);
    assert("add"@ =~= seq!['a', 'd', 'd']);
    assert("commit"@ =~= seq!['c', 'o', 'm', 'm', 'i', 't']);
    assert("push"@ =~= seq!['p', 'u', 's', 'h']);
    assert("pull"@ =~= seq!['p', 'u', 'l', 'l']);
    assert("branch"@ =~= seq!['b', 'r', 'a', 'n', 'c', 'h']);
    assert("fetch"@ =~= seq!['f', 'e', 't', 'c', 'h']);
    assert("stash"@ =~= seq!['s', 't', 'a', 's', 'h']);
    assert("show"@ =~= seq!['s', 'h', 'o', 'w']);
    assert("test"@ =~= seq!['t', 'e', 's', 't']);
    assert("build"@ =~= seq!['b', 'u', 'i', 'l', 'd']);
    assert("clippy"@ =~= seq!['c', 'l', 'i', 'p', 'p', 'y']);
    assert("check"@ =~= seq!['c', 'h', 'e', 'c', 'k']);
    assert("install"@ =~= seq!['i', 'n', 's', 't', 'a', 'l', 'l']);
    assert("fmt"@ =~= seq!['f', 'm', 't']);
    assert("nextest"@ =~= seq!['n', 'e', 'x', 't', 'e', 's', 't']);
    assert("get"@ =~= seq!['g', 'e', 't']);
    assert("logs"@ =~= seq!['l', 'o', 'g', 's']);
    assert("describe"@ =~= seq!['d', 'e', 's', 'c', 'r', 'i', 'b', 'e']);
    assert("apply"@ =~= seq!['a', 'p', 'p', 'l', 'y']);
    assert("vitest"@ =~= seq!['v', 'i', 't', 'e', 's', 't']);
    assert("tsc"@ =~= seq!['t', 's', 'c']);
    assert("lint"@ =~= seq!['l', 'i', 'n', 't']);
    assert("playwright"@ =~= seq!['p', 'l', 'a', 'y', 'w', 'r', 'i', 'g', 'h', 't']);
    assert("list"@ =~= seq!['l', 'i', 's', 't']);
    assert("ls"@ =~= seq!['l', 's']);
    assert("outdated"@ =~= seq!['o', 'u', 't', 'd', 'a', 't', 'e', 'd']);
    assert("run"@ =~= seq!['r', 'u', 'n']);
    assert("-C"@ =~= seq!['-', 'C']);
    assert("-c"@ =~= seq!['-', 'c']);
    assert("--"@ =~= seq!['-', '-']);
    assert("--no-pager"@ =~= seq!['-', '-', 'n', 'o', '-', 'p', 'a', 'g', 'e', 'r']);
    assert("--no-optional-locks"@ =~= seq!['-', '-', 'n', 'o', '-', 'o', 'p', 't', 'i', 'o', 'n', 'a', 'l', '-', 'l', 'o', 'c', 'k', 's']);
    assert("--bare"@ =~= seq!['-', '-', 'b', 'a', 'r', 'e']);
    assert("--literal-pathspecs"@ =~= seq!['-', '-', 'l', 'i', 't', 'e', 'r', 'a', 'l', '-', 'p', 'a', 't', 'h', 's', 'p', 'e', 'c', 's']);
    assert("--context"@ =~= seq!['-', '-', 'c', 'o', 'n', 't', 'e', 'x', 't']);
    assert("--kubeconfig"@ =~= seq!['-', '-', 'k', 'u', 'b', 'e', 'c', 'o', 'n', 'f', 'i', 'g']);
    assert("--namespace"@ =~= seq!['-', '-', 'n', 'a', 'm', 'e', 's', 'p', 'a', 'c', 'e']);
    assert("-n"@ =~= seq!['-', 'n']);
}

/// `git` commands whose subcommand, after git's global flags, is one of
/// `status`, `diff`, `log`, `add`, `commit`, `push`, `pull`, `branch`,
/// `fetch`, `stash`, `show` are rewritten to `rtk ` followed by the whole
/// command.
pub proof fn law_git_subcommands_rewritten(cmd: Seq<char>)
    requires
        first_word(cmd) == "git"@,
        ({
            let sub = first_word(git_flags_stripped(after_first_word(cmd)));
            ||| sub == "status"@
            ||| sub == "diff"@
            ||| sub == "log"@
            ||| sub == "add"@
            ||| sub == "commit"@
            ||| sub == "push"@
            ||| sub == "pull"@
            ||| sub == "branch"@
            ||| sub == "fetch"@
            ||| sub == "stash"@
            ||| sub == "show"@
        }),
    ensures
        command_rewrite(cmd) == Some("rtk "@ + cmd),
{
}

/// `kubectl` commands whose subcommand, after kubectl's global flags, is one
/// of `get`, `logs`, `describe`, `apply` are rewritten to `rtk ` followed by
/// the whole command.
pub proof fn law_kubectl_subcommands_rewritten(cmd: Seq<char>)
    requires
        first_word(cmd) == "kubectl"@,
        ({
            let sub = first_word(kubectl_flags_stripped(after_first_word(cmd)));
            sub == "get"@ || sub == "logs"@ || sub == "describe"@ || sub == "apply"@
        }),
    ensures
        command_rewrite(cmd) == Some("rtk "@ + cmd),
{
    lemma_tool_names();
}

/// `cargo` commands whose subcommand, after an optional `+toolchain` word, is
/// one of `test`, `build`, `clippy`, `check`, `install`, `fmt`, `nextest` are
/// rewritten to `rtk ` followed by the whole command.
pub proof fn law_cargo_subcommands_rewritten(cmd: Seq<char>)
    requires
        first_word(cmd) == "cargo"@,
        ({
            let sub = first_word(cargo_effective(after_first_word(cmd)));
            ||| sub == "test"@
            ||| sub == "build"@
            ||| sub == "clippy"@
            ||| sub == "check"@
            ||| sub == "install"@
            ||| sub == "fmt"@
            ||| sub == "nextest"@
        }),
    ensures
        command_rewrite(cmd) == Some("rtk "@ + cmd),
{
    lemma_tool_names();
}

/// Words that do not begin with `-` are no global flags.
proof fn lemma_dashless_no_flag(w: Seq<char>)
    requires
        w.len() > 0,
        w[0] != '-',
    ensures
        !is_git_value_flag(w),
        !is_key_value_flag(w),
        !is_git_bool_flag(w),
        !is_kubectl_value_flag(w),
{
    lemma_subcommand_names();
    if has_prefix(w, "--"@) {
        assert(w[0] == w.subrange(0, 2)[0]);
    }
}

/// When the first word of `rest` begins with no `-`, it stays the first word
/// once git's global flags are stripped.
proof fn lemma_git_first_word_kept(rest: Seq<char>)
    requires
        first_word(rest).len() > 0,
        first_word(rest)[0] != '-',
    ensures
        first_word(git_flags_stripped(rest)) == first_word(rest),
{
    let ws = words(rest);
    lemma_first_word_is_first_of_words(rest);
    lemma_words_are_words(rest, 0);
    lemma_dashless_no_flag(ws[0]);
    let kept = git_kept_from(ws, 0);
    lemma_git_kept_props(ws, 0);
    assert(kept[0] == ws[0]);
    lemma_first_word_of_join(kept);
}

/// When the first word of `rest` begins with no `-`, it stays the first word
/// once kubectl's global flags are stripped.
proof fn lemma_kubectl_first_word_kept(rest: Seq<char>)
    requires
        first_word(rest).len() > 0,
        first_word(rest)[0] != '-',
    ensures
        first_word(kubectl_flags_stripped(rest)) == first_word(rest),
{
    let ws = words(rest);
    lemma_first_word_is_first_of_words(rest);
    lemma_words_are_words(rest, 0);
    lemma_dashless_no_flag(ws[0]);
    let kept = kubectl_kept_from(ws, 0);
    lemma_kubectl_kept_props(ws, 0);
    assert(kept[0] == ws[0]);
    lemma_first_word_of_join(kept);
}

/// `git SUB ...` with `SUB` one of `status`, `diff`, `log`, `add`, `commit`,
/// `push`, `pull`, `branch`, `fetch`, `stash`, `show` is rewritten to
/// `rtk git SUB ...`, the whole command after `rtk `.
pub proof fn law_git_plain_subcommands_rewritten(cmd: Seq<char>)
    requires
        first_word(cmd) == "git"@,
        ({
            let sub = first_word(after_first_word(cmd));
            ||| sub == "status"@
            ||| sub == "diff"@
            ||| sub == "log"@
            ||| sub == "add"@
            ||| sub == "commit"@
            ||| sub == "push"@
            ||| sub == "pull"@
            ||| sub == "branch"@
            ||| sub == "fetch"@
            ||| sub == "stash"@
            ||| sub == "show"@
        }),
    ensures
        command_rewrite(cmd) == Some("rtk "@ + cmd),
{
    lemma_subcommand_names();
    lemma_git_first_word_kept(after_first_word(cmd));
    law_git_subcommands_rewritten(cmd);
}

/// `kubectl SUB ...` with `SUB` one of `get`, `logs`, `describe`, `apply` is
/// rewritten to `rtk kubectl SUB ...`, the whole command after `rtk `.
pub proof fn law_kubectl_plain_subcommands_rewritten(cmd: Seq<char>)
    requires
        first_word(cmd) == "kubectl"@,
        ({
            let sub = first_word(after_first_word(cmd));
            sub == "get"@ || sub == "logs"@ || sub == "describe"@ || sub == "apply"@
        }),
    ensures
        command_rewrite(cmd) == Some("rtk "@ + cmd),
{
    lemma_subcommand_names();
    lemma_kubectl_first_word_kept(after_first_word(cmd));
    law_kubectl_subcommands_rewritten(cmd);
}

/// `cargo SUB ...` and `cargo +TOOLCHAIN SUB ...` with `SUB` one of `test`,
/// `build`, `clippy`, `check`, `install`, `fmt`, `nextest` are rewritten to
/// `rtk ` followed by the whole command.
pub proof fn law_cargo_plain_subcommands_rewritten(cmd: Seq<char>)
    requires
        first_word(cmd) == "cargo"@,
        ({
            let rest = after_first_word(cmd);
            let sub = if rest.len() > 0 && rest[0] == '+' {
                words(rest)[1]
            } else {
                first_word(rest)
            };
            &&& rest.len() > 0 && rest[0] == '+' ==> words(rest).len() > 1
            &&& {
                ||| sub == "test"@
                ||| sub == "build"@
                ||| sub == "clippy"@
                ||| sub == "check"@
                ||| sub == "install"@
                ||| sub == "fmt"@
                ||| sub == "nextest"@
            }
        }),
    ensures
        command_rewrite(cmd) == Some("rtk "@ + cmd),
{
    let rest = after_first_word(cmd);
    if rest.len() > 0 && rest[0] == '+' {
        let ws = words(rest);
        lemma_words_are_words(rest, 0);
        let tail = skip_first(ws);
        assert(tail[0] == ws[1]);
        lemma_first_word_of_join(tail);
    }
    law_cargo_subcommands_rewritten(cmd);
}

proof fn lemma_rewrite_suffix_facts()
    ensures
        forall|name: Seq<char>, a: Seq<char>| #[trigger] has_suffix(name + spaced(a), a),
        forall|a: Seq<char>| #[trigger] has_suffix(vitest_command(a), a),
{
    lemma_suffix_facts();
    assert forall|name: Seq<char>, a: Seq<char>| #[trigger] has_suffix(name + spaced(a), a) by {
        if a.len() > 0 {
            assert(has_suffix(a, a));
            assert(has_suffix((name + seq![' ']) + a, a));
            assert(name + spaced(a) =~= (name + seq![' ']) + a);
        } else {
            assert(a =~= Seq::<char>::empty());
            assert(has_suffix(name + spaced(a), Seq::<char>::empty()));
        }
    }
    assert forall|a: Seq<char>| #[trigger] has_suffix(vitest_command(a), a) by {
        if a.len() == 0 {
            assert(a =~= Seq::<char>::empty());
            assert(has_suffix(vitest_command(a), Seq::<char>::empty()));
        } else {
            assert(has_suffix(a, a));
            assert(has_suffix("rtk vitest "@ + a, a));
            assert(has_suffix("rtk vitest run "@ + a, a));
        }
    }
}

/// `npx`, `pnpm` and `npm` rewrites keep the arguments: the text after the
/// tool and its subcommand ends the rewritten command.
pub proof fn law_runner_arguments_kept(cmd: Seq<char>)
    requires
        first_word(cmd) == "npx"@ || first_word(cmd) == "pnpm"@ || first_word(cmd) == "npm"@,
    ensures
        command_rewrite(cmd) matches Some(r) ==> has_suffix(
            r,
            after_first_word(after_first_word(cmd)),
        ),
{
    lemma_tool_names();
    lemma_suffix_facts();
    lemma_rewrite_suffix_facts();
    lemma_after_first_word_is_suffix(after_first_word(cmd));
}

/// The rewrites that pass the arguments on keep them: the text after the
/// first word ends the rewritten command.
pub proof fn law_arguments_kept(cmd: Seq<char>)
    requires
        ({
            let w = first_word(cmd);
            ||| w == "git"@
            ||| w == "gh"@
            ||| w == "cargo"@
            ||| w == "cat"@
            ||| w == "rg"@
            ||| w == "grep"@
            ||| w == "find"@
            ||| w == "diff"@
            ||| w == "vue-tsc"@
            ||| w == "tsc"@
            ||| w == "eslint"@
            ||| w == "prettier"@
            ||| w == "playwright"@
            ||| w == "prisma"@
            ||| w == "docker"@
            ||| w == "kubectl"@
            ||| w == "curl"@
            ||| w == "wget"@
            ||| w == "pytest"@
            ||| w == "ruff"@
            ||| w == "pip"@
            ||| w == "go"@
            ||| w == "golangci-lint"@
        }),
    ensures
        command_rewrite(cmd) matches Some(r) ==> has_suffix(r, after_first_word(cmd)),
{
    lemma_tool_names();
    lemma_suffix_facts();
    lemma_rewrite_suffix_facts();
    lemma_after_first_word_is_suffix(cmd);
}

/// `pnpm test ARGS` is rewritten to `rtk vitest run ARGS` (`rtk vitest run`
/// when there are no arguments).
pub proof fn law_pnpm_test_runs_vitest(cmd: Seq<char>)
    requires
        first_word(cmd) == "pnpm"@,
        first_word(after_first_word(cmd)) == "test"@,
    ensures
        ({
            let args = after_first_word(after_first_word(cmd));
            command_rewrite(cmd) == Some(
                if args.len() == 0 {
                    "rtk vitest run"@
                } else {
                    "rtk vitest run "@ + args
                },
            )
        }),
{
    lemma_tool_names();
    lemma_subcommand_names();
    reveal_strlit("rtk vitest run");
    reveal_strlit("rtk vitest run ");
    let args = after_first_word(after_first_word(cmd));
    if args.len() > 0 {
        assert("rtk vitest run"@ + spaced(args) =~= "rtk vitest run "@ + args);
    } else {
        assert("rtk vitest run"@ + spaced(args) =~= "rtk vitest run"@);
    }
}

proof fn lemma_spaced_args()
    ensures
        forall|lit: Seq<char>, a: Seq<char>|
            #[trigger] (lit + spaced(a)) == if a.len() == 0 {
                lit
            } else {
                lit + seq![' '] + a
            },
{
    assert forall|lit: Seq<char>, a: Seq<char>|
        #[trigger] (lit + spaced(a)) == if a.len() == 0 {
            lit
        } else {
            lit + seq![' '] + a
        } by {
        if a.len() == 0 {
            assert(lit + spaced(a) =~= lit);
        } else {
            assert(lit + spaced(a) =~= lit + seq![' '] + a);
        }
    }
}

/// `docker` with `compose`, `ps`, `images`, `logs`, `run`, `build` or `exec`,
/// and `go` with `test`, `build` or `vet`, are rewritten to `rtk ` followed by
/// the whole command.
pub proof fn law_docker_go_subcommands_rewritten(cmd: Seq<char>)
    requires
        ({
            let w = first_word(cmd);
            let sub = first_word(after_first_word(cmd));
            ||| w == "docker"@ && (sub == "compose"@ || sub == "ps"@ || sub == "images"@ || sub
                == "logs"@ || sub == "run"@ || sub == "build"@ || sub == "exec"@)
            ||| w == "go"@ && (sub == "test"@ || sub == "build"@ || sub == "vet"@)
        }),
    ensures
        command_rewrite(cmd) == Some("rtk "@ + cmd),
{
    lemma_tool_names();
}

/// `gh pr|issue|run|api|release ...`, `ruff check|format ...` and
/// `pip list|outdated|install|show ...` become `rtk gh ...`, `rtk ruff ...`
/// and `rtk pip ...` with the rest of the command.
pub proof fn law_gh_ruff_pip_subcommands_rewritten(cmd: Seq<char>)
    ensures
        ({
            let w = first_word(cmd);
            let rest = after_first_word(cmd);
            let sub = first_word(rest);
            &&& w == "gh"@ && (sub == "pr"@ || sub == "issue"@ || sub == "run"@ || sub == "api"@
                || sub == "release"@) ==> command_rewrite(cmd) == Some("rtk gh "@ + rest)
            &&& w == "ruff"@ && (sub == "check"@ || sub == "format"@) ==> command_rewrite(cmd)
                == Some("rtk ruff "@ + rest)
            &&& w == "pip"@ && (sub == "list"@ || sub == "outdated"@ || sub == "install"@ || sub
                == "show"@) ==> command_rewrite(cmd) == Some("rtk pip "@ + rest)
        }),
{
    lemma_tool_names();
}

/// The file and network tools map to their `rtk` commands with the rest of
/// the command: `cat` to `rtk read`, `rg` and `grep` to `rtk grep`, and
/// `find`, `diff`, `curl`, `wget` to themselves.
pub proof fn law_file_tools_mapped(cmd: Seq<char>)
    ensures
        ({
            let w = first_word(cmd);
            let rest = after_first_word(cmd);
            &&& w == "cat"@ ==> command_rewrite(cmd) == Some("rtk read "@ + rest)
            &&& w == "rg"@ || w == "grep"@ ==> command_rewrite(cmd) == Some("rtk grep "@ + rest)
            &&& w == "find"@ ==> command_rewrite(cmd) == Some("rtk find "@ + rest)
            &&& w == "diff"@ ==> command_rewrite(cmd) == Some("rtk diff "@ + rest)
            &&& w == "curl"@ ==> command_rewrite(cmd) == Some("rtk curl "@ + rest)
            &&& w == "wget"@ ==> command_rewrite(cmd) == Some("rtk wget "@ + rest)
        }),
{
    lemma_tool_names();
}

/// `NAME ARGS` for the JavaScript, Python and Go checkers becomes
/// `rtk TOOL ARGS` (`rtk TOOL` without arguments): `tsc` and `vue-tsc` to
/// `tsc`, `eslint` to `lint`, and `prettier`, `playwright`, `prisma`,
/// `pytest`, `golangci-lint` to themselves.
pub proof fn law_checkers_mapped(cmd: Seq<char>)
    ensures
        ({
            let w = first_word(cmd);
            let rest = after_first_word(cmd);
            let with = |lit: Seq<char>|
                if rest.len() == 0 {
                    lit
                } else {
                    lit + seq![' '] + rest
                };
            &&& w == "tsc"@ || w == "vue-tsc"@ ==> command_rewrite(cmd) == Some(with("rtk tsc"@))
            &&& w == "eslint"@ ==> command_rewrite(cmd) == Some(with("rtk lint"@))
            &&& w == "prettier"@ ==> command_rewrite(cmd) == Some(with("rtk prettier"@))
            &&& w == "playwright"@ ==> command_rewrite(cmd) == Some(with("rtk playwright"@))
            &&& w == "prisma"@ ==> command_rewrite(cmd) == Some(with("rtk prisma"@))
            &&& w == "pytest"@ ==> command_rewrite(cmd) == Some(with("rtk pytest"@))
            &&& w == "golangci-lint"@ ==> command_rewrite(cmd) == Some(
                with("rtk golangci-lint"@),
            )
        }),
{
    lemma_tool_names();
    lemma_spaced_args();
}

/// `npx TOOL ARGS`, `pnpm SUB ARGS` and `npm SUB ARGS` map to their `rtk`
/// commands with the arguments (`ARGS` is the text after the subcommand):
/// `npx tsc`/`vue-tsc` to `rtk tsc`, `npx eslint` to `rtk lint`, `npx
/// prettier|playwright|prisma` to themselves, `pnpm tsc|lint|playwright` to
/// `rtk tsc|lint|playwright`, `npm test` to `rtk npm test`, `npm run` to
/// `rtk npm ARGS`, `pnpm list|ls|outdated` to `rtk pnpm` with the rest.
pub proof fn law_runners_mapped(cmd: Seq<char>)
    ensures
        ({
            let w = first_word(cmd);
            let rest = after_first_word(cmd);
            let sub = first_word(rest);
            let args = after_first_word(rest);
            let with = |lit: Seq<char>|
                if args.len() == 0 {
                    lit
                } else {
                    lit + seq![' '] + args
                };
            &&& w == "npx"@ && (sub == "tsc"@ || sub == "vue-tsc"@) ==> command_rewrite(cmd)
                == Some(with("rtk tsc"@))
            &&& w == "npx"@ && sub == "eslint"@ ==> command_rewrite(cmd) == Some(with("rtk lint"@))
            &&& w == "npx"@ && sub == "prettier"@ ==> command_rewrite(cmd) == Some(
                with("rtk prettier"@),
            )
            &&& w == "npx"@ && sub == "playwright"@ ==> command_rewrite(cmd) == Some(
                with("rtk playwright"@),
            )
            &&& w == "npx"@ && sub == "prisma"@ ==> command_rewrite(cmd) == Some(
                with("rtk prisma"@),
            )
            &&& w == "pnpm"@ && sub == "tsc"@ ==> command_rewrite(cmd) == Some(with("rtk tsc"@))
            &&& w == "pnpm"@ && sub == "lint"@ ==> command_rewrite(cmd) == Some(with("rtk lint"@))
            &&& w == "pnpm"@ && sub == "playwright"@ ==> command_rewrite(cmd) == Some(
                with("rtk playwright"@),
            )
            &&& w == "pnpm"@ && (sub == "list"@ || sub == "ls"@ || sub == "outdated"@)
                ==> command_rewrite(cmd) == Some("rtk pnpm "@ + rest)
            &&& w == "npm"@ && sub == "test"@ ==> command_rewrite(cmd) == Some(
                with("rtk npm test"@),
            )
            &&& w == "npm"@ && sub == "run"@ ==> command_rewrite(cmd) == Some("rtk npm "@ + args)
        }),
{
    lemma_tool_names();
    lemma_subcommand_names();
    lemma_spaced_args();
}

/// A command whose first word is none of the tools that `rtk` handles is
/// not rewritten.
pub proof fn law_other_commands_not_rewritten(cmd: Seq<char>)
    requires
        ({
            let w = first_word(cmd);
            &&& w != "git"@ && w != "gh"@ && w != "cargo"@ && w != "cat"@ && w != "rg"@
            &&& w != "grep"@ && w != "ls"@ && w != "tree"@ && w != "find"@ && w != "diff"@
            &&& w != "head"@ && w != "vitest"@ && w != "npx"@ && w != "pnpm"@ && w != "npm"@
            &&& w != "vue-tsc"@ && w != "tsc"@ && w != "eslint"@ && w != "prettier"@
            &&& w != "playwright"@ && w != "prisma"@ && w != "docker"@ && w != "kubectl"@
            &&& w != "curl"@ && w != "wget"@ && w != "pytest"@ && w != "python"@
            &&& w != "ruff"@ && w != "pip"@ && w != "uv"@ && w != "go"@ && w
                != "golangci-lint"@
        }),
    ensures
        command_rewrite(cmd) is None,
{
}

/// `head -N FILES` and `head --lines=N FILES` (N made of ASCII digits) become
/// `rtk read FILES --max-lines N`; `head` with fewer than two words after it
/// is not rewritten.
pub proof fn law_head_mapped(cmd: Seq<char>, n: Seq<char>)
    requires
        first_word(cmd) == "head"@,
    ensures
        ({
            let parts = words(after_first_word(cmd));
            let digits = forall|k: int| 0 <= k < n.len() ==> '0' <= #[trigger] n[k] && n[k] <= '9';
            let out = "rtk read "@ + join_spaced(parts.drop_first()) + " --max-lines "@ + n;
            &&& parts.len() >= 2 && digits && parts[0] == seq!['-'] + n ==> command_rewrite(cmd)
                == Some(out)
            &&& parts.len() >= 2 && digits && parts[0] == "--lines="@ + n ==> command_rewrite(cmd)
                == Some(out)
            &&& parts.len() < 2 ==> command_rewrite(cmd) is None
        }),
{
    lemma_tool_names();
    let parts = words(after_first_word(cmd));
    if parts.len() >= 2 {
        let p0 = parts[0];
        if p0 == seq!['-'] + n {
            assert(p0.drop_first() =~= n);
        }
        if p0 == "--lines="@ + n {
            reveal_strlit("--lines=");
            assert(p0.subrange(0, 8) =~= "--lines="@);
            assert(p0.skip(8) =~= n);
            assert(p0[0] == '-');
            assert(p0[1] == '-');
            if p0.len() > 0 && p0[0] == '-' && all_ascii_digits(p0.drop_first()) {
                assert(p0.drop_first()[0] == '-');
            }
        }
    }
}

/// `python -m pytest ARGS` becomes `rtk pytest ARGS` (`rtk pytest` without
/// arguments), and `python` without `-m` is not rewritten.
pub proof fn law_python_pytest_mapped(cmd: Seq<char>, args: Seq<char>)
    requires
        first_word(cmd) == "python"@,
    ensures
        ({
            let rest = after_first_word(cmd);
            &&& rest == "-m pytest"@ ==> command_rewrite(cmd) == Some("rtk pytest"@)
            &&& rest == "-m pytest "@ + args ==> command_rewrite(cmd) == Some(
                if args.len() == 0 {
                    "rtk pytest"@
                } else {
                    "rtk pytest"@ + seq![' '] + args
                },
            )
            &&& (rest.len() == 0 || rest[0] != '-') ==> command_rewrite(cmd) is None
        }),
{
    lemma_tool_names();
    lemma_subcommand_names();
    lemma_spaced_args();
    let rest = after_first_word(cmd);
    let p = "-m pytest "@;
    if rest == p + args {
        assert(rest.subrange(0, p.len() as int) =~= p);
        assert(rest.skip(p.len() as int) =~= args);
        assert(rest.len() > "-m pytest"@.len());
    }
    if has_prefix(rest, p) {
        assert(rest[0] == rest.subrange(0, p.len() as int)[0]);
    }
}

/// `uv pip SUB ARGS` with `SUB` one of `list`, `outdated`, `install`, `show`
/// becomes `rtk pip SUB ARGS`.
pub proof fn law_uv_pip_mapped(cmd: Seq<char>, pip_rest: Seq<char>)
    requires
        first_word(cmd) == "uv"@,
        after_first_word(cmd) == "pip "@ + pip_rest,
        first_word(pip_rest) == "list"@ || first_word(pip_rest) == "outdated"@ || first_word(
            pip_rest,
        ) == "install"@ || first_word(pip_rest) == "show"@,
    ensures
        command_rewrite(cmd) == Some("rtk pip "@ + pip_rest),
{
    lemma_tool_names();
    lemma_subcommand_names();
    let rest = after_first_word(cmd);
    assert(rest.subrange(0, 4) =~= "pip "@);
    assert(rest.skip(4) =~= pip_rest);
}

/// `vitest ARGS` becomes `rtk vitest run ARGS`, without doubling `run`:
/// `rtk vitest run` without arguments, `rtk vitest ARGS` when the arguments
/// begin with `run`.
pub proof fn law_vitest_mapped(cmd: Seq<char>, tail: Seq<char>)
    requires
        first_word(cmd) == "vitest"@,
        cmd == "vitest"@ + tail,
    ensures
        ({
            let args = trim_start(tail);
            command_rewrite(cmd) == Some(
                if args.len() == 0 {
                    "rtk vitest run"@
                } else if args.len() >= 3 && args.subrange(0, 3) == seq!['r', 'u', 'n'] {
                    "rtk vitest "@ + args
                } else {
                    "rtk vitest run "@ + args
                },
            )
        }),
{
    lemma_tool_names();
    lemma_subcommand_names();
    assert(cmd.subrange(0, 6) =~= "vitest"@);
    assert(cmd.skip(6) =~= tail);
}

/// `ls ARGS` and `tree ARGS` become `rtk ls ARGS` and `rtk tree ARGS`, the
/// arguments kept with their spacing.
pub proof fn law_ls_tree_mapped(cmd: Seq<char>, tail: Seq<char>)
    ensures
        first_word(cmd) == "ls"@ && cmd == "ls"@ + tail ==> command_rewrite(cmd) == Some(
            "rtk ls"@ + tail,
        ),
        first_word(cmd) == "tree"@ && cmd == "tree"@ + tail ==> command_rewrite(cmd) == Some(
            "rtk tree"@ + tail,
        ),
{
    lemma_tool_names();
    reveal_strlit("tree");
    if first_word(cmd) == "ls"@ && cmd == "ls"@ + tail {
        assert(cmd[0] == 'l' && cmd[1] == 's');
        assert(cmd.drop_first().drop_first() =~= tail);
        assert(byte_suffix(cmd.drop_first().drop_first(), 0) == Some(tail));
        assert(byte_suffix(cmd.drop_first(), 1) == Some(tail));
    }
    if first_word(cmd) == "tree"@ && cmd == "tree"@ + tail {
        let c1 = cmd.drop_first();
        let c2 = c1.drop_first();
        let c3 = c2.drop_first();
        assert(cmd[0] == 't' && cmd[1] == 'r' && cmd[2] == 'e' && cmd[3] == 'e');
        assert(c1[0] == cmd[1] && c2[0] == cmd[2] && c3[0] == cmd[3]);
        assert(c3.drop_first() =~= tail);
        assert(utf8_width(c3[0]) == 1);
        assert(byte_suffix(c3.drop_first(), 0) == Some(tail));
        assert(byte_suffix(c3, 1) == Some(tail));
        assert(byte_suffix(c2, 2) == Some(tail));
        assert(byte_suffix(c1, 3) == Some(tail));
    }
}

proof fn lemma_git_kept_shift(ws: Seq<Seq<char>>, d: int, i: int)
    requires
        0 <= d <= i <= ws.len(),
    ensures
        git_kept_from(ws, i) == git_kept_from(ws.skip(d), i - d),
    decreases ws.len() - i,
{
    let t = ws.skip(d);
    if i < ws.len() {
        assert(t[i - d] == ws[i]);
        if is_git_value_flag(ws[i]) {
            if i + 2 <= ws.len() {
                lemma_git_kept_shift(ws, d, i + 2);
            }
        } else {
            lemma_git_kept_shift(ws, d, i + 1);
        }
    }
}

proof fn lemma_kubectl_kept_shift(ws: Seq<Seq<char>>, d: int, i: int)
    requires
        0 <= d <= i <= ws.len(),
    ensures
        kubectl_kept_from(ws, i) == kubectl_kept_from(ws.skip(d), i - d),
    decreases ws.len() - i,
{
    let t = ws.skip(d);
    if i < ws.len() {
        assert(t[i - d] == ws[i]);
        if is_kubectl_value_flag(ws[i]) {
            if i + 2 <= ws.len() {
                lemma_kubectl_kept_shift(ws, d, i + 2);
            }
        } else {
            lemma_kubectl_kept_shift(ws, d, i + 1);
        }
    }
}

/// git's global flags in front of the arguments are dropped: `-C VALUE` and
/// `-c VALUE`, `--key=value`, `--no-pager`, `--no-optional-locks`, `--bare`
/// and `--literal-pathspecs`.
pub proof fn law_git_global_flags_skipped(f: Seq<char>, v: Seq<char>, r: Seq<char>)
    ensures
        (f == "-C"@ || f == "-c"@) && is_word(v) ==> git_flags_stripped(
            f + seq![' '] + v + seq![' '] + r,
        ) == git_flags_stripped(r),
        is_word(f) && (f == "--no-pager"@ || f == "--no-optional-locks"@ || f == "--bare"@ || f
            == "--literal-pathspecs"@ || (has_prefix(f, "--"@) && f.contains('='))) ==> git_flags_stripped(
            f + seq![' '] + r,
        ) == git_flags_stripped(r),
{
    lemma_subcommand_names();
    if (f == "-C"@ || f == "-c"@) && is_word(v) {
        let inner = v + seq![' '] + r;
        lemma_words_prepend(v, r);
        assert(f + seq![' '] + v + seq![' '] + r =~= f + seq![' '] + inner);
        lemma_words_prepend(f, inner);
        let ws = words(f + seq![' '] + inner);
        assert(ws =~= seq![f, v] + words(r));
        lemma_git_kept_shift(ws, 2, 2);
        assert(ws.skip(2) =~= words(r));
    }
    if is_word(f) && (f == "--no-pager"@ || f == "--no-optional-locks"@ || f == "--bare"@ || f
        == "--literal-pathspecs"@ || (has_prefix(f, "--"@) && f.contains('='))) {
        lemma_words_prepend(f, r);
        let ws = words(f + seq![' '] + r);
        assert(f != "-C"@ && f != "-c"@) by {
            if has_prefix(f, "--"@) {
                assert(f[1] == f.subrange(0, 2)[1]);
            }
        }
        lemma_git_kept_shift(ws, 1, 1);
        assert(ws.skip(1) =~= words(r));
    }
}

/// kubectl's global flags in front of the arguments are dropped:
/// `--context VALUE`, `--kubeconfig VALUE`, `--namespace VALUE`, `-n VALUE`
/// and `--key=value`.
pub proof fn law_kubectl_global_flags_skipped(f: Seq<char>, v: Seq<char>, r: Seq<char>)
    ensures
        (f == "--context"@ || f == "--kubeconfig"@ || f == "--namespace"@ || f == "-n"@)
            && is_word(v) ==> kubectl_flags_stripped(f + seq![' '] + v + seq![' '] + r)
            == kubectl_flags_stripped(r),
        is_word(f) && has_prefix(f, "--"@) && f.contains('=') ==> kubectl_flags_stripped(
            f + seq![' '] + r,
        ) == kubectl_flags_stripped(r),
{
    lemma_subcommand_names();
    if (f == "--context"@ || f == "--kubeconfig"@ || f == "--namespace"@ || f == "-n"@) && is_word(
        v,
    ) {
        let inner = v + seq![' '] + r;
        lemma_words_prepend(v, r);
        assert(f + seq![' '] + v + seq![' '] + r =~= f + seq![' '] + inner);
        lemma_words_prepend(f, inner);
        let ws = words(f + seq![' '] + inner);
        assert(ws =~= seq![f, v] + words(r));
        lemma_kubectl_kept_shift(ws, 2, 2);
        assert(ws.skip(2) =~= words(r));
    }
    if is_word(f) && has_prefix(f, "--"@) && f.contains('=') {
        lemma_words_prepend(f, r);
        let ws = words(f + seq![' '] + r);
        assert(!is_kubectl_value_flag(f)) by {
            let k = choose|k: int| 0 <= k < f.len() && f[k] == '=';
            if f == "-n"@ {
                assert(f[1] == f.subrange(0, 2)[1]);
            }
        }
        lemma_kubectl_kept_shift(ws, 1, 1);
        assert(ws.skip(1) =~= words(r));
    }
}

/// Any other word in front of the arguments is kept, followed by what
/// stripping leaves of the rest.
pub proof fn law_git_other_words_kept(f: Seq<char>, r: Seq<char>)
    requires
        is_word(f),
        f != "-C"@ && f != "-c"@,
        f != "--no-pager"@ && f != "--no-optional-locks"@ && f != "--bare"@ && f
            != "--literal-pathspecs"@,
        !(has_prefix(f, "--"@) && f.contains('=')),
    ensures
        git_flags_stripped(f + seq![' '] + r) == if git_flags_stripped(r).len() == 0 {
            f
        } else {
            f + seq![' '] + git_flags_stripped(r)
        },
{
    lemma_words_prepend(f, r);
    let ws = words(f + seq![' '] + r);
    lemma_git_kept_shift(ws, 1, 1);
    assert(ws.skip(1) =~= words(r));
    let k = git_kept_from(words(r), 0);
    lemma_words_are_words(r, 0);
    lemma_git_kept_props(words(r), 0);
    lemma_join_single_spaced(k);
    assert(git_kept_from(ws, 0) == seq![f] + k);
    if k.len() == 0 {
        assert(seq![f] + k =~= seq![f]);
        assert(join_spaced(seq![f]) == f);
    } else {
        lemma_join_prepend(f, k);
    }
}

/// Any other word in front of kubectl's arguments is kept, followed by what
/// stripping leaves of the rest.
pub proof fn law_kubectl_other_words_kept(f: Seq<char>, r: Seq<char>)
    requires
        is_word(f),
        f != "--context"@ && f != "--kubeconfig"@ && f != "--namespace"@ && f != "-n"@,
        !(has_prefix(f, "--"@) && f.contains('=')),
    ensures
        kubectl_flags_stripped(f + seq![' '] + r) == if kubectl_flags_stripped(r).len() == 0 {
            f
        } else {
            f + seq![' '] + kubectl_flags_stripped(r)
        },
{
    lemma_words_prepend(f, r);
    let ws = words(f + seq![' '] + r);
    lemma_kubectl_kept_shift(ws, 1, 1);
    assert(ws.skip(1) =~= words(r));
    let k = kubectl_kept_from(words(r), 0);
    lemma_words_are_words(r, 0);
    lemma_kubectl_kept_props(words(r), 0);
    lemma_join_single_spaced(k);
    assert(kubectl_kept_from(ws, 0) == seq![f] + k);
    if k.len() == 0 {
        assert(seq![f] + k =~= seq![f]);
        assert(join_spaced(seq![f]) == f);
    } else {
        lemma_join_prepend(f, k);
    }
}

} // verus!
