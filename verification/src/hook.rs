//! The decision of the BeforeTool hook: whether a shell command the tool is
//! about to run is let through unchanged or rewritten to its `rtk` form.
use vstd::prelude::*;
use crate::env::{
    env_prefix_len, law_env_prefix_reattached, looks_like_assignment, name_end, strip_env_prefix,
};
use crate::json::{
    json_member_str, json_parses, json_pointer_str, member_string, parse_json, pointer_string,
};
use crate::rewrite::{
    command_rewrite, law_rewrite_not_repeated, law_rewrite_starts_with_rtk,
    rewrite_slices_at_non_boundary, rewrite_slices_badly, try_rewrite,
};
use crate::text::{concat2, contains_str, has_infix, has_prefix, starts_with, str_eq};

verus! {

/// What the hook answers.
#[derive(Debug)]
pub enum HookDecision {
    /// Run the command as it is.
    Allow,
    /// Run this command in its place.
    Rewrite(String),
}

/// Why the hook input could not be handled.
#[derive(Debug)]
pub enum HookError {
    /// The input is not a JSON document; the parser's error.
    InvalidJson(serde_json::Error),
}

/// The rewritten command of a decision, `None` for `Allow`.
pub open spec fn decision_view(d: HookDecision) -> Option<Seq<char>> {
    match d {
        HookDecision::Allow => None,
        HookDecision::Rewrite(s) => Some(s@),
    }
}

/// The command is handed on to the rewrite: the tool runs shell commands, the
/// command is not empty, does not use `rtk` already and holds no heredoc.
pub open spec fn hook_considers(tool_name: Seq<char>, cmd: Seq<char>) -> bool {
    &&& tool_name == "run_shell_command"@
    &&& cmd.len() > 0
    &&& !has_prefix(cmd, "rtk "@)
    &&& !has_infix(cmd, "/rtk "@)
    &&& !has_infix(cmd, "<<"@)
}

/// The command without its environment-assignment prefix.
pub open spec fn command_after_env(cmd: Seq<char>) -> Seq<char> {
    cmd.skip(env_prefix_len(cmd))
}

/// The rewritten command (`None`: let the command through): the rewrite of the
/// command after its environment prefix, with that prefix put back in front.
pub open spec fn hook_decision(tool_name: Seq<char>, cmd: Seq<char>) -> Option<Seq<char>> {
    if hook_considers(tool_name, cmd) {
        match command_rewrite(command_after_env(cmd)) {
            Some(r) => Some(cmd.take(env_prefix_len(cmd)) + r),
            None => None,
        }
    } else {
        None
    }
}

/// The inputs on which the hook's rewrite would slice the command at a byte
/// offset that is no character boundary.
pub open spec fn hook_slices_badly(tool_name: Seq<char>, cmd: Seq<char>) -> bool {
    hook_considers(tool_name, cmd) && rewrite_slices_badly(command_after_env(cmd))
}

fn considers(tool_name: &str, cmd: &str) -> (r: bool)
    ensures
        r == hook_considers(tool_name@, cmd@),
{
    str_eq(tool_name, "run_shell_command") && !cmd.is_empty() && !starts_with(cmd, "rtk ")
        && !contains_str(cmd, "/rtk ") && !contains_str(cmd, "<<")
}

/// Whether deciding on this command would slice it at a byte offset that is
/// no character boundary.
pub fn decision_slices_badly(tool_name: &str, cmd: &str) -> (r: bool)
    ensures
        r == hook_slices_badly(tool_name@, cmd@),
{
    if considers(tool_name, cmd) {
        let (_env_prefix, match_cmd) = strip_env_prefix(cmd);
        rewrite_slices_at_non_boundary(match_cmd)
    } else {
        false
    }
}

/// Decides what to do with the command `cmd` that the tool `tool_name` is
/// about to run.
pub fn decide(tool_name: &str, cmd: &str) -> (r: HookDecision)
    requires
        !hook_slices_badly(tool_name@, cmd@),
    ensures
        decision_view(r) == hook_decision(tool_name@, cmd@),
{
    if !considers(tool_name, cmd) {
        return HookDecision::Allow;
    }
    let (env_prefix, match_cmd) = strip_env_prefix(cmd);
    match try_rewrite(match_cmd) {
        Some(rewritten) => HookDecision::Rewrite(concat2(env_prefix, rewritten.as_str())),
        None => HookDecision::Allow,
    }
}

/// The tool name of the hook input (empty when absent or not a string).
pub open spec fn input_tool_name(input: Seq<char>) -> Seq<char> {
    match json_member_str(input, "tool_name"@) {
        Some(s) => s,
        None => Seq::empty(),
    }
}

/// The command of the hook input (empty when absent or not a string).
pub open spec fn input_command(input: Seq<char>) -> Seq<char> {
    match json_pointer_str(input, "/tool_input/command"@) {
        Some(s) => s,
        None => Seq::empty(),
    }
}

/// Handles the JSON text that the hook receives: reads the tool name and
/// the command from it and decides. `Ok(None)` stands for the inputs on
/// which deciding would slice the command at a byte offset that is no
/// character boundary.
pub fn process_hook_input(input: &str) -> (r: Result<Option<HookDecision>, HookError>)
    ensures
        r is Err <==> !json_parses(input@),
        r matches Err(e) ==> e is InvalidJson,
        r matches Ok(o) ==> {
            &&& o is None <==> hook_slices_badly(input_tool_name(input@), input_command(input@))
            &&& o matches Some(d) ==> decision_view(d) == hook_decision(
                input_tool_name(input@),
                input_command(input@),
            )
        },
{
    let doc = match parse_json(input) {
        Ok(doc) => doc,
        Err(e) => return Err(HookError::InvalidJson(e)),
    };
    let tool_name = match member_string(&doc, "tool_name") {
        Some(s) => s,
        None => String::new(),
    };
    let cmd = match pointer_string(&doc, "/tool_input/command") {
        Some(s) => s,
        None => String::new(),
    };
    if decision_slices_badly(tool_name.as_str(), cmd.as_str()) {
        return Ok(None);
    }
    Ok(Some(decide(tool_name.as_str(), cmd.as_str())))
}

/// Commands of tools other than the shell are always let through.
pub proof fn law_other_tools_allowed(tool_name: Seq<char>, cmd: Seq<char>)
    requires
        tool_name != "run_shell_command"@,
    ensures
        hook_decision(tool_name, cmd) is None,
{
}

/// Empty commands, commands that already use `rtk` and commands with a
/// heredoc are let through.
pub proof fn law_skipped_commands_allowed(tool_name: Seq<char>, cmd: Seq<char>)
    requires
        cmd.len() == 0 || has_prefix(cmd, "rtk "@) || has_infix(cmd, "/rtk "@) || has_infix(
            cmd,
            "<<"@,
        ),
    ensures
        hook_decision(tool_name, cmd) is None,
{
}

/// A rewritten command keeps the environment prefix of the command it replaces
/// and continues with an `rtk` command.
pub proof fn law_hook_output_shape(tool_name: Seq<char>, cmd: Seq<char>)
    ensures
        hook_decision(tool_name, cmd) matches Some(out) ==> {
            &&& out.take(env_prefix_len(cmd)) == cmd.take(env_prefix_len(cmd))
            &&& has_prefix(out.skip(env_prefix_len(cmd)), "rtk "@)
        },
{
    law_rewrite_starts_with_rtk(command_after_env(cmd));
    if let Some(out) = hook_decision(tool_name, cmd) {
        let e = env_prefix_len(cmd);
        let r = command_rewrite(command_after_env(cmd)).unwrap();
        crate::env::law_env_split_restores(cmd);
        assert(out.take(e) =~= cmd.take(e));
        assert(out.skip(e) =~= r);
    }
}

proof fn lemma_rtk_is_no_assignment(r: Seq<char>)
    requires
        has_prefix(r, "rtk "@),
    ensures
        r.len() > 0,
        r[0] != ' ',
        !looks_like_assignment(r, 0),
{
    reveal_strlit("rtk ");
    assert(r[0] == r.subrange(0, 4)[0]);
    assert(r[1] == r.subrange(0, 4)[1]);
    assert(r[2] == r.subrange(0, 4)[2]);
    assert(r[3] == r.subrange(0, 4)[3]);
    assert(name_end(r, 3) == 3);
    assert(name_end(r, 2) == 3);
    assert(name_end(r, 1) == 3);
}

/// The hook lets a command that it rewrote through unchanged.
pub proof fn law_hook_not_repeated(tool_name: Seq<char>, cmd: Seq<char>)
    ensures
        hook_decision(tool_name, cmd) matches Some(out) ==> {
            &&& hook_decision(tool_name, out) is None
            &&& !hook_slices_badly(tool_name, out)
        },
{
    if let Some(out) = hook_decision(tool_name, cmd) {
        let e = env_prefix_len(cmd);
        let r = command_rewrite(command_after_env(cmd)).unwrap();
        law_rewrite_starts_with_rtk(command_after_env(cmd));
        law_rewrite_not_repeated(command_after_env(cmd));
        lemma_rtk_is_no_assignment(r);
        law_env_prefix_reattached(cmd, r);
        crate::env::law_env_split_restores(cmd);
        assert(out =~= cmd.take(e) + r);
        assert(command_after_env(out) =~= r);
    }
}

/// A non-empty shell command that does not use `rtk` and holds no heredoc is
/// answered with the rewrite of the command after its environment prefix,
/// that prefix put back in front, when there is a rewrite.
pub proof fn law_shell_commands_rewritten(cmd: Seq<char>)
    requires
        cmd.len() > 0,
        !has_prefix(cmd, "rtk "@),
        !has_infix(cmd, "/rtk "@),
        !has_infix(cmd, "<<"@),
    ensures
        hook_decision("run_shell_command"@, cmd) == match command_rewrite(
            cmd.skip(env_prefix_len(cmd)),
        ) {
            Some(r) => Some(cmd.take(env_prefix_len(cmd)) + r),
            None => None,
        },
{
}

} // verus!
