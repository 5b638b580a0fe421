# rtk_hook

A BeforeTool hook for AI coding tools: shell commands that the tool is about
to run are rewritten to their `rtk` equivalents (`git status` becomes
`rtk git status`, `cat f` becomes `rtk read f`, ...), keeping any leading
environment assignments.

- `src/text.rs`: Unicode whitespace, words, trimming, UTF-8 byte offsets,
  string comparison and concatenation, each with an exact specification.
- `src/env.rs`: splitting leading `NAME=value ` assignments off a command.
- `src/rewrite.rs`: the rewrite of each tool's commands and of a whole
  command, each proved against a specification, with the laws that every
  rewrite begins with `rtk ` and is not rewritten again, and that stripping
  git or kubectl flags is idempotent and leaves single spaces.
- `src/json.rs`: the calls into `serde_json` that read the hook's input.
- `src/hook.rs`: the hook's decision, from a command or from the JSON input.
- `app/main.rs`: reading stdin, writing the answer as JSON.
