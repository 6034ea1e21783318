# kanban_core

The verified core of a kanban board for coding agents. It decides; the
application around it reads files, runs programs and answers requests.

- `src/` is the library, written in Verus. Each public function states in its
  contract what it returns, over models of the data (`View`s and spec functions).
  - `text`, `json`, `sorting`: texts, documents and stable sorting.
  - `entries`, `tool_slots`: the entries of a conversation, and tool calls that
    wait for their results.
  - `history` and a module for each agent: the session files that agents persist,
    as conversations; for PI also its RPC protocol, its runs and its live output.
  - `native_history`: conversations of whole sessions, and the cache of histories.
  - `exec_plans`: plan documents and their paths.
  - `git_host`: which service hosts a repository, the `ge` CLI for Gitee, and the
    redaction of what it prints.
  - `routes`: how failures are reported, which file the frontend gets, and the
    pull-request workflows as runs that say what to do next.
- `tests/` runs the library on concrete values, with the outside crates linked.
- `app/` is ordinary Rust: files, child processes, HTTP, and the traits through
  which the rest of the board comes in.

Public proof functions named `law_*` state what holds of the library as a whole.
Functions marked `external_body` and `assume_specification` items are believed,
not proved; each says in its doc comment what it claims and of which outside
function.
