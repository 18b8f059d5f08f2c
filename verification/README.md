# gitstream

The core of a desktop Git client that drives the `git` command line: it
builds the argument lists of every git command the client runs, reads what
git prints (status, branches, tags, stashes, log with its commit graph,
blame, numstat statistics, unified diffs) and decides the multi-step
operations (checkout with upstream, squash, reword, sync diagnosis, file
and commit previews) one reply at a time. Each function states what it
returns in a contract over mathematical models, and Verus proves it.

## Layout

- `src/text.rs`: the string model the contracts speak of (splitting, lines,
  trimming, numbers) and the executable helpers proved against it.
- `src/git/`: the git logic.
  - `types.rs`: the values handed to the user interface, with their views.
  - `query.rs`, `history.rs`, `blame.rs`, `stats.rs`, `diff.rs`: parsers of
    git output and the argument lists that produce it.
  - `graph.rs`: lane assignment of the commit graph.
  - `mutation.rs`, `hunk.rs`: commands that change the repository, and
    partial staging of selected diff lines.
  - `flow.rs`, `diagnose.rs`, `preview.rs`: operations of several git calls,
    written as state machines that take each reply and name the next call.
  - `error.rs`: classification of git's error messages.
- `src/askpass.rs`, `src/network.rs`: credential prompts and the decisions
  of a network command (timeout budget, progress, result).
- `src/path.rs`: file paths under the Unix and the Windows rules (prefixes,
  separators), and which of them the running platform uses.
- `src/app_log.rs`, `src/update.rs`, `src/system.rs`, `src/settings.rs`:
  the command log, release checks, system queries and settings.
- `app/`: the desktop shell (window, commands, process and file I/O) that
  runs what the library decides.
- `tests/`: tests on concrete values.
