# reemerge

An interactive tool that prepares a branch for a pull request out of hand-picked
commits and, within them, hand-picked files.

The library under `src/` makes every decision of the tool and is verified with
Verus. It runs no process and shows no prompt: a `Session` says what it needs
next (a git command, an answer) and is told what came of it. The program under
`app/` does what the session says.

| Module | What it holds |
|--------|---------------|
| `session`, `flow` | the course of a session, as code and as a state machine |
| `laws`, `answers` | what holds of every session, and where what it acts on comes from |
| `dialogue` | what a session asks for, and what comes back |
| `git`, `branches`, `commits` | commands, and what their output says |
| `selection`, `apply` | what becomes of each commit, and applying one |
| `messages`, `style` | everything that is said, and its colours |
| `options`, `truncate`, `text`, `lists` | the command line and basic operations |

Whether colours show is asked of `colored` through a trusted function in `style`;
two functions of the standard library are trusted as well, in `text` and `git`.

## Options

| Flag | Description |
|------|-------------|
| `--diff` | Always show the diff preview for selected commits |
| `--version`, `-V` | Print the bare version number and exit |
