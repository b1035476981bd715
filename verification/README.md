# wtree

A command-line helper for working with git worktrees: a bare clone in
`.bare`, one directory per checked-out branch, and short commands for the
everyday git operations (status, staging, commits, diffs, branches).

## Layout

- `src/` is the verified library (Verus). It holds everything wtree decides:
  - `text`: line splitting, trimming and byte-offset slicing on characters;
  - `status`: parsing of `git status --porcelain`;
  - `staging`: which files staging commands touch, their reports, and the
    interactive stager's state;
  - `branch`: the branch listing and the argument lists of the git commands;
  - `dir`: the search for the repository's top directory;
  - `diff`: word-diff rendering (through the `regex` crate) and the diff screens' state;
  - `commit`: the commit screen's state;
  - `keys`, `report`: key presses and lines of output as plain data.
- `app/` is the program: argument parsing (`clap`), running git, the file
  system, colours (`colored`) and the terminal screens (`ratatui`).
- `tests/` runs the library on concrete inputs.
