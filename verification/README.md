# directory_pickers

Two pickers of an editor, as decisions that are proved with Verus: one lists the repositories
and projects below a set of scanned directories, the other the immediate subdirectories of a
set of base directories. Both narrow their list by a query and open what the user chooses, in
the current window or in a new one. Paths are those of Linux and macOS.

- `src/` is the library. Each function states in its contract what it returns.
  - `git_directories`, `subdirectories_picker`: the two pickers.
  - `scanner`: which directories a walk lists, and where it goes on.
  - `expansion`: `~` and variables in the directories that the user names.
  - `matching`, `score`: what the fuzzy matcher is asked, how matches are listed and which is
    selected. Scores are compared as bit patterns of double precision numbers.
  - `order`, `path`, `text`, `window`: names and their order, paths, text, windows.
- `tests/` runs it.
- `app/` connects it with the file system and with the crates of the editor. Those crates are
  not dependencies here, so `app/` builds only inside the editor's own workspace.
