# gitclean

A verified library that finds generated build and cache directories in a
project (`target/`, `node_modules/`, `__pycache__/`, `build/`, ...) and decides,
conservatively, which of them may be deleted, with the `gitclean` command
around it.

- `src/` is the library, verified with Verus. It decides which names are
  candidates, which targets may be scanned, what a walk does with each entry
  (`Scanner`), when a candidate is safe (no `.git` metadata, inside a Git
  worktree, no file of the Git index under it, nor of the index of a nested
  repository that holds it, and for ambiguous names ignored by Git), which
  check comes next before a deletion and whether it passed (`recheck`), the
  order of the report, the totals, the printed lines, and the display of
  sizes. Paths are absolute and held as their
  byte-string components.
- `app/` is the command: it drives the walk with `walkdir`, runs `git`, reads
  file types, deletes, and prints. It carries out what the library decides;
  the loop of the walk and of the checks before a deletion are its own.
- `tests/` runs the library on concrete inputs.

A dry run is the default; `gitclean . --apply` deletes only candidates that
pass every check, after checking each once more.
