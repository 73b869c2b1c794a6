# ndf

`ndf` compares the Nix derivations of attribute paths between two revisions of a Git or
Jujutsu repository, and shows which changed.

## Layout

- `src/` is the library, written and proved with Verus. It holds the logic: parsing attribute
  paths and glob patterns, the natural order of names, the Nix string literals and command
  lines that are run, reading back what Git, Jujutsu and Nix print, the step-by-step
  evaluation (`SequentialEval`) that asks for each evaluation at most once and only when the
  path being compared needs it, the choice and merging of the attribute paths to compare,
  and every text shown to the user. Each public function states what it returns in its
  contract; the proof functions whose names start with `law_` state properties that relate
  several calls.
- `app/` is the program around it: the command line, starting processes, looking at the file
  system, logging, parallel evaluation and the terminal.
- `tests/` runs the library on concrete inputs.
