# tcl_runtime

The decision core of a Tcl interpreter, written in Verus: evaluation depth and
script frames, procedure calls, errors and their traces, variable and command
traces, command dispatch, ensembles, imports, renames, hidden commands, child
interpreters and their limits, substitution, background errors and completions.

The library decides; it does not parse, read variables or run commands. Where
such work is needed in the middle of a decision, a function takes its result as
an argument, or a small state machine says what to do next and is told what came
of it.

- `src/` is the verified library. Every public function states in its contract
  what it returns and how it changes the interpreter. Public proof functions
  state what holds across functions.
- `tests/` runs the library.
- `app/` drives it: scripts and words, bodies, calls, dispatch, ensembles,
  traces, renames and deletions, the teardown of namespaces, guards and
  children. The parser, the list format, the variables, the command tables, the
  guard manager and the tables of options come in through the trait
  `Surroundings`. What is computed in floating point is there too.
