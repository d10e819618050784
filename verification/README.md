# kern

The KERN toolchain as a verified library: the lexer and parser of the KERN
language, semantic analysis, a register virtual machine with its safety
checks, the rule engine that runs execution graphs, and the PSI operator
and meta-program layer. Each function's behaviour is stated in its
`requires` / `ensures` contract and proved with Verus.

Layout:

- `src/front`: tokens, lexer, parser state, grammar (as spec functions) and
  parser, compiler front end.
- `src/semantic`: resolver, type checker, bytecode validator, conflict and
  dependency analysis.
- `src/vm`: registers, instructions, the machine, its step relation and
  what a whole run gives.
- `src/vm_safety`: step and memory limits, the sandbox, security checks and
  performance counters.
- `src/rule_engine`: pattern matching, scheduling, priorities, conflict
  resolution, recursion guard and graph execution.
- `src/psi`: operators, meta-programs and the knowledge base they read.
- `src/maps.rs`, `src/sorting.rs`, `src/text.rs`: maps keyed by number or
  by name, stable sorting, and text helpers.
- `tests/`: the tests, run against the compiled library.
- `app/`: the command-line program around the library (argument handling,
  files, YAML/JSON input).

