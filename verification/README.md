# Raptor statement checker

The part of the Raptor semantic checker that checks statements: variable
declarations, assignments, conditionals, `while`/`for` loops, `switch`,
`return`, `break`, `continue` and `match`, verified with Verus.

Expressions reach the checker already typed (`Expression::resolved`), with the
names of the variables they read (`Expression::reads`): the statement checker
decides, for each statement, what is reported, which variables are declared in
which scope, which are read, and what an editor is told about names.

Choices where the surrounding checker is not part of this crate:
- a variable is identified by the place of its declaration; reading a name
  marks the variable it denotes as used, and a variable bound by a `match` arm
  that nothing in the arm reads is flagged as unused;
- a block checks all its statements, even after one hands back an error;
- an expression whose check failed carries the error it handed back
  (`Expression::failure`); an assignment or a `match` hands that error back;
- reading a written type resolves it fully, so a declared type is resolved once.

## Layout

- `src/ast.rs` — the statement syntax tree.
- `src/types.rs` — language types, their models, and type compatibility.
- `src/errors.rs` — the diagnostics the checker reports.
- `src/stack.rs` — the scoped variable stack and the `break`/`continue` contexts.
- `src/checker.rs` — the checker state and its model; type resolution.
- `src/semantics.rs` — what checking each statement does, as spec functions over the model.
- `src/statements.rs`, `src/flow.rs` — the checks, each proved to follow `semantics.rs`.
- `src/laws.rs` — properties of the checker as a whole: scopes are balanced, blocks
  do not leak declarations, declared variables are found with their type,
  `match` exhaustiveness, the scope of `match` bindings and `switch` aliases,
  unused `match` bindings, and where `break`/`continue` are accepted (at any
  depth inside loops and switch cases) or refused (at any depth through
  `if`/`else` blocks, function bodies, `for` headers, the `match` arms the check
  reaches, and, for `continue`, switch cases).
- `app/lib.rs` — message and hover text.
- `tests/checker.rs` — tests on concrete programs.
