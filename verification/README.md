# gc_suggest

The suggestion library of a terminal autocomplete engine, verified with Verus.

- `specs`: completion specs. Guarding against hostile JSON, stripping control
  characters, validating, keeping specs in a store under their aliases, and
  resolving a command line against a spec.
- `providers`: suggestions from the output of tools and from the files of a
  project, with the caches that keep them.
- `script`, `shell_runner`: templates and output of scripts, commands given as
  one string.
- `spec_dirs`: where specs are looked for.
- `text`, `text_parts`, `text_map`, `sorting`, `encoding`, `types`: the
  foundation that the rest is stated over.

Every function of `src/` carries a contract that Verus proves. The library does
no I/O: where a decision needs the file system, a process or a parser of a wire
format, it takes a function or the plain answer. `app/` supplies those.

Calls into other crates and into parts of the standard library without a
specification stand behind small wrappers whose contracts are believed. Each
says in its doc comment what it claims.
