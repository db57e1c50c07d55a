# cascade

The driver of a compiler from the Cascade policy language to CIL, written in Verus.

A compilation runs in a fixed order of steps: the input files are read and parsed, types and
functions are collected, annotations are applied, modules and systems are validated, and for each
system the policies are reduced and written as CIL. The library decides which step is next, whether
the errors so far end the compilation, and what its result is. It performs none of the steps that
need the outside world or the tables of the compiler: it asks for them (`dialogue::Request`), and
is told what came of them (`dialogue::Reply`).

- `src/` is the verified library.
  - `compile` holds the entry points `compile_combined`, `compile_system_policies` and
    `compile_system_policies_all`. Each is a function of the input and of the answers so far.
  - `plan` says what they decide, `laws`, `names` and `progress` what follows from it.
  - `load` turns what the parser made of a file into a policy or into its errors.
  - `sexp` writes CIL; `error`, `syntax`, `ast` and `text` are the data.
- `tests/` runs the library.
- `app/` reads files from disk and runs the stages of a front end as the library asks for them.
