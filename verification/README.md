# quiklang

The front end and virtual machine of the Quik language, with their behaviour
stated in contracts and proved.

- `src/` is the verified library:
  - `instructions`: 32-bit instruction words (field encoding, RK operands, the opcode table and the one-line listing of an instruction);
  - `tokens`, `errors`, `common`: tokens, diagnostics, the file store and the compilation report;
  - `project`: which entries of a project's source tree are source files, and their names;
  - `semantic`: the semantic checker's package types and analyzer;
  - `lexer`: the tokenizer, specified by a step-by-step model (`lex`), and `lexer_spans`, which proves that every span it reports lies within the source;
  - `register_val`, `bytecode`, `vm`: register cells, compiled programs, and the semantics of every instruction (`step_spec`), which `VMThread::step` implements;
  - `threads`: the ids of a program's running threads.
- `app/` holds what the library hands to its host: reading projects from disk,
  printing diagnostics, and running threads on tokio, including floating point,
  heap strings and native functions.
- `tests/` exercises the library on concrete inputs.
