# green

An interpreter for the Green language, whose front end and the decisions of
its interpreter are verified with Verus.

- `src/lexer`: the lexer, proved to produce the tokens that `spec_lex`
  states (and at most one error).
- `src/parser`: the syntax tree, the grammar as spec functions
  (`grammar.rs`), and the recursive-descent parser proved to follow it
  (`ast.rs`).
- `src/analyzer`: the semantic analysis and its tables of variables,
  functions, coroutines and tasks.
- `src/interpreter`: the interpreter as a step machine (`machine.rs`:
  statements, expressions, calls, loops, coroutines and their errors, each
  step stated by `spec_step`), the scoped variables of a running program,
  and the operators on integers, booleans and strings.
- `src/error`: error codes, error contexts and the rendering of messages
  from a JSON table of templates.
- `src/utils`: the structure of a program shown in the sequence diagram,
  and message rendering from the text of the table.
- `src/cli_arg_parse.rs`, `src/cli`: the command line.
- `app/`: the `green` command: file I/O, the message table read from
  `assets/error_message.json`, the writing of `analyze.json`, and the loop
  that drives the machine: it prints the lines and computes the
  floating-point operations the machine asks for.
