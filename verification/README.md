# tpl_lang

The front end of the Toy Programming Language compiler (`tplc`), with its
behaviour stated and proved in Verus.

`src/` is the verified library:

- `lexer`, `token`, `lexer_error`: source text to tokens. The meaning of
  lexing is a set of spec functions (`lex_step`, `lex_run`, `lex_outcome`);
  `Lexer::tokenize` is proved to return exactly what they describe.
- `parser_spec`, `parser`, `ast`, `parse_error`: tokens to statements. Every
  parsing method is proved against the spec function of the same name;
  `parser_laws` proves that parsing never moves back over the tokens and
  never loses an error.
- `types`, `type_shape`, `builtins`: the type names of the language as the
  code generator reads them, the machine type each one stands for, and what
  the built-in functions decide (the `printf` format of `print`, integer
  conversions).
- `call_check`: the checks where a value meets a declared type (a
  variable's annotation, a call's argument count and argument types) and
  their messages.
- `gen_error`, `import`, `cli`, `source`, `report`: the error reports, the
  imported modules, the command line texts, comment removal and the
  coloured report layout.
- `text`, `number`: characters, digits and integer parsing.

`app/` holds the program around the library: reading files, the command
line, and the code generator that drives LLVM through `inkwell`.
