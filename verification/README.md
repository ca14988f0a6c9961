# ecma_parse_cat

An ECMAScript parser, verified with Verus.  It consumes tokens (as produced
by the `ecma-lex-cat` lexer, converted into this crate's `token::Token`) and
produces a syntax tree (`ast::Program`): recursive descent for statements,
precedence climbing for expressions, and cover-grammar reinterpretation of
parenthesised expressions as arrow-function parameters.

## Layout

- `src/token.rs`, `src/ast.rs`, `src/error.rs`: tokens, syntax tree, errors;
  `src/message.rs`: the text of an error.
- `src/stream.rs`: the token cursor, and the relations (`agrees`,
  `advances`) between an executable parse result and its specification.
- `src/expression.rs`, `src/statement.rs`, `src/declaration.rs`,
  `src/module.rs`, `src/program.rs`: the parser.  Every parsing function
  `parse_x` is specified by `spec_x`, which defines the node parsed at a
  position and the number of tokens it takes, or the error; `parse_x` is
  proved to return exactly that.  The recursive specifications are opaque:
  a proof that needs one unfolds it with `reveal`.
- `src/pattern.rs`: expression-to-pattern reinterpretation.
- `src/precedence.rs`: the binary and assignment operator tables.
- `src/checks.rs`: identifier and regular-expression validation, done by
  the `ecma-syntax-cat` constructors.
- `src/laws.rs`: properties spanning several functions (Script versus
  Module, optional semicolons, operator grouping, accessors, parentheses
  around arrow parameters, binding patterns, optional function names).
- `app/lib.rs`: conversion from `ecma-lex-cat` tokens, conversion of the tree
  into `ecma-syntax-cat`'s `Program`, and an error type with `Display`.
