# lib

The front end of a small statically typed language, written in Verus: every
function carries a contract that Verus proves.

- `lexer`, `tokens`, `text`: bytes to tokens. `tokenize` gives the lexemes that the
  spec function `lex_spec` states of its input, or `None` exactly where an
  integer literal does not fit in `i64`; laws state that the
  lexemes are ordered, cover the input and have the lengths of their text.
- `parser`: expressions (binary operators by precedence, unary, postfix calls
  and members, tuples, arrays, blocks, `if`, `for`). Each parse function is
  stated against a spec grammar in `parser::grammar`; `parser::laws` proves that
  parsing only ever adds diagnostics, and the binary parser states how
  operators group.
- `types`, `type_store`, `type_display`: types, their interning and display.
- `symbols`, `scope`, `analysis_context`: symbol tables, scopes and the local
  context of the checker (modules share one symbol arena, so a module can
  import another's symbols); `analysis_context::variables` counts variable uses.
- `operators`, `members`, `calls`, `constructors`, `methods`: the checker's
  rules for binary operators, field access and tuple indexing, callback
  parameters, function expressions, derived calls, constructor literal bodies
  and method definitions, each stated over a spec of its result and its
  diagnostics.
- `round_trip`: lexing the text of a keyword, operator, punctuation, boolean,
  line break or non-negative integer token gives back that token.
- `ast`, `diagnostics`, `locations`, `type_definitions`: the data these work
  on.

Tests under `tests/` run the library on concrete inputs.
