# ebnf_parser

A scanner and recursive-descent parser for a small C-like language, written
in Verus. A source text is split into tokens (keywords, operators, integer
and floating constants, identifiers), parsed against the language's EBNF
rules, and, when the parse succeeds, rendered as a coloured XHTML page.

## Layout

- `src/token.rs`: token types and tokens, with their views.
- `src/character_stream.rs`: a cursor over the characters of a text.
- `src/scanner.rs`: the lexer; `Scanner::scan_all` reads a whole text.
- `src/parse_error.rs`: the errors a parse can end in.
- `src/parse_model.rs`: the parser's state and one spec function per
  grammar rule, stating what that rule does to the state and what it yields.
- `src/parser.rs`: the executable parser, each rule proved against its step.
- `src/parse_laws.rs`: properties that hold across the rules: parsing only
  ever moves forward through the tokens, no token is lost or accepted twice
  (a successful parse accepts every scanned token, in order), and an
  identifier is marked as a function name only where `(` follows it.
- `src/render.rs`: the XHTML page built from the parsed tokens; rendering
  returns `None` when a token has no colour or a count would overflow.
- `src/scan_safety.rs`: which texts can be read to their end without
  failure (`scannable`, tested at run time by `is_scannable`), with the proof
  that scanning them never fails.
- `src/parse_safety.rs`: the proof that no parsing step fails at run time
  from a well-formed state, so that parsing a scanned text ends in an accepted
  program or a diagnostic; `scan_and_parse` checks a text and parses it.
- `app/main.rs`: the command-line program: it reads the input file, prints
  the tokens, parses, and writes `out.xhtml`.

Identifiers are typed `VARIABLE` by the scanner; the parser retypes an
identifier as `FUNCTION` when `(` follows it in a declaration or a call.
