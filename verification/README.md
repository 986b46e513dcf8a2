# functional

The logic of *functional*, a game about the lambda calculus, written in Verus
and proved against its contracts.

## Layout

- `src/interpreter/`: characters, the tokenizer, the parser (terms with
  de Bruijn-style variables), the interpreter (reduction, step by step or to
  the end), how terms are shown, and the constants and numerals a level may
  use.
- `src/levels/`: sections, levels, their test cases, and loading the level
  configuration.
- `src/editor.rs`, `src/text_editor.rs`: the built-in text editor, and the
  view of the external editor backend (its updates, keys and view ids).
- `src/gamestates.rs` and `src/gamestates/`: the stack of screens and what
  each screen decides from the keys and clicks of a frame: main menu, level
  selection, the solution editor, running and showing results, the
  playground, settings, profiles, and the level creator (validation, the
  list of levels, uploads).
- `src/leaderboards.rs`: how scores are spread over the leaderboard chart,
  and where loading a leaderboard stands.
- `src/math.rs`, `src/widgets.rs`, `src/audio.rs`, `src/util/`: screen
  geometry, buttons and option lists, sound settings, and helpers.
- `app/main.rs`: a command line around the library: list the levels of a
  configuration, evaluate a term, show its reduction, test a solution,
  validate a user-made level.
- `tests/`: tests of the library on concrete values.
