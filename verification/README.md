# pixui

The verified core of pixui, an experimental UI framework: source spans and
diagnostics, errors and their rendering, a map with one value per type, the
lexer and parser of the UI description language, the component registry,
the rules by which a named component is drawn from renderers and described
components, and the style rules of the SVG renderer.

- `src/` is the library, verified with Verus.
- `tests/` runs the library.
- `app/` is the engine around it: error helpers that record caller
  locations, command-line entry points, reflection, entity storage, draw
  lists and SVG output (floating point), the component draw system that
  carries out render plans, and the engine thread.
