# typebang

Renders lines of text as an SVG animation of a typewriter: each character
is typed in turn, flashes in a strong color, jolts the line, and each line
moves away when the next one starts.

- `src/` is the library, verified with Verus: the command-line decisions
  (`cli`), font selection and listings (`font`, `order`), the path builder
  (`svg_path`), glyph symbols (`glyph`), typing rhythm and jolts (`timing`),
  the SVG document (`svg`), and text helpers (`text`, `number`).
- `app/` is the `typebang` program: argument parsing, reading fonts and
  standard input, the floating-point glyph geometry and layout, and output.
