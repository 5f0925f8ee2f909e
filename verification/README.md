# gerb

The verified core of gerb, a font editor for the Unified Font Object (UFO)
format. The library in `src/` is checked with Verus: each public function
states what it returns or changes, and the proofs show that the code does
so.

- `undo`: the undo history and which events an undo or redo covers.
- `editor`, `glyph_edit`: selections, transformation constraints, the
  Bézier pen tool.
- `glyphs`: glyph kinds and their order, GLIF code points and outlines,
  contours and the points that a transformation moves.
- `ufo`: layer contents and their rules, identifiers, file records.
- `settings`, `shell`, `project`, `text`: settings, the Python shell's
  lines and history, project names, string helpers.
- `indexed`: the ordered map and set of `indexmap`, as the proofs see them.

`app/` is the command-line front: file I/O, plist (de)serialisation, the
undo closures, and floating-point geometry.
