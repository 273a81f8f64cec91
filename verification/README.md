# Umber's application logic

The part of a painting application that decides things, written in Verus and
proved: where panels dock and how their columns share a window, what a press on a
colour wheel belongs to, what each thing an artist does makes of the open
documents, what a crash report says about their work, and which pictures of the
interface its documentation shows.

## Layout

- `src/` is the library. Every function states what it returns or changes, and
  Verus proves that it does.
  - `dock/`: the workspace layout, its geometry, dragging, and the text it is
    saved as.
  - `colorpicker/`: the wheel, the square, the sliders and the harmony row.
  - `crash/`: the command line, what is recorded before a crash, the report, and
    the box that shows it.
  - `editor/`: documents and tabs, layers, history, strokes, selections,
    transforms and who owns the pointer.
  - `controls/`: keycaps, buttons, glyphs, and listening for a chord.
  - `cputext`, `docshot`, `picture`: text and pictures made without a window.
  - `geom`, `ratio`, `root`, `number`, `text`, `colour`, `metrics`: what the
    others are written in.
- `app/` is ordinary Rust around it: files, the panic hook, fonts, the graphics
  device and painting.
- `tests/` runs the library on concrete values.

## Numbers

Coordinates and lengths are integers on a grid of ten thousand steps to a point;
angles are ten-thousandths of a degree; saturation, value and opacity are
millionths of a whole. Arithmetic is exact up to the step a quotient falls on.
Most quotients go to the nearest one. A number read from a file goes to the
nearest step of what it is read for: a place to the grid, a column's width to a
whole point, a panel's weight to a millionth. What rounds to nothing is written
without a sign. The heights of a column's panels are shared out on a step far
finer than the grid and go down, so that a stack never outgrows its column and
loses nothing that could be seen. What is further than a hundred thousand million
points away is held there. Cosines, sines and arctangents are taken in `app/`,
which hands their results over as directions and angles.

## What is taken on trust

Reading a PNG file, writing one, asking whether bytes are a font and looking a
character up in it are calls into other crates. Each stands behind a small
function whose doc comment says what is claimed of the call. Of the standard
library it is taken on trust that pushing a character onto a string puts it at
the end.
