# undxf

A reader for ASCII DXF drawings, verified with Verus.

- `src/` is the library. It turns a file's bytes into text through the code
  page its header declares (`decode`), the text into group-code pairs
  (`pairs`), and the pairs into the outline of the drawing (`outline`,
  `read`): its tables, and in file order the records of its entities,
  dimension styles, multiline styles, layouts and image definitions. The
  records are read by `record`, `entity`, `style`, `hatch`, `walk`, `mesh`
  and `overrides`; `resolve` resolves the names and handles they write
  against what the drawing declares, and `listing` picks the drawing's
  own entities: those of the model and paper space blocks, in block order,
  each INSERT's attributes after it. Every public function states in its
  contract what it returns, over the spec functions beside it; `laws` and
  `records` prove what holds of the reader as a whole.
- Decimal values are not read in `src/`: a record's reading says which pair
  holds each one, and `app/` reads those as `f64` and builds the
  `uncad-model` drawing.
- `tests/` runs the library on concrete drawings.
