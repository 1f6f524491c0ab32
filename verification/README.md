# layout_interface

The verified core of a page layout editor (text boxes, rectangles, banners
and lines on a sheet of paper), written in Verus.

- `src/` holds the library: every function has a contract, and the laws
  between functions are proof functions. Verus proves them all, except the
  contracts of four small wrappers around std calls (`String::push`,
  `str::to_lowercase`, `Path`'s `==` and `Path::file_name`), which are
  trusted and marked `#[verifier::external_body]`.
  - `canvas`: the elements in drawing order, the selection and the drag.
  - `recent`: the list of recently used documents.
  - `fonts`: the font families read from a `fc-list` listing.
  - `choice`: which widget a press focuses, which element a click picks.
  - `styles`, `units`, `presets`, `defaults`: dropdown entries, unit
    names, page size presets and document defaults.
  - `labels`, `controls`, `panel`, `text`: the texts shown, the decisions
    taken on clicks and keys, the sidebar's field sets, and character
    helpers.
  - `display`: what is read from a monitor connector (status, EDID width,
    first video mode) to work out its pixel density.
- `app/` is the desktop program around the library: windowing and drawing
  through `cce_ui`, float geometry, file dialogs, and JSON documents.
- `tests/` runs the library on concrete values.
