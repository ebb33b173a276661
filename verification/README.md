# pdf_viewer

A small PDF viewer, with the task that fetches its PDF engine and the build step that stages it.

- `src/` is the library, verified with Verus: the viewer's state and how messages change it
  (`viewer`, and with the drawing done `drawing`), what the window shows (`view`, `layout`, `color`), recolouring of page bitmaps
  (`pixels`), the native blur behind the window (`vibrancy`), the order of single-precision
  numbers (`scalar`), the command line (`launch`), and fetching and staging of the engine
  (`manifest`, `target`, `fetch`, `digest`, `staging`).
- `app/` is the program around it: the window toolkit, the PDF engine, files and the network, and
  everything that computes in floating point.
- `tests/` runs the library.

Proof functions whose names begin with `law_` state what holds of several functions together.
