# spe

A PDF text-overlay editor: text boxes are placed on the pages of an existing
PDF, edited with undo and redo, and baked into a new PDF that can be reopened
for editing later.

## Layout

- `src/` is the verified library (Verus). Its modules:
  - `pdf::win_ansi` — the WinAnsiEncoding the overlays are written in, its
    inverse and the ToUnicode map;
  - `overlay`, `command`, `editor` — the overlay model, reversible commands,
    and the editing state machine whose undo history is proved to always
    replay to the document;
  - `fonts`, `metrics` — the font registry (`FontRegistry::new` holds the
    Standard 14 and the four bundled TrueType script fonts, whose programs
    the caller hands in; `FontRegistry::standard` the Standard 14 alone) and
    the Standard 14 glyph widths;
  - `pdf::writer`, `pdf::metadata`, `pdf::reedit` — planning a save (font
    resources, content stream layout, stream fingerprints) and deciding how a
    saved file reopens;
  - `ipc`, `shortcuts`, `navigation`, `status`, `surface` — the IPC protocol's
    command translation, keyboard shortcuts, page navigation, the messages
    shown after a save, and reading rendered frames;
  - `pdf::renderer` — what a page render asks `pdftoppm` for, and its errors;
  - `render_queue` — which pages the canvas renders around the visible ones,
    and the sidebar's thumbnail batches, nearest to the current page first and
    never more at once than the limit allows.
- `app/` is ordinary Rust around the library: reading and writing PDFs with
  lopdf, TrueType metrics with skrifa, text layout in floating point, the
  metadata JSON, the `pdftoppm` process, and a headless session driven over
  the IPC socket. The session loads the bundled script fonts from
  `$SPE_FONT_DIR` (default `assets/fonts`: `great-vibes.ttf`,
  `dancing-script.ttf`, `pinyon-script.ttf`, `pacifico.ttf`) and falls back
  to the Standard 14 when they are not there.
- `tests/` holds the tests, run against the compiled library.
