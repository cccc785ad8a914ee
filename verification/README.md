# markchini

The rendering core of a local Markdown-to-PDF editor, written in Verus.

- `src/` is the verified library: Markdown is parsed with pulldown-cmark into
  plain events, and a verified renderer turns the events into HTML (escaping
  text, tracking lists, tables, code blocks and images), wraps it in an A4
  print stylesheet, and computes the save paths and inline image data the
  editor's commands need.
- `app/` is the desktop shell around it: the Tauri commands (file dialogs,
  reading and writing files), the updater, and printing the HTML to PDF with
  a headless Chromium.
- `tests/` runs the library on concrete inputs.
