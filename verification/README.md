# rfc_reader

A terminal reader for RFC documents, with its logic verified in Verus.

`src/` is the verified library:

- `text` relates texts as sequences of characters to byte offsets, and splits
  documents into lines.
- `pattern` wraps the `regex` crate, and `std_text` gives contracts to the
  string functions of the standard library that the crate calls.
- `search` compiles queries and collects matches, in one pass or in chunks.
- `startup` decides what the program does with its arguments.
- `ui::toc_parsing` and `ui::toc_panel` find the table of contents and keep the
  selected entry.
- `ui::app`, `ui::app_search` and `ui::keys` are the state of the reader and
  what commands and keys do to it; `ui::app_laws` proves what holds of them.
- `ui::app_text`, `ui::highlight`, `ui::status`, `ui::layout` and `ui::screen`
  decide what is on the screen.

`app/` is the program around it: arguments, terminal, threads, files and the
network. `tests/` runs the library.
