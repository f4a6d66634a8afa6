# aetherment

The core of a mod manager and file explorer for game files, written in Verus:
the functions in `src/` carry contracts that Verus proves.  Five items are
trusted, not proved: the wrappers `paths::gunzip` (flate2's gzip decoder),
`text::utf8_to_string` (`std::str::from_utf8`), `text::lowercase`
(`str::to_lowercase`) and `text::char_from_u32` (`char::from_u32`), and the
specification given to `String::push`.

- `src/` — the verified library: texture and material file formats
  (`tex`, `mtrl`, `dds`, `le`), the game path tree and its stored form
  (`paths`), mod file trees and imports (`static_tree`, `mod_tree`),
  composite textures (`composite`), the file dialog (`file_dialog`), the
  window-message input state machine (`input`), plugin texture uploads
  (`plugin`, `ui_texture`), UI layout helpers and enums (`uld`, `uld_enums`,
  `ui_enums`, `views`, `reorder`, `meta_edit`), and the command line plan
  (`cli`, `convert`).
- `tests/` — tests of the library on concrete values.
- `app/` — the program around it: argument parsing, reading and writing
  files, folder listings, downloads.
