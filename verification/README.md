# riiman

The decision logic of the riiman image-vault browser's interface, as a
library verified with Verus, and the small amount of code around it.

- `src/` — the verified library. Each module covers one part of the
  interface: keyboard navigation (`input`), completion of words in the
  search box (`text`, `search`), thumbnail selection (`thumb_grid`) and the
  thumbnail cache with its load throttle (`thumb_cache`), the tag tree and the
  tag finder (`tag_tree`, `find_tag`), tag and item editing (`edit_tag`,
  `item_panel`, `list_edit`, `value_edit`, `text_edit`, `shortcuts`), the
  main window's reaction to finished tasks and menu clicks (`main_window`),
  dialogs (`query`, `message`, `delete_def`, `transform_results`, `vaults`,
  `link_vault`, `image_form`), and form checks (`forms`, `download`,
  `transform`). `laws` states and proves the properties that relate several
  operations.
- `tests/` — tests of the library on concrete values.
- `app/` — what stays outside the library: egui state storage, textures,
  colours, and the floating-point parts (the range of the thumbnail size
  slider, float values, the layout of tags and previews).

Outside crates are called from the library behind small trusted functions
whose contracts state what the crates document: `dashmap` and `moka` hold
the checked items and the thumbnails, `indexmap` groups match indices,
`uuid` makes identifiers, `chrono` reads typed times, `relativetime` words
distances in time, `url` and `serde_json` check download settings; the
system clock is read through `std::time::SystemTime`.
