# xilem_extras

The model behind a set of table, list, tree, menu, tab and progress widgets:
selection state, multi-column sort order and row sorting, menu entries and
the decisions menu buttons make on clicks and hovers, table row
virtualization and keyboard navigation, tab navigation and the light / dark
theme palette. Every function in `src/` carries a contract checked by Verus.

Layout:

- `src/selection/` — single and multi selection (Command/Alt toggling,
  Shift range selection) and their laws.
- `src/table/` — cell values and their order, sort descriptors and sort
  orders, stable row sorting, widget actions, row virtualization, and the
  laws of sorting.
- `src/menu/` — menu items, separators, submenus and groups, the data a menu
  button shows, and its click and hover decisions.
- `src/tabs.rs`, `src/theme.rs`, `src/layout.rs`, `src/widgets.rs` — tabs,
  theme palette, layout options and the switch / radio toggles.
- `src/text.rs` — string comparison by UTF-8 bytes.
- `app/` — the parts kept in `f64` pixels (column layout, column widths,
  scroll state, float cells), in plain Rust.
- `tests/` — tests of the library.
