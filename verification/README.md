# eden_explorer

The decision logic of the EdenExplorer file manager, written in Verus and
proved against its contracts.

## Layout

- `src/` — the verified library:
  - `sorting` — listing order (name, size, dates, type; Windows and Linux
    styles) and a stable in-place sort.
  - `listing` — merging loaded entries into a listing and tracking folder-size
    requests and reports.
  - `selection` — the selected paths, anchor and focus of a view.
  - `workspace` — tabs, split views, pinned tab paths and sidebar favorites.
  - `navigation` — back, forward and up history of a view, and the child
    folder remembered for each visited folder.
  - `viewer` — the state of one item view and what each action of the item
    viewer does to it, to the workspace, and which shell requests it sends.
  - `actions` — the actions of the item viewer, the settings window and the
    theme customizer, the clipboard state, and the decisions taken on them.
  - `shortcuts` — the global keyboard shortcuts.
  - `filename` — the naming rules for new and renamed entries.
  - `config` — configuration document versions, defaults, tags, favorites,
    themes and locales.
  - `rendering` — renderer selection and diagnostic counters.
  - `window` — geometry and message decisions of the custom window frame.
  - `text` — character-level helpers.
- `tests/` — tests of the library.
- `app/` — the program around the library: reading and writing the
  configuration documents, the shared diagnostic counters, and start-up.

The standard-library calls whose results the library relies on (Unicode case
mapping, path parsing and joining, ASCII lower-casing, one-char strings) are
made in small wrappers whose contracts state or name their results;
everything built on them is verified. Trimming and decimal formatting are
written and proved in the library.
