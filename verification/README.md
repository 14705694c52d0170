# beditor

The verified core of a plugin-based game editor (Bevy games, Dioxus UI).

- `src/` — the library, verified with Verus:
  - `resource_id`: identifiers `plugin::kind::name` for panels, workspaces and tools; building and parsing them.
  - `workspace`, `workspace_laws`: the workspace registry and how workspaces are assembled from enabled plugins.
  - `plugin`: what a plugin contributes (panels, tools, workspaces, translations).
  - `i18n`, `str_map`: translations by language and key, merged from plugins.
  - `menu`: joining the menu bar's menus by label.
  - `asset_browser`: the order of entries in the asset browser.
  - `viewport_frame`, `viewport_protocol`: frames read from the game's shared memory, frame rate, latest frame.
  - `viewport_manager`: which viewport providers are offered, and switching the active one.
  - `entity_tree`: the entity browser's tree built from parent links, its filter and selection, and the sample scene.
  - `plugins`: the editor's plugins (core, top bar, scene editor, asset browser, viewport, languages, test plugin and the background services) as the panels, tools, workspaces, menus and translations they contribute.
  - `layout`, `config`, `scene_editor`: window layout, defaults, the scene editor's panels.
- `app/` — ordinary Rust around it: the type-erased resource registry, serialisable/displayable copies of library types, the viewport provider objects driven by the library's manager, and adapters for the file system, the clock and language identifiers.
- `tests/` — tests of the library.
