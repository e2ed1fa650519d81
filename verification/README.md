# ezicode

The core of the ezicode code editor, written in Verus: every function in
`src/` carries a contract that Verus proves, except the small trusted
wrappers (`#[verifier::external_body]`) around `std::path`, `std::time`,
string conversion and `fuzzy-matcher`, whose contracts are believed from
those libraries' documentation and source.

- `src/` — the verified library:
  - `history` — undo/redo with version groups;
  - `fs_tree`, `paths` — the file-explorer tree, reloading and merging
    directory listings, moves and new entry names;
  - `breadcrumbs` — the breadcrumb bar: folders, file, Markdown headings
    and code symbols around the cursor;
  - `picker` — file finder, command palette and go-to-line: fuzzy ranking,
    selection, and what each row shows;
  - `extension` — Zed-format extensions: manifests, slugs, the on-disk
    store, languages, language servers, themes, the WASM component record;
  - `extensions`, `sidebar` — VS Code extensions unpacked by
    `ezicode-ext` and the extensions panel;
  - `explorer`, `entry_ops` — what the workspace does to its explorer:
    opening folders, applying fresh listings, following moves, answering
    keys, and the checks and status lines of new, renamed, moved, pasted
    and deleted entries;
  - `tabs` — the open editor tabs: opening with a preview tab, editing,
    switching, closing, saving, following moves and deletions, and the
    window title;
  - `goto`, `palette` — reading `line:column`, the palette's commands and
    what confirming a picker does;
  - `workspace`, `lsp_events` — the side bar, the folders reloaded after
    changes on disk, the starting theme, and the answers to language-server
    events;
  - `git_ops`, `diagnostics` — which files a source-control operation
    touches, the commit checks, and the texts of problems and formatting;
  - `settings` — auto-save modes and timing, defaults, where
    `settings.json` lives;
  - `linux_desktop` — the desktop entry, icon paths, the install stamp and
    the `_NET_WM_ICON` layout;
  - `badge`, `collapsible`, `dock`, `form`, `title_bar`, `window_border`,
    `color`, `theme`, `gpu`, `tab_bar`, `terminal` (the shell
    and the terminal panel),
    `app_icon`, `panic_log`, `actions` — component state and rules;
  - `text`, `order` — character-level text operations, text order and a
    stable sort by key.
- `tests/` — tests of the library.
- `app/` — the program around it: file and environment I/O, TOML and JSON
  parsing into the library's types, caches.

Paths are held as text; what they mean as paths is asked of `std::path`.
Fuzzy scores come from `fuzzy-matcher`.
