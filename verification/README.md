# neozed

The decision logic of Neo Zed's workflow editor, remote UI extensions,
plugin store and Codex usage plugin, as a Verus-verified library.

- `src/` — the library. Every function carries a `requires`/`ensures`
  contract that Verus proves; the laws that span several functions are
  public proof functions (`lemma_*`).
  - `workflow`, `canvas`, `canvas_gestures`, `layering`, `inspector`,
    `runs`: the workflow model, the canvas editing rules and pointer
    gestures, the layered auto-layout, the node inspector, and the run list
    and run picker.
  - `remote_ui`, `remote_ui_registry`, `remote_ui_host`, `hooks`: extension
    manifests, the registry of commands, panels, widgets and menus, widget
    tree validation, and how the host mounts, reloads and refreshes views.
  - `plugins`: plugin sources, statuses, listings and registry sync.
  - `codex_usage`, `usage_extension`, `oauth`, `json`, `text`, `order`: the
    Codex usage store and its auth state, the example usage extension, the
    OAuth callback, and the JSON, text and ordering helpers they share.
- `tests/` — ordinary Rust tests of the library.
- `app/` — the command-line program around the library: files, the system
  keyring, HTTP and the browser, which Verus does not see.
