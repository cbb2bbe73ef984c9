# tailrace

A window manager client for the river Wayland compositor: river owns input,
rendering and the protocol; tailrace decides where windows go and which one
has keyboard focus. Windows sit in scrolling rows on ten workspaces per
output; a grid overview shows every window at once; outputs can come and go
without losing windows.

## Layout

- `src/` is the state machine, verified with Verus. It never talks to the
  compositor itself: events come in as calls (`events.rs`), a manage
  sequence (`manage.rs`) answers with requests queued in
  `WindowManager::requests`, and the process around it sends them.
  - `wm.rs`: the state and its consistency predicate `wf`.
  - `ops.rs`, `migrate.rs`, `apply.rs`: workspace edits and output hotplug
    (migrating, detaching and restoring windows; no window is lost).
  - `layout.rs`, `geometry.rs`, `focus.rs`: targets, commits with request
    deduplication, borders, focus and raise order.
  - `bindings.rs`, `dispatch.rs`, `actions.rs`, `keybinding.rs`,
    `overview.rs`: key and pointer bindings and what their actions do.
  - `config.rs`, `args.rs`, `text.rs`: configuration, arguments, string
    matching.
- `tests/` runs scenarios against the library: outputs, windows, rules,
  pointer drags, the overview and every key action.
- `app/` is the program around the library: argument handling, reading
  the TOML configuration, key name lookup with xkbcommon, spawning
  commands, and a check that the compositor offers the river globals. It
  does not yet carry generated bindings for the river protocols, so it
  stops after that check; the event loop that would feed `events.rs` and
  send the queued requests is not part of it.
