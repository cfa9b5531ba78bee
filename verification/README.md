# bevy_console

The logic of an in-game developer console for Bevy, verified with Verus: command-name
completion and ranking, the suggestions popup, Tab/Enter/arrow-key handling, command history,
command listings for `help` and `list`, and the completion entries built from the registered
commands.

- `src/` is the verified library. `text`, `order` and `search` hold string matching,
  `candidates` ranks completions, `suggestions` and `input` drive the console state,
  `completions` builds the completion entries, `help` renders listings, `styling` folds a
  scrollback segment's formatting overrides into its style, `messages` carries command
  replies, `external` holds the calls into std, `shlex`, `trie-rs` and `bevy_platform`,
  `keys` matches key events against the configured toggle keys, and `laws` states properties
  that relate several operations.
- `app/` is the Bevy plugin around it: resources, messages, the command system parameter and
  the egui window.
- `tests/` runs the library on concrete inputs.
