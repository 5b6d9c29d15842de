# ridgeback

The engine of a tabbed terminal emulator, written in Verus: the functions in
`src/` carry `requires`/`ensures` contracts that Verus proves. The exceptions are
the few calls into the `regex` crate and into std that Verus has no
specification for (compiling and running a regex, escaping a pattern,
lowercasing, UTF-8 and UTF-16 decoding, pushing a character, the alphanumeric
test, polling a channel): each sits in a small `#[verifier::external_body]` wrapper whose
contract is trusted, not proved, and whose doc comment says what it claims.

## Layout

- `src/` — the verified library.
  - Terminal engine: `cell`, `grid`, `buffer` (scrollback), `vt_handler` (VT/ANSI
    sequences, as a state machine over a model of the screen), `sixel` (Sixel image
    decoding), `search` (search across scrollback and screen) with
    `compiled_regex` (its calls into the `regex` crate), `input_buffer` (the editable input line with selection, undo/redo,
    history and ghost-text suggestions), `terminal` (a session's state).
  - Configuration: `profile` (with `profile_naming`, the name and key of a
    duplicated profile), `keybindings`, `rendering`, `ai_config`, `wsl`.
  - Application state: `tabs` (text selection, tab groups and the tab manager),
    `split_pane` (the split layout), `workspace` (tab groups and panes kept in step),
    `shortcuts`, `pty_keys` (what a key sends to the shell), `find_overlay`,
    `command_query`, `toast`, `frame_pacer`, `casting`.
  - AI: `ai` (backends and their settings), `ai_service` (the prompts and the parsing
    of the answers), `local_manager` (the local model's lifecycle).
  - Plugins: `plugin_api` (the plugin traits and the HTML and Markdown exporters),
    `plugin_host` (what the Lua plugin host decides around a script's run). Running
    Lua scripts itself needs a Lua interpreter, which this project does not build.
  - `text`: character-sequence helpers shared by the modules.
- `tests/` — tests run against the compiled library.
- `app/` — a small command-line program around the library: it feeds standard
  input through the `vte` parser into the VT handler and prints the screen, and
  holds what the library cannot: clocks, the platform, floating-point geometry.

Laws of the library (what every operation keeps, what one call undoes) are public
proof functions next to the functions they speak of, named `lemma_*`.
