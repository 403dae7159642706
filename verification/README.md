# smaragdine

An interactive console for a command tree: completion, syntax colouring,
history and a two-stage Ctrl-C, in the manner of the Minecraft command bar.

The crate is in two parts.

- `src/` is the library, verified with Verus. It holds the decisions the
  console takes, stated as contracts over plain values:
  - `keys`: who owns a key (the completion popup, the editor, history), and
    what becomes of the editor's own events; `keymap`: the default key map,
    the line editor's own less a few control keys;
  - `menu`: the selected candidate and whether the menu is drawn;
  - `highlighter`: how a line is cut into coloured pieces, and the ghost text
    at the cursor;
  - `completer`: which candidates go into the menu;
  - `inspect`: the placeholder at the cursor and the note to the right;
  - `help`: walking a help path, ordering and laying out its rows;
  - `interrupt`, `console`, `source`: the two-stage Ctrl-C, what the main
    loop does with what the editor hands back, and the exit a command leaves;
  - `printer`, `prompt`, `history`, `theme`, `text`, `util`.
- `app/` is ordinary Rust around it: the terminal, the line editor's traits,
  the command tree's parse results, threads and panics. It converts between
  those and the library's types (the command tree's nodes, for instance, are
  handed to the library as plain values for the help walk).

`tests/` runs the library on concrete values.

## Notes on the split

- The small pieces of state that the line editor's parts share (the
  selected candidate, whether the menu is drawn, the shadow of the input
  line, whether the exit is armed, the note to the right, the exit a command
  left) are plain values in the library: a copy is a value of its own and
  does not follow later changes. The sharing is `app/`'s: it keeps one of
  each behind an `Arc<Mutex<..>>`.
- The command tree crate used here has no descriptions on its nodes, so the
  menu, help and notes carry none; `Help::describe` is accepted but has
  nowhere to go. The line editor has no hook for drawing the line
  once more on submit, so the submitted line keeps its last drawing.
- The optional command-building macros (`command!`, `commands!`) are not
  part of this crate.
