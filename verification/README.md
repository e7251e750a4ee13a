# eesha

The browser chrome of the Eesha browser: the address bar's text editor, the
tab strip and its active tab, navigation flags, keyboard shortcuts, and what
pointer and key events ask the browser engine to do.

The decisions live in `src/`, written in Verus: every public function states
its result in its `ensures`, over a model of the text as a sequence of
characters addressed by UTF-8 byte offsets (`text.rs`, `editing.rs`). Proof
functions named `law_*` state what holds across operations, for instance that
Backspace undoes a typed character, that every edit keeps the cursor on a
character boundary, or that closing tabs keeps the tab flags in step with the
active tab.

- `src/text.rs`: strings as character sequences, byte offsets, boundaries,
  splicing and trimming.
- `src/editing.rs`: the editing model of a one-line text field.
- `src/url_input.rs`: the address field and what Enter makes of its text.
- `src/state.rs`, `src/event.rs`: chrome state, pointer and URL-bar events,
  and the requests they send to the engine.
- `src/native_chrome.rs`: the native tab strip, its click actions and labels.
- `src/keyboard.rs`: the shortcut table.
- `src/keys.rs`, `src/widget.rs`, `src/messages.rs`, `src/clipboard.rs`:
  event, identifier, message and error types.

`app/` holds what is not verified: drawing with WebRender, float geometry and
hit testing, the system clipboard, conversion of `keyboard-types` events, and
the serde forms of the controller messages. `tests/` runs the library on
concrete inputs.
