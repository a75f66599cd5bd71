# floatkeys

The verified core of FloatKeys, a floating on-screen keyboard for Windows: word
prediction and autocorrect (with one-Backspace undo), the clipboard history and its
file, sticky modifiers, custom shortcuts and their pinned strip, the layouts, and the
stored settings.

- `src/` is the library, written in Verus. Each operation of the keyboard is a function
  from the board's state and an event to the next state and a list of actions (`Out`):
  keys to press, text to type, timers to set, the window to lay out again.
- `app/main.rs` is the Win32 host: it draws the window, sends the actions with
  `SendInput`, reads the clipboard, the registry and the files, and keeps the floating-point
  window scale.
- `tests/` runs the library on concrete inputs.
