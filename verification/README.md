# anvi

anvi opens the text field that has the focus in Neovim, and writes the text back when the session
ends. This crate is its core, with contracts that Verus proves.

- `src/` is the library. It neither waits nor speaks to the system: it decides, and is told what came
  of it.
  - `value`, `ui`: what nvim sends, and the screen that its redraw events describe
  - `notification`, `event`, `session`, `controller`, `server`: an editing session from the hotkey to
    the text that goes back, and the start of nvim
  - `text`, `utf16`, `strings`, `clipboard`: lines, line breaks, encodings and registers
  - `gui`: fonts, the input method, what a frame consists of, where the window goes
  - `uia`, `focus`, `keys`, `tray`, `autostart`, `bundle`: the decisions around the desktop
  - `neovide`: the same controller with Neovide as the window
- `tests/` runs the library on given values.
- `app/` is the program for Windows: threads, COM, Direct2D, the registry, processes and sockets.

A few functions of the standard library are used on trust. Each stands with its contract and a comment
in `strings`, `value` or `utf16`.
