# winflow

A window switcher for macOS. It replaces the system's command-tab: hold the
command key to see a thumbnail of every window on the current desktop, ordered
by recency; release it to switch to the selected one; tap to go straight back
to the previous window.

- `src/` is the library, written in Verus: which windows can be switched to,
  in which order and where they are shown, what keys, mouse and commands do,
  which thumbnails are captured when, what the overlay looks like, and the
  settings. It talks to no system service. Every function is proved to meet its
  contract; the modules whose names end in `_laws` prove what holds across
  functions.
- `tests/` runs the library on concrete values.
- `app/` is the program around the library: the event tap, the window server,
  Accessibility, drawing, timers and files. It needs macOS.

## Units

Lengths are whole milli-points (thousandths of a point), opacity and ratios are
millionths, colours are thousandths, and times are nanoseconds of one monotonic
clock. `app/` converts from and to the floating-point numbers of the system.

## Keys

| Key | Action |
| --- | --- |
| `⌘Tab` tap | Switch back to the previous window |
| `⌘Tab` hold | Show all windows of the current desktop; again: next window |
| ``⌘` `` tap or hold | The same for the frontmost app's windows |
| `⌘⇧Tab` | Show all windows, starting with the last one |
| `Tab` / `Shift+Tab` | Next or previous window |
| Arrow keys, `hjkl` | Move through the grid |
| `p` twice | Add or remove the quick-entry tag of the selected window |
| `⌘⇧1` to `⌘⇧3` | Switch to the window with this tag |
| `Return` / `Esc` | Switch to the selected window, or cancel |
| Release `⌘` | Switch to the selected window |
