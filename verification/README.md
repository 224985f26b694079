# termoxide

Verified building blocks of a terminal key inspector.

- `font_style`: `FontStyle`, a set of font attributes in one byte, with its
  set model and the algebra of `with`, `without`, `has` and `has_any`.
- `modifier`: the ratatui text modifier that renders a font style.
- `error`: the terminal-input reader's error type and its messages.
- `input`: key and mouse events as plain values, and their labels.
- `inspector`: the inspector's state (last key, history) and the texts it shows.
- `text`: joining, decimal numbers and padding.

`app/` is the program: it reads crossterm events, converts them to the
library's types, lays out and draws the view.
