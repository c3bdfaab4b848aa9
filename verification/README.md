# nelisp_gtk

The display logic of a GTK4 front end for an embedded NeLisp session,
verified with Verus.

- `src/grid.rs` — `CharGrid`, the row-major character-cell buffer, viewed as
  a sequence of rows.
- `src/text.rs` — character-sequence helpers: decimal printing and parsing,
  trimming, line splitting, Lisp string unquoting, truncation.
- `src/frame.rs` — the buffer area / mode line / echo area screen, key
  event literals and the boot report.
- `src/backend.rs` — `GtkState`, the model behind the `nelisp-gtk-*`
  primitives: grid writes, overlays, the fast repaint and the input queues.
- `src/args.rs` — primitive arguments as plain values and their checks.
- `src/bridge.rs` — where the Lisp substrate lives and its boot form.
- `src/laws.rs` — properties relating several operations.
- `app/` — the GTK program: window, drawing, the Lisp session and the
  builtin registration, calling the library for every decision.
