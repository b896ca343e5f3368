# lionclip

LionClip is a clipboard history for the Linux desktop: a resident process
records what is copied, and a small popup at the pointer lets the user search,
pin, delete and restore entries, optionally pasting them back into the window
that had the focus.

## Layout

- `src/` is the library, verified with Verus. It holds the history and its
  ordering, deduplication and retention rules, search, the database schema,
  migration plan and row checks, the image store's limits, names and
  reconciliation plan, the image cleanup coordinator, the clipboard capture
  decisions and self-write suppression, command-line parsing, popup
  placement geometry, the popup's selection, key and auto-hide rules, the
  preview text, the auto-paste stage machine and keycode lookup, the
  preference rules and the start-at-login override rule. Properties that span
  several operations are public proof functions whose names begin with `law_`.
- `app/` is the program around it: GTK and Libadwaita windows, the GDK
  clipboard, SQLite through `rusqlite`, the X11 requests through `x11rb`, the
  image files, GSettings and the Unix signal handlers. The decisions between
  those calls (what to capture, record, store, delete, place, paste or show)
  are the library's.
- `tests/` exercises the library, including the database statements against
  an in-memory SQLite database.
