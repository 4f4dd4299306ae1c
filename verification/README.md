# spotlight

A Raycast/Spotlight-style launcher for Linux: universal search over
applications, settings panels, files, browser bookmarks and history,
contacts, open windows, quicklinks, snippets, scripts and extensions, with
quick answers (currency and unit conversions, arithmetic, definitions, the
time in a city) and a clipboard history.

## Layout

- `src/` is the verified library, written in Verus. Every decision the
  launcher makes is there with its contract: parsing desktop files,
  vCards, `profiles.ini` and `wmctrl` output; ranking and sorting results;
  routing a query to the right searches and assembling the response; what
  opening a result or running a preview action does; the clipboard
  history's entries, previews and paste stack; the extension registry;
  shortcut normalization and GNOME key bindings; quicklink and web search
  addresses. Calls into outside crates (regex, fuzzy-matcher, image,
  mime_guess, the standard hasher and path functions) go through small
  trusted wrappers whose contracts name what they return.
- `app/` is the program around it: it reads files and databases, runs
  programs, talks to the network and the system clipboard, and hands the
  library plain values. Floating-point work (exchange rates, unit
  conversions, evaluated expressions) stays there.
- `tests/` exercises the library on concrete values.

The original runs inside a desktop UI framework that draws the search and
clipboard windows, the tray menu and registers global hotkeys. That layer
is not part of this project: `app/` exposes the launcher's commands as
plain functions (answering in JSON) for such a front end, and registers the
shortcuts with GNOME through `gsettings`.

Public proof functions state the library's laws, among them: search
results come out sorted by score and are a permutation of the hits; the
application index is ordered and free of adjacent repeats; identifiers
round-trip through `make_id`/`parse_id`; a paste stack never holds an
entry twice; turning an extension off and on again restores the list;
a normalized shortcut is its own normal form, and two shortcuts overlap
exactly when they name the same keys in order.
