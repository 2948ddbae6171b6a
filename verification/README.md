# luninstaller

A GNOME application uninstaller, with its core written in Verus.

- `src/` is the verified library. `text` and `path` hold the character-level
  and path handling; `package` the kinds of package and their labels;
  `dpkg` the index of desktop files that Debian packages install; `desktop`
  the reading of `.desktop` files; `catalog` which applications are listed
  and in which order; `uninstall` the step that removes an application and
  the report on it; `presentation` the texts and filter of the window;
  `laws` the properties proved of the library as a whole.
- `app/` is the GTK program around it: it reads the file system, runs the
  removal commands and draws the window.
- `tests/` runs the library on concrete inputs.
