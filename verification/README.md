# sudel

SuDel deletes selected files and folders permanently: each file is overwritten
with random data a chosen number of times, renamed to a random name and removed.
It runs from the command line or as a background agent bound to a hotkey that
acts on the Finder or File Explorer selection after a confirmation dialog.

## Layout

- `src/` — the library, verified with Verus: configuration parsing and the
  pass count it yields, the paths of the configuration file, log and installed
  binary, log entry texts, target deduplication and the refusal of protected
  paths, the selection lookup's commands and the reading of their output, the
  overwrite plan of each file, temporary names, the agent's hotkeys, press
  spacing and press handling, and the steps of installing and uninstalling.
- `app/` — the program: argument parsing, file system work, running commands,
  dialogs, the hotkey event loop and login items, each driven by the library.
- `tests/` — tests of the library on concrete values.
