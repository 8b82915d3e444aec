# klinit

A cleanup tool for macOS: it finds caches, logs, leftovers of uninstalled apps, large and
duplicate files, and removes what you confirm, to the Trash by default.

The decisions are a Verus library with proved contracts, in `src/`:

- `safety`: the guard every path passes before anything is deleted (home only, protected
  folders, app bundles directly inside the application folders), with its laws.
- `executor`: what happens to each planned item (skip, pretend, trash, remove) and the report.
- `targets`, `modules`, `locations`: the cleanup locations as data, category selection
  (`all` leaves the Trash out), and the proof that no location lies in a protected folder.
- `apps`, `leftovers`, `large`: app lookup and uninstall plans, orphaned support files,
  large/old files and duplicate groups.
- `dupes`: the duplicate search from end to end (size, prefix digest, full digest), with
  the proof that its sets are exactly the copies.
- `disk`: how full the home volume is, read from the report of `df -Pk`.
- `plan`, `sort`, `group`, `text`, `path`, `config`: the data and the helpers they share.
- `tui`: the full-screen interface as a state machine (`app`), its click targets and layout,
  with laws such as "nothing is removed without confirmation".

`app/` is the program around it: command line, disk reading, deleting, printing, and the
terminal interface's drawing and event loop. `tests/` exercises the library.
