# backup-games

Backs up `~/Games` (and other configured sources) to a backup disk with
`rclone`, skipping directories whose modification time has not changed since
the last backup, and restores selected items back.

- `src/` is the verified library: the decisions of the tool, each with a
  contract proved by Verus. `backup` drives one source's backup as a state
  machine (change tracking, exclusion, size limit, interruption, pruning);
  `manifest` reads and writes the change-tracking file (with a proof that
  writing then reading gives the same manifest, for directory names without
  `=`, without a line break and without white space at either end, the names
  the `name=seconds` lines can hold); `config` reads the user configuration;
  `restore` drives a restore as a state machine (stops when there is nothing
  to restore, full restore or the user's selection, one copy per item);
  `update` decides what a check for a newer release found; `copy`, `system`
  and `paths` hold the rest; `text`, `number` and `sorted_map` are the
  verified text, number and map handling they are specified over.
- The configuration and the manifest are keyed by directory and setting
  names. They are held in `sorted_map::SortedMap`, a sorted list of pairs
  with a proved map view, rather than in a `HashMap<String, _>`: with string
  keys, Verus proves not even the size of a `HashMap` after one insertion,
  so nothing about the settings or the manifest could be proved over it.
- `app/` is the program: command line, terminal, processes (`rclone`, `df`,
  `lsblk`, `find`, `fzf`), files and signals. It performs the actions the
  library asks for and reports back what happened.
- `tests/` runs the library on concrete values.
