# auto_backup

An automatic backup tool: it zips one or more source folders into a
timestamped archive in a destination folder and keeps only the newest
backups there.

- `src/` is the verified library (Verus): configuration (`config`), archive
  naming and recognition (`naming`), rotation of old backups (`rotation`),
  decimal text (`text`), the run banner and path checks (`context`), archive
  layout decisions (`archive`) and how a run ends (`run`).
- `app/` is the program around it: configuration file (TOML), directories,
  clock, directory walking, ZIP writing, deleting files and logging.
- `tests/` exercises the library on concrete values.
