# backup_directories

Backs up configured directories onto an external backup disk (rsync on
Linux/macOS, robocopy on Windows) and restores them.

- `src/` — the verified library: platform path rules (`platform`), the
  configuration files (`config`), the backup and restore rules (`backup`,
  `restore`: exclusion list, copy plans, confirmation, power action, log file
  names), the copy commands and how their output and exit codes are read
  (`commands`), the checks of the backup disk, date stamps and start-file lookup
  (`tools`), and character-level text operations (`text`).
- `app/` — the program: command line, file and system access, running the
  copy commands.
- `tests/` — tests of the library.
