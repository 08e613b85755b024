# video_manager

The core of a desktop video library manager, written in Verus and proved
against its contracts.

- `src/` is the verified library: which files are videos and which folders
  are skipped during a scan, how a file is compared with its stored record,
  how a folder is recorded, how a scan is tallied, the folder-tree counts,
  the tag tree and tag checks, the statements (and bound values) of the
  video listing, search, statistics, log listing and log export, the CSV
  export, the reading of `ffprobe` output, the choice of media tools, and
  SHA-256 fingerprints. The public proof functions named `law_*` state the
  properties that hold across calls.
- `tests/` runs the library on concrete values, including statements run
  against an in-memory SQLite database.
- `app/` is the unverified shell: database access (including the schema
  and the statements that record, close and repair open-log entries and
  that edit tags and videos), the directory walk, running `ffprobe` and
  `ffmpeg`, backups and the user-interface commands. It hands
  plain values to the library and carries out what it decides.
