# elio overlays and document previews, verified

The logic of two overlays of the `elio` terminal file manager, and of its
office-document metadata preview, written in Verus with contracts that the
verifier checks.

- `src/cd.rs`: the "cd" overlay, where a path is typed (with `~` expansion)
  and confirmed; editing keys, word movement and word deletion.
- `src/goto.rs`: the "go to" overlay: up to five destinations from the
  configuration or the "Places" sidebar, chosen by digit shortcut or click;
  `0` returns to the start directory.
- `src/config.rs`: the `[go_to]` section of the configuration, with the
  warning printed for each entry that is skipped.
- `src/preview.rs`, `src/markup.rs`, `src/archive.rs`, `src/summary.rs`:
  metadata of DOCX, XLSX, PPTX, ODT, ODS, ODP and Pages files, read from
  their ZIP archives, and of legacy `.doc` files, read from the summary
  information property set of their OLE compound file.
- `src/dates.rs`: the calendar, the parsing of ISO 8601 dates with a zone,
  and the display of an instant as local wall time with its offset from
  UTC (the machine's time zone is asked through `chrono`).
- `src/state.rs`, `src/input.rs`, `src/paths.rs`, `src/text.rs`: the
  application state the overlays work on, key and mouse events, path
  handling, and character-level text operations.
- `app/main.rs`: a small terminal front end: it reads the configuration and
  the terminal's events, opens the directories the library asks for, and
  draws the overlays.

The state machine never touches the disk itself: handlers return an `Effect`
(`SetDir`) that the caller performs, reporting back with `App::finish_cd`
where the overlay waits for the outcome.
