# take-note

A command-line tool that creates and opens weekly and daily markdown notes,
with named configuration sections, templates, batch creation, headless
output, appending and heading-aware insertion, and an interactive setup
wizard.

The decisions of the tool live in a library verified with Verus (`src/`);
the command-line program around it (`app/`) reads and writes files, prompts,
and starts editor processes.

## Layout

- `src/text.rs`: strings, trimming, UTF-8 lengths, decimal formatting,
  substring replacement, path joining.
- `src/date.rs`: the calendar model, week and day selection, batches of
  Mondays, note file names and headers (date arithmetic by `chrono`).
- `src/markdown.rs`: headings of a markdown document and where a heading
  path's section ends.
- `src/notes.rs`: appending a blob to a note and inserting one at a heading
  path.
- `src/config.rs`: configuration sections, the section that applies,
  built-in defaults, `~` expansion, merging with command-line flags.
- `src/options.rs`, `src/output.rs`, `src/template.rs`, `src/handlers.rs`:
  editor names, headless output, templates, and how an editor is launched.
- `src/commands.rs`: the `weekly` and `daily` commands: option checks, the
  notes to create, and what happens to them afterwards.
- `src/init.rs`: the setup wizard's checks, answers, backup names, and
  writing a section into the TOML document (`toml_edit`).
- `tests/`: tests of the library.
- `app/`: the `take-note` program.
