//! The decisions of the `weekly` and `daily` commands: flags and
//! configuration merged, options parsed and checked, and the notes to create
//! worked out; the file system work is left to the caller.
use vstd::prelude::*;

use crate::config::{batch_size_in_range, copy_opt_string, or_else, Editor, Mergeable, NamedConfig, opt_view, BATCH_SIZE_MAX, BATCH_SIZE_MIN};
use crate::date::{
    supported_today, weekday_index,
    date_for_header, date_from_daily_when, date_from_when, daily_when_named, file_name_of,
    get_batch_dates, header_of, iso_date, iso_date_of, name_from_date, path_part_of,
    week_start, when_named, Date, DailyWhen, InvalidDailyWhenError, InvalidWhenError, When,
};
use crate::options::{editor_from_str, editor_named, InvalidEditorError};
use crate::output::OutputFormat;
use crate::text::{join_path, owned, path_join, push_str, str_eq};

verus! {

/// Arguments for the weekly note command.
#[derive(Clone, Debug, PartialEq)]
pub struct WeeklyArgs {
    /// Which week's note to open, given positionally.
    pub when: Option<String>,
    /// Blob to append to the resolved note without opening an editor.
    pub append: Option<String>,
    /// Heading path (`HEADING/SUBHEADING`) at the end of whose section the
    /// blob goes, in place of the end of the note.
    pub insert: Option<String>,
    /// Which week's note to open, given with `--when`.
    pub when_flag: Option<String>,
    /// Named config section to use.
    pub config: Option<String>,
    /// The root folder containing the notes.
    pub notes_folder: Option<String>,
    /// Which editor configuration to use.
    pub editor: Option<String>,
    /// The template file to use when creating new notes.
    pub template: Option<String>,
    /// The number of files to create.
    pub batch: Option<usize>,
    /// Create the file without opening it in an editor.
    pub no_open: bool,
    /// Output format for `--no-open` mode.
    pub format: Option<String>,
}

/// Arguments for the daily note command: those of the weekly command, of
/// which the batch size goes unused (a daily command makes one note).
pub type DailyArgs = WeeklyArgs;

/// The name of an editor setting.
pub open spec fn editor_name_of(e: Editor) -> Seq<char> {
    match e {
        Editor::Generic => "generic"@,
        Editor::Obsidian => "obsidian"@,
        Editor::Vscode => "vscode"@,
    }
}

/// Returns the name of an editor setting.
pub fn editor_to_string(editor: &Editor) -> (r: String)
    ensures
        r@ == editor_name_of(*editor),
{
    match editor {
        Editor::Generic => owned("generic"),
        Editor::Obsidian => owned("obsidian"),
        Editor::Vscode => owned("vscode"),
    }
}

impl Mergeable for WeeklyArgs {
    open spec fn merges_to(self, config: NamedConfig, r: Self) -> bool {
        &&& opt_view(r.notes_folder) == or_else(opt_view(self.notes_folder), opt_view(config.notes_folder))
        &&& opt_view(r.editor) == or_else(
            opt_view(self.editor),
            match config.editor {
                Some(e) => Some(editor_name_of(e)),
                None => None,
            },
        )
        &&& opt_view(r.template) == or_else(opt_view(self.template), opt_view(config.template))
        &&& r.batch == or_else(self.batch, config.batch)
        &&& r.when == self.when
        &&& r.append == self.append
        &&& r.insert == self.insert
        &&& r.when_flag == self.when_flag
        &&& r.config == self.config
        &&& r.no_open == self.no_open
        &&& r.format == self.format
    }

    fn merge(self, config: &NamedConfig) -> (r: Self) {
        let notes_folder = match self.notes_folder {
            Some(v) => Some(v),
            None => copy_opt_string(&config.notes_folder),
        };
        let editor = match self.editor {
            Some(v) => Some(v),
            None => match &config.editor {
                Some(e) => Some(editor_to_string(e)),
                None => None,
            },
        };
        let template = match self.template {
            Some(v) => Some(v),
            None => copy_opt_string(&config.template),
        };
        let batch = match self.batch {
            Some(b) => Some(b),
            None => config.batch,
        };
        WeeklyArgs {
            notes_folder,
            editor,
            template,
            batch,
            when: self.when,
            append: self.append,
            insert: self.insert,
            when_flag: self.when_flag,
            config: self.config,
            no_open: self.no_open,
            format: self.format,
        }
    }
}

/// Each editor setting has its own name, and reading that name back gives
/// the same setting; the names are `generic`, `obsidian` and `vscode`.
pub proof fn law_editor_names_round_trip(e: Editor)
    ensures
        editor_named(editor_name_of(e)) == Some(e),
        editor_name_of(Editor::Generic) == "generic"@,
        editor_name_of(Editor::Obsidian) == "obsidian"@,
        editor_name_of(Editor::Vscode) == "vscode"@,
{
    reveal_strlit("generic");
    reveal_strlit("obsidian");
    reveal_strlit("vscode");
    assert("generic"@[0] != "vscode"@[0] && "obsidian"@[0] != "generic"@[0]);
    assert("obsidian"@[0] != "vscode"@[0]);
}

/// Flags take precedence over configuration: a flag that is set comes
/// through merging unchanged, and a configuration value fills only a flag
/// that is unset; the other arguments are kept.
pub proof fn law_flags_take_precedence(flags: WeeklyArgs, config: NamedConfig, r: WeeklyArgs)
    requires
        flags.merges_to(config, r),
    ensures
        flags.notes_folder matches Some(v) ==> opt_view(r.notes_folder) == Some(v@),
        flags.editor matches Some(v) ==> opt_view(r.editor) == Some(v@),
        flags.template matches Some(v) ==> opt_view(r.template) == Some(v@),
        flags.batch matches Some(b) ==> r.batch == Some(b),
        flags.notes_folder is None ==> opt_view(r.notes_folder) == opt_view(config.notes_folder),
        flags.editor is None ==> (config.editor is None ==> r.editor is None),
        flags.editor is None ==> (config.editor matches Some(e) ==> opt_view(r.editor) == Some(
            editor_name_of(e),
        )),
        flags.template is None ==> opt_view(r.template) == opt_view(config.template),
        flags.batch is None ==> r.batch == config.batch,
        r.when == flags.when && r.when_flag == flags.when_flag && r.append == flags.append
            && r.insert == flags.insert && r.config == flags.config && r.no_open == flags.no_open
            && r.format == flags.format,
{
}

// ---------------------------------------------------------------------------
// Errors
// ---------------------------------------------------------------------------

/// Why a note command refuses its input.
#[derive(Clone, Debug, PartialEq)]
pub enum CommandError {
    /// `--config default` was given.
    ReservedDefault,
    /// No notes folder is configured or given.
    NotesFolderRequired,
    /// The batch size is outside `1..=8`.
    BatchOutOfRange,
    /// WHEN was given both positionally and with `--when`.
    WhenGivenTwice,
    /// WHEN was not given.
    WhenMissing,
    /// The weekly WHEN is not a known name.
    InvalidWhen(InvalidWhenError),
    /// The daily WHEN is not a known name.
    InvalidDailyWhen(InvalidDailyWhenError),
    /// The output format is not a known name (the name given).
    InvalidFormat(String),
    /// The editor is not a known name.
    InvalidEditor(InvalidEditorError),
}

impl CommandError {
    /// The error's message.
    pub fn message(&self) -> (r: String)
        ensures
            r@ == match self {
                CommandError::ReservedDefault => "'default' is reserved as the base config; pass a named section instead, e.g. --config work"@,
                CommandError::NotesFolderRequired => "notesFolder is required. Set it in ~/.config/take-note/config.toml or pass --notes-folder."@,
                CommandError::BatchOutOfRange => "batch size must be between 1 and 8"@,
                CommandError::WhenGivenTwice => "pass WHEN either positionally or with --when, not both"@,
                CommandError::WhenMissing => "WHEN is required"@,
                CommandError::InvalidWhen(_) => "invalid When option, must be one of |thisWeek|nextWeek|lastWeek|"@,
                CommandError::InvalidDailyWhen(_) => "invalid when option, must be one of |yesterday|today|tomorrow|"@,
                CommandError::InvalidFormat(f) => "invalid format: "@ + f@,
                CommandError::InvalidEditor(_) => "invalid Editor option, must be one of |generic|vscode|obsidian|"@,
            },
    {
        match self {
            CommandError::ReservedDefault => owned(
                "'default' is reserved as the base config; pass a named section instead, e.g. --config work",
            ),
            CommandError::NotesFolderRequired => owned(
                "notesFolder is required. Set it in ~/.config/take-note/config.toml or pass --notes-folder.",
            ),
            CommandError::BatchOutOfRange => owned("batch size must be between 1 and 8"),
            CommandError::WhenGivenTwice => owned(
                "pass WHEN either positionally or with --when, not both",
            ),
            CommandError::WhenMissing => owned("WHEN is required"),
            CommandError::InvalidWhen(e) => e.message(),
            CommandError::InvalidDailyWhen(e) => e.message(),
            CommandError::InvalidFormat(f) => {
                let mut s = owned("invalid format: ");
                push_str(&mut s, f.as_str());
                s
            },
            CommandError::InvalidEditor(e) => e.message(),
        }
    }
}

// ---------------------------------------------------------------------------
// Options
// ---------------------------------------------------------------------------

/// Checks the `--config` option: `default` is reserved; without the option
/// the base name `default` applies.
pub fn config_name(config: Option<&str>) -> (r: Result<String, CommandError>)
    ensures
        match config {
            Some(c) => if c@ == "default"@ {
                r == Err::<String, CommandError>(CommandError::ReservedDefault)
            } else {
                r matches Ok(n) && n@ == c@
            },
            None => r matches Ok(n) && n@ == "default"@,
        },
{
    match config {
        Some(c) => if str_eq(c, "default") {
            Err(CommandError::ReservedDefault)
        } else {
            Ok(owned(c))
        },
        None => Ok(owned("default")),
    }
}

/// WHEN, from the positional argument or `--when`: exactly one of them.
pub fn resolve_when<'a>(positional: Option<&'a str>, flag: Option<&'a str>) -> (r: Result<
    &'a str,
    CommandError,
>)
    ensures
        match (positional, flag) {
            (Some(_), Some(_)) => r == Err::<&str, CommandError>(CommandError::WhenGivenTwice),
            (Some(v), None) => r == Ok::<&str, CommandError>(v),
            (None, Some(v)) => r == Ok::<&str, CommandError>(v),
            (None, None) => r == Err::<&str, CommandError>(CommandError::WhenMissing),
        },
{
    match (positional, flag) {
        (Some(_), Some(_)) => Err(CommandError::WhenGivenTwice),
        (Some(value), None) => Ok(value),
        (None, Some(value)) => Ok(value),
        (None, None) => Err(CommandError::WhenMissing),
    }
}

/// The output format that a name stands for; `text` when none is given.
pub open spec fn format_named(s: Option<Seq<char>>) -> Option<OutputFormat> {
    match s {
        None => Some(OutputFormat::Text),
        Some(n) => if n == "text"@ {
            Some(OutputFormat::Text)
        } else if n == "json"@ {
            Some(OutputFormat::Json)
        } else if n == "silent"@ {
            Some(OutputFormat::Silent)
        } else {
            None
        },
    }
}

/// Parses the output format: `text` (also when none is given), `json` or
/// `silent`.
pub fn parse_format(s: Option<&str>) -> (r: Result<OutputFormat, CommandError>)
    ensures
        match format_named(
            match s {
                Some(v) => Some(v@),
                None => None,
            },
        ) {
            Some(f) => r == Ok::<OutputFormat, CommandError>(f),
            None => r matches Err(CommandError::InvalidFormat(n)) && Some(n@) == match s {
                Some(v) => Some(v@),
                None => None::<Seq<char>>,
            },
        },
{
    match s {
        None => Ok(OutputFormat::Text),
        Some(v) => if str_eq(v, "text") {
            Ok(OutputFormat::Text)
        } else if str_eq(v, "json") {
            Ok(OutputFormat::Json)
        } else if str_eq(v, "silent") {
            Ok(OutputFormat::Silent)
        } else {
            Err(CommandError::InvalidFormat(owned(v)))
        },
    }
}

/// Parses the editor option; the generic editor when none is given.
pub fn parse_editor(s: Option<&str>) -> (r: Result<Editor, CommandError>)
    ensures
        match s {
            None => r == Ok::<Editor, CommandError>(Editor::Generic),
            Some(v) => match editor_named(v@) {
                Some(e) => r == Ok::<Editor, CommandError>(e),
                None => r == Err::<Editor, CommandError>(
                    CommandError::InvalidEditor(InvalidEditorError),
                ),
            },
        },
{
    match s {
        Some(val) => match editor_from_str(val) {
            Ok(e) => Ok(e),
            Err(e) => Err(CommandError::InvalidEditor(e)),
        },
        None => Ok(Editor::Generic),
    }
}

// ---------------------------------------------------------------------------
// Planning the notes
// ---------------------------------------------------------------------------

/// A note to create, or to find when it exists: its date, its directory and
/// path, the date text that results report, and the header text that fills
/// the template.
#[derive(Clone, Debug, PartialEq)]
pub struct PlannedNote {
    pub date: Date,
    pub dir: String,
    pub path: String,
    pub date_text: String,
    pub header: String,
}

/// `n` is the note for `date` in `folder`, with file name suffix `suffix`:
/// `folder/YYYY/MM/YYYY-MM-DD-suffix.md`.
pub open spec fn note_for(folder: Seq<char>, date: Date, suffix: Seq<char>, n: PlannedNote) -> bool {
    &&& n.date == date
    &&& n.dir@ == path_join(folder, path_part_of(date))
    &&& n.path@ == path_join(n.dir@, file_name_of(date, suffix, "md"@))
    &&& n.date_text@ == iso_date_of(date)
    &&& n.header@ == header_of(date)
}

/// Works out the note for `date` in `folder`.
pub fn plan_note(folder: &str, date: Date, suffix: &str) -> (r: PlannedNote)
    requires
        date.wf(),
    ensures
        note_for(folder@, date, suffix@, r),
{
    let (path_part, file_name) = name_from_date(date, suffix, "md");
    let dir = join_path(folder, path_part.as_str());
    let path = join_path(dir.as_str(), file_name.as_str());
    proof {
        reveal_strlit("md");
    }
    PlannedNote { date, dir, path, date_text: iso_date(date), header: date_for_header(date) }
}

/// The WHEN name given, when it is given exactly once.
pub open spec fn when_text(positional: Option<String>, flag: Option<String>) -> Option<Seq<char>> {
    match (positional, flag) {
        (Some(v), None) => Some(v@),
        (None, Some(v)) => Some(v@),
        _ => None,
    }
}

/// How many weekly notes a command makes: one when appending, else the batch
/// size (one when unset).
pub open spec fn weekly_batch(args: WeeklyArgs) -> int {
    if args.append is Some {
        1
    } else {
        match args.batch {
            Some(b) => b as int,
            None => 1,
        }
    }
}

/// Why the weekly command refuses its merged arguments, checked in this
/// order: no notes folder, a batch size outside `1..=8`, WHEN given twice or
/// not at all, an unknown WHEN.
pub open spec fn weekly_error(args: WeeklyArgs) -> Option<CommandError> {
    if args.notes_folder is None {
        Some(CommandError::NotesFolderRequired)
    } else if !(BATCH_SIZE_MIN <= weekly_batch(args) <= BATCH_SIZE_MAX) {
        Some(CommandError::BatchOutOfRange)
    } else if args.when is Some && args.when_flag is Some {
        Some(CommandError::WhenGivenTwice)
    } else if args.when is None && args.when_flag is None {
        Some(CommandError::WhenMissing)
    } else if when_named(when_text(args.when, args.when_flag).unwrap()) is None {
        Some(CommandError::InvalidWhen(InvalidWhenError))
    } else {
        None
    }
}

/// The week that the weekly command starts from.
pub open spec fn weekly_when(args: WeeklyArgs) -> When {
    when_named(when_text(args.when, args.when_flag).unwrap()).unwrap()
}

/// Works out the weekly notes to create from the merged arguments: the
/// Monday of the chosen week and the following Mondays, one note each, named
/// `YYYY-MM-DD-Weekly-log.md` under `YYYY/MM` in the notes folder.
pub fn plan_weekly_notes(args: &WeeklyArgs, today: Date) -> (r: Result<Vec<PlannedNote>, CommandError>)
    requires
        supported_today(today),
    ensures
        match weekly_error(*args) {
            Some(e) => r == Err::<Vec<PlannedNote>, CommandError>(e),
            None => r matches Ok(notes) && notes@.len() == weekly_batch(*args) && forall|i: int|
                0 <= i < notes@.len() ==> {
                    let n = #[trigger] notes@[i];
                    &&& n.date.wf()
                    &&& n.date.days() == week_start(today.days()) + weekly_when(*args).offset() + 7
                        * i
                    &&& weekday_index(n.date.days()) == 0
                    &&& note_for(args.notes_folder.unwrap()@, n.date, "Weekly-log"@, n)
                },
        },
{
    let folder = match &args.notes_folder {
        Some(f) => f,
        None => {
            return Err(CommandError::NotesFolderRequired);
        },
    };
    let batch_size: usize = if args.append.is_some() {
        1
    } else {
        match args.batch {
            Some(b) => b,
            None => 1,
        }
    };
    if !batch_size_in_range(batch_size) {
        return Err(CommandError::BatchOutOfRange);
    }
    let positional: Option<&str> = match &args.when {
        Some(w) => Some(w.as_str()),
        None => None,
    };
    let flag: Option<&str> = match &args.when_flag {
        Some(w) => Some(w.as_str()),
        None => None,
    };
    let when_name = match resolve_when(positional, flag) {
        Ok(w) => w,
        Err(e) => {
            return Err(e);
        },
    };
    let when = match When::from_str(when_name) {
        Ok(w) => w,
        Err(e) => {
            return Err(CommandError::InvalidWhen(e));
        },
    };
    proof {
        crate::date::lemma_week_start(today.days(), 0);
    }
    let start_date = date_from_when(today, when);
    let dates = get_batch_dates(start_date, batch_size);
    let mut notes: Vec<PlannedNote> = Vec::new();
    let mut i: usize = 0;
    while i < dates.len()
        invariant
            dates@.len() == batch_size,
            i <= dates@.len(),
            notes@.len() == i,
            forall|k: int|
                0 <= k < batch_size ==> (#[trigger] dates@[k]).wf() && dates@[k].days()
                    == start_date.days() + 7 * k,
            forall|k: int|
                0 <= k < i ==> #[trigger] note_for(folder@, dates@[k], "Weekly-log"@, notes@[k]),
        decreases dates@.len() - i,
    {
        proof {
            reveal_strlit("Weekly-log");
        }
        let note = plan_note(folder.as_str(), dates[i], "Weekly-log");
        notes.push(note);
        i = i + 1;
    }
    proof {
        assert forall|k: int| 0 <= k < notes@.len() implies {
            let n = #[trigger] notes@[k];
            &&& n.date.wf()
            &&& n.date.days() == week_start(today.days()) + weekly_when(*args).offset() + 7 * k
            &&& weekday_index(n.date.days()) == 0
            &&& note_for(args.notes_folder.unwrap()@, n.date, "Weekly-log"@, n)
        } by {
            assert(note_for(folder@, dates@[k], "Weekly-log"@, notes@[k]));
            assert(dates@[k].wf());
            crate::date::lemma_batch_of_mondays(start_date.days(), k);
        }
    }
    Ok(notes)
}

/// Why the daily command refuses its merged arguments, checked in this
/// order: no notes folder, WHEN given twice or not at all, an unknown WHEN.
pub open spec fn daily_error(args: DailyArgs) -> Option<CommandError> {
    if args.notes_folder is None {
        Some(CommandError::NotesFolderRequired)
    } else if args.when is Some && args.when_flag is Some {
        Some(CommandError::WhenGivenTwice)
    } else if args.when is None && args.when_flag is None {
        Some(CommandError::WhenMissing)
    } else if daily_when_named(when_text(args.when, args.when_flag).unwrap()) is None {
        Some(CommandError::InvalidDailyWhen(InvalidDailyWhenError))
    } else {
        None
    }
}

/// Works out the daily note to create from the merged arguments: the note of
/// the chosen day, named `YYYY-MM-DD-Daily-log.md` under `YYYY/MM` in the
/// notes folder.
pub fn plan_daily_note(args: &DailyArgs, today: Date) -> (r: Result<PlannedNote, CommandError>)
    requires
        supported_today(today),
    ensures
        match daily_error(*args) {
            Some(e) => r == Err::<PlannedNote, CommandError>(e),
            None => r matches Ok(n) && n.date.wf() && n.date.days() == today.days()
                + daily_when_named(when_text(args.when, args.when_flag).unwrap()).unwrap().offset()
                && note_for(args.notes_folder.unwrap()@, n.date, "Daily-log"@, n),
        },
{
    let folder = match &args.notes_folder {
        Some(f) => f,
        None => {
            return Err(CommandError::NotesFolderRequired);
        },
    };
    let positional: Option<&str> = match &args.when {
        Some(w) => Some(w.as_str()),
        None => None,
    };
    let flag: Option<&str> = match &args.when_flag {
        Some(w) => Some(w.as_str()),
        None => None,
    };
    let when_name = match resolve_when(positional, flag) {
        Ok(w) => w,
        Err(e) => {
            return Err(e);
        },
    };
    let when = match DailyWhen::from_str(when_name) {
        Ok(w) => w,
        Err(e) => {
            return Err(CommandError::InvalidDailyWhen(e));
        },
    };
    let date = date_from_daily_when(today, when);
    proof {
        reveal_strlit("Daily-log");
    }
    Ok(plan_note(folder.as_str(), date, "Daily-log"))
}

// ---------------------------------------------------------------------------
// What happens once the notes exist
// ---------------------------------------------------------------------------

/// What a note command does with its first note once the notes exist.
#[derive(Clone, Debug, PartialEq)]
pub enum NoteAction {
    /// Append the blob to the note and print the note's path.
    Append(String),
    /// Insert the blob at the end of the section at the heading path and
    /// print the note's path.
    Insert { heading_path: String, blob: String },
    /// Report every note in this format, without opening one.
    Report(OutputFormat),
    /// Open the note with this editor.
    Open(Editor),
}

/// `r` is what the merged arguments ask for: with a blob, appending it, or
/// inserting it when a heading path is given (headless in both cases);
/// without one, a report in the chosen format under `--no-open`, else
/// opening with the chosen editor. An unknown format or editor name is
/// refused.
pub open spec fn action_for(args: WeeklyArgs, r: Result<NoteAction, CommandError>) -> bool {
    match args.append {
        Some(blob) => match args.insert {
            Some(h) => r matches Ok(NoteAction::Insert { heading_path, blob: b }) && heading_path@
                == h@ && b@ == blob@,
            None => r matches Ok(NoteAction::Append(b)) && b@ == blob@,
        },
        None => if args.no_open {
            match format_named(opt_view(args.format)) {
                Some(f) => r == Ok::<NoteAction, CommandError>(NoteAction::Report(f)),
                None => r matches Err(CommandError::InvalidFormat(n)) && Some(n@) == opt_view(
                    args.format,
                ),
            }
        } else {
            match args.editor {
                None => r == Ok::<NoteAction, CommandError>(NoteAction::Open(Editor::Generic)),
                Some(v) => match editor_named(v@) {
                    Some(e) => r == Ok::<NoteAction, CommandError>(NoteAction::Open(e)),
                    None => r == Err::<NoteAction, CommandError>(
                        CommandError::InvalidEditor(InvalidEditorError),
                    ),
                },
            }
        },
    }
}

/// Works out, from the merged arguments, what the command does with its
/// notes once they exist.
pub fn note_action(args: &WeeklyArgs) -> (r: Result<NoteAction, CommandError>)
    ensures
        action_for(*args, r),
{
    match &args.append {
        Some(blob) => match &args.insert {
            Some(h) => Ok(NoteAction::Insert { heading_path: h.clone(), blob: blob.clone() }),
            None => Ok(NoteAction::Append(blob.clone())),
        },
        None => if args.no_open {
            let format: Option<&str> = match &args.format {
                Some(f) => Some(f.as_str()),
                None => None,
            };
            match parse_format(format) {
                Ok(f) => Ok(NoteAction::Report(f)),
                Err(e) => Err(e),
            }
        } else {
            let editor: Option<&str> = match &args.editor {
                Some(e) => Some(e.as_str()),
                None => None,
            };
            match parse_editor(editor) {
                Ok(e) => Ok(NoteAction::Open(e)),
                Err(e) => Err(e),
            }
        },
    }
}

} // verus!
