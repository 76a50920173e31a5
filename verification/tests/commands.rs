use take_note::commands::{
    config_name, editor_to_string, parse_editor, parse_format, plan_daily_note,
    plan_weekly_notes, resolve_when, note_action, CommandError, NoteAction, WeeklyArgs,
};
use take_note::config::Editor;
use take_note::date::Date;
use take_note::output::OutputFormat;

fn args(when: Option<&str>, folder: Option<&str>, batch: Option<usize>) -> WeeklyArgs {
    WeeklyArgs {
        when: when.map(|s| s.to_string()),
        append: None,
        insert: None,
        when_flag: None,
        config: None,
        notes_folder: folder.map(|s| s.to_string()),
        editor: None,
        template: None,
        batch,
        no_open: true,
        format: None,
    }
}

#[test]
fn test_parse_format() {
    assert_eq!(parse_format(Some("text")).unwrap(), OutputFormat::Text);
    assert_eq!(parse_format(Some("json")).unwrap(), OutputFormat::Json);
    assert_eq!(parse_format(Some("silent")).unwrap(), OutputFormat::Silent);
    assert_eq!(parse_format(None).unwrap(), OutputFormat::Text);
    assert!(parse_format(Some("invalid")).is_err());
}

#[test]
fn test_parse_editor() {
    assert_eq!(parse_editor(Some("obsidian")).unwrap(), Editor::Obsidian);
    assert_eq!(parse_editor(Some("vscode")).unwrap(), Editor::Vscode);
    assert_eq!(parse_editor(None).unwrap(), Editor::Generic);
}

#[test]
fn rejects_config_named_default() {
    let err = config_name(Some("default")).unwrap_err();
    assert!(
        err.message().contains("reserved"),
        "expected 'reserved' in error message, got: {}",
        err.message()
    );
    assert_eq!(config_name(Some("work")).unwrap(), "work");
    assert_eq!(config_name(None).unwrap(), "default");
}

#[test]
fn when_comes_from_exactly_one_place() {
    assert_eq!(resolve_when(Some("thisWeek"), None).unwrap(), "thisWeek");
    assert_eq!(resolve_when(None, Some("lastWeek")).unwrap(), "lastWeek");
    assert_eq!(resolve_when(Some("a"), Some("b")), Err(CommandError::WhenGivenTwice));
    assert_eq!(resolve_when(None, None), Err(CommandError::WhenMissing));
    assert_eq!(
        CommandError::WhenGivenTwice.message(),
        "pass WHEN either positionally or with --when, not both"
    );
}

#[test]
fn invalid_format_message_names_it() {
    assert_eq!(
        parse_format(Some("xml")).unwrap_err().message(),
        "invalid format: xml"
    );
    assert!(parse_editor(Some("vim")).is_err());
}

#[test]
fn editor_names_round_trip() {
    for e in [Editor::Generic, Editor::Obsidian, Editor::Vscode] {
        assert_eq!(parse_editor(Some(editor_to_string(&e).as_str())).unwrap(), e);
    }
}

#[test]
fn weekly_plan_names_each_monday() {
    let today = Date::from_ymd_opt(2025, 7, 30).unwrap();
    let notes = plan_weekly_notes(&args(Some("thisWeek"), Some("/n"), Some(2)), today).unwrap();
    assert_eq!(notes.len(), 2);
    assert_eq!(notes[0].dir, "/n/2025/07");
    assert_eq!(notes[0].path, "/n/2025/07/2025-07-28-Weekly-log.md");
    assert_eq!(notes[0].date_text, "2025-07-28");
    assert_eq!(notes[0].header, "Monday 28 July 2025");
    assert_eq!(notes[1].path, "/n/2025/08/2025-08-04-Weekly-log.md");
    let notes = plan_weekly_notes(&args(Some("nextWeek"), Some("/n"), None), today).unwrap();
    assert_eq!(notes.len(), 1);
    assert_eq!(notes[0].date_text, "2025-08-04");
}

#[test]
fn weekly_plan_checks_in_order() {
    let today = Date::from_ymd_opt(2025, 7, 30).unwrap();
    assert_eq!(
        plan_weekly_notes(&args(Some("bad"), None, Some(20)), today),
        Err(CommandError::NotesFolderRequired)
    );
    assert_eq!(
        plan_weekly_notes(&args(Some("bad"), Some("/n"), Some(9)), today),
        Err(CommandError::BatchOutOfRange)
    );
    assert_eq!(
        plan_weekly_notes(&args(None, Some("/n"), Some(0)), today),
        Err(CommandError::BatchOutOfRange)
    );
    assert_eq!(
        plan_weekly_notes(&args(None, Some("/n"), None), today),
        Err(CommandError::WhenMissing)
    );
    assert!(matches!(
        plan_weekly_notes(&args(Some("someday"), Some("/n"), None), today),
        Err(CommandError::InvalidWhen(_))
    ));
    let mut appending = args(Some("thisWeek"), Some("/n"), Some(20));
    appending.append = Some("- done".to_string());
    assert_eq!(plan_weekly_notes(&appending, today).unwrap().len(), 1);
}

#[test]
fn daily_plan_names_the_day() {
    let today = Date::from_ymd_opt(2025, 7, 28).unwrap();
    let note = plan_daily_note(&args(Some("yesterday"), Some("/n/"), None), today).unwrap();
    assert_eq!(note.path, "/n/2025/07/2025-07-27-Daily-log.md");
    assert_eq!(note.header, "Sunday 27 July 2025");
    let err = plan_daily_note(&args(Some("someday"), Some("/n"), None), today).unwrap_err();
    assert!(err.message().contains("invalid when option"));
}

#[test]
fn note_action_follows_blob_then_no_open_then_editor() {
    let mut a = args(Some("thisWeek"), Some("/n"), None);
    a.no_open = false;
    assert_eq!(note_action(&a), Ok(NoteAction::Open(Editor::Generic)));
    a.editor = Some("vscode".to_string());
    assert_eq!(note_action(&a), Ok(NoteAction::Open(Editor::Vscode)));
    a.editor = Some("emacs".to_string());
    assert!(matches!(note_action(&a), Err(CommandError::InvalidEditor(_))));

    a.no_open = true;
    assert_eq!(note_action(&a), Ok(NoteAction::Report(OutputFormat::Text)));
    a.format = Some("json".to_string());
    assert_eq!(note_action(&a), Ok(NoteAction::Report(OutputFormat::Json)));
    a.format = Some("yaml".to_string());
    assert_eq!(
        note_action(&a),
        Err(CommandError::InvalidFormat("yaml".to_string()))
    );

    a.append = Some("- shipped".to_string());
    assert_eq!(note_action(&a), Ok(NoteAction::Append("- shipped".to_string())));
    a.insert = Some("Weekly Log/Monday".to_string());
    assert_eq!(
        note_action(&a),
        Ok(NoteAction::Insert {
            heading_path: "Weekly Log/Monday".to_string(),
            blob: "- shipped".to_string()
        })
    );
}
