use take_note::config::{
    batch_size_in_range, config_for, expand_home, expand_home_with, load_section, merge_with_flags,
    ConfigFile, Editor, NamedConfig,
};
use take_note::commands::WeeklyArgs;

fn section(folder: Option<&str>, editor: Option<Editor>, template: Option<&str>, batch: Option<usize>) -> NamedConfig {
    NamedConfig {
        notes_folder: folder.map(|s| s.to_string()),
        editor,
        template: template.map(|s| s.to_string()),
        batch,
    }
}

fn sample_file() -> ConfigFile {
    let mut file = ConfigFile::new();
    file.insert("default".to_string(), section(Some("/tmp/notes"), Some(Editor::Obsidian), None, Some(3)));
    file.insert("work".to_string(), section(Some("/tmp/work"), Some(Editor::Vscode), None, None));
    file
}

#[test]
fn test_expand_home() {
    let home = dirs::home_dir().unwrap_or_else(|| std::path::PathBuf::from("."));
    let expanded = expand_home("~/Documents/Notes");
    assert_eq!(expanded, home.join("Documents/Notes").to_string_lossy());
}

#[test]
fn test_expand_home_no_tilde() {
    let path = "/absolute/path";
    assert_eq!(expand_home(path), path);
}

#[test]
fn expand_home_with_joins_as_a_path() {
    assert_eq!(expand_home_with("~/Notes", "/home/u"), "/home/u/Notes");
    assert_eq!(expand_home_with("~/Notes", "/home/u/"), "/home/u/Notes");
    assert_eq!(expand_home_with("~", "/home/u"), "~");
    assert_eq!(expand_home_with("~user/x", "/home/u"), "~user/x");
    assert_eq!(expand_home_with("~//etc", "/home/u"), "/etc");
    assert_eq!(expand_home_with("~/", "/home/u"), "/home/u/");
}

#[test]
fn named_section_and_defaults() {
    let file = sample_file();
    let default_cfg = config_for(&file, "default", None, "/home/u");
    assert_eq!(default_cfg.notes_folder, Some("/tmp/notes".to_string()));
    assert_eq!(default_cfg.editor, Some(Editor::Obsidian));
    assert_eq!(default_cfg.batch, Some(3));
    assert_eq!(default_cfg.template, None);

    let work_cfg = config_for(&file, "work", None, "/home/u");
    assert_eq!(work_cfg.notes_folder, Some("/tmp/work".to_string()));
    assert_eq!(work_cfg.editor, Some(Editor::Vscode));
    assert_eq!(work_cfg.batch, Some(1));
    assert_eq!(work_cfg.template, None);
}

#[test]
fn missing_sections_fall_back_to_default_then_builtins() {
    let file = sample_file();
    let cfg = config_for(&file, "missing", None, "/home/u");
    assert_eq!(cfg.notes_folder, Some("/tmp/notes".to_string()));
    let empty = ConfigFile::new();
    let cfg = config_for(&empty, "default", None, "/home/u");
    assert_eq!(cfg.editor, Some(Editor::Generic));
    assert_eq!(cfg.batch, Some(1));
    assert_eq!(cfg.notes_folder, None);
}

#[test]
fn command_section_is_laid_over_default_without_a_named_config() {
    let mut file = sample_file();
    file.insert("weekly".to_string(), section(None, None, Some("~/T/Weekly.md"), Some(2)));
    let cfg = config_for(&file, "default", Some("weekly"), "/home/u");
    assert_eq!(cfg.template, Some("/home/u/T/Weekly.md".to_string()));
    assert_eq!(cfg.batch, Some(2));
    assert_eq!(cfg.notes_folder, Some("/tmp/notes".to_string()));
    assert_eq!(cfg.editor, Some(Editor::Obsidian));
    let cfg = config_for(&file, "work", Some("weekly"), "/home/u");
    assert_eq!(cfg.notes_folder, Some("/tmp/work".to_string()));
    let cfg = config_for(&file, "default", Some("daily"), "/home/u");
    assert_eq!(cfg.notes_folder, Some("/tmp/notes".to_string()));
}

#[test]
fn inserting_a_section_replaces_one_of_the_same_name() {
    let mut file = sample_file();
    file.insert("work".to_string(), section(Some("/elsewhere"), None, None, None));
    assert_eq!(file.get("work").unwrap().notes_folder, Some("/elsewhere".to_string()));
    assert_eq!(file.get("default").unwrap().batch, Some(3));
    assert!(file.get("nope").is_none());
}

#[test]
fn load_section_expands_home_of_the_user() {
    let mut file = ConfigFile::new();
    file.insert("default".to_string(), section(Some("~/Notes"), None, None, None));
    let home = dirs::home_dir().unwrap_or_else(|| std::path::PathBuf::from("."));
    let cfg = load_section(&file, "default", None);
    assert_eq!(cfg.notes_folder, Some(home.join("Notes").to_string_lossy().into_owned()));
}

#[test]
fn flags_take_precedence_over_config() {
    let cfg = section(Some("/cfg"), Some(Editor::Obsidian), Some("t.md"), Some(4));
    let args = WeeklyArgs {
        when: Some("thisWeek".to_string()),
        append: None,
        insert: None,
        when_flag: None,
        config: None,
        notes_folder: Some("/flag".to_string()),
        editor: None,
        template: None,
        batch: Some(2),
        no_open: true,
        format: None,
    };
    let merged = merge_with_flags(&cfg, args);
    assert_eq!(merged.notes_folder, Some("/flag".to_string()));
    assert_eq!(merged.editor, Some("obsidian".to_string()));
    assert_eq!(merged.template, Some("t.md".to_string()));
    assert_eq!(merged.batch, Some(2));
    assert!(merged.no_open);
    assert_eq!(merged.when, Some("thisWeek".to_string()));
}

#[test]
fn batch_range_is_one_to_eight() {
    assert!(!batch_size_in_range(0));
    assert!(batch_size_in_range(1));
    assert!(batch_size_in_range(8));
    assert!(!batch_size_in_range(9));
}

#[test]
fn test_load_config_from_file() {
    let file = sample_file();

    let default_cfg = load_section(&file, "default", None);
    assert_eq!(default_cfg.notes_folder, Some("/tmp/notes".to_string()));
    assert_eq!(default_cfg.editor, Some(Editor::Obsidian));
    assert_eq!(default_cfg.batch, Some(3));
    assert_eq!(default_cfg.template, None);

    let work_cfg = load_section(&file, "work", None);
    assert_eq!(work_cfg.notes_folder, Some("/tmp/work".to_string()));
    assert_eq!(work_cfg.editor, Some(Editor::Vscode));
    assert_eq!(work_cfg.batch, Some(1)); // falls back to default
    assert_eq!(work_cfg.template, None);
}

#[test]
fn test_load_config_missing_file() {
    let file = ConfigFile::new();
    let cfg = load_section(&file, "default", None);
    assert_eq!(cfg.editor, Some(Editor::Generic));
    assert_eq!(cfg.batch, Some(1));
    assert_eq!(cfg.notes_folder, None);
}

#[test]
fn test_load_config_fallback_to_default() {
    let mut file = ConfigFile::new();
    file.insert("default".to_string(), section(Some("/tmp/notes"), None, None, None));
    let cfg = load_section(&file, "work", None);
    assert_eq!(cfg.notes_folder, Some("/tmp/notes".to_string()));
}
