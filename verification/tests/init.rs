use take_note::init::{
    backup_file_name, editor_default_index, has_section, init_error_from_io, is_editor_option,
    parse_batch_input, parse_config_document, picked_section, preflight_entries,
    preflight_issues, prompt_defaults, section_fix_targets, section_keys, section_options,
    set_section_text, template_choice, validate_new_section_name, write_section,
    BatchInputError, InitError, SectionEntry, SectionNameError, SectionValues, BATCH_KEY,
    EDITOR_KEY, NOTES_FOLDER_KEY,
};
use toml_edit::DocumentMut;

fn values(folder: &str, editor: &str, template: Option<&str>, batch: usize) -> SectionValues {
    SectionValues {
        notes_folder: folder.into(),
        editor: editor.into(),
        template: template.map(|t| t.into()),
        batch,
    }
}

#[test]
fn write_section_creates_correct_toml_keys() {
    let mut doc = DocumentMut::new();
    write_section(
        &mut doc,
        "default",
        &values("~/Notes", "obsidian", Some("Templates/Weekly.md"), 3),
    )
    .unwrap();
    let toml = doc.to_string();
    assert!(toml.contains("notesFolder"), "must use notesFolder key");
    assert!(toml.contains("obsidian"));
    assert!(toml.contains("Templates/Weekly.md"));
    assert!(toml.contains("batch = 3"));
    assert!(!toml.contains("notes_folder"), "must not use snake_case key");
}

#[test]
fn write_section_rejects_scalar_section() {
    let mut doc: DocumentMut = "default = 1\n".parse().unwrap();
    let error = write_section(&mut doc, "default", &values("~/Notes", "generic", None, 1)).unwrap_err();
    assert_eq!(error.message(), "config entry `default` must be a table, not integer");
    assert_eq!(doc.to_string(), "default = 1\n");
}

#[test]
fn write_section_rejects_array_section() {
    let mut doc: DocumentMut = "work = [1, 2]\n".parse().unwrap();
    let error = write_section(&mut doc, "work", &values("~/Notes", "generic", None, 1)).unwrap_err();
    assert_eq!(error.message(), "config entry `work` must be a table, not array");
}

#[test]
fn preflight_rejects_non_table_entry_before_section_selection() {
    let doc = parse_config_document("default = 1\n").unwrap();
    let entries = preflight_entries(&doc);
    let error = preflight_issues(&entries, &vec![false; entries.len()]).unwrap_err();
    assert_eq!(
        error.message(),
        "config entry `default` must be a table, not integer"
    );
}

#[test]
fn write_section_updates_inline_table() {
    let mut doc: DocumentMut = "default = { editor = \"generic\", batch = 1 }\n".parse().unwrap();
    write_section(&mut doc, "default", &values("~/Notes", "vscode", None, 2)).unwrap();
    let default = doc["default"].as_inline_table().unwrap();
    assert_eq!(default[NOTES_FOLDER_KEY].as_str(), Some("~/Notes"));
    assert_eq!(default[EDITOR_KEY].as_str(), Some("vscode"));
    assert_eq!(default[BATCH_KEY].as_integer(), Some(2));
}

#[test]
fn write_section_keeps_other_sections_and_removes_cleared_template() {
    let mut doc: DocumentMut =
        "[default]\neditor = \"generic\"\nbatch = 1\nflag = true\n\n[weekly]\ntemplate = \"t.md\"\nratio = 0.5\n"
            .parse()
            .unwrap();
    write_section(&mut doc, "weekly", &values("/n", "vscode", None, 4)).unwrap();
    assert_eq!(doc["default"]["editor"].as_str(), Some("generic"));
    assert_eq!(doc["default"]["batch"].as_integer(), Some(1));
    assert!(doc["weekly"].get("template").is_none());
    assert_eq!(doc["weekly"]["batch"].as_integer(), Some(4));
    assert_eq!(doc["default"]["flag"].as_bool(), Some(true));
    assert_eq!(doc["weekly"]["ratio"].as_float(), Some(0.5));
}

#[test]
fn preflight_lists_unknown_editors_and_missing_folders() {
    let entries = vec![
        SectionEntry {
            name: "default".into(),
            is_table: true,
            kind_name: "table".into(),
            editor: Some("vim".into()),
            notes_folder: Some("~/gone".into()),
        },
        SectionEntry {
            name: "work".into(),
            is_table: true,
            kind_name: "table".into(),
            editor: Some("vscode".into()),
            notes_folder: Some("/tmp".into()),
        },
    ];
    assert_eq!(
        preflight_issues(&entries, &vec![false, true]).unwrap(),
        vec![
            "[default].editor: unknown value \"vim\"".to_string(),
            "[default].notesFolder: path \"~/gone\" does not exist".to_string(),
        ]
    );
    assert_eq!(preflight_issues(&entries[1..].to_vec(), &vec![]).unwrap().len(), 1);
}

#[test]
fn preflight_entries_read_each_entry_in_order() {
    let doc = parse_config_document(
        "limit = 2.5\nwork = { editor = 3 }\n\n[default]\neditor = \"vim\"\nnotesFolder = \"~/n\"\n",
    )
    .unwrap();
    let entries = preflight_entries(&doc);
    assert_eq!(entries.len(), 3);
    assert_eq!(entries[0].name, "limit");
    assert_eq!(entries[0].kind_name, "float");
    assert!(!entries[0].is_table);
    assert_eq!(entries[1].name, "work");
    assert_eq!(entries[1].kind_name, "inline table");
    assert!(entries[1].is_table);
    assert_eq!(entries[1].editor, None);
    assert_eq!(entries[2].name, "default");
    assert!(entries[2].is_table);
    assert_eq!(entries[2].editor, Some("vim".to_string()));
    assert_eq!(entries[2].notes_folder, Some("~/n".to_string()));
}

#[test]
fn unparsable_config_names_the_error() {
    let message = parse_config_document("[default\ninvalid").unwrap_err();
    assert!(message.starts_with("config file cannot be parsed: "));
    assert!(message.len() > "config file cannot be parsed: ".len());
}

#[test]
fn section_picker_and_prompt_defaults_read_the_document() {
    let empty = parse_config_document("").unwrap();
    assert_eq!(section_keys(&empty), None);
    assert!(!has_section(&empty, "default"));
    let defaults = prompt_defaults(&empty, "default");
    assert_eq!(
        (defaults.notes_folder.as_str(), defaults.editor.as_str(), defaults.template.as_str(), defaults.batch),
        ("", "generic", "", 1)
    );

    let doc = parse_config_document(
        "[default]\nnotesFolder = \"~/N\"\neditor = \"vscode\"\ntemplate = \"t.md\"\nbatch = 4\n\n[work]\nbatch = \"x\"\n",
    )
    .unwrap();
    assert_eq!(section_keys(&doc), Some(vec!["default".to_string(), "work".to_string()]));
    assert!(has_section(&doc, "work"));
    let defaults = prompt_defaults(&doc, "default");
    assert_eq!(
        (defaults.notes_folder.as_str(), defaults.editor.as_str(), defaults.template.as_str(), defaults.batch),
        ("~/N", "vscode", "t.md", 4)
    );
    assert_eq!(prompt_defaults(&doc, "work").batch, 1);
}

#[test]
fn fix_pass_reads_and_edits_sections() {
    let mut doc = parse_config_document(
        "[default]\neditor = \"vim\"\nnotesFolder = \"~/gone\"\nflag = true\n\nother = [1]\n",
    )
    .unwrap();
    assert_eq!(
        section_fix_targets(&doc, "default"),
        Ok((true, Some("~/gone".to_string())))
    );
    assert_eq!(
        section_fix_targets(&doc, "other"),
        Err(InitError::Other("config entry `other` must be a table".to_string()))
    );
    set_section_text(&mut doc, "default", EDITOR_KEY, "obsidian").unwrap();
    set_section_text(&mut doc, "default", NOTES_FOLDER_KEY, "/tmp").unwrap();
    assert_eq!(section_fix_targets(&doc, "default"), Ok((false, Some("/tmp".to_string()))));
    assert_eq!(doc["default"]["flag"].as_bool(), Some(true));
    let before = doc.to_string();
    assert!(set_section_text(&mut doc, "other", EDITOR_KEY, "x").is_err());
    assert_eq!(doc.to_string(), before);
}

#[test]
fn section_names_and_picker() {
    assert_eq!(validate_new_section_name("default", true), Err(SectionNameError::DefaultExists));
    assert_eq!(validate_new_section_name("default", false), Ok(()));
    assert_eq!(validate_new_section_name("work-2_b", true), Ok(()));
    assert_eq!(validate_new_section_name("Work", true), Err(SectionNameError::Invalid));
    assert_eq!(validate_new_section_name("", true), Err(SectionNameError::Invalid));
    let keys = vec!["default".to_string(), "weekly".to_string()];
    let options = section_options(&keys);
    assert_eq!(options, vec!["default", "weekly", "Create new section"]);
    assert_eq!(picked_section(&keys, 1), Some("weekly".to_string()));
    assert_eq!(picked_section(&keys, 2), None);
}

#[test]
fn editor_prompt_defaults() {
    assert_eq!(editor_default_index("vscode"), (2, false));
    assert_eq!(editor_default_index("generic"), (0, false));
    assert_eq!(editor_default_index("vim"), (0, true));
    assert!(is_editor_option("obsidian"));
    assert!(!is_editor_option("vim"));
    assert_eq!(template_choice(""), None);
    assert_eq!(template_choice("t.md"), Some("t.md".to_string()));
}

#[test]
fn batch_answers() {
    assert_eq!(parse_batch_input(" 3 "), Ok(3));
    assert_eq!(parse_batch_input("+8"), Ok(8));
    assert_eq!(parse_batch_input("9"), Err(BatchInputError::OutOfRange(9)));
    assert_eq!(parse_batch_input("0"), Err(BatchInputError::OutOfRange(0)));
    assert_eq!(parse_batch_input("-1"), Err(BatchInputError::NotANumber));
    assert_eq!(parse_batch_input("two"), Err(BatchInputError::NotANumber));
    assert_eq!(parse_batch_input(""), Err(BatchInputError::NotANumber));
    assert_eq!(parse_batch_input("+"), Err(BatchInputError::NotANumber));
    assert_eq!(
        parse_batch_input("99999999999999999999999"),
        Err(BatchInputError::NotANumber)
    );
    assert_eq!(
        BatchInputError::OutOfRange(12).message(),
        "Batch size must be between 1 and 8, got 12."
    );
}

#[test]
fn backup_names() {
    assert_eq!(backup_file_name("config.toml", "20260713-120000", 0), "config.toml.20260713-120000");
    assert_eq!(backup_file_name("config.toml", "20260713-120000", 1), "config.toml.20260713-120000.1");
    assert_eq!(backup_file_name(".hidden", "t", 0), ".hidden.toml.t");
    assert_eq!(backup_file_name("plain", "t", 12), "plain.toml.t.12");
}

#[test]
fn io_errors_map_to_init_errors() {
    assert_eq!(init_error_from_io(true, "x".into()), InitError::Interrupted);
    assert_eq!(init_error_from_io(false, "x".into()), InitError::Other("x".into()));
    assert_eq!(InitError::Interrupted.message(), "interrupted");
}
