use take_note::config::Editor;
use take_note::options::editor_from_str;

#[test]
fn test_editor_from_str() {
    assert_eq!(editor_from_str("generic").unwrap(), Editor::Generic);
    assert_eq!(editor_from_str("vscode").unwrap(), Editor::Vscode);
    assert_eq!(editor_from_str("obsidian").unwrap(), Editor::Obsidian);
    assert!(editor_from_str("invalid").is_err());
}

#[test]
fn editor_names_are_case_sensitive() {
    assert!(editor_from_str("Obsidian").is_err());
    assert!(editor_from_str("").is_err());
    assert_eq!(
        editor_from_str("vim").unwrap_err().message(),
        "invalid Editor option, must be one of |generic|vscode|obsidian|"
    );
}
