use take_note::template::{template_path, update_template_variables, TemplateError};

#[test]
fn test_update_template_variables() {
    let content = "# W/C {{date}}\n\nSome content\n";
    let updated = update_template_variables(content, "Monday 28 July 2025");
    assert_eq!(updated, "# W/C Monday 28 July 2025\n\nSome content\n");
}

#[test]
fn test_update_template_variables_no_placeholder() {
    let content = "# Static Header\n";
    let updated = update_template_variables(content, "Monday 28 July 2025");
    assert_eq!(updated, "# Static Header\n");
}

#[test]
fn every_placeholder_is_replaced_without_rescanning() {
    assert_eq!(update_template_variables("{{date}} and {{date}}", "D"), "D and D");
    assert_eq!(update_template_variables("{{{date}}}", "x"), "{x}");
    assert_eq!(update_template_variables("{{date}}", "{{date}}"), "{{date}}");
    assert_eq!(update_template_variables("", "x"), "");
    assert_eq!(update_template_variables("{{dat", "x"), "{{dat");
}

#[test]
fn template_paths_are_joined_to_the_notes_folder() {
    assert_eq!(template_path("/tmp/notes", None), None);
    assert_eq!(
        template_path("/tmp/notes", Some("Templates/weekly.md")),
        Some("/tmp/notes/Templates/weekly.md".to_string())
    );
    assert_eq!(template_path("/tmp/notes/", Some("t.md")), Some("/tmp/notes/t.md".to_string()));
    assert_eq!(template_path("/tmp/notes", Some("/abs/t.md")), Some("/abs/t.md".to_string()));
}

#[test]
fn template_error_messages() {
    assert_eq!(
        TemplateError::NotFound("/tmp/x.md".to_string()).message(),
        "Template not found: /tmp/x.md"
    );
    assert_eq!(TemplateError::Io("denied".to_string()).message(), "IO error reading template: denied");
}
