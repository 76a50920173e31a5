use take_note::notes::{append_blob, insert_blob_at_heading_path, split_heading_path, InsertError};

fn appended(content: &str, blob: &str) -> String {
    String::from_utf8(append_blob(content.as_bytes().to_vec(), blob)).unwrap()
}

#[test]
fn append_blob_inserts_newline_when_existing_content_has_no_trailing_newline() {
    assert_eq!(appended("existing", "blob"), "existing\nblob");
}

#[test]
fn append_blob_preserves_blob_when_existing_content_has_trailing_newline() {
    assert_eq!(appended("existing\n", "blob\n"), "existing\nblob\n");
}

#[test]
fn append_blob_preserves_blob_for_empty_file() {
    assert_eq!(appended("", "blob"), "blob");
}

#[test]
fn insert_blob_at_heading_path_inserts_before_next_sibling_heading() {
    let updated = insert_blob_at_heading_path(
        "# Weekly Log\n\n## Monday\n\n## Tuesday\n",
        "Weekly Log/Monday",
        "- shipped insert mode",
    )
    .unwrap();
    assert_eq!(updated, "# Weekly Log\n\n## Monday\n\n- shipped insert mode\n## Tuesday\n");
}

#[test]
fn insert_blob_at_heading_path_uses_document_end_for_last_section() {
    let updated =
        insert_blob_at_heading_path("# Daily Log\n\n## Notes\nexisting", "Daily Log/Notes", "new")
            .unwrap();
    assert_eq!(updated, "# Daily Log\n\n## Notes\nexisting\nnew");
}

#[test]
fn insert_blob_at_heading_path_errors_when_heading_path_is_missing() {
    let result = insert_blob_at_heading_path("# Daily Log\n", "Daily Log/Tasks", "new");
    assert!(result.is_err());
    assert_eq!(
        result.unwrap_err().message(),
        "heading path not found: Daily Log/Tasks"
    );
}

#[test]
fn heading_paths_are_split_trimmed_and_need_a_heading() {
    let parts = split_heading_path(" Weekly Log / Monday //");
    let parts: Vec<String> = parts.into_iter().map(|p| p.into_iter().collect()).collect();
    assert_eq!(parts, vec!["Weekly Log".to_string(), "Monday".to_string()]);
    assert_eq!(
        insert_blob_at_heading_path("# A\n", " / ", "x"),
        Err(InsertError::HeadingPathRequired)
    );
    assert_eq!(InsertError::HeadingPathRequired.message(), "heading path is required");
}

#[test]
fn inserted_blob_keeps_its_own_trailing_line_break() {
    let updated = insert_blob_at_heading_path("# A\nx\n# B\n", "A", "- y\n").unwrap();
    assert_eq!(updated, "# A\nx\n- y\n# B\n");
    let updated = insert_blob_at_heading_path("# A\n# B\n", "A", "").unwrap();
    assert_eq!(updated, "# A\n\n# B\n");
}
