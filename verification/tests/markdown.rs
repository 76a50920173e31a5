use take_note::markdown::section_end_for_heading_path;

#[test]
fn finds_end_of_empty_section_before_next_sibling_heading() {
    let content = "# Weekly Log\n\n## Monday\n\n## Tuesday\n";
    let pos = section_end_for_heading_path(content, &["Weekly Log", "Monday"]).unwrap();
    assert_eq!(pos, content.find("## Tuesday").unwrap());
}

#[test]
fn finds_end_of_nested_section_before_next_sibling_heading() {
    let content = "# Weekly Log\n\n## Wednesday\n- [ ] Pick up Isabelle\n\n## Thursday\n";
    let pos = section_end_for_heading_path(content, &["Weekly Log", "Wednesday"]).unwrap();
    assert_eq!(pos, content.find("## Thursday").unwrap());
}

#[test]
fn uses_document_end_when_section_runs_to_end_of_file() {
    let content = "# Weekly Log\n\n## Sunday\n- [ ] Done\n";
    let pos = section_end_for_heading_path(content, &["Weekly Log", "Sunday"]).unwrap();
    assert_eq!(pos, content.len());
}

#[test]
fn returns_none_when_path_does_not_exist() {
    let content = "# Weekly Log\n\n## Monday\n";
    assert!(section_end_for_heading_path(content, &["Weekly Log", "Friday"]).is_none());
}

#[test]
fn empty_path_finds_nothing() {
    assert!(section_end_for_heading_path("# A\n", &[]).is_none());
}

#[test]
fn section_ends_at_next_heading_of_same_or_higher_level() {
    let content = "# A\n## B\n### C\ntext\n## D\n# E\n";
    assert_eq!(section_end_for_heading_path(content, &["A", "B"]), content.find("## D"));
    assert_eq!(section_end_for_heading_path(content, &["A"]), content.find("# E"));
    assert_eq!(section_end_for_heading_path(content, &["A", "B", "C"]), content.find("## D"));
}

#[test]
fn subheading_must_lie_inside_the_parent_section() {
    let content = "# A\n## X\n# B\n## Y\n";
    assert!(section_end_for_heading_path(content, &["A", "Y"]).is_none());
    assert_eq!(section_end_for_heading_path(content, &["B", "Y"]), Some(content.len()));
}

#[test]
fn later_parent_with_the_child_is_found() {
    let content = "# Log\n## Mon\n# Log\n## Tue\nx\n";
    assert_eq!(section_end_for_heading_path(content, &["Log", "Tue"]), Some(content.len()));
}

#[test]
fn heading_syntax_rules() {
    // No space after the hashes, seven hashes, or a blank title: no heading.
    let content = "#A\n####### B\n##   \n## Real  \r\nbody\n";
    assert!(section_end_for_heading_path(content, &["A"]).is_none());
    assert!(section_end_for_heading_path(content, &["B"]).is_none());
    assert_eq!(section_end_for_heading_path(content, &["Real"]), Some(content.len()));
}

#[test]
fn offsets_count_bytes_of_multibyte_text() {
    let content = "# Café\n## Lundi é\ntexte\n## Mardi\n";
    let pos = section_end_for_heading_path(content, &["Café", "Lundi é"]).unwrap();
    assert_eq!(pos, content.find("## Mardi").unwrap());
}

#[test]
fn last_line_without_line_break_is_a_heading() {
    let content = "# A\ntext\n## B";
    assert_eq!(section_end_for_heading_path(content, &["A", "B"]), Some(content.len()));
}
