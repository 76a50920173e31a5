use take_note::config::Editor;
use take_note::handlers::{editor_launch, obsidian_url, open_command_for_os};

#[test]
fn test_get_open_command() {
    for os in ["linux", "macos", "windows", "freebsd"] {
        let cmd = open_command_for_os(os);
        assert!(!cmd.is_empty());
    }
    assert_eq!(open_command_for_os("windows"), "start");
    assert_eq!(open_command_for_os("macos"), "open");
    assert_eq!(open_command_for_os("linux"), "xdg-open");
}

#[test]
fn obsidian_url_encodes_spaces_in_path() {
    let url = obsidian_url("/Users/dennis/My Notes/2025/07/2025-07-28-Weekly-log.md");
    assert!(
        !url.contains(' '),
        "URL contains unencoded space — Obsidian URI will be malformed: {url}"
    );
}

#[test]
fn obsidian_url_percent_encodes_every_reserved_byte() {
    assert_eq!(
        obsidian_url("/a b/é~x.md"),
        "obsidian://open?path=%2Fa%20b%2F%C3%A9~x.md"
    );
}

#[test]
fn launches_for_each_editor() {
    let l = editor_launch(Editor::Generic, "/n.md", Some("nano"), "linux");
    assert_eq!((l.program.as_str(), l.arg.as_str()), ("nano", "/n.md"));
    let l = editor_launch(Editor::Generic, "/n.md", None, "linux");
    assert_eq!(l.program, "vi");
    let l = editor_launch(Editor::Vscode, "/n.md", Some("nano"), "linux");
    assert_eq!((l.program.as_str(), l.arg.as_str()), ("code", "/n.md"));
    let l = editor_launch(Editor::Obsidian, "/n a.md", None, "macos");
    assert_eq!(l.program, "open");
    assert_eq!(l.arg, "obsidian://open?path=%2Fn%20a.md");
}
