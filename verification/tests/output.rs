use take_note::output::{format_output, FileResult, OutputFormat};

#[test]
fn test_format_output_text() {
    let results = vec![
        FileResult {
            created: true,
            path: "/tmp/notes/2025/07/2025-07-28-Weekly-log.md".to_string(),
            date: "2025-07-28".to_string(),
        },
        FileResult {
            created: false,
            path: "/tmp/notes/2025/08/2025-08-04-Weekly-log.md".to_string(),
            date: "2025-08-04".to_string(),
        },
    ];
    let output = format_output(&results, OutputFormat::Text).unwrap();
    assert!(output.contains("Created: /tmp/notes/2025/07/2025-07-28-Weekly-log.md"));
    assert!(output.contains("Found: /tmp/notes/2025/08/2025-08-04-Weekly-log.md"));
}

#[test]
fn test_format_output_json() {
    let result = FileResult {
        created: true,
        path: "/tmp/test.md".to_string(),
        date: "2025-07-28".to_string(),
    };
    let output = format_output(&[result], OutputFormat::Json).unwrap();
    assert!(output.contains("\"created\": true"));
    assert!(output.contains("\"path\": \"/tmp/test.md\""));
}

#[test]
fn test_format_output_silent() {
    let result = FileResult {
        created: true,
        path: "/tmp/test.md".to_string(),
        date: "2025-07-28".to_string(),
    };
    assert_eq!(format_output(&[result], OutputFormat::Silent), None);
}

#[test]
fn text_output_is_one_line_per_result() {
    let results = vec![
        FileResult { created: true, path: "a".to_string(), date: "d".to_string() },
        FileResult { created: false, path: "b".to_string(), date: "d".to_string() },
    ];
    assert_eq!(format_output(&results, OutputFormat::Text).unwrap(), "Created: a\nFound: b");
    assert_eq!(format_output(&[], OutputFormat::Text).unwrap(), "");
}

#[test]
fn json_output_is_the_pretty_printed_list() {
    let results = vec![FileResult {
        created: false,
        path: "/n/a b.md".to_string(),
        date: "2025-07-28".to_string(),
    }];
    let output = format_output(&results, OutputFormat::Json).unwrap();
    let expected = "[\n  {\n    \"created\": false,\n    \"path\": \"/n/a b.md\",\n    \"date\": \"2025-07-28\"\n  }\n]";
    assert_eq!(output, expected);
    assert_eq!(format_output(&[], OutputFormat::Json).unwrap(), "[]");
}
