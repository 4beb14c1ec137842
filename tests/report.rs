use nelst::report::{escape_html, ReportFormat, ReportGenerator, ReportSection, SectionContent};

#[test]
fn test_report_format_from_str() {
    assert_eq!(ReportFormat::from_str("json").unwrap(), ReportFormat::Json);
    assert_eq!(ReportFormat::from_str("CSV").unwrap(), ReportFormat::Csv);
    assert_eq!(ReportFormat::from_str("html").unwrap(), ReportFormat::Html);
    assert_eq!(ReportFormat::from_str("markdown").unwrap(), ReportFormat::Markdown);
    assert_eq!(ReportFormat::from_str("md").unwrap(), ReportFormat::Markdown);
    assert_eq!(ReportFormat::from_str("text").unwrap(), ReportFormat::Text);
    assert!(ReportFormat::from_str("invalid").is_err());
}

#[test]
fn test_report_format_extension() {
    assert_eq!(ReportFormat::Json.extension(), "json");
    assert_eq!(ReportFormat::Csv.extension(), "csv");
    assert_eq!(ReportFormat::Html.extension(), "html");
    assert_eq!(ReportFormat::Markdown.extension(), "md");
    assert_eq!(ReportFormat::Text.extension(), "txt");
}

#[test]
fn test_to_csv() {
    let generator = ReportGenerator::new("Test Report");
    let headers = vec!["Port", "State", "Service"];
    let rows = vec![
        vec!["22".to_string(), "open".to_string(), "ssh".to_string()],
        vec!["80".to_string(), "open".to_string(), "http".to_string()],
    ];
    let csv = generator.to_csv(&headers, &rows).unwrap();
    assert!(csv.contains("Port,State,Service"));
    assert!(csv.contains("22,open,ssh"));
    assert!(csv.contains("80,open,http"));
}

#[test]
fn test_to_csv_escape() {
    let generator = ReportGenerator::new("Test");
    let headers = vec!["Name", "Value"];
    let rows = vec![vec!["test,with,commas".to_string(), "has \"quotes\"".to_string()]];
    let csv = generator.to_csv(&headers, &rows).unwrap();
    assert!(csv.contains("\"test,with,commas\""));
    assert!(csv.contains("\"has \"\"quotes\"\"\""));
}

#[test]
fn test_to_html() {
    let generator = ReportGenerator::new("Test Report").with_description("Test description");
    let sections = vec![
        ReportSection::key_value("Summary", vec![("Total", "100"), ("Success", "95")]),
        ReportSection::table(
            "Results",
            vec!["Port", "State"],
            vec![vec!["22".to_string(), "open".to_string()]],
        ),
    ];
    let html = generator.to_html(&sections).unwrap();
    assert!(html.contains("<title>Test Report</title>"));
    assert!(html.contains("Test description"));
    assert!(html.contains("Summary"));
    assert!(html.contains("Total"));
    assert!(html.contains("22"));
}

#[test]
fn test_to_markdown() {
    let generator = ReportGenerator::new("Test Report");
    let sections = vec![
        ReportSection::key_value("Info", vec![("Target", "192.168.1.1")]),
        ReportSection::table(
            "Ports",
            vec!["Port", "Service"],
            vec![vec!["80".to_string(), "http".to_string()]],
        ),
    ];
    let md = generator.to_markdown(&sections).unwrap();
    assert!(md.contains("# Test Report"));
    assert!(md.contains("## Info"));
    assert!(md.contains("**Target**: 192.168.1.1"));
    assert!(md.contains("| Port | Service |"));
    assert!(md.contains("| 80 | http |"));
}

#[test]
fn test_to_text() {
    let generator = ReportGenerator::new("Test Report");
    let sections = vec![ReportSection::text("Output", "Line 1\nLine 2")];
    let text = generator.to_text(&sections).unwrap();
    assert!(text.contains("Test Report"));
    assert!(text.contains("--- Output ---"));
    assert!(text.contains("Line 1"));
}

#[test]
fn test_escape_html() {
    assert_eq!(escape_html("<script>"), "&lt;script&gt;");
    assert_eq!(escape_html("a & b"), "a &amp; b");
    assert_eq!(escape_html("\"quoted\""), "&quot;quoted&quot;");
}

#[test]
fn test_escape_html_single_quote() {
    assert_eq!(escape_html("it's"), "it&#x27;s");
}

#[test]
fn test_report_generator_with_description() {
    let generator = ReportGenerator::new("My Report").with_description("Description text");
    let sections = vec![];
    let html = generator.to_html(&sections).unwrap();
    assert!(html.contains("Description text"));
}

#[test]
fn test_report_section_key_value() {
    let section = ReportSection::key_value("Test", vec![("key1", "value1"), ("key2", "value2")]);
    assert_eq!(section.title, "Test");
    match section.content {
        SectionContent::KeyValue(items) => {
            assert_eq!(items.len(), 2);
            assert_eq!(items[0], ("key1".to_string(), "value1".to_string()));
        }
        _ => panic!("Expected KeyValue content"),
    }
}

#[test]
fn test_report_section_table() {
    let section = ReportSection::table(
        "Table",
        vec!["H1", "H2"],
        vec![vec!["a".to_string(), "b".to_string()]],
    );
    assert_eq!(section.title, "Table");
    match section.content {
        SectionContent::Table { headers, rows } => {
            assert_eq!(headers, vec!["H1", "H2"]);
            assert_eq!(rows.len(), 1);
        }
        _ => panic!("Expected Table content"),
    }
}

#[test]
fn test_report_section_text() {
    let section = ReportSection::text("Text", "Some content");
    assert_eq!(section.title, "Text");
    match section.content {
        SectionContent::Text(content) => {
            assert_eq!(content, "Some content");
        }
        _ => panic!("Expected Text content"),
    }
}

#[test]
fn test_to_csv_empty() {
    let generator = ReportGenerator::new("Empty");
    let headers: Vec<&str> = vec![];
    let rows: Vec<Vec<String>> = vec![];
    let csv = generator.to_csv(&headers, &rows).unwrap();
    assert_eq!(csv.trim(), "");
}

#[test]
fn test_to_csv_with_newlines() {
    let generator = ReportGenerator::new("Test");
    let headers = vec!["Data"];
    let rows = vec![vec!["line1\nline2".to_string()]];
    let csv = generator.to_csv(&headers, &rows).unwrap();
    assert!(csv.contains("\"line1\nline2\""));
}

#[test]
fn test_to_html_empty_sections() {
    let generator = ReportGenerator::new("Empty Report");
    let sections: Vec<ReportSection> = vec![];
    let html = generator.to_html(&sections).unwrap();
    assert!(html.contains("<title>Empty Report</title>"));
    assert!(html.contains("</html>"));
}

#[test]
fn test_to_markdown_empty_sections() {
    let generator = ReportGenerator::new("Empty Report");
    let sections: Vec<ReportSection> = vec![];
    let md = generator.to_markdown(&sections).unwrap();
    assert!(md.contains("# Empty Report"));
}

#[test]
fn test_to_text_empty_sections() {
    let generator = ReportGenerator::new("Empty Report");
    let sections: Vec<ReportSection> = vec![];
    let text = generator.to_text(&sections).unwrap();
    assert!(text.contains("Empty Report"));
}

#[test]
fn test_to_html_with_all_section_types() {
    let generator = ReportGenerator::new("Full Report").with_description("Complete test");
    let sections = vec![
        ReportSection::key_value("Info", vec![("Key", "Value")]),
        ReportSection::table(
            "Data",
            vec!["Col1", "Col2"],
            vec![vec!["A".to_string(), "B".to_string()]],
        ),
        ReportSection::text("Log", "Log content here"),
    ];
    let html = generator.to_html(&sections).unwrap();
    assert!(html.contains("Info"));
    assert!(html.contains("Key"));
    assert!(html.contains("Data"));
    assert!(html.contains("Col1"));
    assert!(html.contains("Log"));
    assert!(html.contains("Log content here"));
}

#[test]
fn test_report_format_all_values() {
    let formats = vec![
        ("json", ReportFormat::Json),
        ("JSON", ReportFormat::Json),
        ("csv", ReportFormat::Csv),
        ("html", ReportFormat::Html),
        ("HTML", ReportFormat::Html),
        ("markdown", ReportFormat::Markdown),
        ("MARKDOWN", ReportFormat::Markdown),
        ("md", ReportFormat::Markdown),
        ("MD", ReportFormat::Markdown),
        ("text", ReportFormat::Text),
        ("txt", ReportFormat::Text),
        ("TXT", ReportFormat::Text),
    ];
    for (input, expected) in formats {
        assert_eq!(ReportFormat::from_str(input).unwrap(), expected, "Failed for input: {}", input);
    }
}

#[test]
fn report_format_error_names_the_given_input() {
    let err = ReportFormat::from_lowercase("xml", "XML").unwrap_err();
    assert_eq!(
        err.description(),
        "Configuration error: Unknown report format: XML. Valid formats: json, csv, html, markdown, text"
    );
    assert_eq!(ReportFormat::from_lowercase("txt", "TXT").unwrap(), ReportFormat::Text);
}

#[test]
fn text_report_aligns_columns_and_keys() {
    let generator = ReportGenerator::with_timestamp("T", "now");
    let sections = vec![
        ReportSection::key_value("KV", vec![("a", "1"), ("long", "2")]),
        ReportSection::table("Tab", vec!["P", "State"], vec![vec!["8080".to_string(), "open".to_string()]]),
        ReportSection::text("Log", "x\r\ny\n"),
    ];
    let text = generator.to_text(&sections).unwrap();
    let expected = format!(
        "{}\n  T\n{}\n\nGenerated: now\n\n--- KV ---\n\n  a     1\n  long  2\n\n--- Tab ---\n\n  P     State\n  ----  -----\n  8080  open \n\n--- Log ---\n\n  x\n  y\n\n",
        "=".repeat(60),
        "=".repeat(60)
    );
    assert_eq!(text, expected);
}

#[test]
fn markdown_report_exact_layout() {
    let generator = ReportGenerator::with_timestamp("R", "t0").with_description("d");
    let sections = vec![
        ReportSection::table("P", vec!["A", "B"], vec![vec!["1".to_string(), "2".to_string()]]),
        ReportSection::text("L", "body"),
    ];
    let md = generator.to_markdown(&sections).unwrap();
    assert_eq!(
        md,
        "# R\n\nd\n\n*Generated: t0*\n\n## P\n\n| A | B |\n| --- | --- |\n| 1 | 2 |\n\n## L\n\n```\nbody\n```\n\n"
    );
}

#[test]
fn html_escapes_section_text() {
    let generator = ReportGenerator::with_timestamp("<T>", "t");
    let sections = vec![ReportSection::text("S", "a<b")];
    let html = generator.to_html(&sections).unwrap();
    assert!(html.contains("<title>&lt;T&gt;</title>"));
    assert!(html.contains("    <pre>a&lt;b</pre>\n"));
    assert!(html.contains("<p class=\"meta\">Generated: t</p>"));
}

#[test]
fn render_picks_the_document_format() {
    let generator = ReportGenerator::with_timestamp("R", "t");
    let sections = vec![ReportSection::text("S", "x")];
    assert_eq!(generator.render(ReportFormat::Markdown, &sections).unwrap(), generator.to_markdown(&sections).unwrap());
    assert_eq!(generator.render(ReportFormat::Html, &sections).unwrap(), generator.to_html(&sections).unwrap());
    assert_eq!(generator.render(ReportFormat::Text, &sections).unwrap(), generator.to_text(&sections).unwrap());
    let err = generator.render(ReportFormat::Csv, &sections).unwrap_err();
    assert_eq!(err.exit_status(), nelst::error::ExitStatus::GeneralError);
    assert!(generator.render(ReportFormat::Json, &sections).is_err());
}

#[test]
fn report_format_from_file_name() {
    assert_eq!(nelst::report::format_for_path("out.html"), ReportFormat::Html);
    assert_eq!(nelst::report::format_for_path("out.md"), ReportFormat::Markdown);
    assert_eq!(nelst::report::format_for_path("out.csv"), ReportFormat::Csv);
    assert_eq!(nelst::report::format_for_path("out.txt"), ReportFormat::Json);
    assert_eq!(nelst::report::format_for_path("md"), ReportFormat::Json);
}

#[test]
fn text_lines_keep_a_final_carriage_return() {
    let generator = ReportGenerator::with_timestamp("T", "n");
    let text = generator.to_text(&vec![ReportSection::text("L", "a\r\nb\r")]).unwrap();
    assert!(text.ends_with("--- L ---\n\n  a\n  b\r\n\n"));
}
