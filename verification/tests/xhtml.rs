use corpex::xhtml::{extract_ixbrl_values, extract_text_from_xhtml, clean_extracted_text};

#[test]
fn test_basic_xhtml_extraction() {
    let html = r#"<html><body><h1>Company Report</h1><p>This is a test.</p></body></html>"#;
    let text = extract_text_from_xhtml(html);
    assert!(text.contains("Company Report"));
    assert!(text.contains("This is a test."));
}

#[test]
fn test_script_removal() {
    let html = r#"<html><body><p>Hello</p><script>alert('x')</script><p>World</p></body></html>"#;
    let text = extract_text_from_xhtml(html);
    assert!(text.contains("Hello"));
    assert!(text.contains("World"));
    assert!(!text.contains("alert"));
}

#[test]
fn test_table_extraction() {
    let html = r#"
    <html><body>
    <table>
        <tr><th>Name</th><th>Role</th><th>Appointed</th></tr>
        <tr><td>John Smith</td><td>Director</td><td>2020-01-15</td></tr>
        <tr><td>Jane Doe</td><td>Secretary</td><td>2019-06-01</td></tr>
    </table>
    </body></html>"#;
    let text = extract_text_from_xhtml(html);
    assert!(text.contains("Name"));
    assert!(text.contains("John Smith"));
    assert!(text.contains("|"));
    assert!(text.contains("---"));
}

#[test]
fn test_definition_list_extraction() {
    let html = r#"
    <html><body>
    <dl>
        <dt>Company Name</dt><dd>Acme Ltd</dd>
        <dt>Status</dt><dd>Active</dd>
    </dl>
    </body></html>"#;
    let text = extract_text_from_xhtml(html);
    assert!(text.contains("Company Name: Acme Ltd"));
    assert!(text.contains("Status: Active"));
}

#[test]
fn test_unordered_list_extraction() {
    let html = r#"
    <html><body>
    <ul>
        <li>First item</li>
        <li>Second item</li>
    </ul>
    </body></html>"#;
    let text = extract_text_from_xhtml(html);
    assert!(text.contains("• First item"));
    assert!(text.contains("• Second item"));
}

#[test]
fn test_ordered_list_extraction() {
    let html = r#"
    <html><body>
    <ol>
        <li>Step one</li>
        <li>Step two</li>
    </ol>
    </body></html>"#;
    let text = extract_text_from_xhtml(html);
    assert!(text.contains("1. Step one"));
    assert!(text.contains("2. Step two"));
}

#[test]
fn test_heading_formatting() {
    let html = r#"<html><body><h1>Main Title</h1><h2>Section</h2><h3>Subsection</h3></body></html>"#;
    let text = extract_text_from_xhtml(html);
    assert!(text.contains("═══ Main Title ═══"));
    assert!(text.contains("─── Section ───"));
    assert!(text.contains("── Subsection ──"));
}

#[test]
fn table_layout_is_exact() {
    let html = "<table><tr><th>Name</th><th>Role</th></tr><tr><td>Jo</td><td>Director</td></tr></table>";
    let text = extract_text_from_xhtml(html);
    assert_eq!(
        text,
        "| Name | Role     |\n| ---- | -------- |\n| Jo   | Director |"
    );
}

#[test]
fn header_row_moves_to_front_and_short_rows_are_padded() {
    let html = "<table><caption> Officers </caption><tr><td>A</td></tr><tr><th>H1</th><th>H2</th></tr></table>";
    let text = extract_text_from_xhtml(html);
    assert_eq!(
        text,
        "[Table: Officers]\n| H1  | H2  |\n| --- | --- |\n| A   |     |"
    );
}

#[test]
fn definition_list_with_lone_term_and_definition() {
    let html = "<dl><dt>Term</dt><dt>Second</dt><dd>Def</dd></dl>";
    let text = extract_text_from_xhtml(html);
    assert_eq!(text, "Term: Def\nSecond:");
}

#[test]
fn minor_headings_and_rules() {
    let html = "<body><h4>Notes</h4><hr><p>a<br>b</p></body>";
    let text = extract_text_from_xhtml(html);
    assert_eq!(text, "— Notes —\n\n────────────────────\n\na\nb");
}

#[test]
fn style_and_noscript_are_dropped() {
    let html = "<body><style>p{}</style><noscript>x</noscript><span>kept</span></body>";
    assert_eq!(extract_text_from_xhtml(html), "kept");
}

#[test]
fn empty_list_items_keep_their_number() {
    let html = "<ol><li>One</li><li> </li><li>Three</li></ol>";
    assert_eq!(extract_text_from_xhtml(html), "1. One\n3. Three");
}

#[test]
fn cleaning_collapses_blank_lines() {
    assert_eq!(clean_extracted_text("\n\n  a  \n\n\n b\n \n"), "a\n\nb");
    assert_eq!(clean_extracted_text(""), "");
    assert_eq!(clean_extracted_text(" x \r\n y"), "x\ny");
}

#[test]
fn ixbrl_values_text_first_then_numbers() {
    let html = r#"<html><body>
        <ix:nonFraction name="uk-core:Equity">1,000</ix:nonFraction>
        <ix:nonNumeric name="uk-bus:EntityCurrentLegalOrRegisteredName"> Acme Ltd </ix:nonNumeric>
        <ix:nonNumeric>  </ix:nonNumeric>
        <ix:nonNumeric>anon</ix:nonNumeric>
    </body></html>"#;
    let values = extract_ixbrl_values(html);
    assert_eq!(
        values,
        vec![
            ("uk-bus:EntityCurrentLegalOrRegisteredName".to_string(), "Acme Ltd".to_string()),
            ("unknown".to_string(), "anon".to_string()),
            ("uk-core:Equity".to_string(), "1,000".to_string()),
        ]
    );
}

#[test]
fn cleaned_text_never_has_two_blank_lines() {
    for raw in ["\n\n  a \n\n\n\n b\r\n\n\n c  \n\n", "x\n\n\n\n\n", "\n\n\n", " p \n \n \n q"] {
        let t = clean_extracted_text(raw);
        assert!(!t.contains("\n\n\n"));
        assert_eq!(t.trim(), t);
    }
    assert_eq!(clean_extracted_text("\n\n  a \n\n\n\n b\r\n\n\n c  \n\n"), "a\n\nb\n\nc");
}

#[test]
fn cleaning_trims_lines_keeps_text_and_is_idempotent() {
    let without_ws = |s: &str| s.chars().filter(|c| !c.is_whitespace()).collect::<String>();
    for raw in ["\n\n  a b \n\n\n\n b\r\n\n\n c  \n\n", "x\n\n\n\n\n", "\n\n\n", " p \n \n \n q", "\t one\ttwo \n"] {
        let t = clean_extracted_text(raw);
        for line in t.split('\n') {
            assert_eq!(line, line.trim());
        }
        assert_eq!(without_ws(&t), without_ws(raw));
        assert_eq!(clean_extracted_text(&t), t);
    }
    assert_eq!(clean_extracted_text("\t one\ttwo \n"), "one\ttwo");
}
