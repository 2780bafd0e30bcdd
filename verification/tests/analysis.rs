use corpex::analysis::{
    body_breaks_layout, contains_ref, filing_document_url, is_section_heading, lay_out_body, parse_sections,
    report_layout, section_accent, split_refs, strip_heading, strip_markdown, Accent, BodyLine, RefPiece,
    ReportLayout,
};

#[test]
fn headings_are_recognised() {
    assert!(is_section_heading("## Overview"));
    assert!(is_section_heading("# Title"));
    assert!(is_section_heading("1. COMPANY OVERVIEW"));
    assert!(is_section_heading("EXECUTIVE SUMMARY"));
    assert!(!is_section_heading("1. Company overview"));
    assert!(is_section_heading("1. Company Overview"));
    assert!(is_section_heading("2. Risk Assessment and Recommendations"));
    assert!(!is_section_heading("3. the risk of default"));
    assert!(!is_section_heading("The company is active."));
    assert!(!is_section_heading("2. - item"));
    assert!(!is_section_heading("ABC"));
}

#[test]
fn headings_are_cleaned() {
    assert_eq!(strip_heading("## 2. **FINANCIAL HEALTH** — accounts and filings"), "FINANCIAL HEALTH");
    assert_eq!(strip_heading("# 1. AB"), "1. AB");
    assert_eq!(strip_heading("RISK — x"), "RISK");
    assert_eq!(strip_heading("ABC — x"), "ABC — x");
}

#[test]
fn markdown_is_stripped() {
    assert_eq!(strip_markdown("### **Bold** `code` "), "Bold code");
    assert_eq!(strip_markdown(" # kept"), "# kept");
}

#[test]
fn sections_split_on_headings() {
    let report = "Intro line\n\n## RISK FACTORS\n- one\n- two\n\nNEXT STEPS\nCall them\n";
    let secs = parse_sections(report);
    assert_eq!(secs.len(), 3);
    assert_eq!(secs[0].heading, "");
    assert_eq!(secs[0].body, "Intro line");
    assert_eq!(secs[1].heading, "RISK FACTORS");
    assert_eq!(secs[1].body, "- one\n- two");
    assert_eq!(secs[2].heading, "NEXT STEPS");
    assert_eq!(secs[2].body, "Call them");
}

#[test]
fn report_layout_uses_cards() {
    match report_layout("Summary text\n## DETAILS\nMore") {
        ReportLayout::Sectioned { summary, cards } => {
            let s = summary.expect("summary");
            assert_eq!(s.heading, "Executive Summary");
            assert_eq!(s.body, "Summary text");
            assert_eq!(cards.len(), 1);
            assert_eq!(cards[0].heading, "DETAILS");
        }
        ReportLayout::Plain => panic!("expected sections"),
    }
    assert!(matches!(report_layout("just text"), ReportLayout::Plain));
}

#[test]
fn refs_are_split_out() {
    let pieces = split_refs("See [REF:MzAx] and [REF:] or [REF:abc]");
    let shown: Vec<(bool, String)> = pieces
        .into_iter()
        .map(|p| match p {
            RefPiece::Text(t) => (false, t),
            RefPiece::Ref(r) => (true, r),
        })
        .collect();
    assert_eq!(
        shown,
        vec![
            (false, "See ".to_string()),
            (true, "MzAx".to_string()),
            (false, " and [REF:] or ".to_string()),
            (true, "abc".to_string()),
        ]
    );
    assert!(contains_ref("x [REF:1]"));
    assert!(!contains_ref("x [REF:]"));
    assert!(!contains_ref("[REF:abc"));
}

#[test]
fn body_lines_are_classified() {
    let body = "\n---\n**Key facts:** none\n- item [REF:9]\n· dot\n| a | **b** |\n|---|---|\nplain `x`";
    assert!(!body_breaks_layout(body));
    let lines = lay_out_body(body);
    assert_eq!(lines.len(), 7);
    assert!(matches!(lines[0], BodyLine::Gap));
    assert!(matches!(lines[1], BodyLine::Separator));
    assert!(matches!(&lines[2], BodyLine::SubHeading(t) if t == "Key facts: none"));
    assert!(matches!(&lines[3], BodyLine::WithRefs(p) if p.len() == 2));
    assert!(matches!(&lines[4], BodyLine::Bullet(t) if t == "dot"));
    assert!(matches!(&lines[5], BodyLine::TableRow(t) if t == "a    b"));
    assert!(matches!(&lines[6], BodyLine::Paragraph(t) if t == "plain x"));
}

#[test]
fn bullet_dot_lines_break_layout() {
    assert!(body_breaks_layout("• item"));
    assert!(!body_breaks_layout("- item"));
}

#[test]
fn accents_follow_headings() {
    assert_eq!(section_accent("Key risks"), Accent::Alarm);
    assert_eq!(section_accent("Financial health"), Accent::Caution);
    assert_eq!(section_accent("Next steps"), Accent::Advice);
    assert_eq!(section_accent("Network"), Accent::Links);
    assert_eq!(section_accent("Overview"), Accent::Neutral);
}

#[test]
fn filing_links() {
    assert_eq!(
        filing_document_url("123", "MzAx"),
        "https://find-and-update.company-information.service.gov.uk/company/123/filing-history/MzAx/document?format=pdf"
    );
}
