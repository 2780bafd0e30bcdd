use corpex::client::{DocumentContent, JsonValue, ParsedJson};
use corpex::pdf::{clean_pdf_text, extract_text_from_pdf, PdfExtractionResult};
use corpex::pipeline::{
    extract_from_json, extract_from_parsed_json, extract_from_pdf, extract_text, humanize_key, local_name, xhtml_extraction, xml_extraction,
    ExtractionMethod,
};

#[test]
fn test_empty_bytes_gives_error() {
    let read = pdf_extract::extract_text_from_mem(b"not a pdf").map_err(|e| e.to_string());
    match extract_text_from_pdf(read) {
        PdfExtractionResult::Error(_) => {}
        other => panic!("Expected Error, got {:?}", other),
    }
}

#[test]
fn pdf_error_message_is_prefixed() {
    match extract_text_from_pdf(Err("bad header".to_string())) {
        PdfExtractionResult::Error(e) => assert_eq!(e, "PDF extraction failed: bad header"),
        other => panic!("unexpected {:?}", other),
    }
}

#[test]
fn empty_pdf_text_needs_ocr() {
    assert!(matches!(extract_text_from_pdf(Ok("  \n\t ".to_string())), PdfExtractionResult::NeedsOcr));
}

#[test]
fn short_pdf_text_gets_a_note() {
    match extract_text_from_pdf(Ok("  Page 1  ".to_string())) {
        PdfExtractionResult::Text(t) => assert_eq!(
            t,
            "Page 1\n\n[Note: Very little text extracted — this may be a scanned document]"
        ),
        other => panic!("unexpected {:?}", other),
    }
}

#[test]
fn long_pdf_text_is_cleaned() {
    let raw = format!("{}a\t \t b\n\n\n\n\nc\u{0C}d   ", "x".repeat(50));
    match extract_text_from_pdf(Ok(raw)) {
        PdfExtractionResult::Text(t) => {
            assert_eq!(t, format!("{}a  b\n\n\nc\n---\nd", "x".repeat(50)))
        }
        other => panic!("unexpected {:?}", other),
    }
}

#[test]
fn clean_pdf_text_collapses_runs() {
    assert_eq!(clean_pdf_text("a    b  c"), "a  b  c");
    assert_eq!(clean_pdf_text("a\n\n\n\n\n\nb"), "a\n\n\nb");
    assert_eq!(clean_pdf_text("\u{0C}x"), "---\nx");
    assert_eq!(clean_pdf_text("a \t b\t\tc   \t d"), "a  b\t\tc  d");
    assert_eq!(clean_pdf_text("a\n\n\nb\n\n\n\nc"), "a\n\n\nb\n\n\nc");
}

#[test]
fn humanize_snake_case_keys() {
    assert_eq!(humanize_key("company_name"), "Company Name");
    assert_eq!(humanize_key("__date_of__birth_"), "Date Of Birth");
    assert_eq!(humanize_key(""), "");
    assert_eq!(humanize_key("ß_x"), "SS X");
}

#[test]
fn local_names_drop_namespaces() {
    assert_eq!(local_name("uk-core:Equity"), "Equity");
    assert_eq!(local_name("a:b:c"), "c");
    assert_eq!(local_name("plain"), "plain");
    assert_eq!(local_name("trailing:"), "");
}

#[test]
fn xhtml_with_values_appends_tagged_section() {
    let r = xhtml_extraction(
        "Body".to_string(),
        vec![("uk-core:Equity".to_string(), "1,000".to_string())],
    );
    assert_eq!(r.text, "Body\n\n--- iXBRL Tagged Data ---\n  Equity: 1,000\n");
    assert_eq!(r.method, ExtractionMethod::Xhtml);
    assert_eq!(r.ixbrl_values.len(), 1);
}

#[test]
fn empty_xhtml_gets_placeholder() {
    let r = xhtml_extraction("  \n ".to_string(), Vec::new());
    assert_eq!(r.text, "[XHTML document contained no extractable text.]");
    let x = xml_extraction(" ".to_string());
    assert_eq!(x.text, "[XML document contained no extractable text.]");
    assert_eq!(x.method, ExtractionMethod::Xml);
}

fn sample_json() -> JsonValue {
    JsonValue::Object(vec![
        ("company_name".to_string(), JsonValue::String("Acme".to_string())),
        ("blank".to_string(), JsonValue::String(String::new())),
        ("employees".to_string(), JsonValue::Number("12".to_string())),
        ("active".to_string(), JsonValue::Bool(true)),
        ("nothing".to_string(), JsonValue::Null),
        (
            "officers".to_string(),
            JsonValue::Array(vec![JsonValue::Object(vec![(
                "full_name".to_string(),
                JsonValue::String("Jo Bloggs".to_string()),
            )])]),
        ),
    ])
}

#[test]
fn json_fields_become_labelled_lines() {
    let parsed = Some(ParsedJson { value: sample_json(), pretty: "{...}".to_string() });
    let r = extract_from_parsed_json("{raw}", &parsed);
    assert_eq!(
        r.text,
        "Company Name: Acme\nEmployees: 12\nActive: true\nOfficers:\n  Full Name: Jo Bloggs\n"
    );
    assert_eq!(r.method, ExtractionMethod::Json);
}

#[test]
fn json_without_lines_falls_back() {
    let parsed = Some(ParsedJson { value: JsonValue::Number("3".to_string()), pretty: "3".to_string() });
    assert_eq!(extract_from_parsed_json("3", &parsed).text, "3");
    assert_eq!(extract_from_parsed_json("{broken", &None).text, "{broken");
}

#[test]
fn unsupported_documents_are_named() {
    let doc = DocumentContent::Other { content_type: "image/tiff".to_string(), bytes: vec![1, 2] };
    let r = extract_text(&doc);
    assert_eq!(r.text, "[Unsupported document type: image/tiff. Text extraction not available.]");
    assert_eq!(r.method, ExtractionMethod::Unsupported("image/tiff".to_string()));
}

#[test]
fn dispatch_reads_xhtml_documents() {
    let doc = DocumentContent::Xhtml("<html><body><p>Hi</p></body></html>".to_string());
    let r = extract_text(&doc);
    assert_eq!(r.text, "Hi");
    assert_eq!(r.method, ExtractionMethod::Xhtml);
}

#[test]
fn pdf_documents_always_get_text() {
    let scanned = extract_from_pdf(Ok("   ".to_string()));
    assert_eq!(scanned.method, ExtractionMethod::PdfScannedNoOcr);
    assert!(scanned.text.starts_with("[Scanned PDF"));
    let failed = extract_text(&DocumentContent::Pdf(Err("bad xref".to_string())));
    assert_eq!(failed.text, "[PDF extraction error: PDF extraction failed: bad xref]");
    assert_eq!(failed.method, ExtractionMethod::PdfNative);
}

#[test]
fn empty_json_documents_get_a_note() {
    let r = extract_text(&DocumentContent::Json(String::new()));
    assert_eq!(r.text, "[JSON document contained no extractable text.]");
    assert_eq!(r.method, ExtractionMethod::Json);
    let r = extract_from_parsed_json("", &Some(ParsedJson {
        value: JsonValue::Array(vec![JsonValue::Object(vec![])]),
        pretty: "[\n  {}\n]".to_string(),
    }));
    assert_eq!(r.text, "[JSON document contained no extractable text.]");
}

#[test]
fn extracted_text_is_never_empty() {
    let docs = vec![
        DocumentContent::Xhtml(String::new()),
        DocumentContent::Xml(String::new()),
        DocumentContent::Json(String::new()),
        DocumentContent::Pdf(Ok(String::new())),
        DocumentContent::Pdf(Err(String::new())),
        DocumentContent::Other { content_type: String::new(), bytes: vec![] },
    ];
    for d in &docs {
        assert!(!extract_text(d).text.is_empty());
    }
}

#[test]
fn raw_json_text_is_parsed_and_read() {
    let r = extract_from_json(
        r#"{"officers":[{"full_name":"Jo Bloggs"}],"company_name":"Acme","employees":12,"blank":""}"#,
    );
    assert_eq!(r.text, "Company Name: Acme\nEmployees: 12\nOfficers:\n  Full Name: Jo Bloggs\n");
    assert_eq!(r.method, ExtractionMethod::Json);
    assert!(r.ixbrl_values.is_empty());
    assert_eq!(extract_from_json("3").text, "3");
    assert_eq!(extract_from_json("{broken").text, "{broken");
    assert_eq!(extract_from_json("[{}]").text, "[JSON document contained no extractable text.]");
    let d = extract_text(&DocumentContent::Json("{\"company_name\":\"Acme\"}".to_string()));
    assert_eq!(d.text, "Company Name: Acme");
}
