use corpex::client::{
    accepts_as_xhtml, basic_auth_value, content_kind, document_content_url, document_metadata_url,
    insolvency_from_response, response_step, ApiRequest, ContentKind, ResponseStep,
};
use corpex::types::InsolvencyResponse;

#[test]
fn request_urls() {
    assert_eq!(
        ApiRequest::Officers("01234567".to_string()).url(),
        "https://api.company-information.service.gov.uk/company/01234567/officers"
    );
    assert_eq!(
        ApiRequest::OfficerAppointments("/officers/abc/appointments".to_string()).url(),
        "https://api.company-information.service.gov.uk/officers/abc/appointments"
    );
    assert_eq!(
        ApiRequest::OfficerAppointments("https://x.test/a".to_string()).url(),
        "https://x.test/a"
    );
    assert_eq!(
        ApiRequest::SearchCompanies("acme".to_string()).url(),
        "https://api.company-information.service.gov.uk/search/companies"
    );
}

#[test]
fn request_queries() {
    let q = ApiRequest::SearchOfficers("smith".to_string()).query();
    assert_eq!(q, vec![("q".to_string(), "smith".to_string()), ("items_per_page".to_string(), "20".to_string())]);
    let f = ApiRequest::FilingHistory {
        company_number: "1".to_string(),
        category: Some("accounts".to_string()),
        items_per_page: None,
    }
    .query();
    assert_eq!(
        f,
        vec![
            ("items_per_page".to_string(), "25".to_string()),
            ("category".to_string(), "accounts".to_string())
        ]
    );
    let g = ApiRequest::FilingHistory { company_number: "1".to_string(), category: None, items_per_page: Some(10) }
        .query();
    assert_eq!(g, vec![("items_per_page".to_string(), "10".to_string())]);
    assert!(ApiRequest::CompanyProfile("1".to_string()).query().is_empty());
}

#[test]
fn response_steps() {
    let charges = ApiRequest::Charges("1".to_string());
    let profile = ApiRequest::CompanyProfile("1".to_string());
    assert_eq!(response_step(&charges, 404), ResponseStep::Empty);
    assert_eq!(response_step(&profile, 404), ResponseStep::Fail);
    assert_eq!(response_step(&profile, 200), ResponseStep::Read);
    assert_eq!(response_step(&charges, 500), ResponseStep::Fail);
}

#[test]
fn basic_auth_header() {
    assert_eq!(basic_auth_value("key"), "Basic a2V5Og==");
}

#[test]
fn document_urls() {
    assert_eq!(
        document_metadata_url("/document/abc"),
        "https://document-api.company-information.service.gov.uk/document/abc"
    );
    assert_eq!(document_metadata_url("http://h/d"), "http://h/d");
    assert_eq!(document_content_url("http://h/d"), "http://h/d/content");
    assert_eq!(document_content_url("http://h/d/content"), "http://h/d/content");
}

#[test]
fn content_types() {
    assert!(accepts_as_xhtml("application/xhtml+xml"));
    assert!(!accepts_as_xhtml("application/pdf"));
    assert_eq!(content_kind("application/pdf"), ContentKind::Pdf);
    assert_eq!(content_kind("application/json; charset=utf-8"), ContentKind::Json);
    assert_eq!(content_kind("text/xml"), ContentKind::Xml);
    assert_eq!(content_kind("image/png"), ContentKind::Other);
}

#[test]
fn insolvency_defaults() {
    let d = insolvency_from_response(InsolvencyResponse { status: None, cases: None });
    assert!(d.status.is_empty() && d.cases.is_empty());
    let e = insolvency_from_response(InsolvencyResponse { status: Some(vec!["liquidation".to_string()]), cases: None });
    assert_eq!(e.status, vec!["liquidation".to_string()]);
}
