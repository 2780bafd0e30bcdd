use corpex::group::{GroupRole, SubsidiaryInfo};
use corpex::keyed::Keyed;
use corpex::network::{CorporateNetwork, RiskLevel};
use corpex::panels::{
    active_subsidiary_numbers, analysis_preview, appointment_card, born_text, cached_document_count,
    company_facts, company_result_card, filing_card, group_heading, is_company_number, live_appointment_targets,
    model_hint, month_abbrev, nav_enabled, node_links, officer_counts, officer_result_card, officer_summary,
    pad_company_number, psc_lines, risk_counts, search_from_page, search_from_sidebar, shows_base_url,
    status_line, status_tone, subsidiary_icon, DocumentState, FilingKind, ModelHint, SearchAction, Tone,
};
use corpex::session::SearchMode;
use corpex::types::{
    AccountsInfo, Address, AppointedTo, CompanyProfile, CompanySearchResult, DateOfBirth, FilingHistoryItem,
    FilingLinks, NameElements, Officer, OfficerAppointment, OfficerAppointmentsResponse, OfficerSearchLinks,
    OfficerSearchResult, Psc, PscIdentification,
};
use corpex::view::View;

fn appointment(number: Option<&str>, status: Option<&str>, resigned: Option<&str>) -> OfficerAppointment {
    OfficerAppointment {
        name: None,
        officer_role: Some("director".to_string()),
        appointed_on: Some("2019-05-01".to_string()),
        resigned_on: resigned.map(|s| s.to_string()),
        nationality: None,
        country_of_residence: None,
        occupation: None,
        address: None,
        appointed_to: Some(AppointedTo {
            company_name: Some("Acme Ltd".to_string()),
            company_number: number.map(|s| s.to_string()),
            company_status: status.map(|s| s.to_string()),
        }),
        name_elements: None,
        is_pre_1992_appointment: None,
    }
}

fn psc(name: Option<&str>, kind: &str, reg: Option<&str>, ceased: Option<&str>) -> Psc {
    Psc {
        name: name.map(|s| s.to_string()),
        kind: Some(kind.to_string()),
        natures_of_control: Some(vec!["ownership-of-shares-75-to-100-percent".to_string()]),
        notified_on: None,
        ceased_on: ceased.map(|s| s.to_string()),
        nationality: None,
        country_of_residence: None,
        address: None,
        identification: reg.map(|r| PscIdentification {
            registration_number: Some(r.to_string()),
            legal_authority: None,
            legal_form: None,
            place_registered: None,
            country_registered: None,
        }),
    }
}

fn bare_profile(status: Option<&str>) -> CompanyProfile {
    CompanyProfile {
        company_name: Some("Acme Ltd".to_string()),
        company_number: Some("00000001".to_string()),
        company_status: status.map(|s| s.to_string()),
        company_status_detail: None,
        company_type: None,
        date_of_creation: None,
        date_of_cessation: None,
        jurisdiction: None,
        registered_office_address: None,
        sic_codes: None,
        accounts: None,
        confirmation_statement: None,
        has_charges: None,
        has_insolvency_history: None,
        has_been_liquidated: None,
    }
}

#[test]
fn company_numbers_are_recognised() {
    assert!(is_company_number("123456"));
    assert!(is_company_number("00102498"));
    assert!(is_company_number("SC123456"));
    assert!(is_company_number("ab1234"));
    assert!(!is_company_number("12345"));
    assert!(!is_company_number("123456789"));
    assert!(!is_company_number("Acme Ltd"));
    assert!(!is_company_number("S1234567"));
    assert!(!is_company_number("é12345"));
}

#[test]
fn company_numbers_are_padded_to_eight() {
    assert_eq!(pad_company_number("123456"), "00123456");
    assert_eq!(pad_company_number("SC123456"), "SC123456");
    assert_eq!(pad_company_number("ab1234"), "00ab1234");
    assert_eq!(pad_company_number("123456789"), "123456789");
}

#[test]
fn page_and_sidebar_searches() {
    assert!(search_from_page(SearchMode::Company, "  ").is_none());
    assert!(matches!(search_from_page(SearchMode::Company, " 102498 "), Some(SearchAction::OpenCompany(n)) if n == "00102498"));
    assert!(matches!(search_from_page(SearchMode::Company, "Tesco PLC"), Some(SearchAction::SearchCompanies(q)) if q == "Tesco PLC"));
    assert!(matches!(search_from_page(SearchMode::Officer, "102498"), Some(SearchAction::SearchOfficers(q)) if q == "102498"));
    assert!(matches!(search_from_sidebar(SearchMode::Officer, "102498"), Some(SearchAction::OpenCompany(n)) if n == "00102498"));
    assert!(matches!(search_from_sidebar(SearchMode::Company, "Barclays"), Some(SearchAction::SearchCompanies(q)) if q == "Barclays"));
}

#[test]
fn company_mode_searches_agree() {
    for q in ["123456", " SC123456", "Acme", "", "  x  "] {
        let a = search_from_page(SearchMode::Company, q);
        let b = search_from_sidebar(SearchMode::Company, q);
        assert_eq!(format!("{:?}", a), format!("{:?}", b));
    }
}

#[test]
fn opened_numbers_have_eight_characters() {
    for q in ["123456", "1234567", "AB1234", "SC123456"] {
        let p = pad_company_number(q);
        assert_eq!(p.chars().count(), 8);
        assert!(p.ends_with(q));
    }
}

#[test]
fn months_and_birth_dates() {
    assert_eq!(month_abbrev(Some(1)), "Jan");
    assert_eq!(month_abbrev(Some(12)), "Dec");
    assert_eq!(month_abbrev(Some(13)), "?");
    assert_eq!(month_abbrev(None), "?");
    assert_eq!(born_text(&DateOfBirth { month: Some(3), year: Some(1970) }), "Born Mar 1970");
    assert_eq!(born_text(&DateOfBirth { month: None, year: None }), "Born ? 0");
}

#[test]
fn status_tones() {
    assert_eq!(status_tone("active"), Tone::Good);
    assert_eq!(status_tone("dissolved"), Tone::Bad);
    assert_eq!(status_tone("liquidation"), Tone::Bad);
    assert_eq!(status_tone("insolvency-proceedings"), Tone::Bad);
    assert_eq!(status_tone("administration"), Tone::Warning);
    assert_eq!(status_tone("open"), Tone::Muted);
}

#[test]
fn appointment_cards_fill_defaults() {
    let mut a = appointment(Some("0001"), Some("liquidation"), Some("2020-01-01"));
    a.name_elements = Some(NameElements {
        title: Some("Mr".to_string()),
        forename: Some("John".to_string()),
        surname: Some("Smith".to_string()),
        other_forenames: None,
    });
    let c = appointment_card(&a);
    assert_eq!(c.company_name, "Acme Ltd");
    assert_eq!(c.company_number, "0001");
    assert_eq!(c.company_status, "liquidation");
    assert_eq!(c.status_icon, "🟡");
    assert_eq!(c.status_tone, Tone::Warning);
    assert_eq!(c.role, "director");
    assert!(!c.is_active);
    assert_eq!(c.full_name.as_deref(), Some("Mr John Smith"));
    assert!(c.address.is_none());

    let mut b = appointment(None, None, None);
    b.appointed_to = None;
    b.officer_role = None;
    b.appointed_on = None;
    b.address = Some(Address {
        address_line_1: Some("2 Low Rd".to_string()),
        address_line_2: None,
        locality: Some("Leeds".to_string()),
        region: None,
        postal_code: None,
        country: None,
        premises: None,
    });
    let c = appointment_card(&b);
    assert_eq!(c.company_name, "Unknown Company");
    assert_eq!(c.company_number, "?");
    assert_eq!(c.company_status, "?");
    assert_eq!(c.status_icon, "⚪");
    assert_eq!(c.role, "unknown");
    assert_eq!(c.appointed, "?");
    assert!(c.is_active);
    assert_eq!(c.address.as_deref(), Some("2 Low Rd, Leeds"));
    assert!(c.full_name.is_none());
}

#[test]
fn live_appointments_are_current_and_not_dissolved() {
    let r = OfficerAppointmentsResponse {
        items: Some(vec![
            appointment(Some("A"), Some("active"), None),
            appointment(Some("B"), Some("dissolved"), None),
            appointment(Some("C"), Some("active"), Some("2021-01-01")),
            appointment(None, None, None),
            appointment(Some("E"), None, None),
        ]),
        name: None,
        date_of_birth: None,
        active_count: None,
        inactive_count: None,
        resigned_count: None,
        is_corporate_officer: None,
        total_results: None,
    };
    let (count, numbers) = live_appointment_targets(&r);
    assert_eq!(count, 3);
    assert_eq!(numbers, vec!["A".to_string(), "E".to_string()]);
}

#[test]
fn officer_summaries() {
    let r = OfficerAppointmentsResponse {
        items: None,
        name: None,
        date_of_birth: Some(DateOfBirth { month: Some(7), year: Some(1981) }),
        active_count: Some(2),
        inactive_count: Some(1),
        resigned_count: Some(0),
        is_corporate_officer: Some(true),
        total_results: None,
    };
    let s = officer_summary(&r);
    assert_eq!(s.born.as_deref(), Some("Born Jul 1981"));
    assert_eq!(s.active, Some(2));
    assert_eq!(s.resigned, None);
    assert!(s.corporate);
    assert_eq!(s.total, 0);
}

#[test]
fn result_cards() {
    let o = OfficerSearchResult {
        title: None,
        description: None,
        appointment_count: Some(4),
        date_of_birth: None,
        address: None,
        links: Some(OfficerSearchLinks { self_link: Some("/officers/x/appointments".to_string()) }),
        snippet: None,
    };
    let c = officer_result_card(&o);
    assert_eq!(c.name, "Unknown");
    assert_eq!(c.description, "");
    assert_eq!(c.appointments, 4);
    assert_eq!(c.appointments_path.as_deref(), Some("/officers/x/appointments"));
    let r = CompanySearchResult {
        title: Some("Acme".to_string()),
        company_number: None,
        company_status: Some("dissolved".to_string()),
        company_type: None,
        date_of_creation: None,
        address_snippet: None,
        description: None,
    };
    let c = company_result_card(&r);
    assert_eq!((c.name.as_str(), c.number.as_str(), c.status.as_str()), ("Acme", "?", "dissolved"));
    assert_eq!(c.tone, Tone::Bad);
}

#[test]
fn analysis_previews() {
    assert_eq!(analysis_preview("short"), "short");
    let long = "a".repeat(600);
    let p = analysis_preview(&long);
    assert_eq!(p, format!("{}...", "a".repeat(500)));
    let wide = "é".repeat(300);
    assert_eq!(analysis_preview(&wide), format!("{}...", "é".repeat(300)));
}

#[test]
fn company_facts_fill_defaults() {
    let mut p = bare_profile(None);
    p.accounts = Some(AccountsInfo {
        accounting_reference_date: None,
        last_accounts: None,
        next_due: Some("2024-09-30".to_string()),
        next_made_up_to: None,
        overdue: Some(true),
    });
    p.sic_codes = Some(vec!["62020".to_string(), "70100".to_string()]);
    p.has_insolvency_history = Some(true);
    let f = company_facts(&p);
    assert_eq!(f.status, "UNKNOWN");
    assert_eq!(f.status_tone, Tone::Muted);
    assert_eq!(f.company_type, "-");
    assert_eq!(f.office, "-");
    assert_eq!(f.sic_codes.as_deref(), Some("62020, 70100"));
    assert_eq!(f.accounts_due.as_deref(), Some("🔴 Due: 2024-09-30"));
    assert!(f.confirmation_due.is_none());
    assert_eq!(f.charges, "No");
    assert_eq!(f.insolvency, "Yes ⚠");
    let f = company_facts(&bare_profile(Some("active")));
    assert_eq!(f.status, "ACTIVE");
    assert_eq!(f.status_tone, Tone::Good);
}

#[test]
fn group_card_pieces() {
    assert_eq!(group_heading(GroupRole::Subsidiary), "🏢 SUBSIDIARY");
    assert_eq!(group_heading(GroupRole::Parent), "🏛 PARENT / HOLDING");
    assert_eq!(subsidiary_icon("active"), "🟢");
    assert_eq!(subsidiary_icon("dissolved"), "🔴");
    assert_eq!(subsidiary_icon("liquidation"), "⚪");
    let subs = vec![
        SubsidiaryInfo { company_number: "1".to_string(), company_name: "A".to_string(), status: "active".to_string() },
        SubsidiaryInfo { company_number: "2".to_string(), company_name: "B".to_string(), status: "dissolved".to_string() },
        SubsidiaryInfo { company_number: "3".to_string(), company_name: "C".to_string(), status: "active".to_string() },
    ];
    assert_eq!(active_subsidiary_numbers(&subs), vec!["1".to_string(), "3".to_string()]);
}

#[test]
fn psc_lines_list_active_pscs() {
    let ps = vec![
        psc(Some("Holdco Ltd"), "corporate-entity-person-with-significant-control", Some("0042"), None),
        psc(Some("Gone Ltd"), "corporate-entity-person-with-significant-control", Some("0043"), Some("2020-01-01")),
        psc(None, "individual-person-with-significant-control", None, None),
    ];
    let lines = psc_lines(&ps);
    assert_eq!(lines.len(), 2);
    assert!(lines[0].corporate);
    assert_eq!(lines[0].name, "Holdco Ltd");
    assert_eq!(lines[0].investigate.as_deref(), Some("0042"));
    assert!(!lines[1].corporate);
    assert_eq!(lines[1].name, "Unknown");
    assert!(lines[1].investigate.is_none());
}

#[test]
fn dashboard_and_officer_figures() {
    let mut n = CorporateNetwork::new();
    let mut p = bare_profile(Some("active"));
    n.add_company("00000001", &p);
    p.has_insolvency_history = Some(true);
    n.add_company("00000002", &p);
    p.has_insolvency_history = None;
    p.company_status = Some("dormant".to_string());
    n.add_company("00000003", &p);
    assert_eq!(risk_counts(&n), (1, 1));
    let officer = |resigned: Option<&str>| Officer {
        name: Some("X".to_string()),
        officer_role: None,
        appointed_on: None,
        resigned_on: resigned.map(|s| s.to_string()),
        date_of_birth: None,
        nationality: None,
        occupation: None,
        address: None,
        links: None,
    };
    assert_eq!(officer_counts(&vec![officer(None), officer(Some("2020")), officer(None)]), (2, 1));
}

#[test]
fn filing_cards_and_cached_documents() {
    let mut texts: Keyed<String> = Keyed::new();
    texts.insert("T1".to_string(), "text".to_string());
    let mut summaries: Keyed<String> = Keyed::new();
    summaries.insert("T1".to_string(), "sum".to_string());
    let f1 = FilingHistoryItem {
        transaction_id: Some("T1".to_string()),
        category: Some("accounts".to_string()),
        date: None,
        description: None,
        filing_type: None,
        links: None,
        description_values: None,
    };
    let f2 = FilingHistoryItem {
        transaction_id: Some("T2".to_string()),
        category: Some("charges".to_string()),
        date: Some("2022-02-02".to_string()),
        description: Some("charge".to_string()),
        filing_type: Some("MR01".to_string()),
        links: Some(FilingLinks { self_link: None, document_metadata: Some("https://doc/1".to_string()) }),
        description_values: None,
    };
    let c = filing_card(&f1, &texts, &summaries);
    assert_eq!(c.date, "-");
    assert_eq!(c.category, "[accounts]");
    assert_eq!(c.kind, FilingKind::Accounts);
    assert_eq!(c.description, "No description");
    assert!(matches!(c.document, DocumentState::Extracted { summarised: true }));
    let c = filing_card(&f2, &texts, &summaries);
    assert_eq!(c.kind, FilingKind::Charges);
    assert!(matches!(c.document, DocumentState::Extractable(ref u) if u == "https://doc/1"));
    assert_eq!(cached_document_count(&vec![f1, f2], &texts), 1);
}

#[test]
fn network_links_newest_first() {
    let mut n = CorporateNetwork::new();
    let p = bare_profile(Some("active"));
    n.add_company("A", &p);
    n.add_company("B", &p);
    n.add_shared_director("A", "B", "Jane");
    n.add_shared_director("A", "B", "John");
    let (out, inc) = node_links(&n, 0);
    assert_eq!(out, vec![
        ("Director: John".to_string(), "Acme Ltd".to_string()),
        ("Director: Jane".to_string(), "Acme Ltd".to_string()),
    ]);
    assert!(inc.is_empty());
    let (out, inc) = node_links(&n, 1);
    assert!(out.is_empty());
    assert_eq!(inc.len(), 2);
}

#[test]
fn sidebar_status_and_settings() {
    assert!(nav_enabled(View::Network, 0));
    assert!(!nav_enabled(View::Company, 0));
    assert!(nav_enabled(View::Company, 3));
    assert_eq!(status_line(true, true, false, 3, 2, ""), "⏳  🟢 CH  ⚪ AI  │  3 companies  2 links  ");
    assert_eq!(status_line(false, false, true, 0, 0, "│  💰 $0.0100"), "  🔴 CH  🟢 AI  │  0 companies  0 links  │  💰 $0.0100");
    assert_eq!(model_hint("anthropic"), ModelHint::Anthropic);
    assert_eq!(model_hint("openai"), ModelHint::OpenAi);
    assert_eq!(model_hint("custom"), ModelHint::Other);
    assert!(shows_base_url("custom"));
    assert!(!shows_base_url("openai"));
}

#[test]
fn risk_levels_are_ordered_by_severity() {
    assert_ne!(RiskLevel::High, RiskLevel::Medium);
}
