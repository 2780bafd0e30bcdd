use corpex::config::{AiProviderConfig, AppConfig, OcrMode};
use corpex::panels::SearchAction;
use corpex::session::{BackgroundMessage, Followup, SearchMode, Session, UsageKind};
use corpex::types::{Address, CompanyProfile, CompanySearchResult, FilingHistoryItem};
use corpex::view::View;

fn config() -> AppConfig {
    AppConfig {
        ch_api_key: Some("key".to_string()),
        ai_provider: AiProviderConfig::OpenAi { api_key: "sk".to_string(), model: "gpt-4o".to_string() },
        kanon2_api_key: None,
        ocr_mode: OcrMode::NativeOnly,
    }
}

fn session() -> Session {
    Session::new(config(), "model-x".to_string(), vec![("F1".to_string(), "cached text".to_string())])
}

fn profile(name: &str, number: &str, status: &str) -> CompanyProfile {
    CompanyProfile {
        company_name: Some(name.to_string()),
        company_number: Some(number.to_string()),
        company_status: Some(status.to_string()),
        company_status_detail: None,
        company_type: Some("ltd".to_string()),
        date_of_creation: Some("2001-02-03".to_string()),
        date_of_cessation: None,
        jurisdiction: Some("england-wales".to_string()),
        registered_office_address: Some(Address {
            address_line_1: Some("1 High St".to_string()),
            address_line_2: None,
            locality: Some("London".to_string()),
            region: None,
            postal_code: Some("N1 1AA".to_string()),
            country: None,
            premises: None,
        }),
        sic_codes: Some(vec!["62020".to_string()]),
        accounts: None,
        confirmation_statement: None,
        has_charges: Some(false),
        has_insolvency_history: Some(false),
        has_been_liquidated: None,
    }
}

fn filing(tid: &str, desc: &str) -> FilingHistoryItem {
    FilingHistoryItem {
        transaction_id: Some(tid.to_string()),
        category: Some("accounts".to_string()),
        date: Some("2023-01-01".to_string()),
        description: Some(desc.to_string()),
        filing_type: Some("AA".to_string()),
        links: None,
        description_values: None,
    }
}

#[test]
fn new_session_starts_at_home() {
    let s = session();
    assert_eq!(s.active_view, View::Welcome);
    assert_eq!(s.status_message, "Ready. Enter a company name or number to begin.");
    assert_eq!(s.settings_ai_provider, "anthropic");
    assert_eq!(s.settings_ai_model, "model-x");
    assert_eq!(s.analysis_year_from, 2020);
    assert_eq!(s.analysis_year_to, 2026);
    assert!(s.extracted_texts.contains_key("F1"));
    assert_eq!(s.network.node_count(), 0);
    assert!(!s.is_loading);
}

#[test]
fn loaded_profile_is_selected_and_networked() {
    let mut s = session();
    s.is_loading = true;
    let f = s.apply(BackgroundMessage::CompanyProfileLoaded {
        company_number: "00000001".to_string(),
        profile: profile("Acme Ltd", "00000001", "active"),
    });
    assert!(matches!(f, Followup::Nothing));
    assert_eq!(s.selected_company.as_deref(), Some("00000001"));
    assert!(!s.is_loading);
    assert_eq!(s.network.node_count(), 1);
    assert_eq!(s.company_title("00000001"), "Acme Ltd");
    assert_eq!(s.company_title("99999999"), "99999999");
}

#[test]
fn extracted_text_is_kept_and_cached() {
    let mut s = session();
    let f = s.apply(BackgroundMessage::DocumentTextExtracted {
        company_number: "00000001".to_string(),
        filing_id: "F2".to_string(),
        text: "hello".to_string(),
    });
    match f {
        Followup::CacheText { company_number, filing_id, text } => {
            assert_eq!(company_number, "00000001");
            assert_eq!(filing_id, "F2");
            assert_eq!(text, "hello");
        }
        _ => panic!("expected a cache request"),
    }
    assert_eq!(s.extracted_texts.get("F2").map(|t| t.as_str()), Some("hello"));
}

#[test]
fn analysis_is_kept_and_usage_recorded() {
    let mut s = session();
    s.is_loading = true;
    let f = s.apply(BackgroundMessage::AiAnalysisComplete {
        company_number: "C".to_string(),
        analysis: "report".to_string(),
        input_tokens: 100,
        output_tokens: 20,
        model: "gpt-4o".to_string(),
    });
    match f {
        Followup::RecordUsage { input_tokens, output_tokens, model, kind } => {
            assert_eq!((input_tokens, output_tokens), (100, 20));
            assert_eq!(model, "gpt-4o");
            assert_eq!(kind, UsageKind::Analysis);
        }
        _ => panic!("expected a usage report"),
    }
    assert_eq!(s.ai_analyses.get("C").map(|t| t.as_str()), Some("report"));
    let conv = s.ai_conversations.get("C").unwrap();
    assert_eq!(conv.len(), 1);
    assert_eq!(conv[0].0, "assistant");
    assert_eq!((s.session_input_tokens, s.session_output_tokens), (100, 20));
    assert!(!s.is_loading);
}

#[test]
fn errors_go_to_the_status_line() {
    let mut s = session();
    s.is_loading = true;
    s.apply(BackgroundMessage::Error("boom".to_string()));
    assert_eq!(s.status_message, "⚠ Error: boom");
    assert!(!s.is_loading);
}

#[test]
fn going_back_undoes_going_forward() {
    let mut s = session();
    s.selected_company = Some("A".to_string());
    s.active_view = View::Dashboard;
    s.push_view(View::Company);
    assert_eq!(s.active_view, View::Company);
    assert!(s.scroll_reset_needed);
    s.selected_company = Some("B".to_string());
    s.pop_view();
    assert_eq!(s.active_view, View::Dashboard);
    assert_eq!(s.selected_company.as_deref(), Some("A"));
    assert!(s.view_history.is_empty());
    s.pop_view();
    assert_eq!(s.active_view, View::Dashboard);
}

#[test]
fn page_search_opens_company_numbers() {
    let mut s = session();
    s.search_results.push(CompanySearchResult {
        title: None,
        company_number: None,
        company_status: None,
        company_type: None,
        date_of_creation: None,
        address_snippet: None,
        description: None,
    });
    s.search_query = "  123456 ".to_string();
    match s.submit_page_search() {
        Some(SearchAction::OpenCompany(n)) => assert_eq!(n, "00123456"),
        other => panic!("unexpected {:?}", other),
    }
    assert_eq!(s.selected_company.as_deref(), Some("00123456"));
    assert_eq!(s.active_view, View::Company);
    assert_eq!(s.view_history.len(), 1);
    assert!(s.search_results.is_empty());
    assert!(s.is_loading);
}

#[test]
fn page_search_searches_names_and_directors() {
    let mut s = session();
    s.search_query = "Acme".to_string();
    assert!(matches!(s.submit_page_search(), Some(SearchAction::SearchCompanies(q)) if q == "Acme"));
    s.search_mode = SearchMode::Officer;
    s.search_query = "123456".to_string();
    assert!(matches!(s.submit_page_search(), Some(SearchAction::SearchOfficers(q)) if q == "123456"));
    s.search_query = "   ".to_string();
    s.is_loading = false;
    assert!(s.submit_page_search().is_none());
    assert!(!s.is_loading);
}

#[test]
fn sidebar_search_opens_numbers_in_either_mode() {
    let mut s = session();
    s.search_mode = SearchMode::Officer;
    s.search_query = "SC123456".to_string();
    match s.submit_sidebar_search() {
        Some(SearchAction::OpenCompany(n)) => assert_eq!(n, "SC123456"),
        other => panic!("unexpected {:?}", other),
    }
    assert_eq!(s.active_view, View::Company);
    assert!(s.view_history.is_empty());
    s.search_query = "Jane Doe".to_string();
    assert!(matches!(s.submit_sidebar_search(), Some(SearchAction::SearchOfficers(q)) if q == "Jane Doe"));
    assert_eq!(s.active_view, View::Search);
}

#[test]
fn investigate_buttons_open_the_company() {
    let mut s = session();
    s.open_company("0001".to_string(), true);
    assert_eq!(s.selected_company.as_deref(), Some("0001"));
    assert_eq!(s.active_view, View::Company);
    assert_eq!(s.view_history.len(), 1);
    assert!(s.is_loading);
    s.pick_company("0002".to_string());
    assert_eq!(s.selected_company.as_deref(), Some("0002"));
    assert_eq!(s.view_history.len(), 1);
}

#[test]
fn settings_are_applied_and_closed() {
    let mut s = session();
    s.select_view(View::Settings);
    assert!(s.show_settings);
    assert!(s.settings_visible());
    s.settings_ai_provider = "custom".to_string();
    s.settings_ai_key = "k".to_string();
    s.settings_ai_model = "m".to_string();
    s.settings_ai_base_url = "https://x/v1".to_string();
    s.settings_kanon2_key = "kk".to_string();
    s.close_settings(true);
    assert!(!s.show_settings);
    assert_eq!(s.active_view, View::Welcome);
    assert_eq!(s.status_message, "✓ Settings applied.");
    assert!(matches!(&s.config.ai_provider, AiProviderConfig::Custom { base_url, .. } if base_url == "https://x/v1"));
    assert_eq!(s.config.kanon2_api_key.as_deref(), Some("kk"));
    assert!(!s.settings_visible());
}

#[test]
fn cancelled_settings_change_nothing() {
    let mut s = session();
    s.open_settings();
    assert_eq!(s.active_view, View::Settings);
    s.settings_ai_provider = "nothing".to_string();
    s.close_settings(false);
    assert!(s.config.has_ai());
    assert_eq!(s.active_view, View::Welcome);
}

#[test]
fn years_are_clamped() {
    let mut s = session();
    s.analysis_year_from = 2024;
    s.analysis_year_to = 2021;
    s.clamp_years();
    assert_eq!((s.analysis_year_from, s.analysis_year_to), (2024, 2024));
    s.analysis_year_from = 2018;
    s.clamp_years();
    assert_eq!((s.analysis_year_from, s.analysis_year_to), (2018, 2024));
}

#[test]
fn chat_input_is_taken_when_it_can_be_sent() {
    let mut s = session();
    s.ai_chat_input = "  why? ".to_string();
    s.is_loading = true;
    assert!(s.take_chat_input().is_none());
    assert_eq!(s.ai_chat_input, "  why? ");
    s.is_loading = false;
    assert_eq!(s.take_chat_input().as_deref(), Some("why?"));
    assert!(s.ai_chat_input.is_empty());
    s.ai_chat_input = "   ".to_string();
    assert!(s.take_chat_input().is_none());
}

#[test]
fn save_dialog_reports_results() {
    let mut s = session();
    s.open_save_dialog("Acme Ltd".to_string());
    assert!(s.show_save_dialog);
    assert_eq!(s.save_project_name, "Acme Ltd");
    s.record_save_result(Ok("/home/x/Corpex Investigations/P".to_string()));
    assert_eq!(s.save_status_message.as_deref(), Some("✓ Saved to /home/x/Corpex Investigations/P"));
    assert!(s.save_succeeded());
    s.record_save_result(Err("disk full".to_string()));
    assert_eq!(s.save_status_message.as_deref(), Some("✗ Error: disk full"));
    assert!(!s.save_succeeded());
    s.close_save_dialog();
    assert!(!s.show_save_dialog);
    assert!(s.save_status_message.is_none());
}

#[test]
fn data_flags_follow_loaded_data() {
    let mut s = session();
    let flags = s.data_flags("C");
    assert!(!flags.profile && !flags.filings && !flags.documents);
    s.apply(BackgroundMessage::FilingsLoaded {
        company_number: "C".to_string(),
        filings: vec![filing("F9", "old"), filing("F1", "accounts")],
    });
    let flags = s.data_flags("C");
    assert!(flags.filings);
    assert!(flags.documents);
    assert!(!flags.officers);
}

#[test]
fn analysis_start_records_the_request() {
    let mut s = session();
    s.apply(BackgroundMessage::CompanyProfileLoaded {
        company_number: "C".to_string(),
        profile: profile("Acme Ltd", "C", "active"),
    });
    assert!(s.context_quotable("C"));
    let prompt = s.start_analysis("C".to_string());
    assert!(prompt.contains("Acme Ltd"));
    assert!(prompt.contains("2020"));
    let conv = s.ai_conversations.get("C").unwrap();
    assert_eq!(conv[0].0, "user");
    assert!(s.is_loading);
}
