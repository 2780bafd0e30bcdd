use corpex::provider::{chat_route, ChatRoute};
use corpex::config::{apply_settings, provider_from_settings, AiProviderConfig, AppConfig, OcrMode};
use corpex::group::{detect_group_role, has_consolidated_filings, GroupInfo, GroupRole};
use corpex::network::{assess_risk, CorporateNetwork, EdgeRelation, RiskLevel};
use corpex::prompts::{build_analysis_prompt, build_company_context, sic_description};
use corpex::types::{
    AccountsInfo, Address, CompanyProfile, ConfirmationStatementInfo, FilingHistoryItem, Officer, Psc,
    PscIdentification,
};
use corpex::view::View;

fn profile(status: Option<&str>) -> CompanyProfile {
    CompanyProfile {
        company_name: Some("Acme Ltd".to_string()),
        company_number: Some("00000001".to_string()),
        company_status: status.map(|s| s.to_string()),
        company_status_detail: None,
        company_type: Some("ltd".to_string()),
        date_of_creation: Some("2001-02-03".to_string()),
        date_of_cessation: None,
        jurisdiction: None,
        registered_office_address: None,
        sic_codes: Some(vec!["62020".to_string(), "99999".to_string()]),
        accounts: None,
        confirmation_statement: None,
        has_charges: None,
        has_insolvency_history: None,
        has_been_liquidated: None,
    }
}

fn corporate_psc(name: Option<&str>, reg: &str, natures: &[&str]) -> Psc {
    Psc {
        name: name.map(|s| s.to_string()),
        kind: Some("corporate-entity-person-with-significant-control".to_string()),
        natures_of_control: Some(natures.iter().map(|s| s.to_string()).collect()),
        notified_on: None,
        ceased_on: None,
        nationality: None,
        country_of_residence: None,
        address: None,
        identification: Some(PscIdentification {
            registration_number: Some(reg.to_string()),
            legal_authority: None,
            legal_form: None,
            place_registered: None,
            country_registered: None,
        }),
    }
}

#[test]
fn display_names_and_flags() {
    let mut p = profile(Some("active"));
    assert_eq!(p.display_name(), "Acme Ltd");
    assert!(p.is_active());
    p.company_name = None;
    assert_eq!(p.display_name(), "00000001");
    p.company_number = None;
    assert_eq!(p.display_name(), "Unknown");
    assert_eq!(p.number(), "");
    p.accounts = Some(AccountsInfo {
        accounting_reference_date: None,
        last_accounts: None,
        next_due: None,
        next_made_up_to: None,
        overdue: Some(true),
    });
    assert!(p.accounts_overdue());
    assert!(!p.confirmation_overdue());
}

#[test]
fn addresses_on_one_line() {
    let a = Address {
        address_line_1: Some("1 High St".to_string()),
        address_line_2: Some(String::new()),
        locality: Some("London".to_string()),
        region: None,
        postal_code: Some("N1 1AA".to_string()),
        country: Some("England".to_string()),
        premises: Some("Unit 2".to_string()),
    };
    assert_eq!(a.one_line(), "Unit 2, 1 High St, London, N1 1AA, England");
}

#[test]
fn risk_is_assessed_from_the_profile() {
    let (level, signals) = assess_risk(&profile(Some("active")));
    assert_eq!(level, RiskLevel::Low);
    assert!(signals.is_empty());
    let mut p = profile(Some("dormant"));
    p.confirmation_statement = Some(ConfirmationStatementInfo {
        last_made_up_to: None,
        next_due: None,
        next_made_up_to: None,
        overdue: Some(true),
    });
    let (level, signals) = assess_risk(&p);
    assert_eq!(level, RiskLevel::Medium);
    assert_eq!(signals, vec!["Confirmation statement overdue".to_string(), "Status: dormant".to_string()]);
    let mut p = profile(None);
    p.has_been_liquidated = Some(true);
    let (level, signals) = assess_risk(&p);
    assert_eq!(level, RiskLevel::High);
    assert_eq!(signals, vec!["Has been liquidated".to_string(), "Status: inactive".to_string()]);
}

#[test]
fn edge_labels() {
    let e = EdgeRelation::PscOwnership {
        natures: vec!["ownership-of-shares-75-to-100-percent".to_string(), "voting-rights-25-to-50-percent".to_string()],
    };
    assert_eq!(e.label(), "PSC (75%+, 50-75%)");
    let e = EdgeRelation::PscOwnership { natures: vec!["ownership-of-shares-25-to-49-percent".to_string(), "right-to-appoint".to_string()] };
    assert_eq!(e.label(), "PSC (25-50%)");
    assert_eq!(EdgeRelation::PscOwnership { natures: vec![] }.label(), "PSC ownership");
    assert_eq!(EdgeRelation::SharedDirector { name: "Jane".to_string() }.label(), "Director: Jane");
    let c = EdgeRelation::ChargeHolder { charge_desc: "A".repeat(40) };
    assert_eq!(c.label(), format!("Charge: {}", "A".repeat(30)));
}

#[test]
fn network_nodes_and_ownership_edges() {
    let mut n = CorporateNetwork::new();
    let i = n.add_company("00000001", &profile(Some("active")));
    assert_eq!(i, 0);
    assert_eq!(n.add_company("00000001", &profile(Some("dissolved"))), 0);
    assert_eq!(n.node_count(), 1);
    assert_eq!(n.get_node("00000001").unwrap().status, "dissolved");
    assert_eq!(n.ensure_node("00000001", "Other"), 0);
    assert_eq!(n.ensure_node("00000009", "Holdco"), 1);
    assert_eq!(n.ensure_node("00000009", "Holdco"), 1);
    n.process_pscs("00000001", &vec![corporate_psc(Some("Parent Ltd"), "00000042", &["ownership-of-shares-50-to-75-percent"])]);
    assert_eq!(n.node_count(), 3);
    assert_eq!(n.edge_count(), 1);
    let (a, b, rel) = n.edge_at(0);
    assert_eq!(n.node_at(a).company_number, "00000042");
    assert_eq!(n.node_at(b).company_number, "00000001");
    assert_eq!(rel.label(), "PSC (75%+)");
    assert_eq!(n.all_companies(), vec!["00000001".to_string(), "00000009".to_string(), "00000042".to_string()]);
    assert!(n.find("nope").is_none());
}

#[test]
fn group_roles_come_from_corporate_pscs() {
    let g = detect_group_role(&[corporate_psc(None, "00000042", &[])], &profile(None));
    assert_eq!(g.role, GroupRole::Subsidiary);
    let parent = g.parent.unwrap();
    assert_eq!(parent.company_number, "00000042");
    assert_eq!(parent.name, "00000042");
    let g = detect_group_role(&[], &profile(None));
    assert_eq!(g.role, GroupRole::Parent);
    assert!(g.parent.is_none());
    let u = GroupInfo::unknown();
    assert_eq!(u.role, GroupRole::Unknown);
    assert!(u.subsidiaries.is_empty());
}

#[test]
fn consolidated_filings_are_noticed() {
    let f = |d: Option<&str>| FilingHistoryItem {
        transaction_id: None,
        category: None,
        date: None,
        description: d.map(|s| s.to_string()),
        filing_type: None,
        links: None,
        description_values: None,
    };
    assert!(has_consolidated_filings(&[f(None), f(Some("Group of companies' accounts"))]));
    assert!(has_consolidated_filings(&[f(Some("CONSOLIDATED accounts"))]));
    assert!(!has_consolidated_filings(&[f(Some("micro-entity accounts")), f(None)]));
}

#[test]
fn sic_codes_are_described() {
    assert_eq!(sic_description("62020"), "Information technology consultancy activities");
    assert_eq!(sic_description("70100"), "Activities of head offices");
    assert_eq!(sic_description("00000"), "");
}

#[test]
fn company_context_lists_the_profile() {
    let p = profile(Some("active"));
    let officers = vec![Officer {
        name: Some("SMITH, John".to_string()),
        officer_role: Some("director".to_string()),
        appointed_on: Some("2010-01-01".to_string()),
        resigned_on: None,
        date_of_birth: None,
        nationality: None,
        occupation: None,
        address: None,
        links: None,
    }];
    let ctx = build_company_context("00000001", Some(&p), Some(&officers), None, None, None, None, &vec![]);
    assert!(ctx.starts_with("=== COMPANY: 00000001 ===\n\n## Company Profile\nName: Acme Ltd\nNumber: 00000001\nStatus: active\n"));
    assert!(ctx.contains("SIC codes: 62020 (Information technology consultancy activities), 99999\n"));
    assert!(ctx.contains("## Officers (1 active, 0 resigned)\n"));
}

#[test]
fn analysis_prompt_states_the_period() {
    let one = build_analysis_prompt("CTX", 2022, 2022);
    assert!(one.starts_with("Please analyse the following Companies House data for this company.\n\nFocus your analysis on the 2022 accounting period.\n\nSTEP 1"));
    assert!(one.ends_with("---\n\nCTX"));
    let range = build_analysis_prompt("CTX", 2019, 2023);
    assert!(range.contains("Focus your analysis on the period 2019 to 2023 inclusive."));
}

#[test]
fn configuration_from_the_environment() {
    let c = AppConfig::from_env_values(
        Some("ak".to_string()),
        None,
        "default-model",
        Some("ok".to_string()),
        None,
        Some("ch".to_string()),
        None,
    );
    assert!(matches!(&c.ai_provider, AiProviderConfig::Anthropic { api_key, model } if api_key == "ak" && model == "default-model"));
    assert!(c.has_ch_key());
    assert!(c.has_ai());
    let c = AppConfig::from_env_values(Some("ak".to_string()), Some("m2".to_string()), "default-model", None, None, None, None);
    assert!(matches!(&c.ai_provider, AiProviderConfig::Anthropic { model, .. } if model == "m2"));
    let c = AppConfig::from_env_values(None, None, "default-model", Some("ok".to_string()), None, None, None);
    assert!(matches!(&c.ai_provider, AiProviderConfig::OpenAi { api_key, model } if api_key == "ok" && model == "gpt-4o"));
    assert!(!c.has_ch_key());
    let c = AppConfig::from_env_values(None, None, "default-model", None, None, Some(String::new()), None);
    assert!(!c.has_ai());
    assert!(!c.has_ch_key());
}

#[test]
fn settings_choose_the_provider() {
    assert!(matches!(provider_from_settings("openai", "k", "m", "u"), AiProviderConfig::OpenAi { .. }));
    assert!(matches!(provider_from_settings("none", "k", "m", "u"), AiProviderConfig::Unconfigured));
    let mut c = AppConfig {
        ch_api_key: None,
        ai_provider: AiProviderConfig::Unconfigured,
        kanon2_api_key: Some("old".to_string()),
        ocr_mode: OcrMode::WithOcrs,
    };
    apply_settings(&mut c, "anthropic", "k", "m", "", "");
    assert!(c.has_ai());
    assert_eq!(c.kanon2_api_key.as_deref(), Some("old"));
    assert_eq!(c.ocr_mode, OcrMode::WithOcrs);
}

#[test]
fn views_have_icons_labels_and_tooltips() {
    assert_eq!(View::Analysis.icon(), "🤖");
    assert_eq!(View::Analysis.label(), "AI Analysis");
    assert_eq!(View::Welcome.label(), "Home");
    assert_eq!(View::Settings.tooltip(), "API keys & configuration");
    assert_eq!(View::MAIN_NAV, [View::Welcome, View::Search, View::Dashboard]);
    assert_eq!(View::INVESTIGATION_NAV.len(), 5);
}

#[test]
fn psc_placeholders_are_named_once() {
    let mut n = CorporateNetwork::new();
    n.ensure_node("00000042", "Known Parent");
    n.process_pscs(
        "00000001",
        &vec![
            corporate_psc(Some("First Holdings"), "00000050", &["ownership-of-shares-25-to-50-percent"]),
            corporate_psc(None, "00000060", &[]),
            corporate_psc(Some("Second Name"), "00000050", &[]),
            corporate_psc(Some("Renamed Parent"), "00000042", &[]),
        ],
    );
    assert_eq!(n.node_count(), 4);
    assert_eq!(n.edge_count(), 4);
    let child = n.get_node("00000001").unwrap();
    assert_eq!(child.company_name, "00000001");
    assert_eq!(child.status, "unknown");
    assert_eq!(n.get_node("00000050").unwrap().company_name, "First Holdings");
    assert_eq!(n.get_node("00000060").unwrap().company_name, "00000060");
    assert_eq!(n.get_node("00000042").unwrap().company_name, "Known Parent");
    assert_eq!(n.find("00000050"), Some(2));
}

#[test]
fn shared_director_placeholders_are_named_by_number() {
    let mut n = CorporateNetwork::new();
    n.add_company("00000001", &profile(Some("active")));
    n.add_shared_director("00000001", "00000077", "Jane Smith");
    assert_eq!(n.node_count(), 2);
    assert_eq!(n.get_node("00000001").unwrap().company_name, "Acme Ltd");
    let b = n.get_node("00000077").unwrap();
    assert_eq!(b.company_name, "00000077");
    assert_eq!(b.status, "unknown");
    let (from, to, rel) = n.edge_at(0);
    assert_eq!((from, to), (0, 1));
    assert_eq!(rel.label(), "Director: Jane Smith");
}

#[test]
fn added_company_is_the_node_found() {
    let mut n = CorporateNetwork::new();
    n.ensure_node("00000001", "Placeholder");
    let i = n.add_company("00000001", &profile(Some("active")));
    assert_eq!(i, 0);
    let node = n.get_node("00000001").unwrap();
    assert_eq!(node.company_name, "Acme Ltd");
    assert_eq!(node.status, "active");
    assert_eq!(node.date_of_creation.as_deref(), Some("2001-02-03"));
}

#[test]
fn providers_route_conversations() {
    let a = AiProviderConfig::Anthropic { api_key: "k".to_string(), model: "m".to_string() };
    assert!(matches!(chat_route(&a), Ok(ChatRoute::Anthropic { api_key, model }) if api_key == "k" && model == "m"));
    let o = AiProviderConfig::OpenAi { api_key: "k".to_string(), model: "gpt-4o".to_string() };
    assert!(matches!(chat_route(&o), Ok(ChatRoute::OpenAiCompatible { base_url, model, .. })
        if base_url == "https://api.openai.com/v1" && model == "gpt-4o"));
    let c = AiProviderConfig::Custom {
        api_key: "k".to_string(),
        model: "local".to_string(),
        base_url: "http://localhost:8080/v1".to_string(),
    };
    assert!(matches!(chat_route(&c), Ok(ChatRoute::OpenAiCompatible { base_url, .. }) if base_url == "http://localhost:8080/v1"));
    assert_eq!(chat_route(&AiProviderConfig::Unconfigured).err(), Some("No AI provider configured".to_string()));
}
