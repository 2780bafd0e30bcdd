use corpex::cache::{cache_dir, cache_file_name, cache_file_path, cached_filing_id};
use corpex::export::{
    analysis_document, chat_log_document, company_folder_name, export_root, export_selection, filing_file_name,
    list_projects, path_join, sanitise_filename, save_project_name,
};
use corpex::investigate::{
    accounts_candidates, accounts_to_extract, download_failed_text, extraction_failed_text, has_parent_psc,
    AccountsFiling, GroupSearch, GroupSearchStep,
};
use corpex::keyed::Keyed;
use corpex::provider::{
    anthropic_messages, bearer_value, chat_completions_url, openai_messages, price_tier, response_text, usage_from,
    ChatMessage, PriceTier,
};
use corpex::types::{CompanySearchResult, FilingHistoryItem, FilingLinks, Psc, PscIdentification};

fn filing(tid: Option<&str>, category: &str, desc: Option<&str>, doc: Option<&str>) -> FilingHistoryItem {
    FilingHistoryItem {
        transaction_id: tid.map(|s| s.to_string()),
        category: Some(category.to_string()),
        date: None,
        description: desc.map(|s| s.to_string()),
        filing_type: None,
        links: Some(FilingLinks { self_link: None, document_metadata: doc.map(|s| s.to_string()) }),
        description_values: None,
    }
}

fn msg(role: &str, content: &str) -> ChatMessage {
    ChatMessage { role: role.to_string(), content: content.to_string() }
}

#[test]
fn read_after_write() {
    let mut k: Keyed<u32> = Keyed::new();
    assert_eq!(k.len(), 0);
    k.insert("a".to_string(), 1);
    k.insert("b".to_string(), 2);
    k.insert("a".to_string(), 3);
    assert_eq!(k.len(), 2);
    assert_eq!(k.get("a"), Some(&3));
    assert_eq!(k.get("b"), Some(&2));
    assert_eq!(k.get("c"), None);
    assert!(k.contains_key("b"));
    assert_eq!(k.position("b"), Some(1));
    assert_eq!(k.entries()[0].0, "a");
}

#[test]
fn filenames_are_made_safe() {
    assert_eq!(sanitise_filename(" a/b\\c:d*e?f\"g<h>i|j "), "a_b_c_d_e_f_g_h_i_j");
    assert_eq!(sanitise_filename("Acme Ltd"), "Acme Ltd");
    assert_eq!(sanitise_filename("   "), "");
}

#[test]
fn safe_names_have_no_unsafe_characters() {
    for name in ["x/y", "a:b*c", " <?> ", "plain"] {
        let s = sanitise_filename(name);
        assert!(!s.chars().any(|c| "/\\:*?\"<>|".contains(c)));
    }
}

#[test]
fn export_paths_and_documents() {
    assert_eq!(path_join("/home/a", "b"), "/home/a/b");
    assert_eq!(path_join("/home/a/", "b"), "/home/a/b");
    assert_eq!(export_root(Some("/home/a")), "/home/a/Corpex Investigations");
    assert_eq!(export_root(None), "./Corpex Investigations");
    assert_eq!(company_folder_name("00000001", "A/B Ltd"), "00000001 - A_B Ltd");
    assert_eq!(analysis_document("Acme", "1", "text"), "# AI Analysis: Acme (1)\n\ntext\n");
    assert_eq!(
        chat_log_document("Acme", "1", &[("user".to_string(), "q".to_string()), ("assistant".to_string(), "a".to_string())]),
        Some("# AI Chat Log: Acme (1)\n\n## USER\nq\n\n## AI\na\n\n".to_string())
    );
    assert_eq!(chat_log_document("Acme", "1", &[]), None);
    assert_eq!(filing_file_name("T1", Some("Full accounts")), "T1 - Full accounts.txt");
    assert_eq!(filing_file_name("T1", Some(" / ")), "T1 - _.txt");
    assert_eq!(filing_file_name("T1", Some("  ")), "T1.txt");
    assert_eq!(filing_file_name("T1", None), "T1.txt");
    assert_eq!(save_project_name("  ", "Acme"), "Acme");
    assert_eq!(save_project_name(" Proj ", "Acme"), "Proj");
}

#[test]
fn export_selection_keeps_extracted_filings() {
    let mut texts: Keyed<String> = Keyed::new();
    texts.insert("T1".to_string(), "one".to_string());
    texts.insert("T3".to_string(), "three".to_string());
    let fs = vec![
        filing(Some("T1"), "accounts", Some("first"), None),
        filing(Some("T2"), "accounts", Some("second"), None),
        filing(None, "accounts", None, None),
        filing(Some("T1"), "accounts", None, None),
    ];
    let (t, d) = export_selection(&fs, &texts);
    assert_eq!(t.len(), 1);
    assert_eq!(t.get("T1").map(|s| s.as_str()), Some("one"));
    assert_eq!(d.get("T1").map(|s| s.as_str()), Some("first"));
    assert!(t.get("T3").is_none());
}

#[test]
fn projects_are_listed_in_order() {
    let names = vec!["beta".to_string(), "Alpha".to_string(), "alpha".to_string(), "Beta".to_string()];
    assert_eq!(list_projects(names), vec!["Alpha", "Beta", "alpha", "beta"]);
    assert!(list_projects(vec![]).is_empty());
}

#[test]
fn cache_layout() {
    assert_eq!(cache_dir("/home/a"), "/home/a/.corpex/cache/docs");
    assert_eq!(cache_file_name("T1"), "T1.txt");
    assert_eq!(cache_file_path("/home/a", "00000001", "T1"), "/home/a/.corpex/cache/docs/00000001/T1.txt");
    assert_eq!(cached_filing_id("T1.txt").as_deref(), Some("T1"));
    assert_eq!(cached_filing_id("T1.txt.txt").as_deref(), Some("T1"));
    assert_eq!(cached_filing_id("T1.pdf"), None);
}

#[test]
fn cache_names_round_trip() {
    for id in ["MzA0NzQ5", "abc", "x.pdf"] {
        assert_eq!(cached_filing_id(&cache_file_name(id)).as_deref(), Some(id));
    }
}

#[test]
fn accounts_are_chosen_for_extraction() {
    let fs = vec![
        filing(Some("A1"), "accounts", Some("micro accounts"), Some("https://doc/A1")),
        filing(Some("C1"), "confirmation-statement", None, Some("https://doc/C1")),
        filing(Some("A2"), "accounts", None, Some("https://doc/A2")),
        filing(Some("A3"), "accounts", Some("no document"), None),
        filing(None, "accounts", None, Some("https://doc/x")),
    ];
    let c = accounts_candidates(&fs);
    assert_eq!(c.len(), 2);
    assert_eq!(c[0].filing_id, "A1");
    assert_eq!(c[1].description, "accounts");
    let chosen = accounts_to_extract(c, &vec![true, false]);
    assert_eq!(chosen.len(), 1);
    assert_eq!(chosen[0].filing_id, "A2");
}

#[test]
fn at_most_ten_accounts_are_extracted() {
    let cands: Vec<AccountsFiling> = (0..14)
        .map(|i| AccountsFiling {
            filing_id: format!("F{}", i),
            document_metadata_url: format!("u{}", i),
            description: "accounts".to_string(),
        })
        .collect();
    let mut cached = vec![false; 14];
    cached[0] = true;
    let chosen = accounts_to_extract(cands, &cached);
    assert_eq!(chosen.len(), 10);
    assert_eq!(chosen[0].filing_id, "F1");
    assert_eq!(chosen[9].filing_id, "F10");
}

#[test]
fn failure_texts() {
    assert_eq!(extraction_failed_text("accounts", "404"), "[EXTRACTION FAILED: accounts — 404]");
    assert_eq!(download_failed_text("timeout"), "[Download failed: timeout]");
}

fn corporate(reg: &str, ceased: Option<&str>) -> Psc {
    Psc {
        name: Some("Parent".to_string()),
        kind: Some("corporate-entity-person-with-significant-control".to_string()),
        natures_of_control: None,
        notified_on: None,
        ceased_on: ceased.map(|s| s.to_string()),
        nationality: None,
        country_of_residence: None,
        address: None,
        identification: Some(PscIdentification {
            registration_number: Some(reg.to_string()),
            legal_authority: None,
            legal_form: None,
            place_registered: None,
            country_registered: None,
        }),
    }
}

fn result(number: Option<&str>, title: Option<&str>) -> CompanySearchResult {
    CompanySearchResult {
        title: title.map(|s| s.to_string()),
        company_number: number.map(|s| s.to_string()),
        company_status: None,
        company_type: None,
        date_of_creation: None,
        address_snippet: None,
        description: None,
    }
}

#[test]
fn group_search_finds_subsidiaries() {
    assert!(has_parent_psc(&vec![corporate("P", None)], "P"));
    assert!(!has_parent_psc(&vec![corporate("P", Some("2020-01-01"))], "P"));
    let mut g = GroupSearch::new(
        "P".to_string(),
        vec![result(Some("P"), Some("Parent")), result(None, None), result(Some("S1"), None), result(Some("S2"), Some("Sub Two"))],
    );
    match g.next_step() {
        GroupSearchStep::CheckPscs { index, company_number, label } => {
            assert_eq!((index, company_number.as_str(), label.as_str()), (2, "S1", "S1"));
            g.record_pscs(index, &vec![corporate("P", None)]);
        }
        GroupSearchStep::Done => panic!("expected a candidate"),
    }
    match g.next_step() {
        GroupSearchStep::CheckPscs { index, label, .. } => {
            assert_eq!(label, "Sub Two");
            g.record_pscs(index, &vec![corporate("Q", None)]);
        }
        GroupSearchStep::Done => panic!("expected a candidate"),
    }
    assert!(matches!(g.next_step(), GroupSearchStep::Done));
    assert_eq!(g.subsidiaries.len(), 1);
    assert_eq!(g.subsidiaries[0].company_number, "S1");
    assert_eq!(g.subsidiaries[0].company_name, "S1");
    assert_eq!(g.subsidiaries[0].status, "unknown");
}

#[test]
fn group_search_stops_at_ten() {
    let cands: Vec<CompanySearchResult> = (0..15).map(|i| result(Some(&format!("S{}", i)), None)).collect();
    let mut g = GroupSearch::new("P".to_string(), cands);
    let mut checked = 0;
    while let GroupSearchStep::CheckPscs { index, .. } = g.next_step() {
        checked += 1;
        g.record_pscs(index, &vec![corporate("P", None)]);
    }
    assert_eq!(checked, 10);
    assert_eq!(g.subsidiaries.len(), 10);
}

#[test]
fn provider_requests() {
    let msgs = vec![msg("system", "s"), msg("user", "u"), msg("assistant", "a")];
    let a = anthropic_messages(&msgs);
    assert_eq!(a.len(), 2);
    assert_eq!(a[0].role, "user");
    let o = openai_messages("SYS", &msgs);
    assert_eq!(o.len(), 3);
    assert_eq!((o[0].role.as_str(), o[0].content.as_str()), ("system", "SYS"));
    assert_eq!(o[2].content, "a");
    assert_eq!(chat_completions_url("https://api.example.com/v1//"), "https://api.example.com/v1/chat/completions");
    assert_eq!(bearer_value("k"), "Bearer k");
    assert_eq!(response_text(Some(Some("hi".to_string()))), "hi");
    assert_eq!(response_text(Some(None)), "No response text");
    assert_eq!(response_text(None), "No response text");
    let u = usage_from(Some(5), None);
    assert_eq!((u.input_tokens, u.output_tokens), (5, 0));
}

#[test]
fn no_system_messages_are_sent_to_anthropic() {
    let msgs = vec![msg("system", "x"), msg("system", "y"), msg("user", "u")];
    assert!(anthropic_messages(&msgs).iter().all(|m| m.role != "system"));
}

#[test]
fn price_tiers() {
    assert_eq!(price_tier("gpt-4o-mini"), PriceTier::Gpt4oMini);
    assert_eq!(price_tier("gpt-4o"), PriceTier::Gpt4o);
    assert_eq!(price_tier("some-haiku-model"), PriceTier::Haiku);
    assert_eq!(price_tier("x-opus-4"), PriceTier::Opus);
    assert_eq!(price_tier("mistral"), PriceTier::Other);
}
