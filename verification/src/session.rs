//! The state of an investigation session and how it changes as background
//! work reports back. The caller runs the background work (HTTP requests,
//! AI calls, the disk cache) and hands each result to `Session::apply`;
//! what `apply` asks of the caller in return comes back as a `Followup`.
use vstd::prelude::*;
use crate::text;
use crate::keyed::Keyed;
use crate::config::AppConfig;
use crate::view::View;
use vstd::view::View as _;
use crate::network::{CorporateNetwork, describes, has_number, numbered, owners, ownership_edge, pscs_placeholder};
use crate::group::{GroupInfo, GroupRole, ParentInfo, SubsidiaryInfo, detect_group_role, group_detected};
use crate::prompts;
use crate::provider::{ChatMessage, messages_view};
use crate::panels::{self, SearchAction, search_action_view};
use crate::config;
use crate::types::{
    Charge, CompanyProfile, CompanySearchResult, FilingHistoryItem, InsolvencyData, Officer,
    OfficerAppointmentsResponse, OfficerSearchResult, Psc,
};

verus! {

/// Search mode toggle.
#[derive(Debug, Clone, Copy, PartialEq, Eq, Structural)]
pub enum SearchMode {
    Company,
    Officer,
}

/// What background work reports.
#[derive(Debug)]
pub enum BackgroundMessage {
    CompanyProfileLoaded { company_number: String, profile: CompanyProfile },
    SearchResults(Vec<CompanySearchResult>),
    OfficerSearchResults(Vec<OfficerSearchResult>),
    OfficerAppointmentsLoaded { officer_name: String, response: OfficerAppointmentsResponse },
    OfficersLoaded { company_number: String, officers: Vec<Officer> },
    PscsLoaded { company_number: String, pscs: Vec<Psc> },
    ChargesLoaded { company_number: String, charges: Vec<Charge> },
    InsolvencyLoaded { company_number: String, insolvency: Option<InsolvencyData> },
    FilingsLoaded { company_number: String, filings: Vec<FilingHistoryItem> },
    DocumentTextExtracted { company_number: String, filing_id: String, text: String },
    AiAnalysisComplete {
        company_number: String,
        analysis: String,
        input_tokens: u32,
        output_tokens: u32,
        model: String,
    },
    AiChatResponse {
        company_number: String,
        response: String,
        input_tokens: u32,
        output_tokens: u32,
        model: String,
    },
    AiFilingSummary { filing_id: String, summary: String },
    GroupSubsidiariesDiscovered {
        parent_number: String,
        subsidiaries: Vec<SubsidiaryInfo>,
        has_consolidated: bool,
    },
    NetworkTraversalUpdate { message: String },
    Error(String),
    StatusUpdate(String),
}

/// Which kind of AI call a usage report is for.
#[derive(Debug, Clone, Copy, PartialEq, Eq, Structural)]
pub enum UsageKind {
    Analysis,
    Chat,
}

/// What the caller does after a message has been applied.
#[derive(Debug)]
pub enum Followup {
    Nothing,
    /// Keep the extracted text in the document cache.
    CacheText { company_number: String, filing_id: String, text: String },
    /// Account for an AI call (its cost) and report it in the status line.
    RecordUsage { input_tokens: u32, output_tokens: u32, model: String, kind: UsageKind },
}

/// The investigation session.
pub struct Session {
    pub config: AppConfig,
    pub search_query: String,
    pub search_mode: SearchMode,
    pub search_results: Vec<CompanySearchResult>,
    pub active_view: View,
    pub sidebar_collapsed: bool,
    pub status_message: String,
    pub show_settings: bool,
    /// Views left, with the company selected at the time (for the back button).
    pub view_history: Vec<(View, Option<String>)>,
    pub scroll_reset_needed: bool,
    pub officer_search_results: Vec<OfficerSearchResult>,
    pub selected_officer_name: Option<String>,
    pub selected_officer_appointments: Option<OfficerAppointmentsResponse>,
    pub settings_ai_provider: String,
    pub settings_ai_key: String,
    pub settings_ai_model: String,
    pub settings_ai_base_url: String,
    pub settings_kanon2_key: String,
    pub network: CorporateNetwork,
    pub selected_company: Option<String>,
    pub company_profiles: Keyed<CompanyProfile>,
    pub company_officers: Keyed<Vec<Officer>>,
    pub company_pscs: Keyed<Vec<Psc>>,
    pub company_charges: Keyed<Vec<Charge>>,
    pub company_insolvency: Keyed<Option<InsolvencyData>>,
    pub company_filings: Keyed<Vec<FilingHistoryItem>>,
    /// Extracted document text by filing id.
    pub extracted_texts: Keyed<String>,
    /// AI analysis by company number.
    pub ai_analyses: Keyed<String>,
    pub group_info: Keyed<GroupInfo>,
    /// `(role, message)` pairs by company number.
    pub ai_conversations: Keyed<Vec<(String, String)>>,
    pub ai_chat_input: String,
    /// AI summaries by filing id.
    pub filing_summaries: Keyed<String>,
    pub analysis_year_from: i32,
    pub analysis_year_to: i32,
    pub session_input_tokens: u32,
    pub session_output_tokens: u32,
    pub last_query_input_tokens: u32,
    pub last_query_output_tokens: u32,
    pub is_loading: bool,
    pub show_save_dialog: bool,
    pub save_project_name: String,
    pub save_status_message: Option<String>,
    pub viewing_filing_id: Option<String>,
}

/// The session's interface state, by value.
pub struct UiView {
    pub search_query: Seq<char>,
    pub search_mode: SearchMode,
    pub search_results: Seq<CompanySearchResult>,
    pub active_view: View,
    pub sidebar_collapsed: bool,
    pub status_message: Seq<char>,
    pub show_settings: bool,
    pub view_history: Seq<(View, Option<String>)>,
    pub scroll_reset_needed: bool,
    pub officer_search_results: Seq<OfficerSearchResult>,
    pub selected_officer_name: Option<String>,
    pub selected_officer_appointments: Option<OfficerAppointmentsResponse>,
    pub settings: (Seq<char>, Seq<char>, Seq<char>, Seq<char>, Seq<char>),
    pub selected_company: Option<String>,
    pub ai_chat_input: Seq<char>,
    pub years: (i32, i32),
    pub is_loading: bool,
    pub save_dialog: (bool, Seq<char>, Option<String>),
    pub viewing_filing_id: Option<String>,
}

/// The session's investigation data, by value.
pub struct DataView {
    pub profiles: Map<Seq<char>, CompanyProfile>,
    pub officers: Map<Seq<char>, Seq<Officer>>,
    pub pscs: Map<Seq<char>, Seq<Psc>>,
    pub charges: Map<Seq<char>, Seq<Charge>>,
    pub insolvency: Map<Seq<char>, Option<InsolvencyData>>,
    pub filings: Map<Seq<char>, Seq<FilingHistoryItem>>,
    pub texts: Map<Seq<char>, Seq<char>>,
    pub analyses: Map<Seq<char>, Seq<char>>,
    pub groups: Map<Seq<char>, GroupInfo>,
    pub conversations: Map<Seq<char>, Seq<(Seq<char>, Seq<char>)>>,
    pub summaries: Map<Seq<char>, Seq<char>>,
    /// Session input and output tokens, then those of the last query.
    pub tokens: (u32, u32, u32, u32),
}

pub open spec fn vec_views<T>(m: Map<Seq<char>, Vec<T>>) -> Map<Seq<char>, Seq<T>> {
    m.map_values(|v: Vec<T>| v@)
}

pub open spec fn string_views(m: Map<Seq<char>, String>) -> Map<Seq<char>, Seq<char>> {
    m.map_values(|s: String| s@)
}

pub open spec fn conversation_views(m: Map<Seq<char>, Vec<(String, String)>>) -> Map<Seq<char>, Seq<(Seq<char>, Seq<char>)>> {
    m.map_values(|v: Vec<(String, String)>| v.deep_view())
}

impl Session {
    pub open spec fn ui(&self) -> UiView {
        UiView {
            search_query: self.search_query@,
            search_mode: self.search_mode,
            search_results: self.search_results@,
            active_view: self.active_view,
            sidebar_collapsed: self.sidebar_collapsed,
            status_message: self.status_message@,
            show_settings: self.show_settings,
            view_history: self.view_history@,
            scroll_reset_needed: self.scroll_reset_needed,
            officer_search_results: self.officer_search_results@,
            selected_officer_name: self.selected_officer_name,
            selected_officer_appointments: self.selected_officer_appointments,
            settings: (self.settings_ai_provider@, self.settings_ai_key@, self.settings_ai_model@,
                self.settings_ai_base_url@, self.settings_kanon2_key@),
            selected_company: self.selected_company,
            ai_chat_input: self.ai_chat_input@,
            years: (self.analysis_year_from, self.analysis_year_to),
            is_loading: self.is_loading,
            save_dialog: (self.show_save_dialog, self.save_project_name@, self.save_status_message),
            viewing_filing_id: self.viewing_filing_id,
        }
    }

    pub open spec fn data(&self) -> DataView {
        DataView {
            profiles: self.company_profiles@,
            officers: vec_views(self.company_officers@),
            pscs: vec_views(self.company_pscs@),
            charges: vec_views(self.company_charges@),
            insolvency: self.company_insolvency@,
            filings: vec_views(self.company_filings@),
            texts: string_views(self.extracted_texts@),
            analyses: string_views(self.ai_analyses@),
            groups: self.group_info@,
            conversations: conversation_views(self.ai_conversations@),
            summaries: string_views(self.filing_summaries@),
            tokens: (self.session_input_tokens, self.session_output_tokens, self.last_query_input_tokens,
                self.last_query_output_tokens),
        }
    }
}


// ───────────────────────────── applying messages ─────────────────────────────

/// The network took in a company profile, as `CorporateNetwork::add_company` does.
pub open spec fn network_took_profile(n0: CorporateNetwork, n1: CorporateNetwork, num: Seq<char>, p: CompanyProfile) -> bool {
    &&& n1.wf()
    &&& exists|idx: int| #![trigger n1.nodes()[idx]]
        0 <= idx < n1.nodes().len() && describes(n1.nodes()[idx], num, p)
            && (has_number(n0.nodes(), num) ==> n1.nodes().len() == n0.nodes().len())
            && (!has_number(n0.nodes(), num) ==> n1.nodes().len() == n0.nodes().len() + 1 && idx == n0.nodes().len())
            && (forall|j: int| 0 <= j < n0.nodes().len() && j != idx ==> #[trigger] n1.nodes()[j] == n0.nodes()[j])
    &&& n1.edges() == n0.edges()
}

/// The network took in a company's PSCs, as `CorporateNetwork::process_pscs` does.
pub open spec fn network_took_pscs(n0: CorporateNetwork, n1: CorporateNetwork, num: Seq<char>, pscs: Seq<Psc>) -> bool {
    &&& n1.wf()
    &&& n1.nodes().len() <= n0.nodes().len() + 1 + owners(pscs).len()
    &&& forall|j: int| 0 <= j < n0.nodes().len() ==> #[trigger] n1.nodes()[j] == n0.nodes()[j]
    &&& has_number(n1.nodes(), num)
    &&& forall|j: int| n0.nodes().len() <= j < n1.nodes().len() ==> #[trigger] pscs_placeholder(
        n0.nodes(),
        n1.nodes()[j],
        num,
        pscs,
    )
    &&& n1.edges().len() == n0.edges().len() + owners(pscs).len()
    &&& forall|e: int| 0 <= e < n0.edges().len() ==> #[trigger] n1.edges()[e] == n0.edges()[e]
    &&& forall|k: int| 0 <= k < owners(pscs).len() ==> #[trigger] ownership_edge(
        n1.nodes(),
        n1.edges()[n0.edges().len() + k],
        num,
        owners(pscs)[k],
    )
}

pub open spec fn network_unchanged(n0: CorporateNetwork, n1: CorporateNetwork) -> bool {
    n1.wf() && n1.nodes() == n0.nodes() && n1.edges() == n0.edges()
}

/// A conversation with one more message.
pub open spec fn appended(c: Map<Seq<char>, Seq<(Seq<char>, Seq<char>)>>, key: Seq<char>, role: Seq<char>, msg: Seq<char>) -> Map<Seq<char>, Seq<(Seq<char>, Seq<char>)>> {
    c.insert(key, (if c.contains_key(key) { c[key] } else { Seq::empty() }).push((role, msg)))
}

/// The group information of a company after subsidiaries of `parent` were
/// discovered: the parent itself, and every company whose parent it is, get
/// the subsidiaries and the consolidated-accounts flag.
pub open spec fn regrouped(key: Seq<char>, g0: GroupInfo, g1: GroupInfo, parent: Seq<char>, subs: Seq<SubsidiaryInfo>, flag: bool) -> bool {
    if key == parent || (g0.parent matches Some(p) && p.company_number@ == parent) {
        g1.role == g0.role && g1.parent == g0.parent && g1.subsidiaries@ == subs && g1.has_consolidated_accounts == flag
    } else {
        g1 == g0
    }
}

/// There is room for the message: the network's index stays within `u32`,
/// and the token counters do not overflow.
pub open spec fn has_room(s: Session, m: BackgroundMessage) -> bool {
    match m {
        BackgroundMessage::CompanyProfileLoaded { .. } => s.network.nodes().len() + 1 < u32::MAX,
        BackgroundMessage::PscsLoaded { pscs, .. } => s.network.nodes().len() + pscs@.len() + 2 < u32::MAX
            && s.network.edges().len() + pscs@.len() < u32::MAX,
        BackgroundMessage::AiAnalysisComplete { input_tokens, output_tokens, .. } =>
            s.session_input_tokens + input_tokens <= u32::MAX && s.session_output_tokens + output_tokens <= u32::MAX,
        BackgroundMessage::AiChatResponse { input_tokens, output_tokens, .. } =>
            s.session_input_tokens + input_tokens <= u32::MAX && s.session_output_tokens + output_tokens <= u32::MAX,
        _ => true,
    }
}

/// How the session changes on a message, and what the caller is asked to do.
pub open spec fn applied(s0: Session, s1: Session, m: BackgroundMessage, f: Followup) -> bool {
    let u = s0.ui();
    let d = s0.data();
    let u1 = s1.ui();
    let d1 = s1.data();
    &&& s1.config == s0.config
    &&& match m {
        BackgroundMessage::CompanyProfileLoaded { company_number: cn, profile } => {
            &&& d1 == DataView { profiles: d.profiles.insert(cn@, profile), ..d }
            &&& u1 == UiView { selected_company: Some(cn), is_loading: false, ..u }
            &&& network_took_profile(s0.network, s1.network, cn@, profile)
        },
        BackgroundMessage::SearchResults(r) => {
            &&& d1 == d && network_unchanged(s0.network, s1.network)
            &&& u1 == UiView { search_results: r@, is_loading: false, ..u }
        },
        BackgroundMessage::OfficerSearchResults(r) => {
            &&& d1 == d && network_unchanged(s0.network, s1.network)
            &&& u1 == UiView { officer_search_results: r@, is_loading: false, ..u }
        },
        BackgroundMessage::OfficerAppointmentsLoaded { officer_name, response } => {
            &&& d1 == d && network_unchanged(s0.network, s1.network)
            &&& u1 == UiView {
                selected_officer_name: Some(officer_name),
                selected_officer_appointments: Some(response),
                is_loading: false,
                ..u
            }
        },
        BackgroundMessage::OfficersLoaded { company_number: cn, officers } => {
            &&& d1 == DataView { officers: d.officers.insert(cn@, officers@), ..d }
            &&& u1 == u && network_unchanged(s0.network, s1.network)
        },
        BackgroundMessage::PscsLoaded { company_number: cn, pscs } => {
            &&& d1 == DataView { pscs: d.pscs.insert(cn@, pscs@), groups: d1.groups, ..d }
            &&& if d.profiles.contains_key(cn@) {
                d1.groups.contains_key(cn@) && group_detected(d1.groups[cn@], pscs@)
                    && d1.groups == d.groups.insert(cn@, d1.groups[cn@])
            } else {
                d1.groups == d.groups
            }
            &&& u1 == u
            &&& network_took_pscs(s0.network, s1.network, cn@, pscs@)
        },
        BackgroundMessage::ChargesLoaded { company_number: cn, charges } => {
            &&& d1 == DataView { charges: d.charges.insert(cn@, charges@), ..d }
            &&& u1 == u && network_unchanged(s0.network, s1.network)
        },
        BackgroundMessage::InsolvencyLoaded { company_number: cn, insolvency } => {
            &&& d1 == DataView { insolvency: d.insolvency.insert(cn@, insolvency), ..d }
            &&& u1 == u && network_unchanged(s0.network, s1.network)
        },
        BackgroundMessage::FilingsLoaded { company_number: cn, filings } => {
            &&& d1 == DataView { filings: d.filings.insert(cn@, filings@), ..d }
            &&& u1 == u && network_unchanged(s0.network, s1.network)
        },
        BackgroundMessage::DocumentTextExtracted { company_number: cn, filing_id: fid, text: t } => {
            &&& d1 == DataView { texts: d.texts.insert(fid@, t@), ..d }
            &&& u1 == u && network_unchanged(s0.network, s1.network)
            &&& f matches Followup::CacheText { company_number: c2, filing_id: f2, text: t2 }
                && c2@ == cn@ && f2@ == fid@ && t2@ == t@
        },
        BackgroundMessage::AiAnalysisComplete { company_number: cn, analysis, input_tokens, output_tokens, model } => {
            &&& d1 == DataView {
                analyses: d.analyses.insert(cn@, analysis@),
                conversations: appended(d.conversations, cn@, "assistant"@, analysis@),
                tokens: ((d.tokens.0 + input_tokens) as u32, (d.tokens.1 + output_tokens) as u32, input_tokens, output_tokens),
                ..d
            }
            &&& u1 == UiView { is_loading: false, ..u }
            &&& network_unchanged(s0.network, s1.network)
            &&& f matches Followup::RecordUsage { input_tokens: i2, output_tokens: o2, model: m2, kind }
                && i2 == input_tokens && o2 == output_tokens && m2@ == model@ && kind == UsageKind::Analysis
        },
        BackgroundMessage::AiChatResponse { company_number: cn, response, input_tokens, output_tokens, model } => {
            &&& d1 == DataView {
                conversations: appended(d.conversations, cn@, "assistant"@, response@),
                tokens: ((d.tokens.0 + input_tokens) as u32, (d.tokens.1 + output_tokens) as u32, input_tokens, output_tokens),
                ..d
            }
            &&& u1 == UiView { is_loading: false, ..u }
            &&& network_unchanged(s0.network, s1.network)
            &&& f matches Followup::RecordUsage { input_tokens: i2, output_tokens: o2, model: m2, kind }
                && i2 == input_tokens && o2 == output_tokens && m2@ == model@ && kind == UsageKind::Chat
        },
        BackgroundMessage::AiFilingSummary { filing_id: fid, summary } => {
            &&& d1 == DataView { summaries: d.summaries.insert(fid@, summary@), ..d }
            &&& u1 == UiView { is_loading: false, ..u }
            &&& network_unchanged(s0.network, s1.network)
        },
        BackgroundMessage::GroupSubsidiariesDiscovered { parent_number, subsidiaries, has_consolidated } => {
            &&& d1 == DataView { groups: d1.groups, ..d }
            &&& d1.groups.dom() == d.groups.dom()
            &&& forall|k: Seq<char>| #[trigger] d.groups.contains_key(k) ==> regrouped(k, d.groups[k], d1.groups[k],
                parent_number@, subsidiaries@, has_consolidated)
            &&& u1 == UiView { is_loading: false, ..u }
            &&& network_unchanged(s0.network, s1.network)
        },
        BackgroundMessage::NetworkTraversalUpdate { message } => {
            &&& d1 == d && network_unchanged(s0.network, s1.network)
            &&& u1 == UiView { status_message: message@, ..u }
        },
        BackgroundMessage::Error(e) => {
            &&& d1 == d && network_unchanged(s0.network, s1.network)
            &&& u1 == UiView { status_message: "⚠ Error: "@ + e@, is_loading: false, ..u }
        },
        BackgroundMessage::StatusUpdate(msg) => {
            &&& d1 == d && network_unchanged(s0.network, s1.network)
            &&& u1 == UiView { status_message: msg@, ..u }
        },
    }
    &&& match m {
        BackgroundMessage::DocumentTextExtracted { .. } => true,
        BackgroundMessage::AiAnalysisComplete { .. } => true,
        BackgroundMessage::AiChatResponse { .. } => true,
        _ => f is Nothing,
    }
}

/// A document's extracted text is kept under its filing id, and handed back
/// for the document cache.
pub proof fn extracted_text_is_kept(s0: Session, s1: Session, cn: String, fid: String, t: String, f: Followup)
    requires
        applied(s0, s1, BackgroundMessage::DocumentTextExtracted { company_number: cn, filing_id: fid, text: t }, f),
    ensures
        s1.data().texts.contains_key(fid@),
        s1.data().texts[fid@] == t@,
        f matches Followup::CacheText { filing_id: f2, text: t2, .. } && f2@ == fid@ && t2@ == t@,
{
}

/// A finished analysis is kept for the company, closes its conversation as
/// the assistant's answer, and ends the wait.
pub proof fn analysis_is_kept(s0: Session, s1: Session, cn: String, a: String, i: u32, o: u32, m: String, f: Followup)
    requires
        applied(s0, s1, BackgroundMessage::AiAnalysisComplete {
            company_number: cn,
            analysis: a,
            input_tokens: i,
            output_tokens: o,
            model: m,
        }, f),
    ensures
        s1.data().analyses[cn@] == a@,
        s1.data().conversations.contains_key(cn@),
        s1.data().conversations[cn@].last() == ("assistant"@, a@),
        !s1.is_loading,
{
    assert(s1.is_loading == s1.ui().is_loading);
}

/// A loaded profile is kept, its company becomes the selected one, and the
/// network's node for that company (the one `get_node` finds) describes it.
pub proof fn loaded_profile_is_selected(s0: Session, s1: Session, cn: String, p: CompanyProfile, f: Followup)
    requires
        applied(s0, s1, BackgroundMessage::CompanyProfileLoaded { company_number: cn, profile: p }, f),
    ensures
        s1.data().profiles[cn@] == p,
        s1.selected_company == Some(cn),
        !s1.is_loading,
        has_number(s1.network.nodes(), cn@),
        forall|j: int|
            0 <= j < s1.network.nodes().len() && numbered(#[trigger] s1.network.nodes()[j], cn@) ==> describes(
                s1.network.nodes()[j],
                cn@,
                p,
            ),
{
    assert(s1.selected_company == s1.ui().selected_company);
    assert(s1.is_loading == s1.ui().is_loading);
    let ns = s1.network.nodes();
    let idx = choose|idx: int| #![trigger ns[idx]]
        0 <= idx < ns.len() && describes(ns[idx], cn@, p)
            && (has_number(s0.network.nodes(), cn@) ==> ns.len() == s0.network.nodes().len())
            && (!has_number(s0.network.nodes(), cn@) ==> ns.len() == s0.network.nodes().len() + 1 && idx
                == s0.network.nodes().len())
            && (forall|j: int| 0 <= j < s0.network.nodes().len() && j != idx ==> #[trigger] ns[j]
                == s0.network.nodes()[j]);
    assert(numbered(ns[idx], cn@));
    assert forall|j: int| 0 <= j < ns.len() && numbered(#[trigger] ns[j], cn@) implies describes(ns[j], cn@, p) by {
        if j != idx {
            s1.network.lemma_numbers_distinct(j, idx);
        }
    }
}

/// A copy of a group's parent.
fn copy_parent(p: &Option<ParentInfo>) -> (r: Option<ParentInfo>)
    ensures
        r == *p,
{
    match p {
        Some(pi) => Some(ParentInfo { company_number: pi.company_number.clone(), name: pi.name.clone() }),
        None => None,
    }
}

/// A copy of a group role.
fn copy_role(r: &GroupRole) -> (c: GroupRole)
    ensures
        c == *r,
{
    match r {
        GroupRole::Parent => GroupRole::Parent,
        GroupRole::Subsidiary => GroupRole::Subsidiary,
        GroupRole::Unknown => GroupRole::Unknown,
    }
}

/// A copy of a list of subsidiaries.
fn copy_subsidiaries(v: &Vec<SubsidiaryInfo>) -> (r: Vec<SubsidiaryInfo>)
    ensures
        r@ == v@,
{
    let mut r: Vec<SubsidiaryInfo> = Vec::new();
    let mut i: usize = 0;
    while i < v.len()
        invariant
            i <= v.len(),
            r@ == v@.take(i as int),
        decreases v.len() - i,
    {
        let s = &v[i];
        r.push(SubsidiaryInfo {
            company_number: s.company_number.clone(),
            company_name: s.company_name.clone(),
            status: s.status.clone(),
        });
        i = i + 1;
        assert(r@ =~= v@.take(i as int));
    }
    assert(v@.take(v.len() as int) =~= v@);
    r
}

/// Whether the group information of the company `key` is to be updated for `parent`.
fn in_group_of(key: &String, g: &GroupInfo, parent: &String) -> (b: bool)
    ensures
        b == (key@ == parent@ || (g.parent matches Some(p) && p.company_number@ == parent@)),
{
    if text::str_eq(key.as_str(), parent.as_str()) {
        return true;
    }
    match &g.parent {
        Some(p) => text::str_eq(p.company_number.as_str(), parent.as_str()),
        None => false,
    }
}


impl Session {
    /// Append a message to a company's conversation.
    fn push_conversation(&mut self, key: &String, role: &str, content: String)
        ensures
            conversation_views(final(self).ai_conversations@)
                == appended(conversation_views(old(self).ai_conversations@), key@, role@, content@),
            final(self).ui() == old(self).ui(),
            final(self).config == old(self).config,
            final(self).network == old(self).network,
            final(self).company_profiles@ == old(self).company_profiles@,
            final(self).company_officers@ == old(self).company_officers@,
            final(self).company_pscs@ == old(self).company_pscs@,
            final(self).company_charges@ == old(self).company_charges@,
            final(self).company_insolvency@ == old(self).company_insolvency@,
            final(self).company_filings@ == old(self).company_filings@,
            final(self).extracted_texts@ == old(self).extracted_texts@,
            final(self).ai_analyses@ == old(self).ai_analyses@,
            final(self).group_info@ == old(self).group_info@,
            final(self).filing_summaries@ == old(self).filing_summaries@,
            final(self).data().tokens == old(self).data().tokens,
    {
        let ghost c0 = self.ai_conversations@;
        match self.ai_conversations.position(key.as_str()) {
            Some(i) => {
                let mut conv = self.ai_conversations.replace_value_at(i, Vec::new());
                let ghost before = conv.deep_view();
                assert(before == c0[key@].deep_view());
                conv.push((text::owned(role), content));
                assert(conv.deep_view() =~= before.push((role@, content@)));
                self.ai_conversations.set_value_at(i, conv);
                assert(self.ai_conversations@ =~= c0.insert(key@, conv));
                assert(conversation_views(self.ai_conversations@)
                    =~= appended(conversation_views(c0), key@, role@, content@));
            },
            None => {
                let mut conv: Vec<(String, String)> = Vec::new();
                conv.push((text::owned(role), content));
                assert(conv.deep_view() =~= Seq::<(Seq<char>, Seq<char>)>::empty().push((role@, content@)));
                self.ai_conversations.insert(key.clone(), conv);
                assert(conversation_views(self.ai_conversations@)
                    =~= appended(conversation_views(c0), key@, role@, content@));
            },
        }
    }

    /// Give the parent and its group members the discovered subsidiaries.
    fn regroup(&mut self, parent: &String, subs: &Vec<SubsidiaryInfo>, flag: bool)
        ensures
            final(self).group_info@.dom() == old(self).group_info@.dom(),
            forall|k: Seq<char>| #[trigger] old(self).group_info@.contains_key(k) ==> regrouped(k,
                old(self).group_info@[k], final(self).group_info@[k], parent@, subs@, flag),
            final(self).ui() == old(self).ui(),
            final(self).config == old(self).config,
            final(self).network == old(self).network,
            final(self).company_profiles@ == old(self).company_profiles@,
            final(self).company_officers@ == old(self).company_officers@,
            final(self).company_pscs@ == old(self).company_pscs@,
            final(self).company_charges@ == old(self).company_charges@,
            final(self).company_insolvency@ == old(self).company_insolvency@,
            final(self).company_filings@ == old(self).company_filings@,
            final(self).extracted_texts@ == old(self).extracted_texts@,
            final(self).ai_analyses@ == old(self).ai_analyses@,
            final(self).ai_conversations@ == old(self).ai_conversations@,
            final(self).filing_summaries@ == old(self).filing_summaries@,
            final(self).data().tokens == old(self).data().tokens,
    {
        let n = self.group_info.len();
        let p0_ref = self.group_info.entries();
        let ghost p0 = p0_ref@;
        let mut i: usize = 0;
        while i < n
            invariant
                i <= n == p0.len(),
                self.group_info.pairs().len() == n,
                self.ui() == old(self).ui(),
                self.config == old(self).config,
                self.network == old(self).network,
                self.company_profiles@ == old(self).company_profiles@,
                self.company_officers@ == old(self).company_officers@,
                self.company_pscs@ == old(self).company_pscs@,
                self.company_charges@ == old(self).company_charges@,
                self.company_insolvency@ == old(self).company_insolvency@,
                self.company_filings@ == old(self).company_filings@,
                self.extracted_texts@ == old(self).extracted_texts@,
                self.ai_analyses@ == old(self).ai_analyses@,
                self.ai_conversations@ == old(self).ai_conversations@,
                self.filing_summaries@ == old(self).filing_summaries@,
                self.data().tokens == old(self).data().tokens,
                p0 == old(self).group_info.pairs(),
                forall|j: int| 0 <= j < n ==> (#[trigger] self.group_info.pairs()[j]).0 == p0[j].0,
                forall|j: int| 0 <= j < i ==> regrouped(p0[j].0@, p0[j].1, (#[trigger] self.group_info.pairs()[j]).1,
                    parent@, subs@, flag),
                forall|j: int| i <= j < n ==> (#[trigger] self.group_info.pairs()[j]).1 == p0[j].1,
            decreases n - i,
        {
            let entries = self.group_info.entries();
            let update = in_group_of(&entries[i].0, &entries[i].1, parent);
            if update {
                let g = &entries[i].1;
                let ng = GroupInfo {
                    role: copy_role(&g.role),
                    parent: copy_parent(&g.parent),
                    subsidiaries: copy_subsidiaries(subs),
                    has_consolidated_accounts: flag,
                };
                self.group_info.set_value_at(i, ng);
            }
            i = i + 1;
        }
        let p1_ref = self.group_info.entries();
        let ghost p1 = p1_ref@;
        proof {
            crate::keyed::lemma_entries(p0);
            crate::keyed::lemma_entries(p1);
            assert forall|k: Seq<char>| #[trigger] old(self).group_info@.contains_key(k) implies
                self.group_info@.contains_key(k) && regrouped(k, old(self).group_info@[k], self.group_info@[k],
                    parent@, subs@, flag) by {
                let j = choose|j: int| 0 <= j < p0.len() && #[trigger] p0[j].0@ == k;
                assert(p1[j].0@ == k);
            }
            assert forall|k: Seq<char>| #[trigger] self.group_info@.contains_key(k) implies
                old(self).group_info@.contains_key(k) by {
                let j = choose|j: int| 0 <= j < p1.len() && #[trigger] p1[j].0@ == k;
                assert(p0[j].0@ == k);
            }
            assert(self.group_info@.dom() =~= old(self).group_info@.dom());
        }
    }

    /// Apply what background work reported; returns what the caller still has to do.
    pub fn apply(&mut self, msg: BackgroundMessage) -> (f: Followup)
        requires
            old(self).network.wf(),
            has_room(*old(self), msg),
        ensures
            applied(*old(self), *final(self), msg, f),
    {
        let ghost d0 = self.data();
        match msg {
            BackgroundMessage::CompanyProfileLoaded { company_number, profile } => {
                self.network.add_company(company_number.as_str(), &profile);
                self.company_profiles.insert(company_number.clone(), profile);
                self.selected_company = Some(company_number);
                self.is_loading = false;
                Followup::Nothing
            },
            BackgroundMessage::SearchResults(results) => {
                self.search_results = results;
                self.is_loading = false;
                Followup::Nothing
            },
            BackgroundMessage::OfficerSearchResults(results) => {
                self.officer_search_results = results;
                self.is_loading = false;
                Followup::Nothing
            },
            BackgroundMessage::OfficerAppointmentsLoaded { officer_name, response } => {
                self.selected_officer_name = Some(officer_name);
                self.selected_officer_appointments = Some(response);
                self.is_loading = false;
                Followup::Nothing
            },
            BackgroundMessage::OfficersLoaded { company_number, officers } => {
                let ghost ov = officers@;
                self.company_officers.insert(company_number, officers);
                assert(vec_views(self.company_officers@) =~= d0.officers.insert(company_number@, ov));
                Followup::Nothing
            },
            BackgroundMessage::PscsLoaded { company_number, pscs } => {
                self.network.process_pscs(company_number.as_str(), &pscs);
                let detected = match self.company_profiles.get(company_number.as_str()) {
                    Some(profile) => Some(detect_group_role(pscs.as_slice(), profile)),
                    None => None,
                };
                match detected {
                    Some(g) => {
                        self.group_info.insert(company_number.clone(), g);
                    },
                    None => {},
                }
                let ghost pv = pscs@;
                self.company_pscs.insert(company_number, pscs);
                assert(vec_views(self.company_pscs@) =~= d0.pscs.insert(company_number@, pv));
                Followup::Nothing
            },
            BackgroundMessage::ChargesLoaded { company_number, charges } => {
                let ghost cv = charges@;
                self.company_charges.insert(company_number, charges);
                assert(vec_views(self.company_charges@) =~= d0.charges.insert(company_number@, cv));
                Followup::Nothing
            },
            BackgroundMessage::InsolvencyLoaded { company_number, insolvency } => {
                self.company_insolvency.insert(company_number, insolvency);
                Followup::Nothing
            },
            BackgroundMessage::FilingsLoaded { company_number, filings } => {
                let ghost fv = filings@;
                self.company_filings.insert(company_number, filings);
                assert(vec_views(self.company_filings@) =~= d0.filings.insert(company_number@, fv));
                Followup::Nothing
            },
            BackgroundMessage::DocumentTextExtracted { company_number, filing_id, text } => {
                let cached = text.clone();
                let key = filing_id.clone();
                let ghost tv = text@;
                self.extracted_texts.insert(key, text);
                assert(string_views(self.extracted_texts@) =~= d0.texts.insert(filing_id@, tv));
                Followup::CacheText { company_number, filing_id, text: cached }
            },
            BackgroundMessage::AiAnalysisComplete { company_number, analysis, input_tokens, output_tokens, model } => {
                self.last_query_input_tokens = input_tokens;
                self.last_query_output_tokens = output_tokens;
                self.session_input_tokens = self.session_input_tokens + input_tokens;
                self.session_output_tokens = self.session_output_tokens + output_tokens;
                let ghost av = analysis@;
                self.ai_analyses.insert(company_number.clone(), analysis.clone());
                assert(string_views(self.ai_analyses@) =~= d0.analyses.insert(company_number@, av));
                self.push_conversation(&company_number, "assistant", analysis);
                self.is_loading = false;
                Followup::RecordUsage { input_tokens, output_tokens, model, kind: UsageKind::Analysis }
            },
            BackgroundMessage::AiChatResponse { company_number, response, input_tokens, output_tokens, model } => {
                self.last_query_input_tokens = input_tokens;
                self.last_query_output_tokens = output_tokens;
                self.session_input_tokens = self.session_input_tokens + input_tokens;
                self.session_output_tokens = self.session_output_tokens + output_tokens;
                self.push_conversation(&company_number, "assistant", response);
                self.is_loading = false;
                Followup::RecordUsage { input_tokens, output_tokens, model, kind: UsageKind::Chat }
            },
            BackgroundMessage::AiFilingSummary { filing_id, summary } => {
                let ghost sv = summary@;
                self.filing_summaries.insert(filing_id, summary);
                assert(string_views(self.filing_summaries@) =~= d0.summaries.insert(filing_id@, sv));
                self.is_loading = false;
                Followup::Nothing
            },
            BackgroundMessage::GroupSubsidiariesDiscovered { parent_number, subsidiaries, has_consolidated } => {
                self.regroup(&parent_number, &subsidiaries, has_consolidated);
                self.is_loading = false;
                Followup::Nothing
            },
            BackgroundMessage::NetworkTraversalUpdate { message } => {
                self.status_message = message;
                Followup::Nothing
            },
            BackgroundMessage::Error(e) => {
                let mut m = text::owned("⚠ Error: ");
                text::push_str(&mut m, e.as_str());
                self.status_message = m;
                self.is_loading = false;
                Followup::Nothing
            },
            BackgroundMessage::StatusUpdate(m) => {
                self.status_message = m;
                Followup::Nothing
            },
        }
    }
}


// ───────────────────────────── starting work ─────────────────────────────

/// The interface after going to `view`: the current view and company are
/// remembered, and the new view starts scrolled to the top.
pub open spec fn forward(u: UiView, view: View) -> UiView {
    UiView {
        view_history: u.view_history.push((u.active_view, u.selected_company)),
        active_view: view,
        scroll_reset_needed: true,
        ..u
    }
}

/// The interface after going back: the view and company remembered last
/// are restored (nothing changes when none is remembered).
pub open spec fn back(u: UiView) -> UiView {
    if u.view_history.len() == 0 {
        u
    } else {
        UiView {
            view_history: u.view_history.drop_last(),
            active_view: u.view_history.last().0,
            selected_company: u.view_history.last().1,
            ..u
        }
    }
}

/// Going back right after going to a view returns to the view and company
/// where one was, with the same history (only the scroll request remains).
pub proof fn back_undoes_forward(u: UiView, view: View)
    ensures
        back(forward(u, view)) == (UiView { scroll_reset_needed: true, ..u }),
{
    assert(u.view_history.push((u.active_view, u.selected_company)).drop_last() =~= u.view_history);
}

/// The value stored under `k`, if any.
pub open spec fn get_opt<V>(m: Map<Seq<char>, V>, k: Seq<char>) -> Option<V> {
    if m.contains_key(k) { Some(m[k]) } else { None }
}

/// The AI context of a company from the data the session holds.
pub open spec fn context_of(s: Session, cn: Seq<char>) -> Seq<char> {
    prompts::company_context(
        cn,
        get_opt(s.company_profiles@, cn),
        get_opt(vec_views(s.company_officers@), cn),
        get_opt(vec_views(s.company_pscs@), cn),
        get_opt(vec_views(s.company_charges@), cn),
        get_opt(s.company_insolvency@, cn),
        get_opt(vec_views(s.company_filings@), cn),
        s.extracted_texts.pairs(),
    )
}

/// Every document quoted in a company's context can be cut at the quoting limit.
pub open spec fn context_quotable(s: Session, cn: Seq<char>) -> bool {
    prompts::docs_cuttable(prompts::selected_docs(get_opt(vec_views(s.company_filings@), cn), s.extracted_texts.pairs()))
}

/// `Run full company analysis (year)` or `(from-to)`.
pub open spec fn analysis_label(from: i32, to: i32) -> Seq<char> {
    if from == to {
        "Run full company analysis ("@ + text::dec_int(from as int) + ")"@
    } else {
        "Run full company analysis ("@ + text::dec_int(from as int) + "-"@ + text::dec_int(to as int) + ")"@
    }
}

/// The company whose group is analysed for `cn`: its parent when one is known.
pub open spec fn group_parent(s: Session, cn: Seq<char>) -> Seq<char> {
    if s.group_info@.contains_key(cn) && s.group_info@[cn].parent is Some {
        s.group_info@[cn].parent->0.company_number@
    } else {
        cn
    }
}

/// The active subsidiaries recorded for `cn`.
pub open spec fn active_subsidiaries(s: Session, cn: Seq<char>) -> Seq<SubsidiaryInfo> {
    if s.group_info@.contains_key(cn) {
        s.group_info@[cn].subsidiaries@.filter(|x: SubsidiaryInfo| x.status@ == "active"@)
    } else {
        Seq::empty()
    }
}

/// The `(name, context)` pairs of a company's active subsidiaries.
pub open spec fn subsidiary_contexts(s: Session, subs: Seq<SubsidiaryInfo>) -> Seq<(Seq<char>, Seq<char>)> {
    subs.map_values(|x: SubsidiaryInfo| (x.company_name@, context_of(s, x.company_number@)))
}

/// A group analysis for `cn` can be prepared: every context involved can be
/// quoted, and every subsidiary context longer than its quoting limit can be
/// cut there.
pub open spec fn group_ready(s: Session, cn: Seq<char>) -> bool {
    let subs = active_subsidiaries(s, cn);
    &&& context_quotable(s, group_parent(s, cn))
    &&& forall|i: int| 0 <= i < subs.len() ==> #[trigger] context_quotable(s, subs[i].company_number@)
    &&& forall|i: int| 0 <= i < subs.len()
        && text::utf8_len(#[trigger] context_of(s, subs[i].company_number@)) > prompts::subsidiary_limit()
        ==> text::is_byte_boundary(context_of(s, subs[i].company_number@), prompts::subsidiary_limit())
}

/// The system prompt used to summarise a single filing.
pub const FILING_SUMMARY_SYSTEM_PROMPT: &'static str =
    "You are a financial analyst reviewing Companies House filing documents. Be concise and factual.";

/// The prompt that asks for a summary of one filing.
pub open spec fn filing_summary_prompt_spec(desc: Seq<char>, doc: Seq<char>) -> Seq<char> {
    "Summarise this Companies House filing document concisely.\nFiling: "@ + desc
        + "\n\nFocus on:\n- Key financial figures (revenue, profit/loss, net assets, debt)\n- Auditor opinion and any going concern notes\n- Material changes from prior periods\n- Any red flags or notable items\n\nKeep the summary to 3-5 bullet points maximum.\n\nDocument text:\n"@
        + doc
}

/// The prompt that asks for a summary of one filing.
pub fn filing_summary_prompt(desc: &str, doc: &str) -> (p: String)
    ensures
        p@ == filing_summary_prompt_spec(desc@, doc@),
{
    let mut p = text::owned("Summarise this Companies House filing document concisely.\nFiling: ");
    text::push_str(&mut p, desc);
    text::push_str(&mut p, "\n\nFocus on:\n- Key financial figures (revenue, profit/loss, net assets, debt)\n- Auditor opinion and any going concern notes\n- Material changes from prior periods\n- Any red flags or notable items\n\nKeep the summary to 3-5 bullet points maximum.\n\nDocument text:\n");
    text::push_str(&mut p, doc);
    p
}

impl Session {
    /// A new session with the given configuration, settings model and the
    /// document texts already in the cache (later entries for a filing win).
    pub fn new(config: AppConfig, settings_ai_model: String, cached_texts: Vec<(String, String)>) -> (s: Self)
        ensures
            s.config == config,
            s.network.wf() && s.network.nodes().len() == 0 && s.network.edges().len() == 0,
            s.ui() == (UiView {
                search_query: Seq::empty(),
                search_mode: SearchMode::Company,
                search_results: Seq::empty(),
                active_view: View::Welcome,
                sidebar_collapsed: false,
                status_message: "Ready. Enter a company name or number to begin."@,
                show_settings: false,
                view_history: Seq::empty(),
                scroll_reset_needed: false,
                officer_search_results: Seq::empty(),
                selected_officer_name: None,
                selected_officer_appointments: None,
                settings: ("anthropic"@, Seq::empty(), settings_ai_model@, Seq::empty(), Seq::empty()),
                selected_company: None,
                ai_chat_input: Seq::empty(),
                years: (2020i32, 2026i32),
                is_loading: false,
                save_dialog: (false, Seq::empty(), None),
                viewing_filing_id: None,
            }),
            s.data() == (DataView {
                profiles: Map::empty(),
                officers: Map::empty(),
                pscs: Map::empty(),
                charges: Map::empty(),
                insolvency: Map::empty(),
                filings: Map::empty(),
                texts: string_views(crate::keyed::map_of(cached_texts@)),
                analyses: Map::empty(),
                groups: Map::empty(),
                conversations: Map::empty(),
                summaries: Map::empty(),
                tokens: (0u32, 0u32, 0u32, 0u32),
            }),
    {
        let mut texts: Keyed<String> = Keyed::new();
        let mut i: usize = 0;
        while i < cached_texts.len()
            invariant
                i <= cached_texts.len(),
                texts@ == crate::keyed::map_of(cached_texts@.take(i as int)),
            decreases cached_texts.len() - i,
        {
            proof {
                assert(cached_texts@.take(i + 1).drop_last() =~= cached_texts@.take(i as int));
            }
            texts.insert(cached_texts[i].0.clone(), cached_texts[i].1.clone());
            i = i + 1;
        }
        assert(cached_texts@.take(cached_texts.len() as int) =~= cached_texts@);
        let s = Session {
            config,
            search_query: String::new(),
            search_mode: SearchMode::Company,
            search_results: Vec::new(),
            active_view: View::Welcome,
            sidebar_collapsed: false,
            status_message: text::owned("Ready. Enter a company name or number to begin."),
            show_settings: false,
            view_history: Vec::new(),
            scroll_reset_needed: false,
            officer_search_results: Vec::new(),
            selected_officer_name: None,
            selected_officer_appointments: None,
            settings_ai_provider: text::owned("anthropic"),
            settings_ai_key: String::new(),
            settings_ai_model,
            settings_ai_base_url: String::new(),
            settings_kanon2_key: String::new(),
            network: CorporateNetwork::new(),
            selected_company: None,
            company_profiles: Keyed::new(),
            company_officers: Keyed::new(),
            company_pscs: Keyed::new(),
            company_charges: Keyed::new(),
            company_insolvency: Keyed::new(),
            company_filings: Keyed::new(),
            extracted_texts: texts,
            ai_analyses: Keyed::new(),
            group_info: Keyed::new(),
            ai_conversations: Keyed::new(),
            ai_chat_input: String::new(),
            filing_summaries: Keyed::new(),
            analysis_year_from: 2020,
            analysis_year_to: 2026,
            session_input_tokens: 0,
            session_output_tokens: 0,
            last_query_input_tokens: 0,
            last_query_output_tokens: 0,
            is_loading: false,
            show_save_dialog: false,
            save_project_name: String::new(),
            save_status_message: None,
            viewing_filing_id: None,
        };
        proof {
            assert(vec_views(s.company_officers@) =~= Map::empty());
            assert(vec_views(s.company_pscs@) =~= Map::empty());
            assert(vec_views(s.company_charges@) =~= Map::empty());
            assert(vec_views(s.company_filings@) =~= Map::empty());
            assert(string_views(s.ai_analyses@) =~= Map::empty());
            assert(string_views(s.filing_summaries@) =~= Map::empty());
            assert(conversation_views(s.ai_conversations@) =~= Map::empty());
        }
        s
    }

    /// Go to `view`, remembering the current view and company for going back.
    pub fn push_view(&mut self, view: View)
        ensures
            final(self).ui() == forward(old(self).ui(), view),
            final(self).data() == old(self).data(),
            final(self).network == old(self).network,
            final(self).config == old(self).config,
    {
        let company = self.selected_company.clone();
        self.view_history.push((self.active_view, company));
        self.active_view = view;
        self.scroll_reset_needed = true;
    }

    /// Go back to the view (and company) left last, if any.
    pub fn pop_view(&mut self)
        ensures
            final(self).ui() == back(old(self).ui()),
            final(self).data() == old(self).data(),
            final(self).network == old(self).network,
            final(self).config == old(self).config,
    {
        match self.view_history.pop() {
            Some((view, company)) => {
                self.active_view = view;
                self.selected_company = company;
            },
            None => {},
        }
    }

    /// Whether every document quoted in a company's context can be cut at the limit.
    pub fn context_quotable(&self, cn: &str) -> (b: bool)
        ensures
            b == context_quotable(*self, cn@),
    {
        let filings = self.company_filings.get(cn);
        let texts = self.extracted_texts.entries();
        let b = prompts::docs_cuttable_exec(filings, texts);
        proof {
            let f = match filings { Some(v) => Some(*v), None => None };
            assert(prompts::opt_vec(filings) == get_opt(vec_views(self.company_filings@), cn@));
        }
        b
    }

    /// The AI context of a company from the data the session holds.
    pub fn company_context(&self, cn: &str) -> (c: String)
        requires
            context_quotable(*self, cn@),
        ensures
            c@ == context_of(*self, cn@),
    {
        let profile = self.company_profiles.get(cn);
        let officers = self.company_officers.get(cn);
        let pscs = self.company_pscs.get(cn);
        let charges = self.company_charges.get(cn);
        let insolvency = self.company_insolvency.get(cn);
        let filings = self.company_filings.get(cn);
        proof {
            assert(prompts::opt_vec(filings) == get_opt(vec_views(self.company_filings@), cn@));
            assert(prompts::opt_vec(officers) == get_opt(vec_views(self.company_officers@), cn@));
            assert(prompts::opt_vec(pscs) == get_opt(vec_views(self.company_pscs@), cn@));
            assert(prompts::opt_vec(charges) == get_opt(vec_views(self.company_charges@), cn@));
        }
        prompts::build_company_context(cn, profile, officers, pscs, charges, insolvency, filings,
            self.extracted_texts.entries())
    }
}


impl Session {
    /// Append a message to a company's conversation (a new company starts one).
    pub fn add_message(&mut self, company_number: &String, role: &str, content: String)
        ensures
            final(self).ui() == old(self).ui(),
            final(self).data() == (DataView {
                conversations: appended(old(self).data().conversations, company_number@, role@, content@),
                ..old(self).data()
            }),
            final(self).network == old(self).network,
            final(self).config == old(self).config,
    {
        self.push_conversation(company_number, role, content);
    }

    /// Prepare an AI analysis of a company: records the request in its
    /// conversation, marks the session busy, and returns the prompt to send
    /// (with `SYSTEM_PROMPT`).
    pub fn start_analysis(&mut self, company_number: String) -> (prompt: String)
        requires
            context_quotable(*old(self), company_number@),
        ensures
            prompt@ == prompts::analysis_prompt(context_of(*old(self), company_number@),
                old(self).analysis_year_from as int, old(self).analysis_year_to as int),
            final(self).data() == (DataView {
                conversations: appended(old(self).data().conversations, company_number@, "user"@,
                    analysis_label(old(self).analysis_year_from, old(self).analysis_year_to)),
                ..old(self).data()
            }),
            final(self).ui() == (UiView {
                is_loading: true,
                status_message: "Running AI analysis for "@ + company_number@ + "..."@,
                ..old(self).ui()
            }),
            final(self).network == old(self).network,
            final(self).config == old(self).config,
    {
        let context = self.company_context(company_number.as_str());
        let prompt = prompts::build_analysis_prompt(context.as_str(), self.analysis_year_from, self.analysis_year_to);
        let mut label = text::owned("Run full company analysis (");
        text::push_dec_i32(&mut label, self.analysis_year_from);
        if self.analysis_year_from != self.analysis_year_to {
            text::push_str(&mut label, "-");
            text::push_dec_i32(&mut label, self.analysis_year_to);
        }
        text::push_str(&mut label, ")");
        self.push_conversation(&company_number, "user", label);
        self.is_loading = true;
        let mut status = text::owned("Running AI analysis for ");
        text::push_str(&mut status, company_number.as_str());
        text::push_str(&mut status, "...");
        self.status_message = status;
        prompt
    }

    /// Prepare a follow-up chat message: records it in the company's
    /// conversation, marks the session busy, and returns the messages to send
    /// (with `SYSTEM_PROMPT`): the company's context, then the whole conversation.
    pub fn start_chat(&mut self, company_number: String, message: String) -> (msgs: Vec<ChatMessage>)
        requires
            context_quotable(*old(self), company_number@),
        ensures
            final(self).data() == (DataView {
                conversations: appended(old(self).data().conversations, company_number@, "user"@, message@),
                ..old(self).data()
            }),
            messages_view(msgs@) == seq![("user"@, "Here is the company data for context:\n\n"@
                + context_of(*old(self), company_number@))] + final(self).data().conversations[company_number@],
            final(self).ui() == (UiView {
                is_loading: true,
                status_message: "Sending message to AI..."@,
                ..old(self).ui()
            }),
            final(self).network == old(self).network,
            final(self).config == old(self).config,
    {
        let context = self.company_context(company_number.as_str());
        self.push_conversation(&company_number, "user", message);
        let mut first = text::owned("Here is the company data for context:\n\n");
        text::push_str(&mut first, context.as_str());
        let mut msgs: Vec<ChatMessage> = Vec::new();
        msgs.push(ChatMessage { role: text::owned("user"), content: first });
        assert(conversation_views(self.ai_conversations@).contains_key(company_number@));
        assert(self.ai_conversations@.contains_key(company_number@));
        let conv = self.ai_conversations.get(company_number.as_str());
        match conv {
            Some(c) => {
                let ghost cv = c.deep_view();
                let mut i: usize = 0;
                while i < c.len()
                    invariant
                        i <= c.len(),
                        cv == c.deep_view(),
                        messages_view(msgs@) == seq![("user"@, "Here is the company data for context:\n\n"@
                            + context@)] + cv.take(i as int),
                    decreases c.len() - i,
                {
                    let ghost before = messages_view(msgs@);
                    msgs.push(ChatMessage { role: c[i].0.clone(), content: c[i].1.clone() });
                    assert(cv[i as int] == (c@[i as int].0@, c@[i as int].1@));
                    assert(messages_view(msgs@) =~= before.push(cv[i as int]));
                    assert(cv.take(i + 1) =~= cv.take(i as int).push(cv[i as int]));
                    i = i + 1;
                }
                assert(cv.take(c.len() as int) =~= cv);
            },
            None => {
                assert(false);
            },
        }
        self.is_loading = true;
        self.status_message = text::owned("Sending message to AI...");
        msgs
    }

    /// The company whose group is analysed for `cn`: its parent when known.
    pub fn group_parent_of(&self, cn: &str) -> (p: String)
        ensures
            p@ == group_parent(*self, cn@),
    {
        match self.group_info.get(cn) {
            Some(g) => match &g.parent {
                Some(pi) => pi.company_number.clone(),
                None => text::owned(cn),
            },
            None => text::owned(cn),
        }
    }

    /// The active subsidiaries recorded for `cn`.
    pub fn active_subsidiaries_of(&self, cn: &str) -> (r: Vec<SubsidiaryInfo>)
        ensures
            r@ == active_subsidiaries(*self, cn@),
    {
        let mut r: Vec<SubsidiaryInfo> = Vec::new();
        match self.group_info.get(cn) {
            Some(g) => {
                let subs = &g.subsidiaries;
                let ghost sv = subs@;
                let mut i: usize = 0;
                while i < subs.len()
                    invariant
                        i <= subs.len(),
                        sv == subs@,
                        r@ == sv.take(i as int).filter(|x: SubsidiaryInfo| x.status@ == "active"@),
                    decreases subs.len() - i,
                {
                    proof {
                        assert(sv.take(i + 1).drop_last() =~= sv.take(i as int));
                        reveal(Seq::filter);
                    }
                    let x = &subs[i];
                    if text::str_eq(x.status.as_str(), "active") {
                        r.push(SubsidiaryInfo {
                            company_number: x.company_number.clone(),
                            company_name: x.company_name.clone(),
                            status: x.status.clone(),
                        });
                    }
                    i = i + 1;
                }
                assert(sv.take(subs.len() as int) =~= sv);
            },
            None => {},
        }
        r
    }

    /// Whether a group analysis for `cn` can be prepared (see `group_ready`).
    pub fn group_analysis_ready(&self, cn: &str) -> (b: bool)
        ensures
            b == group_ready(*self, cn@),
    {
        let parent = self.group_parent_of(cn);
        if !self.context_quotable(parent.as_str()) {
            return false;
        }
        let subs = self.active_subsidiaries_of(cn);
        let mut i: usize = 0;
        while i < subs.len()
            invariant
                i <= subs.len(),
                subs@ == active_subsidiaries(*self, cn@),
                forall|j: int| 0 <= j < i ==> #[trigger] context_quotable(*self, subs@[j].company_number@),
                forall|j: int| 0 <= j < i
                    && text::utf8_len(#[trigger] context_of(*self, subs@[j].company_number@)) > prompts::subsidiary_limit()
                    ==> text::is_byte_boundary(context_of(*self, subs@[j].company_number@), prompts::subsidiary_limit()),
            decreases subs.len() - i,
        {
            if !self.context_quotable(subs[i].company_number.as_str()) {
                return false;
            }
            let ctx = self.company_context(subs[i].company_number.as_str());
            let mut pair: Vec<(String, String)> = Vec::new();
            pair.push((String::new(), ctx));
            if !prompts::subsidiaries_cuttable_exec(pair.as_slice()) {
                assert(pair@[0].1@ == context_of(*self, subs@[i as int].company_number@));
                return false;
            }
            assert(pair@[0].1@ == context_of(*self, subs@[i as int].company_number@));
            i = i + 1;
        }
        true
    }

    /// Prepare a group analysis for `cn`: returns the parent's number and the
    /// prompt to send (with `SYSTEM_PROMPT`); records the request in the
    /// parent's conversation and marks the session busy.
    pub fn start_group_analysis(&mut self, cn: String) -> (r: (String, String))
        requires
            group_ready(*old(self), cn@),
        ensures
            r.0@ == group_parent(*old(self), cn@),
            ({
                let flag = old(self).group_info@.contains_key(cn@) && old(self).group_info@[cn@].has_consolidated_accounts;
                let subs = subsidiary_contexts(*old(self), active_subsidiaries(*old(self), cn@));
                r.1@ == prompts::group_analysis_prompt_of(context_of(*old(self), r.0@), subs, flag,
                    old(self).analysis_year_from as int, old(self).analysis_year_to as int)
            }),
            final(self).data() == (DataView {
                conversations: appended(old(self).data().conversations, r.0@, "user"@,
                    "Run GROUP analysis ("@ + text::dec_int(old(self).analysis_year_from as int) + "-"@
                    + text::dec_int(old(self).analysis_year_to as int) + ")"@),
                ..old(self).data()
            }),
            final(self).ui() == (UiView {
                is_loading: true,
                status_message: "Running group analysis ("@ + text::dec(active_subsidiaries(*old(self), cn@).len())
                    + " subsidiaries)..."@,
                ..old(self).ui()
            }),
            final(self).network == old(self).network,
            final(self).config == old(self).config,
    {
        let parent = self.group_parent_of(cn.as_str());
        let parent_context = self.company_context(parent.as_str());
        let subs = self.active_subsidiaries_of(cn.as_str());
        let ghost ss = subsidiary_contexts(*self, subs@);
        let mut contexts: Vec<(String, String)> = Vec::new();
        let mut i: usize = 0;
        while i < subs.len()
            invariant
                i <= subs.len(),
                subs@ == active_subsidiaries(*self, cn@),
                group_ready(*self, cn@),
                ss == subsidiary_contexts(*self, subs@),
                contexts.deep_view() == ss.take(i as int),
            decreases subs.len() - i,
        {
            assert(context_quotable(*self, subs@[i as int].company_number@));
            let ctx = self.company_context(subs[i].company_number.as_str());
            let ghost before = contexts.deep_view();
            let name = subs[i].company_name.clone();
            let ghost entry = (name@, ctx@);
            contexts.push((name, ctx));
            assert(contexts.deep_view() =~= before.push(entry));
            assert(ss[i as int] == entry);
            assert(contexts.deep_view() =~= ss.take(i + 1));
            i = i + 1;
        }
        assert(ss.take(subs.len() as int) =~= ss);
        proof {
            assert forall|k: int| 0 <= k < contexts@.len()
                && text::utf8_len(#[trigger] contexts@[k].1@) > prompts::subsidiary_limit()
                implies text::is_byte_boundary(contexts@[k].1@, prompts::subsidiary_limit()) by {
                assert(contexts.deep_view()[k] == ss[k]);
                assert(contexts@[k].1@ == context_of(*self, subs@[k].company_number@));
            }
        }
        let flag = match self.group_info.get(cn.as_str()) {
            Some(g) => g.has_consolidated_accounts,
            None => false,
        };
        let prompt = prompts::build_group_analysis_prompt(parent_context.as_str(), contexts.as_slice(), flag,
            self.analysis_year_from, self.analysis_year_to);
        proof {
            prompts::lemma_group_prompt_of(parent_context@, contexts@, flag,
                self.analysis_year_from as int, self.analysis_year_to as int);
            assert(contexts@.map_values(|p: (String, String)| (p.0@, p.1@)) =~= contexts.deep_view());
        }
        let mut label = text::owned("Run GROUP analysis (");
        text::push_dec_i32(&mut label, self.analysis_year_from);
        text::push_str(&mut label, "-");
        text::push_dec_i32(&mut label, self.analysis_year_to);
        text::push_str(&mut label, ")");
        self.push_conversation(&parent, "user", label);
        self.is_loading = true;
        let mut status = text::owned("Running group analysis (");
        text::push_dec(&mut status, subs.len() as u64);
        text::push_str(&mut status, " subsidiaries)...");
        self.status_message = status;
        (parent, prompt)
    }
}


// ───────────────────────────── the panels' buttons ─────────────────────────────

/// The interface after the search page took a query, by what it led to:
/// the session is busy and the old results are gone; a company number also
/// selects that company and goes to its page.
pub open spec fn page_searched(u: UiView, a: SearchAction) -> UiView {
    let u1 = UiView {
        is_loading: true,
        search_results: Seq::empty(),
        officer_search_results: Seq::empty(),
        ..u
    };
    match a {
        SearchAction::OpenCompany(n) => forward(UiView { selected_company: Some(n), ..u1 }, View::Company),
        _ => u1,
    }
}

/// The interface after the sidebar took a query: a company number selects
/// that company and shows its page (the results stay); anything else clears
/// the results and shows the search page. Either way the session is busy and
/// the page starts at the top.
pub open spec fn sidebar_searched(u: UiView, a: SearchAction) -> UiView {
    match a {
        SearchAction::OpenCompany(n) => UiView {
            is_loading: true,
            selected_company: Some(n),
            active_view: View::Company,
            scroll_reset_needed: true,
            ..u
        },
        _ => UiView {
            is_loading: true,
            search_results: Seq::empty(),
            officer_search_results: Seq::empty(),
            active_view: View::Search,
            scroll_reset_needed: true,
            ..u
        },
    }
}

/// The configuration took the settings-panel fields (provider, key, model,
/// base URL, Kanon 2 key), as `config::apply_settings` describes.
pub open spec fn config_took_settings(c0: AppConfig, c1: AppConfig, st: (Seq<char>, Seq<char>, Seq<char>, Seq<char>, Seq<char>)) -> bool {
    &&& config::settings_provider_matches(c1.ai_provider, st.0, st.1, st.2, st.3)
    &&& c1.ch_api_key == c0.ch_api_key
    &&& c1.ocr_mode == c0.ocr_mode
    &&& st.4.len() > 0 ==> (c1.kanon2_api_key matches Some(k) && k@ == st.4)
    &&& st.4.len() == 0 ==> c1.kanon2_api_key == c0.kanon2_api_key
}

/// Which kinds of data the session holds for a company (shown beside its analysis).
pub struct DataFlags {
    pub profile: bool,
    pub officers: bool,
    pub pscs: bool,
    pub charges: bool,
    pub filings: bool,
    /// Some filing of the company has extracted text.
    pub documents: bool,
}

/// Some filing of the company has extracted text.
pub open spec fn has_documents(s: Session, cn: Seq<char>) -> bool {
    s.company_filings@.contains_key(cn) && exists|i: int| 0 <= i < s.company_filings@[cn]@.len()
        && #[trigger] panels::has_text(s.company_filings@[cn]@[i], s.extracted_texts@)
}

impl Session {
    /// The search page's query was submitted. Returns what is to be done
    /// (`None` for a blank query, which changes nothing).
    pub fn submit_page_search(&mut self) -> (r: Option<SearchAction>)
        requires
            old(self).search_mode == SearchMode::Company ==> !panels::number_test_breaks(text::trim(old(self).search_query@)),
        ensures
            match r {
                Some(a) => panels::page_search(old(self).search_mode, old(self).search_query@)
                    == Some(search_action_view(a)) && final(self).ui() == page_searched(old(self).ui(), a),
                None => panels::page_search(old(self).search_mode, old(self).search_query@) is None
                    && final(self).ui() == old(self).ui(),
            },
            final(self).data() == old(self).data(),
            final(self).network == old(self).network,
            final(self).config == old(self).config,
    {
        let r = panels::search_from_page(self.search_mode, self.search_query.as_str());
        match r {
            Some(a) => {
                self.is_loading = true;
                self.search_results = Vec::new();
                self.officer_search_results = Vec::new();
                match a {
                    SearchAction::OpenCompany(n) => {
                        self.selected_company = Some(n.clone());
                        self.push_view(View::Company);
                        Some(SearchAction::OpenCompany(n))
                    },
                    other => Some(other),
                }
            },
            None => None,
        }
    }

    /// The sidebar's quick search was submitted. Returns what is to be done
    /// (`None` for a blank query, which changes nothing).
    pub fn submit_sidebar_search(&mut self) -> (r: Option<SearchAction>)
        requires
            !panels::number_test_breaks(text::trim(old(self).search_query@)),
        ensures
            match r {
                Some(a) => panels::sidebar_search(old(self).search_mode, old(self).search_query@)
                    == Some(search_action_view(a)) && final(self).ui() == sidebar_searched(old(self).ui(), a),
                None => panels::sidebar_search(old(self).search_mode, old(self).search_query@) is None
                    && final(self).ui() == old(self).ui(),
            },
            final(self).data() == old(self).data(),
            final(self).network == old(self).network,
            final(self).config == old(self).config,
    {
        let r = panels::search_from_sidebar(self.search_mode, self.search_query.as_str());
        match r {
            Some(a) => {
                self.is_loading = true;
                self.scroll_reset_needed = true;
                match a {
                    SearchAction::OpenCompany(n) => {
                        self.selected_company = Some(n.clone());
                        self.active_view = View::Company;
                        Some(SearchAction::OpenCompany(n))
                    },
                    other => {
                        self.search_results = Vec::new();
                        self.officer_search_results = Vec::new();
                        self.active_view = View::Search;
                        Some(other)
                    },
                }
            },
            None => None,
        }
    }

    /// An "Investigate" button was pressed for a company: the session is
    /// busy, the company is selected and its page shown (remembering the
    /// page left); from the company search results, the results are cleared.
    pub fn open_company(&mut self, company_number: String, clear_results: bool)
        ensures
            final(self).ui() == (UiView {
                search_results: if clear_results { Seq::empty() } else { old(self).search_results@ },
                ..forward(UiView { is_loading: true, selected_company: Some(company_number), ..old(self).ui() }, View::Company)
            }),
            final(self).data() == old(self).data(),
            final(self).network == old(self).network,
            final(self).config == old(self).config,
    {
        self.is_loading = true;
        self.selected_company = Some(company_number);
        self.push_view(View::Company);
        if clear_results {
            self.search_results = Vec::new();
        }
    }

    /// A company was picked from the dashboard or the network: it is selected
    /// and its page shown.
    pub fn pick_company(&mut self, company_number: String)
        ensures
            final(self).ui() == (UiView {
                selected_company: Some(company_number),
                active_view: View::Company,
                ..old(self).ui()
            }),
            final(self).data() == old(self).data(),
            final(self).network == old(self).network,
            final(self).config == old(self).config,
    {
        self.selected_company = Some(company_number);
        self.active_view = View::Company;
    }

    /// A sidebar button was pressed: its page is shown from the top (the
    /// settings page also opens the settings).
    pub fn select_view(&mut self, view: View)
        ensures
            final(self).ui() == (UiView {
                active_view: view,
                scroll_reset_needed: true,
                show_settings: if view == View::Settings { true } else { old(self).show_settings },
                ..old(self).ui()
            }),
            final(self).data() == old(self).data(),
            final(self).network == old(self).network,
            final(self).config == old(self).config,
    {
        self.active_view = view;
        self.scroll_reset_needed = true;
        if view == View::Settings {
            self.show_settings = true;
        }
    }

    /// Whether the settings page is drawn this frame: on the settings view,
    /// or while the settings are open (which the settings view keeps open).
    pub fn settings_visible(&mut self) -> (b: bool)
        ensures
            b == (old(self).active_view == View::Settings || old(self).show_settings),
            final(self).ui() == (UiView { show_settings: b, ..old(self).ui() }),
            final(self).data() == old(self).data(),
            final(self).network == old(self).network,
            final(self).config == old(self).config,
    {
        let b = self.active_view == View::Settings || self.show_settings;
        self.show_settings = b;
        b
    }

    /// A "configure" button was pressed: the settings page is shown.
    pub fn open_settings(&mut self)
        ensures
            final(self).ui() == (UiView { show_settings: true, active_view: View::Settings, ..old(self).ui() }),
            final(self).data() == old(self).data(),
            final(self).network == old(self).network,
            final(self).config == old(self).config,
    {
        self.show_settings = true;
        self.active_view = View::Settings;
    }

    /// Apply the settings-panel fields to the configuration and say so in the status line.
    pub fn apply_settings(&mut self)
        ensures
            config_took_settings(old(self).config, final(self).config, old(self).ui().settings),
            final(self).ui() == (UiView { status_message: "✓ Settings applied."@, ..old(self).ui() }),
            final(self).data() == old(self).data(),
            final(self).network == old(self).network,
    {
        let mut c = AppConfig {
            ch_api_key: None,
            ai_provider: config::AiProviderConfig::Unconfigured,
            kanon2_api_key: None,
            ocr_mode: config::OcrMode::NativeOnly,
        };
        std::mem::swap(&mut c, &mut self.config);
        config::apply_settings(&mut c, self.settings_ai_provider.as_str(), self.settings_ai_key.as_str(),
            self.settings_ai_model.as_str(), self.settings_ai_base_url.as_str(), self.settings_kanon2_key.as_str());
        self.config = c;
        self.status_message = text::owned("✓ Settings applied.");
    }

    /// The settings page was left, applying its fields or not: the settings
    /// close and the home page is shown.
    pub fn close_settings(&mut self, apply: bool)
        ensures
            apply ==> config_took_settings(old(self).config, final(self).config, old(self).ui().settings),
            !apply ==> final(self).config == old(self).config,
            final(self).ui() == (UiView {
                status_message: if apply { "✓ Settings applied."@ } else { old(self).status_message@ },
                show_settings: false,
                active_view: View::Welcome,
                ..old(self).ui()
            }),
            final(self).data() == old(self).data(),
            final(self).network == old(self).network,
    {
        if apply {
            self.apply_settings();
        }
        self.show_settings = false;
        self.active_view = View::Welcome;
    }

    /// Back from a director's appointments to the director search results.
    pub fn close_appointments(&mut self)
        ensures
            final(self).ui() == (UiView {
                selected_officer_appointments: None,
                selected_officer_name: None,
                ..old(self).ui()
            }),
            final(self).data() == old(self).data(),
            final(self).network == old(self).network,
            final(self).config == old(self).config,
    {
        self.selected_officer_appointments = None;
        self.selected_officer_name = None;
    }

    /// The save dialog opens with a proposed project name and no status.
    pub fn open_save_dialog(&mut self, name: String)
        ensures
            final(self).ui() == (UiView { save_dialog: (true, name@, None), ..old(self).ui() }),
            final(self).data() == old(self).data(),
            final(self).network == old(self).network,
            final(self).config == old(self).config,
    {
        self.save_project_name = name;
        self.show_save_dialog = true;
        self.save_status_message = None;
    }

    /// Prepare a summary of one filing's text: the session is busy and says
    /// so; returns the prompt to send (with `FILING_SUMMARY_SYSTEM_PROMPT`).
    pub fn start_summary(&mut self, filing_id: &str, description: &str, document: &str) -> (prompt: String)
        ensures
            prompt@ == filing_summary_prompt_spec(description@, document@),
            final(self).ui() == (UiView {
                is_loading: true,
                status_message: "Summarising filing "@ + filing_id@ + "..."@,
                ..old(self).ui()
            }),
            final(self).data() == old(self).data(),
            final(self).network == old(self).network,
            final(self).config == old(self).config,
    {
        self.is_loading = true;
        let mut m = text::owned("Summarising filing ");
        text::push_str(&mut m, filing_id);
        text::push_str(&mut m, "...");
        self.status_message = m;
        filing_summary_prompt(description, document)
    }

    /// Start looking for a company's group: the search starts from its
    /// recorded parent (else from the company itself), which is returned;
    /// the session is busy and says so.
    pub fn start_group_discovery(&mut self, cn: &str) -> (parent: String)
        ensures
            parent@ == group_parent(*old(self), cn@),
            final(self).ui() == (UiView {
                is_loading: true,
                status_message: "Discovering group structure from "@ + parent@ + "..."@,
                ..old(self).ui()
            }),
            final(self).data() == old(self).data(),
            final(self).network == old(self).network,
            final(self).config == old(self).config,
    {
        let parent = self.group_parent_of(cn);
        self.is_loading = true;
        let mut m = text::owned("Discovering group structure from ");
        text::push_str(&mut m, parent.as_str());
        text::push_str(&mut m, "...");
        self.status_message = m;
        parent
    }

    /// The save dialog closes and forgets its status.
    pub fn close_save_dialog(&mut self)
        ensures
            final(self).ui() == (UiView { save_dialog: (false, old(self).save_project_name@, None), ..old(self).ui() }),
            final(self).data() == old(self).data(),
            final(self).network == old(self).network,
            final(self).config == old(self).config,
    {
        self.show_save_dialog = false;
        self.save_status_message = None;
    }

    /// Report how an export went: the folder it was saved to, or the error.
    pub fn record_save_result(&mut self, outcome: Result<String, String>)
        ensures
            final(self).save_status_message matches Some(m) && m@ == match outcome {
                Ok(path) => "✓ Saved to "@ + path@,
                Err(e) => "✗ Error: "@ + e@,
            },
            final(self).ui() == (UiView {
                save_dialog: (old(self).show_save_dialog, old(self).save_project_name@, final(self).save_status_message),
                ..old(self).ui()
            }),
            final(self).data() == old(self).data(),
            final(self).network == old(self).network,
            final(self).config == old(self).config,
    {
        let m = match outcome {
            Ok(path) => {
                let mut m = text::owned("✓ Saved to ");
                text::push_str(&mut m, path.as_str());
                m
            },
            Err(e) => {
                let mut m = text::owned("✗ Error: ");
                text::push_str(&mut m, e.as_str());
                m
            },
        };
        self.save_status_message = Some(m);
    }

    /// Whether the last export succeeded (its status starts with `✓`).
    pub fn save_succeeded(&self) -> (b: bool)
        ensures
            b == (self.save_status_message matches Some(m) && text::starts_with(m@, "✓"@)),
    {
        match &self.save_status_message {
            Some(m) => text::str_starts_with(m.as_str(), "✓"),
            None => false,
        }
    }

    /// The analysis period never ends before it starts: an end year before
    /// the start year is moved up to it.
    pub fn clamp_years(&mut self)
        ensures
            final(self).ui() == (UiView {
                years: if old(self).analysis_year_from > old(self).analysis_year_to {
                    (old(self).analysis_year_from, old(self).analysis_year_from)
                } else {
                    old(self).ui().years
                },
                ..old(self).ui()
            }),
            final(self).analysis_year_from <= final(self).analysis_year_to,
            final(self).data() == old(self).data(),
            final(self).network == old(self).network,
            final(self).config == old(self).config,
    {
        if self.analysis_year_from > self.analysis_year_to {
            self.analysis_year_to = self.analysis_year_from;
        }
    }

    /// The follow-up question to send, if one can be sent: the typed text,
    /// trimmed, when it is not blank and the session is not busy; the input
    /// is then emptied.
    pub fn take_chat_input(&mut self) -> (r: Option<String>)
        ensures
            match r {
                Some(m) => m@ == text::trim(old(self).ai_chat_input@) && m@.len() > 0 && !old(self).is_loading
                    && final(self).ui() == (UiView { ai_chat_input: Seq::empty(), ..old(self).ui() }),
                None => (text::trim(old(self).ai_chat_input@).len() == 0 || old(self).is_loading)
                    && final(self).ui() == old(self).ui(),
            },
            final(self).data() == old(self).data(),
            final(self).network == old(self).network,
            final(self).config == old(self).config,
    {
        let m = text::trimmed(self.ai_chat_input.as_str());
        if text::byte_len(m.as_str()) == 0 || self.is_loading {
            assert(m@.len() > 0 ==> text::utf8_len(m@) > 0);
            return None;
        }
        assert(text::utf8_len(m@) > 0 ==> m@.len() > 0);
        self.ai_chat_input = String::new();
        Some(m)
    }

    /// The title of a company's pages: its name when its profile is loaded, else its number.
    pub fn company_title(&self, cn: &str) -> (t: String)
        ensures
            t@ == if self.company_profiles@.contains_key(cn@) {
                self.company_profiles@[cn@].spec_display_name()
            } else {
                cn@
            },
    {
        match self.company_profiles.get(cn) {
            Some(p) => p.display_name(),
            None => text::owned(cn),
        }
    }

    /// Which kinds of data the session holds for a company.
    pub fn data_flags(&self, cn: &str) -> (f: DataFlags)
        ensures
            f.profile == self.company_profiles@.contains_key(cn@),
            f.officers == self.company_officers@.contains_key(cn@),
            f.pscs == self.company_pscs@.contains_key(cn@),
            f.charges == self.company_charges@.contains_key(cn@),
            f.filings == self.company_filings@.contains_key(cn@),
            f.documents == has_documents(*self, cn@),
    {
        let documents = match self.company_filings.get(cn) {
            Some(fs) => {
                let n = panels::cached_document_count(fs, &self.extracted_texts);
                proof {
                    lemma_count_positive(fs@, self.extracted_texts@);
                }
                n > 0
            },
            None => false,
        };
        DataFlags {
            profile: self.company_profiles.contains_key(cn),
            officers: self.company_officers.contains_key(cn),
            pscs: self.company_pscs.contains_key(cn),
            charges: self.company_charges.contains_key(cn),
            filings: self.company_filings.contains_key(cn),
            documents,
        }
    }
}

/// Some filing has text exactly when the count of those that do is positive.
proof fn lemma_count_positive(fs: Seq<FilingHistoryItem>, texts: Map<Seq<char>, String>)
    ensures
        (panels::count_with_text(fs, texts) > 0) == exists|i: int| 0 <= i < fs.len() && #[trigger] panels::has_text(fs[i], texts),
    decreases fs.len(),
{
    if fs.len() > 0 {
        lemma_count_positive(fs.drop_last(), texts);
        if exists|i: int| 0 <= i < fs.len() && #[trigger] panels::has_text(fs[i], texts) {
            let i = choose|i: int| 0 <= i < fs.len() && #[trigger] panels::has_text(fs[i], texts);
            if i < fs.len() - 1 {
                assert(fs.drop_last()[i] == fs[i]);
            }
        }
        if exists|i: int| 0 <= i < fs.drop_last().len() && #[trigger] panels::has_text(fs.drop_last()[i], texts) {
            let i = choose|i: int| 0 <= i < fs.drop_last().len() && #[trigger] panels::has_text(fs.drop_last()[i], texts);
            assert(fs[i] == fs.drop_last()[i]);
        }
        if panels::has_text(fs.last(), texts) {
            assert(panels::has_text(fs[fs.len() - 1], texts));
        }
    }
}

} // verus!
