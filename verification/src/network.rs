//! The corporate network: companies as nodes of a directed `petgraph` graph,
//! with ownership and shared-director relations as edges.
use vstd::prelude::*;
use crate::text;
use crate::types::{CompanyProfile, Psc};
use petgraph::graph::{Graph, NodeIndex};
use petgraph::Directed;

verus! {

/// Relationship types between companies in the network.
#[derive(Debug, Clone)]
pub enum EdgeRelation {
    /// Corporate PSC ownership (parent → subsidiary)
    PscOwnership { natures: Vec<String> },
    /// Shared director between two companies
    SharedDirector { name: String },
    /// Parent company identified from filing text
    ParentFromFiling { source_filing: String },
    /// Subsidiary identified from filing text
    SubsidiaryFromFiling { source_filing: String },
    /// Charge holder relationship
    ChargeHolder { charge_desc: String },
}

/// The ownership band named by one nature-of-control description, if any.
pub open spec fn control_band(n: Seq<char>) -> Option<Seq<char>> {
    if text::contains(n, "75"@) {
        Some("75%+"@)
    } else if text::contains(n, "50"@) {
        Some("50-75%"@)
    } else if text::contains(n, "25"@) {
        Some("25-50%"@)
    } else {
        None
    }
}

/// The ownership bands of a list of natures of control, in order.
pub open spec fn control_bands(ns: Seq<String>) -> Seq<Seq<char>>
    decreases ns.len(),
{
    if ns.len() == 0 {
        Seq::empty()
    } else {
        let rest = control_bands(ns.drop_last());
        match control_band(ns.last()@) {
            Some(b) => rest.push(b),
            None => rest,
        }
    }
}

/// The first `max` bytes of `s` (all of `s` when it is no longer).
pub open spec fn truncated(s: Seq<char>, max: nat) -> Seq<char> {
    if text::utf8_len(s) <= max {
        s
    } else {
        text::byte_prefix(s, max)
    }
}

impl EdgeRelation {
    /// The label of an edge, as shown in the network view.
    pub open spec fn spec_label(&self) -> Seq<char> {
        match *self {
            EdgeRelation::PscOwnership { natures } => {
                let bands = control_bands(natures@);
                if bands.len() == 0 {
                    "PSC ownership"@
                } else {
                    "PSC ("@ + text::join(bands, ", "@) + ")"@
                }
            },
            EdgeRelation::SharedDirector { name } => "Director: "@ + name@,
            EdgeRelation::ParentFromFiling { .. } => "Parent (filing)"@,
            EdgeRelation::SubsidiaryFromFiling { .. } => "Subsidiary (filing)"@,
            EdgeRelation::ChargeHolder { charge_desc } => "Charge: "@ + truncated(charge_desc@, 30),
        }
    }

    /// A label can be produced: a charge description longer than 30 bytes can be cut at 30 bytes.
    pub open spec fn label_defined(&self) -> bool {
        match *self {
            EdgeRelation::ChargeHolder { charge_desc } => text::utf8_len(charge_desc@) > 30
                ==> text::is_byte_boundary(charge_desc@, 30),
            _ => true,
        }
    }

    pub fn label(&self) -> (r: String)
        requires
            self.label_defined(),
        ensures
            r@ == self.spec_label(),
    {
        match self {
            EdgeRelation::PscOwnership { natures } => {
                let mut ctrl: Vec<String> = Vec::new();
                let mut i: usize = 0;
                while i < natures.len()
                    invariant
                        i <= natures.len(),
                        text::views(ctrl@) == control_bands(natures@.take(i as int)),
                    decreases natures.len() - i,
                {
                    proof {
                        assert(natures@.take(i + 1).drop_last() =~= natures@.take(i as int));
                        assert(natures@.take(i + 1).last() == natures@[i as int]);
                    }
                    let n = natures[i].as_str();
                    if text::str_contains(n, "75") {
                        ctrl.push(text::owned("75%+"));
                    } else if text::str_contains(n, "50") {
                        ctrl.push(text::owned("50-75%"));
                    } else if text::str_contains(n, "25") {
                        ctrl.push(text::owned("25-50%"));
                    }
                    assert(text::views(ctrl@) =~= control_bands(natures@.take(i + 1)));
                    i += 1;
                }
                assert(natures@.take(i as int) =~= natures@);
                if ctrl.len() == 0 {
                    text::owned("PSC ownership")
                } else {
                    let mut r = text::owned("PSC (");
                    text::push_joined(&mut r, &ctrl, ", ");
                    text::push_str(&mut r, ")");
                    r
                }
            },
            EdgeRelation::SharedDirector { name } => {
                let mut r = text::owned("Director: ");
                text::push_str(&mut r, name.as_str());
                r
            },
            EdgeRelation::ParentFromFiling { .. } => text::owned("Parent (filing)"),
            EdgeRelation::SubsidiaryFromFiling { .. } => text::owned("Subsidiary (filing)"),
            EdgeRelation::ChargeHolder { charge_desc } => {
                let mut r = text::owned("Charge: ");
                let t = truncate(charge_desc.as_str(), 30);
                text::push_str(&mut r, t);
                r
            },
        }
    }
}

/// The first `max` bytes of `s`, or `s` itself when it is no longer.
fn truncate(s: &str, max: usize) -> (r: &str)
    requires
        text::utf8_len(s@) > max ==> text::is_byte_boundary(s@, max as nat),
    ensures
        r@ == truncated(s@, max as nat),
{
    if text::byte_len(s) <= max {
        s
    } else {
        let v = text::chars_of(s);
        let p = text::byte_prefix_of(s, max);
        let k = text::chars_of(p.as_str()).len();
        proof {
            text::lemma_chars_within_le(s@, max as nat);
        }
        s.substring_char(0, k)
    }
}

/// Risk level for a company node.
#[derive(Debug, Clone, Copy, PartialEq, Eq, Structural)]
pub enum RiskLevel {
    Low,
    Medium,
    High,
}

/// Per-company data stored at each node.
#[derive(Debug, Clone)]
pub struct CompanyNode {
    pub company_number: String,
    pub company_name: String,
    pub status: String,
    pub risk_level: RiskLevel,
    pub risk_signals: Vec<String>,
    pub sic_codes: Vec<String>,
    pub date_of_creation: Option<String>,
}

// ───────────────────────────── risk assessment ─────────────────────────────

/// The risk signals raised by a company profile, in order.
pub open spec fn risk_signals(p: CompanyProfile) -> Seq<Seq<char>> {
    (if p.spec_accounts_overdue() { seq!["Accounts overdue"@] } else { Seq::empty() })
        + (if p.spec_confirmation_overdue() { seq!["Confirmation statement overdue"@] } else { Seq::empty() })
        + (if p.has_insolvency_history == Some(true) { seq!["Insolvency history"@] } else { Seq::empty() })
        + (if p.has_been_liquidated == Some(true) { seq!["Has been liquidated"@] } else { Seq::empty() })
        + (if !p.spec_is_active() {
        seq!["Status: "@ + text::opt_or(p.company_status, "inactive"@)]
    } else {
        Seq::empty()
    })
}

/// A signal that makes a company high risk.
pub open spec fn is_severe(s: Seq<char>) -> bool {
    text::contains(s, "Insolvency"@) || text::contains(s, "liquidated"@) || text::contains(
        s,
        "Accounts overdue"@,
    )
}

/// Some signal of `signals` is severe.
pub open spec fn any_severe(signals: Seq<Seq<char>>) -> bool {
    exists|i: int| 0 <= i < signals.len() && is_severe(#[trigger] signals[i])
}

pub proof fn lemma_any_severe_push(s: Seq<Seq<char>>, x: Seq<char>)
    ensures
        any_severe(s.push(x)) == (any_severe(s) || is_severe(x)),
{
    if any_severe(s) {
        let i = choose|i: int| 0 <= i < s.len() && is_severe(#[trigger] s[i]);
        assert(s.push(x)[i] == s[i]);
    }
    if is_severe(x) {
        assert(s.push(x)[s.len() as int] == x);
    }
    if any_severe(s.push(x)) {
        let i = choose|i: int| 0 <= i < s.push(x).len() && is_severe(#[trigger] s.push(x)[i]);
        if i < s.len() {
            assert(s.push(x)[i] == s[i]);
        }
    }
}

/// A profile whose accounts are overdue, or which has an insolvency history,
/// or which has been liquidated, is assessed as high risk.
pub proof fn serious_records_mean_high_risk(p: CompanyProfile)
    requires
        (p.accounts matches Some(a) && a.overdue == Some(true)) || p.has_insolvency_history == Some(true)
            || p.has_been_liquidated == Some(true),
    ensures
        risk_level_of(risk_signals(p)) == RiskLevel::High,
{
    reveal_strlit("Accounts overdue");
    reveal_strlit("Confirmation statement overdue");
    reveal_strlit("Insolvency history");
    reveal_strlit("Insolvency");
    reveal_strlit("Has been liquidated");
    reveal_strlit("liquidated");
    let s0 = if p.spec_accounts_overdue() { seq!["Accounts overdue"@] } else { Seq::<Seq<char>>::empty() };
    let s1 = if p.spec_confirmation_overdue() { seq!["Confirmation statement overdue"@] } else { Seq::<Seq<char>>::empty() };
    let s2 = if p.has_insolvency_history == Some(true) { seq!["Insolvency history"@] } else { Seq::<Seq<char>>::empty() };
    let s3 = if p.has_been_liquidated == Some(true) { seq!["Has been liquidated"@] } else { Seq::<Seq<char>>::empty() };
    let s4 = if !p.spec_is_active() {
        seq!["Status: "@ + text::opt_or(p.company_status, "inactive"@)]
    } else {
        Seq::<Seq<char>>::empty()
    };
    let sig = risk_signals(p);
    assert(sig == s0 + s1 + s2 + s3 + s4);
    if p.spec_accounts_overdue() {
        let x = "Accounts overdue"@;
        assert(sig[0] == x);
        assert(x.subrange(0, x.len() as int) =~= x);
        assert(text::occurs_at(x, "Accounts overdue"@, 0));
        assert(is_severe(sig[0]));
    } else if p.has_insolvency_history == Some(true) {
        let x = "Insolvency history"@;
        let k = (s0.len() + s1.len()) as int;
        assert(sig[k] == x);
        assert(x.subrange(0, 10) =~= "Insolvency"@);
        assert(text::occurs_at(x, "Insolvency"@, 0));
        assert(is_severe(sig[k]));
    } else {
        let x = "Has been liquidated"@;
        let k = (s0.len() + s1.len() + s2.len()) as int;
        assert(sig[k] == x);
        assert(x.subrange(9, 19) =~= "liquidated"@);
        assert(text::occurs_at(x, "liquidated"@, 9));
        assert(is_severe(sig[k]));
    }
}

/// A PSC that makes its registered company a parent: it has not ceased, it
/// is a corporate entity, and it has a registration number.
pub open spec fn current_corporate_owner(p: Psc) -> bool {
    &&& p.ceased_on is None
    &&& p.kind matches Some(k) && k@ == "corporate-entity-person-with-significant-control"@
    &&& p.identification matches Some(id) && id.registration_number is Some
}

/// Ownership links come only from current corporate PSCs: every PSC that
/// `process_pscs` links as an owner is one of the given PSCs, has not
/// ceased, is a corporate entity and has a registration number; and every
/// such PSC is linked.
pub proof fn owners_are_current_corporate_pscs(ps: Seq<Psc>)
    ensures
        forall|k: int| 0 <= k < owners(ps).len() ==> current_corporate_owner(#[trigger] owners(ps)[k]) && ps.contains(owners(ps)[k]),
        forall|i: int| 0 <= i < ps.len() && current_corporate_owner(#[trigger] ps[i]) ==> owners(ps).contains(ps[i]),
    decreases ps.len(),
{
    if ps.len() > 0 {
        let q = ps.drop_last();
        owners_are_current_corporate_pscs(q);
        let o = owners(ps);
        let oq = owners(q);
        assert forall|k: int| 0 <= k < o.len() implies current_corporate_owner(#[trigger] o[k]) && ps.contains(o[k]) by {
            if k < oq.len() {
                assert(o[k] == oq[k]);
                let j = choose|j: int| 0 <= j < q.len() && q[j] == oq[k];
                assert(ps[j] == q[j]);
            } else {
                assert(o[k] == ps.last());
                assert(ps[ps.len() - 1] == ps.last());
            }
        }
        assert forall|i: int| 0 <= i < ps.len() && current_corporate_owner(#[trigger] ps[i]) implies o.contains(ps[i]) by {
            if i < q.len() {
                assert(q[i] == ps[i]);
                assert(current_corporate_owner(q[i]));
                let k = choose|k: int| 0 <= k < oq.len() && oq[k] == q[i];
                assert(o[k] == oq[k]);
            } else {
                assert(ps[i] == ps.last());
                assert(is_owner(ps.last()));
                assert(o[o.len() - 1] == ps.last());
            }
        }
    }
}

/// High when a severe signal is raised, medium when any other signal is, low otherwise.
pub open spec fn risk_level_of(signals: Seq<Seq<char>>) -> RiskLevel {
    if any_severe(signals) {
        RiskLevel::High
    } else if signals.len() > 0 {
        RiskLevel::Medium
    } else {
        RiskLevel::Low
    }
}

fn push_signal(signals: &mut Vec<String>, severe: &mut bool, s: String)
    requires
        *old(severe) == any_severe(text::views(old(signals)@)),
    ensures
        text::views(final(signals)@) == text::views(old(signals)@).push(s@),
        *final(severe) == any_severe(text::views(final(signals)@)),
{
    proof {
        lemma_any_severe_push(text::views(old(signals)@), s@);
    }
    let sv = text::str_contains(s.as_str(), "Insolvency") || text::str_contains(s.as_str(), "liquidated")
        || text::str_contains(s.as_str(), "Accounts overdue");
    signals.push(s);
    *severe = *severe || sv;
    assert(text::views(signals@) =~= text::views(old(signals)@).push(s@));
}

/// Assess risk level from a company profile.
pub fn assess_risk(profile: &CompanyProfile) -> (r: (RiskLevel, Vec<String>))
    ensures
        text::views(r.1@) == risk_signals(*profile),
        r.0 == risk_level_of(risk_signals(*profile)),
{
    let mut signals: Vec<String> = Vec::new();
    let mut severe = false;
    assert(text::views(signals@) =~= Seq::<Seq<char>>::empty());
    let ghost p = *profile;
    let ghost s0 = if p.spec_accounts_overdue() { seq!["Accounts overdue"@] } else { Seq::<Seq<char>>::empty() };
    let ghost s1 = if p.spec_confirmation_overdue() { seq!["Confirmation statement overdue"@] } else { Seq::<Seq<char>>::empty() };
    let ghost s2 = if p.has_insolvency_history == Some(true) { seq!["Insolvency history"@] } else { Seq::<Seq<char>>::empty() };
    let ghost s3 = if p.has_been_liquidated == Some(true) { seq!["Has been liquidated"@] } else { Seq::<Seq<char>>::empty() };
    if profile.accounts_overdue() {
        push_signal(&mut signals, &mut severe, text::owned("Accounts overdue"));
    }
    assert(text::views(signals@) =~= s0);
    if profile.confirmation_overdue() {
        push_signal(&mut signals, &mut severe, text::owned("Confirmation statement overdue"));
    }
    assert(text::views(signals@) =~= s0 + s1);
    if profile.has_insolvency_history == Some(true) {
        push_signal(&mut signals, &mut severe, text::owned("Insolvency history"));
    }
    assert(text::views(signals@) =~= s0 + s1 + s2);
    if profile.has_been_liquidated == Some(true) {
        push_signal(&mut signals, &mut severe, text::owned("Has been liquidated"));
    }
    assert(text::views(signals@) =~= s0 + s1 + s2 + s3);
    if !profile.is_active() {
        let mut s = text::owned("Status: ");
        text::push_opt_or(&mut s, &profile.company_status, "inactive");
        push_signal(&mut signals, &mut severe, s);
    }
    let ghost sig = risk_signals(p);
    assert(text::views(signals@) =~= sig);
    let level = if severe {
        RiskLevel::High
    } else if signals.len() > 0 {
        RiskLevel::Medium
    } else {
        RiskLevel::Low
    };
    (level, signals)
}

// ───────────────────────────── the graph ─────────────────────────────

#[verifier::external_type_specification]
#[verifier::external_body]
#[verifier::reject_recursive_types(N)]
#[verifier::reject_recursive_types(E)]
#[verifier::reject_recursive_types(Ty)]
#[verifier::reject_recursive_types(Ix)]
pub struct ExGraph<N, E, Ty, Ix>(Graph<N, E, Ty, Ix>);

#[verifier::external_type_specification]
#[verifier::external_body]
pub struct ExDirected(Directed);

/// The node weights of a company graph, in node-index order.
pub uninterp spec fn graph_nodes(g: Graph<CompanyNode, EdgeRelation, Directed, u32>) -> Seq<CompanyNode>;

/// The edges of a company graph (source index, target index, weight), in edge-index order.
pub uninterp spec fn graph_edges(g: Graph<CompanyNode, EdgeRelation, Directed, u32>) -> Seq<(nat, nat, EdgeRelation)>;

/// `petgraph::Graph::new`: a graph with no nodes and no edges.
#[verifier::external_body]
fn graph_new() -> (g: Graph<CompanyNode, EdgeRelation, Directed, u32>)
    ensures
        graph_nodes(g) == Seq::<CompanyNode>::empty(),
        graph_edges(g) == Seq::<(nat, nat, EdgeRelation)>::empty(),
{
    Graph::new()
}

/// `petgraph::Graph::add_node`: appends the node; its index is the previous node count.
/// The source panics once the count reaches the largest `u32`, which `requires` excludes.
#[verifier::external_body]
fn graph_add_node(g: &mut Graph<CompanyNode, EdgeRelation, Directed, u32>, n: CompanyNode) -> (idx: usize)
    requires
        graph_nodes(*old(g)).len() < u32::MAX,
    ensures
        graph_nodes(*final(g)) == graph_nodes(*old(g)).push(n),
        graph_edges(*final(g)) == graph_edges(*old(g)),
        idx == graph_nodes(*old(g)).len(),
{
    g.add_node(n).index()
}

/// `petgraph::Graph::add_edge`: appends the edge `a → b`.
/// The source panics when an endpoint is no node, or when the edge count reaches the
/// largest `u32`; `requires` excludes both.
#[verifier::external_body]
fn graph_add_edge(g: &mut Graph<CompanyNode, EdgeRelation, Directed, u32>, a: usize, b: usize, w: EdgeRelation)
    requires
        a < graph_nodes(*old(g)).len(),
        b < graph_nodes(*old(g)).len(),
        graph_edges(*old(g)).len() < u32::MAX,
    ensures
        graph_nodes(*final(g)) == graph_nodes(*old(g)),
        graph_edges(*final(g)) == graph_edges(*old(g)).push((a as nat, b as nat, w)),
{
    g.add_edge(NodeIndex::new(a), NodeIndex::new(b), w);
}

/// Indexing a graph by node (`Index<NodeIndex>`): the weight of node `i`.
#[verifier::external_body]
fn graph_node(g: &Graph<CompanyNode, EdgeRelation, Directed, u32>, i: usize) -> (n: &CompanyNode)
    requires
        i < graph_nodes(*g).len(),
    ensures
        *n == graph_nodes(*g)[i as int],
{
    &g[NodeIndex::new(i)]
}

/// Assigning through `IndexMut<NodeIndex>`: replaces the weight of node `i`.
#[verifier::external_body]
fn graph_set_node(g: &mut Graph<CompanyNode, EdgeRelation, Directed, u32>, i: usize, n: CompanyNode)
    requires
        i < graph_nodes(*old(g)).len(),
    ensures
        graph_nodes(*final(g)) == graph_nodes(*old(g)).update(i as int, n),
        graph_edges(*final(g)) == graph_edges(*old(g)),
{
    g[NodeIndex::new(i)] = n;
}

/// `petgraph::Graph::node_count`.
#[verifier::external_body]
fn graph_node_count(g: &Graph<CompanyNode, EdgeRelation, Directed, u32>) -> (n: usize)
    ensures
        n == graph_nodes(*g).len(),
{
    g.node_count()
}

/// `petgraph::Graph::edge_count`.
#[verifier::external_body]
fn graph_edge_count(g: &Graph<CompanyNode, EdgeRelation, Directed, u32>) -> (n: usize)
    ensures
        n == graph_edges(*g).len(),
{
    g.edge_count()
}

/// `petgraph::Graph::raw_edges`: source, target and weight of edge `e`.
#[verifier::external_body]
fn graph_edge(g: &Graph<CompanyNode, EdgeRelation, Directed, u32>, e: usize) -> (r: (usize, usize, &EdgeRelation))
    requires
        e < graph_edges(*g).len(),
    ensures
        r.0 as nat == graph_edges(*g)[e as int].0,
        r.1 as nat == graph_edges(*g)[e as int].1,
        *r.2 == graph_edges(*g)[e as int].2,
{
    let edge = &g.raw_edges()[e];
    (edge.source().index(), edge.target().index(), &edge.weight)
}

/// The corporate network graph.
pub struct CorporateNetwork {
    graph: Graph<CompanyNode, EdgeRelation, Directed, u32>,
    /// Company number → node index, one entry per node in node order.
    node_map: Vec<(String, usize)>,
}

/// The node carries the company number `num`.
pub open spec fn numbered(n: CompanyNode, num: Seq<char>) -> bool {
    n.company_number@ == num
}

/// Some node of `ns` carries the company number `num`.
pub open spec fn has_number(ns: Seq<CompanyNode>, num: Seq<char>) -> bool {
    exists|j: int| 0 <= j < ns.len() && numbered(#[trigger] ns[j], num)
}

/// A placeholder node for a company known only by number and name.
pub open spec fn is_placeholder(n: CompanyNode, num: Seq<char>, name: Seq<char>) -> bool {
    &&& n.company_number@ == num
    &&& n.company_name@ == name
    &&& n.status@ == "unknown"@
    &&& n.risk_level == RiskLevel::Low
    &&& n.risk_signals@.len() == 0
    &&& n.sic_codes@.len() == 0
    &&& n.date_of_creation is None
}

/// The node describes company `num` as the profile `p` does.
pub open spec fn describes(n: CompanyNode, num: Seq<char>, p: CompanyProfile) -> bool {
    &&& n.company_number@ == num
    &&& n.company_name@ == p.spec_display_name()
    &&& n.status@ == text::opt_or(p.company_status, Seq::empty())
    &&& text::views(n.sic_codes@) == match p.sic_codes {
        Some(c) => text::views(c@),
        None => Seq::empty(),
    }
    &&& n.date_of_creation == p.date_of_creation
    &&& text::views(n.risk_signals@) == risk_signals(p)
    &&& n.risk_level == risk_level_of(risk_signals(p))
}

/// The PSC makes its registered holder a parent: active, corporate, with a registration number.
pub open spec fn is_owner(p: Psc) -> bool {
    p.spec_is_active() && p.spec_is_corporate() && p.spec_registration_number() is Some
}

/// The name a placeholder for a PSC's registered company gets: the PSC's
/// name, or else its registration number.
pub open spec fn parent_label(p: Psc) -> Seq<char> {
    match p.name {
        Some(n) => n@,
        None => p.spec_registration_number().unwrap(),
    }
}

/// `ps[k]` is the first owning PSC of `ps` registered as company `num`.
pub open spec fn first_owner_of(ps: Seq<Psc>, k: int, num: Seq<char>) -> bool {
    &&& 0 <= k < ps.len()
    &&& is_owner(ps[k])
    &&& ps[k].spec_registration_number() == Some(num)
    &&& forall|k2: int|
        0 <= k2 < k ==> !(is_owner(#[trigger] ps[k2]) && ps[k2].spec_registration_number() == Some(num))
}

/// A node that taking in the PSCs `ps` of company `child` added to the nodes
/// `ns0`: its company was not there before, and it is a placeholder named by
/// its number (for `child` itself) or by the first owning PSC registered as it.
pub open spec fn pscs_placeholder(ns0: Seq<CompanyNode>, n: CompanyNode, child: Seq<char>, ps: Seq<Psc>) -> bool {
    let num = n.company_number@;
    &&& !has_number(ns0, num)
    &&& if num == child {
        is_placeholder(n, child, child)
    } else {
        exists|k: int| #[trigger] first_owner_of(ps, k, num) && is_placeholder(n, num, parent_label(ps[k]))
    }
}

/// A node that adding a shared director of companies `a` and `b` added to the
/// nodes `ns0`: one of the two, not there before, as a placeholder named by its number.
pub open spec fn director_placeholder(ns0: Seq<CompanyNode>, n: CompanyNode, a: Seq<char>, b: Seq<char>) -> bool {
    let num = n.company_number@;
    &&& num == a || num == b
    &&& !has_number(ns0, num)
    &&& is_placeholder(n, num, num)
}

/// The owning PSCs among `ps`, in order.
pub open spec fn owners(ps: Seq<Psc>) -> Seq<Psc>
    decreases ps.len(),
{
    if ps.len() == 0 {
        Seq::empty()
    } else if is_owner(ps.last()) {
        owners(ps.drop_last()).push(ps.last())
    } else {
        owners(ps.drop_last())
    }
}

impl CorporateNetwork {
    /// The nodes, in index order.
    pub closed spec fn nodes(&self) -> Seq<CompanyNode> {
        graph_nodes(self.graph)
    }

    /// The edges, in index order.
    pub closed spec fn edges(&self) -> Seq<(nat, nat, EdgeRelation)> {
        graph_edges(self.graph)
    }

    /// Well-formedness: the index mirrors the nodes, company numbers are distinct,
    /// and every edge joins two nodes and has a label.
    pub closed spec fn wf(&self) -> bool {
        let ns = self.nodes();
        let es = self.edges();
        &&& self.node_map@.len() == ns.len()
        &&& forall|j: int|
            #![trigger self.node_map@[j]]
            0 <= j < ns.len() ==> self.node_map@[j].1 == j && self.node_map@[j].0@
                == ns[j].company_number@
        &&& forall|i: int, j: int|
            0 <= i < ns.len() && 0 <= j < ns.len() && i != j ==> #[trigger] ns[i].company_number@
                != #[trigger] ns[j].company_number@
        &&& forall|e: int| 0 <= e < es.len() ==> #[trigger] es[e].0 < ns.len() && es[e].1 < ns.len()
            && es[e].2.label_defined()
    }

    pub fn new() -> (r: Self)
        ensures
            r.wf(),
            r.nodes().len() == 0,
            r.edges().len() == 0,
    {
        CorporateNetwork { graph: graph_new(), node_map: Vec::new() }
    }

    /// The index of the node for `company_number`, if the network has one.
    pub fn find(&self, company_number: &str) -> (r: Option<usize>)
        requires
            self.wf(),
        ensures
            r is Some == has_number(self.nodes(), company_number@),
            r matches Some(i) ==> i < self.nodes().len() && numbered(self.nodes()[i as int], company_number@),
            r matches Some(i) ==> forall|j: int|
                0 <= j < self.nodes().len() && numbered(#[trigger] self.nodes()[j], company_number@) ==> j == i,
    {
        let mut i: usize = 0;
        while i < self.node_map.len()
            invariant
                self.wf(),
                i <= self.node_map@.len(),
                forall|j: int| 0 <= j < i ==> !numbered(#[trigger] self.nodes()[j], company_number@),
            decreases self.node_map@.len() - i,
        {
            let ghost entry = self.node_map@[i as int];
            assert(entry.0@ == self.nodes()[i as int].company_number@);
            if text::str_eq(self.node_map[i].0.as_str(), company_number) {
                return Some(self.node_map[i].1);
            }
            i += 1;
        }
        None
    }

    /// Add (or update) a company node from a profile; returns its index.
    pub fn add_company(&mut self, company_number: &str, profile: &CompanyProfile) -> (idx: usize)
        requires
            old(self).wf(),
            old(self).nodes().len() + 1 < u32::MAX,
        ensures
            final(self).wf(),
            idx < final(self).nodes().len(),
            describes(final(self).nodes()[idx as int], company_number@, *profile),
            has_number(old(self).nodes(), company_number@) ==> final(self).nodes().len() == old(self).nodes().len(),
            !has_number(old(self).nodes(), company_number@) ==> final(self).nodes().len() == old(self).nodes().len() + 1
                && idx == old(self).nodes().len(),
            forall|j: int| 0 <= j < old(self).nodes().len() && j != idx ==> #[trigger] final(self).nodes()[j] == old(self).nodes()[j],
            final(self).edges() == old(self).edges(),
    {
        let (risk_level, signals) = assess_risk(profile);
        let status = match &profile.company_status {
            Some(s) => s.clone(),
            None => String::new(),
        };
        let sic_codes = match &profile.sic_codes {
            Some(c) => c.clone(),
            None => Vec::new(),
        };
        proof {
            match &profile.sic_codes {
                Some(c) => {
                    assert(text::views(sic_codes@) =~= text::views(c@));
                },
                None => {
                    assert(text::views(sic_codes@) =~= Seq::<Seq<char>>::empty());
                },
            }
        }
        let node = CompanyNode {
            company_number: text::owned(company_number),
            company_name: profile.display_name(),
            status,
            risk_level,
            risk_signals: signals,
            sic_codes,
            date_of_creation: profile.date_of_creation.clone(),
        };
        match self.find(company_number) {
            Some(idx) => {
                let ghost before = self.nodes();
                graph_set_node(&mut self.graph, idx, node);
                proof {
                    let ns = self.nodes();
                    assert forall|i: int, j: int|
                        0 <= i < ns.len() && 0 <= j < ns.len() && i != j implies #[trigger] ns[i].company_number@
                            != #[trigger] ns[j].company_number@ by {
                        assert(ns[i].company_number@ == before[i].company_number@);
                        assert(ns[j].company_number@ == before[j].company_number@);
                    }
                    assert forall|j: int| 0 <= j < ns.len() implies self.node_map@[j].1 == j
                        && self.node_map@[j].0@ == ns[j].company_number@ by {
                        assert(ns[j].company_number@ == before[j].company_number@);
                        assert(self.node_map@[j] == old(self).node_map@[j]);
                    }
                    assert forall|e: int| 0 <= e < self.edges().len() implies #[trigger] self.edges()[e].0
                        < self.nodes().len() && self.edges()[e].1 < self.nodes().len()
                        && self.edges()[e].2.label_defined() by {
                        assert(self.edges()[e] == old(self).edges()[e]);
                        assert(old(self).edges()[e].0 < old(self).nodes().len());
                        assert(old(self).edges()[e].1 < old(self).nodes().len());
                        assert(old(self).edges()[e].2.label_defined());
                    }
                }
                idx
            },
            None => {
                let ghost before = self.nodes();
                let idx = graph_add_node(&mut self.graph, node);
                self.node_map.push((text::owned(company_number), idx));
                proof {
                    let ns = self.nodes();
                    assert forall|i: int, j: int|
                        0 <= i < ns.len() && 0 <= j < ns.len() && i != j implies #[trigger] ns[i].company_number@
                            != #[trigger] ns[j].company_number@ by {
                        if i == idx {
                            assert(!numbered(before[j], company_number@));
                        } else if j == idx {
                            assert(!numbered(before[i], company_number@));
                        }
                    }
                    assert forall|j: int| 0 <= j < ns.len() implies self.node_map@[j].1 == j
                        && self.node_map@[j].0@ == ns[j].company_number@ by {
                        if j < idx {
                            assert(ns[j] == before[j]);
                            assert(self.node_map@[j] == old(self).node_map@[j]);
                        }
                    }
                    assert forall|e: int| 0 <= e < self.edges().len() implies #[trigger] self.edges()[e].0
                        < self.nodes().len() && self.edges()[e].1 < self.nodes().len()
                        && self.edges()[e].2.label_defined() by {
                        assert(self.edges()[e] == old(self).edges()[e]);
                        assert(old(self).edges()[e].0 < old(self).nodes().len());
                        assert(old(self).edges()[e].1 < old(self).nodes().len());
                        assert(old(self).edges()[e].2.label_defined());
                    }
                }
                idx
            },
        }
    }

    /// Add a placeholder node for a company we know the number of but haven't fetched yet;
    /// returns the index of the node for that number.
    pub fn ensure_node(&mut self, company_number: &str, name: &str) -> (idx: usize)
        requires
            old(self).wf(),
            old(self).nodes().len() + 1 < u32::MAX,
        ensures
            final(self).wf(),
            idx < final(self).nodes().len(),
            numbered(final(self).nodes()[idx as int], company_number@),
            has_number(old(self).nodes(), company_number@) ==> final(self).nodes() == old(self).nodes(),
            !has_number(old(self).nodes(), company_number@) ==> final(self).nodes() == old(self).nodes().push(
                final(self).nodes()[idx as int],
            ) && is_placeholder(final(self).nodes()[idx as int], company_number@, name@),
            final(self).nodes().len() >= old(self).nodes().len(),
            final(self).nodes().len() <= old(self).nodes().len() + 1,
            forall|j: int| 0 <= j < old(self).nodes().len() ==> #[trigger] final(self).nodes()[j] == old(self).nodes()[j],
            final(self).edges() == old(self).edges(),
    {
        match self.find(company_number) {
            Some(idx) => idx,
            None => {
                let node = CompanyNode {
                    company_number: text::owned(company_number),
                    company_name: text::owned(name),
                    status: text::owned("unknown"),
                    risk_level: RiskLevel::Low,
                    risk_signals: Vec::new(),
                    sic_codes: Vec::new(),
                    date_of_creation: None,
                };
                let ghost before = self.nodes();
                let idx = graph_add_node(&mut self.graph, node);
                self.node_map.push((text::owned(company_number), idx));
                proof {
                    let ns = self.nodes();
                    assert forall|i: int, j: int|
                        0 <= i < ns.len() && 0 <= j < ns.len() && i != j implies #[trigger] ns[i].company_number@
                            != #[trigger] ns[j].company_number@ by {
                        if i == idx {
                            assert(!numbered(before[j], company_number@));
                        } else if j == idx {
                            assert(!numbered(before[i], company_number@));
                        }
                    }
                    assert forall|j: int| 0 <= j < ns.len() implies self.node_map@[j].1 == j
                        && self.node_map@[j].0@ == ns[j].company_number@ by {
                        if j < idx {
                            assert(ns[j] == before[j]);
                            assert(self.node_map@[j] == old(self).node_map@[j]);
                        }
                    }
                    assert forall|e: int| 0 <= e < self.edges().len() implies #[trigger] self.edges()[e].0
                        < self.nodes().len() && self.edges()[e].1 < self.nodes().len()
                        && self.edges()[e].2.label_defined() by {
                        assert(self.edges()[e] == old(self).edges()[e]);
                        assert(old(self).edges()[e].0 < old(self).nodes().len());
                        assert(old(self).edges()[e].1 < old(self).nodes().len());
                        assert(old(self).edges()[e].2.label_defined());
                    }
                }
                idx
            },
        }
    }

    /// Process PSC data and add ownership edges: for every active corporate PSC with a
    /// registration number, an edge from the PSC's company to this company.
    pub fn process_pscs(&mut self, company_number: &str, pscs: &Vec<Psc>)
        requires
            old(self).wf(),
            old(self).nodes().len() + pscs@.len() + 2 < u32::MAX,
            old(self).edges().len() + pscs@.len() < u32::MAX,
        ensures
            final(self).wf(),
            final(self).nodes().len() <= old(self).nodes().len() + 1 + owners(pscs@).len(),
            forall|j: int| 0 <= j < old(self).nodes().len() ==> #[trigger] final(self).nodes()[j] == old(self).nodes()[j],
            has_number(final(self).nodes(), company_number@),
            forall|j: int|
                old(self).nodes().len() <= j < final(self).nodes().len() ==> #[trigger] pscs_placeholder(
                    old(self).nodes(),
                    final(self).nodes()[j],
                    company_number@,
                    pscs@,
                ),
            final(self).edges().len() == old(self).edges().len() + owners(pscs@).len(),
            forall|e: int| 0 <= e < old(self).edges().len() ==> #[trigger] final(self).edges()[e] == old(self).edges()[e],
            forall|k: int|
                0 <= k < owners(pscs@).len() ==> #[trigger] ownership_edge(
                    final(self).nodes(),
                    final(self).edges()[old(self).edges().len() + k],
                    company_number@,
                    owners(pscs@)[k],
                ),
    {
        let child = self.ensure_node(company_number, company_number);
        let ghost n0 = old(self).nodes().len();
        let ghost e0 = old(self).edges().len();
        proof {
            if !has_number(old(self).nodes(), company_number@) {
                assert(self.nodes()[n0 as int] == self.nodes()[child as int]);
            }
        }
        let mut i: usize = 0;
        while i < pscs.len()
            invariant
                self.wf(),
                i <= pscs.len(),
                n0 == old(self).nodes().len(),
                e0 == old(self).edges().len(),
                n0 + pscs@.len() + 2 < u32::MAX,
                e0 + pscs@.len() < u32::MAX,
                child < self.nodes().len(),
                self.nodes().len() >= n0,
                numbered(self.nodes()[child as int], company_number@),
                self.nodes().len() <= n0 + 1 + owners(pscs@.take(i as int)).len(),
                owners(pscs@.take(i as int)).len() <= i,
                forall|j: int| 0 <= j < n0 ==> #[trigger] self.nodes()[j] == old(self).nodes()[j],
                forall|j: int|
                    n0 <= j < self.nodes().len() ==> #[trigger] pscs_placeholder(
                        old(self).nodes(),
                        self.nodes()[j],
                        company_number@,
                        pscs@,
                    ),
                forall|k: int|
                    0 <= k < i && is_owner(#[trigger] pscs@[k]) ==> has_number(
                        self.nodes(),
                        pscs@[k].spec_registration_number().unwrap(),
                    ),
                self.edges().len() == e0 + owners(pscs@.take(i as int)).len(),
                forall|e: int| 0 <= e < e0 ==> #[trigger] self.edges()[e] == old(self).edges()[e],
                forall|k: int|
                    0 <= k < owners(pscs@.take(i as int)).len() ==> #[trigger] ownership_edge(
                        self.nodes(),
                        self.edges()[e0 + k],
                        company_number@,
                        owners(pscs@.take(i as int))[k],
                    ),
            decreases pscs.len() - i,
        {
            proof {
                assert(pscs@.take(i + 1).drop_last() =~= pscs@.take(i as int));
                assert(pscs@.take(i + 1).last() == pscs@[i as int]);
            }
            let psc = &pscs[i];
            if psc.is_active() && psc.is_corporate() {
                match psc.registration_number() {
                    Some(reg_num) => {
                        let parent_name: &str = match &psc.name {
                            Some(n) => n.as_str(),
                            None => reg_num,
                        };
                        let ghost before_nodes = self.nodes();
                        let ghost before_edges = self.edges();
                        let parent = self.ensure_node(reg_num, parent_name);
                        proof {
                            let num = reg_num@;
                            assert(is_owner(pscs@[i as int]));
                            if !has_number(before_nodes, num) {
                                let nn = self.nodes()[parent as int];
                                assert(parent as int == before_nodes.len());
                                if has_number(old(self).nodes(), num) {
                                    let j = choose|j: int| 0 <= j < old(self).nodes().len()
                                        && numbered(#[trigger] old(self).nodes()[j], num);
                                    assert(numbered(before_nodes[j], num));
                                }
                                assert(numbered(before_nodes[child as int], company_number@));
                                assert(num != company_number@);
                                assert forall|k2: int| 0 <= k2 < i implies !(is_owner(#[trigger] pscs@[k2])
                                    && pscs@[k2].spec_registration_number() == Some(num)) by {
                                    if is_owner(pscs@[k2]) && pscs@[k2].spec_registration_number() == Some(num) {
                                        assert(has_number(before_nodes, num));
                                    }
                                }
                                assert(first_owner_of(pscs@, i as int, num));
                                assert(parent_label(pscs@[i as int]) == parent_name@);
                                assert(pscs_placeholder(old(self).nodes(), nn, company_number@, pscs@));
                            }
                            assert forall|j: int| n0 <= j < self.nodes().len() implies #[trigger] pscs_placeholder(
                                old(self).nodes(),
                                self.nodes()[j],
                                company_number@,
                                pscs@,
                            ) by {
                                if j < before_nodes.len() {
                                    assert(self.nodes()[j] == before_nodes[j]);
                                }
                            }
                            assert forall|k: int| 0 <= k < i + 1 && is_owner(#[trigger] pscs@[k]) implies has_number(
                                self.nodes(),
                                pscs@[k].spec_registration_number().unwrap(),
                            ) by {
                                if k < i {
                                    let num_k = pscs@[k].spec_registration_number().unwrap();
                                    let j = choose|j: int| 0 <= j < before_nodes.len()
                                        && numbered(#[trigger] before_nodes[j], num_k);
                                    assert(numbered(self.nodes()[j], num_k));
                                } else {
                                    assert(numbered(self.nodes()[parent as int], num));
                                }
                            }
                        }
                        let natures = match &psc.natures_of_control {
                            Some(n) => n.clone(),
                            None => Vec::new(),
                        };
                        proof {
                            match &psc.natures_of_control {
                                Some(n) => {
                                    assert(text::views(natures@) =~= text::views(n@));
                                },
                                None => {
                                    assert(text::views(natures@) =~= Seq::<Seq<char>>::empty());
                                },
                            }
                        }
                        let ghost rel = EdgeRelation::PscOwnership { natures };
                        graph_add_edge(&mut self.graph, parent, child, EdgeRelation::PscOwnership { natures });
                        proof {
                            let own = owners(pscs@.take(i + 1));
                            let own0 = owners(pscs@.take(i as int));
                            assert(own == own0.push(pscs@[i as int]));
                            let ns = self.nodes();
                            assert(ns[child as int] == before_nodes[child as int]);
                            assert forall|j: int| 0 <= j < n0 implies #[trigger] self.nodes()[j] == old(self).nodes()[j] by {
                                assert(self.nodes()[j] == before_nodes[j]);
                            }
                            let knew = own0.len() as int;
                            assert(own[knew] == pscs@[i as int]);
                            assert(self.edges()[e0 + knew] == (parent as nat, child as nat, rel));
                            assert(Some(ns[parent as int].company_number@) == pscs@[i as int].spec_registration_number());
                            assert(ns[child as int].company_number@ == company_number@);
                            assert(ownership_edge(ns, self.edges()[e0 + knew], company_number@, own[knew]));
                            assert forall|k: int| 0 <= k < own.len() implies #[trigger] ownership_edge(
                                ns,
                                self.edges()[e0 + k],
                                company_number@,
                                own[k],
                            ) by {
                                if k < own0.len() {
                                    assert(own[k] == own0[k]);
                                    assert(self.edges()[e0 + k] == before_edges[e0 + k]);
                                    assert(ownership_edge(before_nodes, before_edges[e0 + k], company_number@, own0[k]));
                                    let ed = before_edges[e0 + k];
                                    assert(ns[ed.0 as int] == before_nodes[ed.0 as int]);
                                    assert(ns[ed.1 as int] == before_nodes[ed.1 as int]);
                                }
                            }
                            assert forall|e: int| 0 <= e < self.edges().len() implies #[trigger] self.edges()[e].0
                                < self.nodes().len() && self.edges()[e].1 < self.nodes().len()
                                && self.edges()[e].2.label_defined() by {
                                if e < before_edges.len() {
                                    assert(self.edges()[e] == before_edges[e]);
                                    assert(before_edges[e].0 < before_nodes.len());
                                    assert(before_edges[e].1 < before_nodes.len());
                                    assert(before_edges[e].2.label_defined());
                                }
                            }
                        }
                    },
                    None => {},
                }
            }
            i += 1;
        }
        proof {
            assert(pscs@.take(i as int) =~= pscs@);
        }
    }

    /// Add a shared director edge between two companies.
    pub fn add_shared_director(&mut self, company_a: &str, company_b: &str, director_name: &str)
        requires
            old(self).wf(),
            old(self).nodes().len() + 3 < u32::MAX,
            old(self).edges().len() + 1 < u32::MAX,
        ensures
            final(self).wf(),
            forall|j: int| 0 <= j < old(self).nodes().len() ==> #[trigger] final(self).nodes()[j] == old(self).nodes()[j],
            has_number(final(self).nodes(), company_a@),
            has_number(final(self).nodes(), company_b@),
            forall|j: int|
                old(self).nodes().len() <= j < final(self).nodes().len() ==> #[trigger] director_placeholder(
                    old(self).nodes(),
                    final(self).nodes()[j],
                    company_a@,
                    company_b@,
                ),
            final(self).edges().len() == old(self).edges().len() + 1,
            forall|e: int| 0 <= e < old(self).edges().len() ==> #[trigger] final(self).edges()[e] == old(self).edges()[e],
            director_edge(final(self).nodes(), final(self).edges().last(), company_a@, company_b@, director_name@),
    {
        let ghost n0 = self.nodes();
        let a = self.ensure_node(company_a, company_a);
        let ghost n1 = self.nodes();
        let b = self.ensure_node(company_b, company_b);
        let ghost before_edges = self.edges();
        let ghost n2 = self.nodes();
        assert(forall|e: int| 0 <= e < before_edges.len() ==> #[trigger] before_edges[e].0 < n2.len() && before_edges[e].1 < n2.len());
        graph_add_edge(&mut self.graph, a, b, EdgeRelation::SharedDirector { name: text::owned(director_name) });
        proof {
            assert(self.nodes()[a as int] == n1[a as int]);
            assert forall|e: int| 0 <= e < self.edges().len() implies #[trigger] self.edges()[e].0
                < self.nodes().len() && self.edges()[e].1 < self.nodes().len()
                && self.edges()[e].2.label_defined() by {
                if e < before_edges.len() {
                    assert(self.edges()[e] == before_edges[e]);
                    assert(before_edges[e].0 < n2.len());
                    assert(before_edges[e].1 < n2.len());
                    assert(before_edges[e].2.label_defined());
                }
            }
            assert forall|j: int| 0 <= j < old(self).nodes().len() implies #[trigger] self.nodes()[j] == old(self).nodes()[j] by {
                assert(n1[j] == n0[j]);
            }
            assert forall|j: int| n0.len() <= j < self.nodes().len() implies #[trigger] director_placeholder(
                n0,
                self.nodes()[j],
                company_a@,
                company_b@,
            ) by {
                let num = self.nodes()[j].company_number@;
                if j < n1.len() {
                    assert(self.nodes()[j] == n1[j]);
                    assert(j == n0.len() && j == a as int);
                } else {
                    assert(j == n1.len() && j == b as int);
                    if has_number(n0, num) {
                        let w = choose|w: int| 0 <= w < n0.len() && numbered(#[trigger] n0[w], num);
                        assert(numbered(n1[w], num));
                    }
                }
            }
        }
    }

    /// In a well-formed network every edge joins two nodes and has a label.
    pub proof fn lemma_edge_wf(&self, e: int)
        requires
            self.wf(),
            0 <= e < self.edges().len(),
        ensures
            self.edges()[e].0 < self.nodes().len(),
            self.edges()[e].1 < self.nodes().len(),
            self.edges()[e].2.label_defined(),
    {
    }

    /// In a well-formed network no two nodes carry the same company number.
    pub proof fn lemma_numbers_distinct(&self, i: int, j: int)
        requires
            self.wf(),
            0 <= i < self.nodes().len(),
            0 <= j < self.nodes().len(),
            i != j,
        ensures
            self.nodes()[i].company_number@ != self.nodes()[j].company_number@,
    {
    }

    pub fn node_count(&self) -> (n: usize)
        ensures
            n == self.nodes().len(),
    {
        graph_node_count(&self.graph)
    }

    pub fn edge_count(&self) -> (n: usize)
        ensures
            n == self.edges().len(),
    {
        graph_edge_count(&self.graph)
    }

    /// The node of company `company_number`, if the network has one.
    pub fn get_node(&self, company_number: &str) -> (r: Option<&CompanyNode>)
        requires
            self.wf(),
        ensures
            r is Some == has_number(self.nodes(), company_number@),
            r matches Some(n) ==> numbered(*n, company_number@) && self.nodes().contains(*n),
            r matches Some(n) ==> forall|j: int|
                0 <= j < self.nodes().len() && numbered(#[trigger] self.nodes()[j], company_number@) ==> *n
                    == self.nodes()[j],
    {
        match self.find(company_number) {
            Some(i) => Some(graph_node(&self.graph, i)),
            None => None,
        }
    }

    /// The node at index `i`.
    pub fn node_at(&self, i: usize) -> (n: &CompanyNode)
        requires
            i < self.nodes().len(),
        ensures
            *n == self.nodes()[i as int],
    {
        graph_node(&self.graph, i)
    }

    /// Source index, target index and relation of edge `e`.
    pub fn edge_at(&self, e: usize) -> (r: (usize, usize, &EdgeRelation))
        requires
            e < self.edges().len(),
        ensures
            r.0 as nat == self.edges()[e as int].0,
            r.1 as nat == self.edges()[e as int].1,
            *r.2 == self.edges()[e as int].2,
    {
        graph_edge(&self.graph, e)
    }

    /// Get all company numbers in the network, in node order.
    pub fn all_companies(&self) -> (r: Vec<String>)
        ensures
            r@.len() == self.nodes().len(),
            forall|j: int| 0 <= j < r@.len() ==> #[trigger] r@[j]@ == self.nodes()[j].company_number@,
    {
        let n = graph_node_count(&self.graph);
        let mut r: Vec<String> = Vec::new();
        let mut i: usize = 0;
        while i < n
            invariant
                n == self.nodes().len(),
                i <= n,
                r@.len() == i,
                forall|j: int| 0 <= j < i ==> #[trigger] r@[j]@ == self.nodes()[j].company_number@,
            decreases n - i,
        {
            let node = graph_node(&self.graph, i);
            r.push(node.company_number.clone());
            i += 1;
        }
        r
    }
}

/// Edge `e` runs from the node of the PSC's registered company to the node of
/// company `child`, labelled with the PSC's natures of control.
pub open spec fn ownership_edge(ns: Seq<CompanyNode>, e: (nat, nat, EdgeRelation), child: Seq<char>, p: Psc) -> bool {
    &&& e.0 < ns.len()
    &&& e.1 < ns.len()
    &&& Some(ns[e.0 as int].company_number@) == p.spec_registration_number()
    &&& ns[e.1 as int].company_number@ == child
    &&& e.2 matches EdgeRelation::PscOwnership { natures } && text::views(natures@) == match p.natures_of_control {
        Some(n) => text::views(n@),
        None => Seq::empty(),
    }
}

/// Edge `e` runs from company `a` to company `b`, labelled with the director's name.
pub open spec fn director_edge(ns: Seq<CompanyNode>, e: (nat, nat, EdgeRelation), a: Seq<char>, b: Seq<char>, name: Seq<char>) -> bool {
    &&& e.0 < ns.len()
    &&& e.1 < ns.len()
    &&& ns[e.0 as int].company_number@ == a
    &&& ns[e.1 as int].company_number@ == b
    &&& e.2 matches EdgeRelation::SharedDirector { name: n } && n@ == name
}

} // verus!
