//! Corporate group structure detected from PSC and filing data.
use vstd::prelude::*;
use crate::text;
use crate::types::{CompanyProfile, Psc, FilingHistoryItem};
use crate::network::{current_corporate_owner, is_owner, owners, owners_are_current_corporate_pscs};

verus! {

/// Role of a company within a corporate group.
#[derive(Debug, Clone, PartialEq, Eq, Structural)]
pub enum GroupRole {
    /// Has no corporate PSC above it (could be ultimate parent or standalone)
    Parent,
    /// Has a corporate PSC — this is a subsidiary
    Subsidiary,
    /// No PSC data or cannot determine
    Unknown,
}

/// Info about a parent company discovered from PSC data.
#[derive(Debug, Clone)]
pub struct ParentInfo {
    pub company_number: String,
    pub name: String,
}

/// Info about a discovered subsidiary.
#[derive(Debug, Clone)]
pub struct SubsidiaryInfo {
    pub company_number: String,
    pub company_name: String,
    pub status: String,
}

/// Group structure information for a company.
#[derive(Debug, Clone)]
pub struct GroupInfo {
    pub role: GroupRole,
    pub parent: Option<ParentInfo>,
    pub subsidiaries: Vec<SubsidiaryInfo>,
    pub has_consolidated_accounts: bool,
}

impl GroupInfo {
    /// Nothing known: unknown role, no parent, no subsidiaries, no consolidated accounts.
    pub fn unknown() -> (r: Self)
        ensures
            r.role == GroupRole::Unknown,
            r.parent is None,
            r.subsidiaries@.len() == 0,
            !r.has_consolidated_accounts,
    {
        GroupInfo {
            role: GroupRole::Unknown,
            parent: None,
            subsidiaries: Vec::new(),
            has_consolidated_accounts: false,
        }
    }
}

/// The owners found among the first `j` PSCs are the first owners found among all of them.
pub proof fn lemma_owners_prefix(ps: Seq<Psc>, j: int)
    requires
        0 <= j <= ps.len(),
    ensures
        owners(ps.take(j)).len() <= owners(ps).len(),
        forall|k: int| 0 <= k < owners(ps.take(j)).len() ==> #[trigger] owners(ps.take(j))[k] == owners(ps)[k],
    decreases ps.len() - j,
{
    if j == ps.len() {
        assert(ps.take(j) =~= ps);
    } else {
        let q = ps.drop_last();
        lemma_owners_prefix(q, j);
        assert(q.take(j) =~= ps.take(j));
    }
}

/// The parent a group detection reports: the first owning PSC, if there is one.
pub open spec fn first_owner(pscs: Seq<Psc>) -> Option<Psc> {
    if owners(pscs).len() > 0 {
        Some(owners(pscs)[0])
    } else {
        None
    }
}

/// The group information detected from PSCs: a subsidiary of the first active
/// corporate PSC with a registration number (named by that number when the
/// PSC has no name), else a parent; no subsidiaries or consolidated accounts
/// known yet.
pub open spec fn group_detected(info: GroupInfo, pscs: Seq<Psc>) -> bool {
    &&& info.subsidiaries@.len() == 0
    &&& !info.has_consolidated_accounts
    &&& match first_owner(pscs) {
        Some(p) => {
            &&& info.role == GroupRole::Subsidiary
            &&& info.parent matches Some(pi) && Some(pi.company_number@) == p.spec_registration_number()
                && pi.name@ == text::opt_or(p.name, pi.company_number@)
        },
        None => info.role == GroupRole::Parent && info.parent is None,
    }
}

/// The first of the PSCs that owns the company is the first current
/// corporate PSC with a registration number, and there is none exactly when
/// no PSC is one.
proof fn lemma_first_owner_position(ps: Seq<Psc>)
    ensures
        owners(ps).len() > 0 ==> exists|i: int|
            0 <= i < ps.len() && ps[i] == owners(ps)[0] && current_corporate_owner(#[trigger] ps[i])
                && forall|j: int| 0 <= j < i ==> !current_corporate_owner(#[trigger] ps[j]),
        owners(ps).len() == 0 ==> forall|j: int| 0 <= j < ps.len() ==> !current_corporate_owner(#[trigger] ps[j]),
    decreases ps.len(),
{
    if ps.len() > 0 {
        let q = ps.drop_last();
        lemma_first_owner_position(q);
        owners_are_current_corporate_pscs(ps);
        if owners(q).len() > 0 {
            let i = choose|i: int|
                0 <= i < q.len() && q[i] == owners(q)[0] && current_corporate_owner(#[trigger] q[i])
                    && forall|j: int| 0 <= j < i ==> !current_corporate_owner(#[trigger] q[j]);
            assert(owners(ps)[0] == owners(q)[0]);
            assert(ps[i] == q[i]);
            assert forall|j: int| 0 <= j < i implies !current_corporate_owner(#[trigger] ps[j]) by {
                assert(ps[j] == q[j]);
            }
        } else {
            assert forall|j: int| 0 <= j < q.len() implies !current_corporate_owner(#[trigger] ps[j]) by {
                assert(ps[j] == q[j]);
            }
            if is_owner(ps.last()) {
                let i = ps.len() - 1;
                assert(ps[i] == ps.last());
                assert(owners(ps)[0] == ps.last());
                assert(current_corporate_owner(owners(ps)[0]));
            } else {
                assert(owners(ps) == owners(q));
                assert(ps[ps.len() - 1] == ps.last());
                assert(!current_corporate_owner(ps.last()));
            }
        }
    }
}

/// Only a current PSC makes a parent: the parent that group detection
/// reports comes from the first PSC that has not ceased, is a corporate
/// entity and has a registration number (the parent's number is that
/// registration number); when no PSC is such, the company is reported as a
/// parent itself, with no parent above it.
pub proof fn detected_parent_is_a_current_psc(info: GroupInfo, pscs: Seq<Psc>)
    requires
        group_detected(info, pscs),
    ensures
        info.parent matches Some(pi) ==> exists|i: int|
            0 <= i < pscs.len() && current_corporate_owner(#[trigger] pscs[i])
                && pscs[i].identification.unwrap().registration_number.unwrap()@ == pi.company_number@
                && forall|j: int| 0 <= j < i ==> !current_corporate_owner(#[trigger] pscs[j]),
        (forall|j: int| 0 <= j < pscs.len() ==> !current_corporate_owner(#[trigger] pscs[j])) ==> info.role
            == GroupRole::Parent && info.parent is None,
{
    lemma_first_owner_position(pscs);
    owners_are_current_corporate_pscs(pscs);
    if owners(pscs).len() > 0 {
        assert(current_corporate_owner(owners(pscs)[0]));
    }
}

/// Detect group structure from a company's PSC data: a subsidiary of the
/// first active corporate PSC with a registration number, else a parent.
pub fn detect_group_role(pscs: &[Psc], _profile: &CompanyProfile) -> (info: GroupInfo)
    ensures
        group_detected(info, pscs@),
{
    let mut info = GroupInfo::unknown();
    let mut i: usize = 0;
    while i < pscs.len()
        invariant
            i <= pscs@.len(),
            owners(pscs@.take(i as int)).len() == 0,
            info.role == GroupRole::Unknown,
            info.parent is None,
            info.subsidiaries@.len() == 0,
            !info.has_consolidated_accounts,
        decreases pscs@.len() - i,
    {
        proof {
            assert(pscs@.take(i + 1).drop_last() =~= pscs@.take(i as int));
            assert(pscs@.take(i + 1).last() == pscs@[i as int]);
        }
        let psc = &pscs[i];
        if psc.is_active() && psc.is_corporate() {
            match psc.registration_number() {
                Some(reg_num) => {
                    let name = match &psc.name {
                        Some(n) => n.clone(),
                        None => text::owned(reg_num),
                    };
                    info.role = GroupRole::Subsidiary;
                    info.parent = Some(ParentInfo { company_number: text::owned(reg_num), name });
                    proof {
                        lemma_owners_prefix(pscs@, i + 1);
                        assert(owners(pscs@.take(i + 1))[0] == pscs@[i as int]);
                    }
                    return info;
                },
                None => {},
            }
        }
        i += 1;
    }
    proof {
        assert(pscs@.take(i as int) =~= pscs@);
    }
    info.role = GroupRole::Parent;
    info
}

/// The lowercase form of a string, as `str::to_lowercase` computes it.
pub uninterp spec fn lowercase_of(s: Seq<char>) -> Seq<char>;

/// `str::to_lowercase`: the result is named by `lowercase_of` applied to the argument.
#[verifier::external_body]
fn to_lowercase(s: &str) -> (r: String)
    ensures
        r@ == lowercase_of(s@),
{
    s.to_lowercase()
}

/// The filing description mentions group or consolidated accounts (case-insensitively).
pub open spec fn mentions_group(f: FilingHistoryItem) -> bool {
    match f.description {
        Some(d) => text::contains(lowercase_of(d@), "group"@) || text::contains(lowercase_of(d@), "consolidated"@),
        None => false,
    }
}

/// Check if a company's filings suggest it files consolidated (group) accounts.
/// This is detected from filing descriptions containing "group" keywords.
pub fn has_consolidated_filings(filings: &[FilingHistoryItem]) -> (r: bool)
    ensures
        r == exists|i: int| 0 <= i < filings@.len() && mentions_group(#[trigger] filings@[i]),
{
    let mut i: usize = 0;
    while i < filings.len()
        invariant
            i <= filings@.len(),
            forall|j: int| 0 <= j < i ==> !mentions_group(#[trigger] filings@[j]),
        decreases filings@.len() - i,
    {
        match &filings[i].description {
            Some(desc) => {
                let d = to_lowercase(desc.as_str());
                if text::str_contains(d.as_str(), "group") || text::str_contains(d.as_str(), "consolidated") {
                    assert(mentions_group(filings@[i as int]));
                    return true;
                }
            },
            None => {},
        }
        i += 1;
    }
    false
}

} // verus!
