//! Decisions taken while investigating a company: which accounts filings to
//! extract automatically, what stands in for a document that could not be
//! read, and how a company group is searched for subsidiaries one candidate
//! at a time.
use vstd::prelude::*;
use crate::text;
use crate::group::SubsidiaryInfo;
use crate::types::{CompanySearchResult, FilingHistoryItem, Psc};

verus! {

/// An accounts filing whose document can be downloaded.
#[derive(Debug, Clone)]
pub struct AccountsFiling {
    pub filing_id: String,
    pub document_metadata_url: String,
    pub description: String,
}

/// The downloadable accounts filing that a filing-history item is, if it is one.
pub open spec fn accounts_filing(f: FilingHistoryItem) -> Option<(Seq<char>, Seq<char>, Seq<char>)> {
    if text::opt_is(f.category, "accounts"@) && f.transaction_id is Some && f.links is Some
        && f.links->0.document_metadata is Some {
        Some((f.transaction_id->0@, f.links->0.document_metadata->0@, text::opt_or(f.description, "accounts"@)))
    } else {
        None
    }
}

/// The downloadable accounts filings among `fs`, in order.
pub open spec fn accounts_filings(fs: Seq<FilingHistoryItem>) -> Seq<(Seq<char>, Seq<char>, Seq<char>)>
    decreases fs.len(),
{
    if fs.len() == 0 {
        Seq::empty()
    } else {
        let prev = accounts_filings(fs.drop_last());
        match accounts_filing(fs.last()) {
            Some(a) => prev.push(a),
            None => prev,
        }
    }
}

pub open spec fn accounts_view(v: Seq<AccountsFiling>) -> Seq<(Seq<char>, Seq<char>, Seq<char>)> {
    v.map_values(|a: AccountsFiling| (a.filing_id@, a.document_metadata_url@, a.description@))
}

/// The accounts filings of a filing history that have a document to
/// download: category `accounts`, a transaction id and a document link (the
/// description defaults to `accounts`).
pub fn accounts_candidates(filings: &Vec<FilingHistoryItem>) -> (r: Vec<AccountsFiling>)
    ensures
        accounts_view(r@) == accounts_filings(filings@),
{
    let mut r: Vec<AccountsFiling> = Vec::new();
    let mut i: usize = 0;
    while i < filings.len()
        invariant
            i <= filings.len(),
            accounts_view(r@) == accounts_filings(filings@.take(i as int)),
        decreases filings.len() - i,
    {
        proof {
            assert(filings@.take(i + 1).drop_last() =~= filings@.take(i as int));
            assert(filings@.take(i + 1).last() == filings@[i as int]);
        }
        let f = &filings[i];
        let is_accounts = match &f.category {
            Some(c) => text::str_eq(c.as_str(), "accounts"),
            None => false,
        };
        if is_accounts {
            match (&f.transaction_id, &f.links) {
                (Some(tid), Some(links)) => match &links.document_metadata {
                    Some(url) => {
                        let mut desc = String::new();
                        text::push_opt_or(&mut desc, &f.description, "accounts");
                        let ghost before = accounts_view(r@);
                        let a = AccountsFiling {
                            filing_id: tid.clone(),
                            document_metadata_url: url.clone(),
                            description: desc,
                        };
                        let ghost av = (a.filing_id@, a.document_metadata_url@, a.description@);
                        r.push(a);
                        assert(accounts_view(r@) =~= before.push(av));
                    },
                    None => {},
                },
                _ => {},
            }
        }
        i = i + 1;
    }
    assert(filings@.take(filings.len() as int) =~= filings@);
    r
}

/// The first `limit` candidates that are not cached, in order.
pub open spec fn first_uncached(cands: Seq<(Seq<char>, Seq<char>, Seq<char>)>, cached: Seq<bool>, limit: nat) -> Seq<(Seq<char>, Seq<char>, Seq<char>)>
    decreases cands.len(),
{
    if cands.len() == 0 {
        Seq::empty()
    } else {
        let prev = first_uncached(cands.drop_last(), cached, limit);
        if prev.len() < limit && !cached[cands.len() - 1] { prev.push(cands.last()) } else { prev }
    }
}

/// The filings chosen for extraction are candidates that were not cached,
/// in their order, and there are at most `limit` of them.
pub proof fn chosen_filings_are_uncached(cands: Seq<(Seq<char>, Seq<char>, Seq<char>)>, cached: Seq<bool>, limit: nat)
    ensures
        first_uncached(cands, cached, limit).len() <= limit,
        forall|k: int| 0 <= k < first_uncached(cands, cached, limit).len() ==> exists|i: int| 0 <= i < cands.len()
            && !cached[i] && #[trigger] first_uncached(cands, cached, limit)[k] == cands[i],
    decreases cands.len(),
{
    if cands.len() > 0 {
        let c0 = cands.drop_last();
        chosen_filings_are_uncached(c0, cached, limit);
        let prev = first_uncached(c0, cached, limit);
        let r = first_uncached(cands, cached, limit);
        assert forall|k: int| 0 <= k < r.len() implies exists|i: int| 0 <= i < cands.len()
            && !cached[i] && #[trigger] r[k] == cands[i] by {
            if k < prev.len() {
                assert(r[k] == prev[k]);
                let i = choose|i: int| 0 <= i < c0.len() && !cached[i] && #[trigger] prev[k] == c0[i];
                assert(cands[i] == c0[i]);
            } else {
                assert(r[k] == cands[cands.len() - 1]);
            }
        }
    }
}

/// The most accounts filings extracted automatically in one investigation.
pub const AUTO_EXTRACT_LIMIT: usize = 10;

/// The accounts filings to extract automatically: the first ten candidates
/// whose text is not cached (`cached[i]` tells whether candidate `i` is).
pub fn accounts_to_extract(candidates: Vec<AccountsFiling>, cached: &Vec<bool>) -> (r: Vec<AccountsFiling>)
    requires
        cached@.len() == candidates@.len(),
    ensures
        accounts_view(r@) == first_uncached(accounts_view(candidates@), cached@, AUTO_EXTRACT_LIMIT as nat),
        r@.len() <= AUTO_EXTRACT_LIMIT,
{
    let ghost cv = accounts_view(candidates@);
    let mut r: Vec<AccountsFiling> = Vec::new();
    let mut i: usize = 0;
    while i < candidates.len()
        invariant
            i <= candidates.len() == cached@.len(),
            cv == accounts_view(candidates@),
            accounts_view(r@) == first_uncached(cv.take(i as int), cached@, AUTO_EXTRACT_LIMIT as nat),
            r@.len() <= AUTO_EXTRACT_LIMIT,
        decreases candidates.len() - i,
    {
        proof {
            assert(cv.take(i + 1).drop_last() =~= cv.take(i as int));
            assert(cv.take(i + 1).last() == cv[i as int]);
        }
        if r.len() < AUTO_EXTRACT_LIMIT && !cached[i] {
            let ghost before = accounts_view(r@);
            let c = &candidates[i];
            let a = AccountsFiling {
                filing_id: c.filing_id.clone(),
                document_metadata_url: c.document_metadata_url.clone(),
                description: c.description.clone(),
            };
            r.push(a);
            assert(accounts_view(r@) =~= before.push(cv[i as int]));
        }
        i = i + 1;
    }
    assert(cv.take(candidates.len() as int) =~= cv);
    r
}

/// The text kept for an accounts filing whose download failed.
pub fn extraction_failed_text(description: &str, error: &str) -> (t: String)
    ensures
        t@ == "[EXTRACTION FAILED: "@ + description@ + " — "@ + error@ + "]"@,
{
    let mut t = text::owned("[EXTRACTION FAILED: ");
    text::push_str(&mut t, description);
    text::push_str(&mut t, " — ");
    text::push_str(&mut t, error);
    text::push_str(&mut t, "]");
    t
}

/// The text kept for a filing whose download failed.
pub fn download_failed_text(error: &str) -> (t: String)
    ensures
        t@ == "[Download failed: "@ + error@ + "]"@,
{
    let mut t = text::owned("[Download failed: ");
    text::push_str(&mut t, error);
    text::push_str(&mut t, "]");
    t
}

// ───────────────────────────── group discovery ─────────────────────────────

/// One of the PSCs is an active corporate PSC registered under `parent`.
pub open spec fn names_parent(pscs: Seq<Psc>, parent: Seq<char>) -> bool {
    exists|i: int| 0 <= i < pscs.len() && #[trigger] pscs[i].spec_is_corporate() && pscs[i].spec_is_active()
        && pscs[i].spec_registration_number() == Some(parent)
}

/// Whether one of `pscs` is an active corporate PSC registered under `parent`.
pub fn has_parent_psc(pscs: &Vec<Psc>, parent: &str) -> (b: bool)
    ensures
        b == names_parent(pscs@, parent@),
{
    let mut i: usize = 0;
    while i < pscs.len()
        invariant
            i <= pscs.len(),
            forall|j: int| 0 <= j < i ==> !(#[trigger] pscs@[j].spec_is_corporate() && pscs@[j].spec_is_active()
                && pscs@[j].spec_registration_number() == Some(parent@)),
        decreases pscs.len() - i,
    {
        let p = &pscs[i];
        if p.is_corporate() && p.is_active() {
            match p.registration_number() {
                Some(r) => {
                    if text::str_eq(r, parent) {
                        return true;
                    }
                },
                None => {},
            }
        }
        i = i + 1;
    }
    false
}

/// The most subsidiaries looked for in one group search.
pub const SUBSIDIARY_LIMIT: usize = 10;

/// What the group search needs next.
#[derive(Debug)]
pub enum GroupSearchStep {
    /// Fetch the PSCs of the candidate at `index` (shown as `label`) and
    /// report them with `record_pscs`.
    CheckPscs { index: usize, company_number: String, label: String },
    /// The search is over.
    Done,
}

/// A search for the subsidiaries of `parent_number` among companies found by
/// its name: each candidate (other than the parent) is checked for an active
/// corporate PSC registered under the parent's number, until the candidates
/// run out or ten subsidiaries are found.
pub struct GroupSearch {
    pub parent_number: String,
    pub candidates: Vec<CompanySearchResult>,
    /// Index of the next candidate to consider.
    pub next: usize,
    pub subsidiaries: Vec<SubsidiaryInfo>,
}

/// Candidate `i` is to be checked: it has a number other than the parent's.
pub open spec fn is_candidate(c: CompanySearchResult, parent: Seq<char>) -> bool {
    c.company_number matches Some(n) && n@ != parent
}

/// The subsidiary a candidate is, when its PSCs name the parent.
pub open spec fn subsidiary_of(c: CompanySearchResult, s: SubsidiaryInfo) -> bool {
    &&& c.company_number matches Some(n) && s.company_number@ == n@
    &&& s.company_name@ == text::opt_or(c.title, s.company_number@)
    &&& s.status@ == text::opt_or(c.company_status, "unknown"@)
}

impl GroupSearch {
    /// A search among `candidates` (company search results for the parent's name).
    pub fn new(parent_number: String, candidates: Vec<CompanySearchResult>) -> (g: Self)
        ensures
            g.parent_number == parent_number,
            g.candidates@ == candidates@,
            g.next == 0,
            g.subsidiaries@.len() == 0,
    {
        GroupSearch { parent_number, candidates, next: 0, subsidiaries: Vec::new() }
    }

    /// The next candidate to check, or `Done` once ten subsidiaries are found
    /// or no candidate is left.
    pub fn next_step(&mut self) -> (s: GroupSearchStep)
        ensures
            final(self).parent_number == old(self).parent_number,
            final(self).candidates@ == old(self).candidates@,
            final(self).subsidiaries@ == old(self).subsidiaries@,
            match s {
                GroupSearchStep::CheckPscs { index, company_number, label } => {
                    &&& old(self).subsidiaries@.len() < SUBSIDIARY_LIMIT
                    &&& old(self).next <= index < old(self).candidates@.len()
                    &&& is_candidate(old(self).candidates@[index as int], old(self).parent_number@)
                    &&& forall|j: int| old(self).next <= j < index ==> !is_candidate(#[trigger] old(self).candidates@[j], old(self).parent_number@)
                    &&& old(self).candidates@[index as int].company_number == Some(company_number)
                    &&& label@ == text::opt_or(old(self).candidates@[index as int].title, company_number@)
                    &&& final(self).next == index + 1
                },
                GroupSearchStep::Done => {
                    ||| old(self).subsidiaries@.len() >= SUBSIDIARY_LIMIT
                    ||| forall|j: int| old(self).next <= j < old(self).candidates@.len() ==> !is_candidate(#[trigger] old(self).candidates@[j], old(self).parent_number@)
                },
            },
    {
        if self.subsidiaries.len() >= SUBSIDIARY_LIMIT || self.next >= self.candidates.len() {
            return GroupSearchStep::Done;
        }
        let mut i = self.next;
        while i < self.candidates.len()
            invariant
                old(self).next <= i <= self.candidates@.len(),
                self.candidates@ == old(self).candidates@,
                self.parent_number == old(self).parent_number,
                self.subsidiaries@ == old(self).subsidiaries@,
                self.next == old(self).next,
                old(self).subsidiaries@.len() < SUBSIDIARY_LIMIT,
                forall|j: int| old(self).next <= j < i ==> !is_candidate(#[trigger] self.candidates@[j], self.parent_number@),
            decreases self.candidates@.len() - i,
        {
            match &self.candidates[i].company_number {
                Some(n) => {
                    if !text::str_eq(n.as_str(), self.parent_number.as_str()) {
                        let company_number = n.clone();
                        let mut label = String::new();
                        text::push_opt_or(&mut label, &self.candidates[i].title, company_number.as_str());
                        self.next = i + 1;
                        return GroupSearchStep::CheckPscs { index: i, company_number, label };
                    }
                },
                None => {},
            }
            i = i + 1;
        }
        self.next = i;
        GroupSearchStep::Done
    }

    /// Report the PSCs of the candidate at `index` (one that `next_step`
    /// asked for, so fewer than ten subsidiaries are known): it is recorded
    /// as a subsidiary when they name the parent. No more than ten are ever
    /// recorded.
    pub fn record_pscs(&mut self, index: usize, pscs: &Vec<Psc>)
        requires
            index < old(self).candidates@.len(),
            old(self).candidates@[index as int].company_number is Some,
            old(self).subsidiaries@.len() < SUBSIDIARY_LIMIT,
        ensures
            final(self).subsidiaries@.len() <= SUBSIDIARY_LIMIT,
            final(self).parent_number == old(self).parent_number,
            final(self).candidates@ == old(self).candidates@,
            final(self).next == old(self).next,
            names_parent(pscs@, old(self).parent_number@) ==> final(self).subsidiaries@.len()
                == old(self).subsidiaries@.len() + 1
                && final(self).subsidiaries@.drop_last() == old(self).subsidiaries@
                && subsidiary_of(old(self).candidates@[index as int], final(self).subsidiaries@.last()),
            !names_parent(pscs@, old(self).parent_number@) ==> final(self).subsidiaries@ == old(self).subsidiaries@,
    {
        if has_parent_psc(pscs, self.parent_number.as_str()) {
            let c = &self.candidates[index];
            match &c.company_number {
                Some(n) => {
                    let mut name = String::new();
                    text::push_opt_or(&mut name, &c.title, n.as_str());
                    let mut status = String::new();
                    text::push_opt_or(&mut status, &c.company_status, "unknown");
                    let s = SubsidiaryInfo { company_number: n.clone(), company_name: name, status };
                    let ghost before = self.subsidiaries@;
                    self.subsidiaries.push(s);
                    assert(self.subsidiaries@.drop_last() =~= before);
                },
                None => {},
            }
        }
    }
}

} // verus!
