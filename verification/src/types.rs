//! Companies House data records.
//!
//! Plain records mirroring the Companies House public-data API responses, plus
//! the small derived views (display names, status tests) that the rest of the
//! library builds on.
use vstd::prelude::*;
use crate::text;

verus! {

#[derive(Debug, Clone)]
pub struct CompanyProfile {
    pub company_name: Option<String>,
    pub company_number: Option<String>,
    pub company_status: Option<String>,
    pub company_status_detail: Option<String>,
    pub company_type: Option<String>,
    pub date_of_creation: Option<String>,
    pub date_of_cessation: Option<String>,
    pub jurisdiction: Option<String>,
    pub registered_office_address: Option<Address>,
    pub sic_codes: Option<Vec<String>>,
    pub accounts: Option<AccountsInfo>,
    pub confirmation_statement: Option<ConfirmationStatementInfo>,
    pub has_charges: Option<bool>,
    pub has_insolvency_history: Option<bool>,
    pub has_been_liquidated: Option<bool>,
}

#[derive(Debug, Clone)]
pub struct Address {
    pub address_line_1: Option<String>,
    pub address_line_2: Option<String>,
    pub locality: Option<String>,
    pub region: Option<String>,
    pub postal_code: Option<String>,
    pub country: Option<String>,
    pub premises: Option<String>,
}

#[derive(Debug, Clone)]
pub struct AccountsInfo {
    pub accounting_reference_date: Option<AccountingRefDate>,
    pub last_accounts: Option<LastAccounts>,
    pub next_due: Option<String>,
    pub next_made_up_to: Option<String>,
    pub overdue: Option<bool>,
}

#[derive(Debug, Clone)]
pub struct AccountingRefDate {
    pub day: Option<String>,
    pub month: Option<String>,
}

#[derive(Debug, Clone)]
pub struct LastAccounts {
    pub made_up_to: Option<String>,
    pub accounts_type: Option<String>,
}

#[derive(Debug, Clone)]
pub struct ConfirmationStatementInfo {
    pub last_made_up_to: Option<String>,
    pub next_due: Option<String>,
    pub next_made_up_to: Option<String>,
    pub overdue: Option<bool>,
}

#[derive(Debug, Clone)]
pub struct CompanySearchResponse {
    pub items: Option<Vec<CompanySearchResult>>,
    pub total_results: Option<u32>,
}

#[derive(Debug, Clone)]
pub struct CompanySearchResult {
    pub title: Option<String>,
    pub company_number: Option<String>,
    pub company_status: Option<String>,
    pub company_type: Option<String>,
    pub date_of_creation: Option<String>,
    pub address_snippet: Option<String>,
    pub description: Option<String>,
}

#[derive(Debug, Clone)]
pub struct OfficerListResponse {
    pub items: Option<Vec<Officer>>,
    pub total_results: Option<u32>,
    pub active_count: Option<u32>,
    pub resigned_count: Option<u32>,
}

#[derive(Debug, Clone)]
pub struct Officer {
    pub name: Option<String>,
    pub officer_role: Option<String>,
    pub appointed_on: Option<String>,
    pub resigned_on: Option<String>,
    pub date_of_birth: Option<DateOfBirth>,
    pub nationality: Option<String>,
    pub occupation: Option<String>,
    pub address: Option<Address>,
    pub links: Option<OfficerLinks>,
}

#[derive(Debug, Clone)]
pub struct DateOfBirth {
    pub month: Option<u32>,
    pub year: Option<u32>,
}

#[derive(Debug, Clone)]
pub struct OfficerLinks {
    pub self_link: Option<String>,
    pub officer: Option<OfficerAppointmentsLink>,
}

#[derive(Debug, Clone)]
pub struct OfficerAppointmentsLink {
    pub appointments: Option<String>,
}

#[derive(Debug, Clone)]
pub struct OfficerSearchResponse {
    pub items: Option<Vec<OfficerSearchResult>>,
    pub total_results: Option<u32>,
}

#[derive(Debug, Clone)]
pub struct OfficerSearchResult {
    pub title: Option<String>,
    pub description: Option<String>,
    pub appointment_count: Option<u32>,
    pub date_of_birth: Option<DateOfBirth>,
    pub address: Option<Address>,
    pub links: Option<OfficerSearchLinks>,
    pub snippet: Option<String>,
}

#[derive(Debug, Clone)]
pub struct OfficerSearchLinks {
    pub self_link: Option<String>,
}

#[derive(Debug, Clone)]
pub struct OfficerAppointmentsResponse {
    pub items: Option<Vec<OfficerAppointment>>,
    pub name: Option<String>,
    pub date_of_birth: Option<DateOfBirth>,
    pub active_count: Option<u32>,
    pub inactive_count: Option<u32>,
    pub resigned_count: Option<u32>,
    pub is_corporate_officer: Option<bool>,
    pub total_results: Option<u32>,
}

#[derive(Debug, Clone)]
pub struct OfficerAppointment {
    pub name: Option<String>,
    pub officer_role: Option<String>,
    pub appointed_on: Option<String>,
    pub resigned_on: Option<String>,
    pub nationality: Option<String>,
    pub country_of_residence: Option<String>,
    pub occupation: Option<String>,
    pub address: Option<Address>,
    pub appointed_to: Option<AppointedTo>,
    pub name_elements: Option<NameElements>,
    pub is_pre_1992_appointment: Option<bool>,
}

#[derive(Debug, Clone)]
pub struct AppointedTo {
    pub company_name: Option<String>,
    pub company_number: Option<String>,
    pub company_status: Option<String>,
}

#[derive(Debug, Clone)]
pub struct NameElements {
    pub title: Option<String>,
    pub forename: Option<String>,
    pub surname: Option<String>,
    pub other_forenames: Option<String>,
}

#[derive(Debug, Clone)]
pub struct PscListResponse {
    pub items: Option<Vec<Psc>>,
    pub total_results: Option<u32>,
}

#[derive(Debug, Clone)]
pub struct Psc {
    pub name: Option<String>,
    pub kind: Option<String>,
    pub natures_of_control: Option<Vec<String>>,
    pub notified_on: Option<String>,
    pub ceased_on: Option<String>,
    pub nationality: Option<String>,
    pub country_of_residence: Option<String>,
    pub address: Option<Address>,
    pub identification: Option<PscIdentification>,
}

#[derive(Debug, Clone)]
pub struct PscIdentification {
    pub registration_number: Option<String>,
    pub legal_authority: Option<String>,
    pub legal_form: Option<String>,
    pub place_registered: Option<String>,
    pub country_registered: Option<String>,
}

#[derive(Debug, Clone)]
pub struct ChargesListResponse {
    pub items: Option<Vec<Charge>>,
    pub total_count: Option<u32>,
    pub unfiltered_count: Option<u32>,
    pub part_satisfied_count: Option<u32>,
    pub satisfied_count: Option<u32>,
}

#[derive(Debug, Clone)]
pub struct Charge {
    pub charge_number: Option<u32>,
    pub status: Option<String>,
    pub created_on: Option<String>,
    pub delivered_on: Option<String>,
    pub satisfied_on: Option<String>,
    pub classification: Option<ChargeClassification>,
    pub particulars: Option<ChargeParticulars>,
    pub persons_entitled: Option<Vec<PersonEntitled>>,
    pub secured_details: Option<SecuredDetails>,
}

#[derive(Debug, Clone)]
pub struct ChargeClassification {
    pub description: Option<String>,
    pub classification_type: Option<String>,
}

#[derive(Debug, Clone)]
pub struct ChargeParticulars {
    pub description: Option<String>,
    pub contains_negative_pledge: Option<bool>,
    pub contains_floating_charge: Option<bool>,
    pub floating_charge_covers_all: Option<bool>,
}

#[derive(Debug, Clone)]
pub struct PersonEntitled {
    pub name: Option<String>,
}

#[derive(Debug, Clone)]
pub struct SecuredDetails {
    pub description: Option<String>,
    pub secured_type: Option<String>,
}

#[derive(Debug, Clone)]
pub struct InsolvencyResponse {
    pub status: Option<Vec<String>>,
    pub cases: Option<Vec<InsolvencyCase>>,
}

#[derive(Debug, Clone)]
pub struct InsolvencyData {
    pub status: Vec<String>,
    pub cases: Vec<InsolvencyCase>,
}

#[derive(Debug, Clone)]
pub struct InsolvencyCase {
    pub case_type: Option<String>,
    pub number: Option<u32>,
    pub dates: Option<Vec<InsolvencyDate>>,
    pub practitioners: Option<Vec<InsolvencyPractitioner>>,
}

#[derive(Debug, Clone)]
pub struct InsolvencyDate {
    pub date_type: Option<String>,
    pub date: Option<String>,
}

#[derive(Debug, Clone)]
pub struct InsolvencyPractitioner {
    pub name: Option<String>,
    pub address: Option<Address>,
    pub role: Option<String>,
    pub appointed_on: Option<String>,
    pub ceased_to_act_on: Option<String>,
}

#[derive(Debug, Clone)]
pub struct FilingHistoryResponse {
    pub items: Option<Vec<FilingHistoryItem>>,
    pub total_count: Option<u32>,
}

#[derive(Debug, Clone)]
pub struct FilingHistoryItem {
    pub transaction_id: Option<String>,
    pub category: Option<String>,
    pub date: Option<String>,
    pub description: Option<String>,
    pub filing_type: Option<String>,
    pub links: Option<FilingLinks>,
    pub description_values: Option<String>,
}

#[derive(Debug, Clone)]
pub struct FilingLinks {
    pub self_link: Option<String>,
    pub document_metadata: Option<String>,
}

// ───────────────────────────── derived views ─────────────────────────────

impl CompanyProfile {
    /// The name shown for a company: its name, else its number, else `Unknown`.
    pub open spec fn spec_display_name(&self) -> Seq<char> {
        text::opt_or(self.company_name, text::opt_or(self.company_number, "Unknown"@))
    }

    pub fn display_name(&self) -> (r: String)
        ensures
            r@ == self.spec_display_name(),
    {
        match &self.company_name {
            Some(n) => n.clone(),
            None => match &self.company_number {
                Some(n) => n.clone(),
                None => text::owned("Unknown"),
            },
        }
    }

    /// The company number, or the empty string when absent.
    pub fn number(&self) -> (r: String)
        ensures
            r@ == text::opt_or(self.company_number, Seq::empty()),
    {
        match &self.company_number {
            Some(n) => n.clone(),
            None => String::new(),
        }
    }

    /// The company status is exactly `active`.
    pub open spec fn spec_is_active(&self) -> bool {
        text::opt_is(self.company_status, "active"@)
    }

    pub fn is_active(&self) -> (r: bool)
        ensures
            r == self.spec_is_active(),
    {
        match &self.company_status {
            Some(s) => text::str_eq(s.as_str(), "active"),
            None => false,
        }
    }

    /// The accounts record says the accounts are overdue.
    pub open spec fn spec_accounts_overdue(&self) -> bool {
        match self.accounts {
            Some(a) => a.overdue == Some(true),
            None => false,
        }
    }

    pub fn accounts_overdue(&self) -> (r: bool)
        ensures
            r == self.spec_accounts_overdue(),
    {
        match &self.accounts {
            Some(a) => match a.overdue {
                Some(b) => b,
                None => false,
            },
            None => false,
        }
    }

    /// The confirmation-statement record says the statement is overdue.
    pub open spec fn spec_confirmation_overdue(&self) -> bool {
        match self.confirmation_statement {
            Some(c) => c.overdue == Some(true),
            None => false,
        }
    }

    pub fn confirmation_overdue(&self) -> (r: bool)
        ensures
            r == self.spec_confirmation_overdue(),
    {
        match &self.confirmation_statement {
            Some(c) => match c.overdue {
                Some(b) => b,
                None => false,
            },
            None => false,
        }
    }
}

/// The non-empty strings among `parts`, in order.
pub open spec fn present_parts(parts: Seq<Option<String>>) -> Seq<Seq<char>>
    decreases parts.len(),
{
    if parts.len() == 0 {
        Seq::empty()
    } else {
        let rest = present_parts(parts.drop_last());
        match parts.last() {
            Some(s) => if s@.len() > 0 { rest.push(s@) } else { rest },
            None => rest,
        }
    }
}

impl Address {
    /// The address lines, in display order.
    pub open spec fn lines(&self) -> Seq<Option<String>> {
        seq![
            self.premises,
            self.address_line_1,
            self.address_line_2,
            self.locality,
            self.region,
            self.postal_code,
            self.country,
        ]
    }

    /// The present, non-empty address lines joined by `, `.
    pub open spec fn spec_one_line(&self) -> Seq<char> {
        text::join(present_parts(self.lines()), ", "@)
    }

    pub fn one_line(&self) -> (r: String)
        ensures
            r@ == self.spec_one_line(),
    {
        let parts: [&Option<String>; 7] = [
            &self.premises,
            &self.address_line_1,
            &self.address_line_2,
            &self.locality,
            &self.region,
            &self.postal_code,
            &self.country,
        ];
        let ghost lines = self.lines();
        let mut out = String::new();
        let mut count: usize = 0;
        let mut i: usize = 0;
        while i < 7
            invariant
                i <= 7,
                lines == self.lines(),
                forall|j: int| 0 <= j < 7 ==> *#[trigger] parts@[j] == lines[j],
                count == present_parts(lines.take(i as int)).len(),
                count <= i,
                out@ == text::join(present_parts(lines.take(i as int)), ", "@),
            decreases 7 - i,
        {
            let ghost before = present_parts(lines.take(i as int));
            proof {
                assert(lines.take(i + 1).drop_last() =~= lines.take(i as int));
                assert(lines.take(i + 1).last() == lines[i as int]);
            }
            match parts[i] {
                Some(s) => {
                    let v = text::chars_of(s.as_str());
                    if v.len() > 0 {
                        proof {
                            text::lemma_join_push(before, ", "@, s@);
                        }
                        if count > 0 {
                            text::push_str(&mut out, ", ");
                        }
                        text::push_str(&mut out, s.as_str());
                        count += 1;
                    }
                },
                None => {},
            }
            i += 1;
        }
        proof {
            assert(lines.take(7) =~= lines);
        }
        out
    }
}

impl Officer {
    /// An officer is active while no resignation date is recorded.
    pub open spec fn spec_is_active(&self) -> bool {
        self.resigned_on is None
    }

    pub fn is_active(&self) -> (r: bool)
        ensures
            r == self.spec_is_active(),
    {
        self.resigned_on.is_none()
    }

    pub open spec fn spec_display_name(&self) -> Seq<char> {
        text::opt_or(self.name, "Unknown"@)
    }

    pub fn display_name(&self) -> (r: String)
        ensures
            r@ == self.spec_display_name(),
    {
        match &self.name {
            Some(n) => n.clone(),
            None => text::owned("Unknown"),
        }
    }
}

impl Psc {
    /// The PSC is a corporate entity (by its `kind`).
    pub open spec fn spec_is_corporate(&self) -> bool {
        text::opt_is(self.kind, "corporate-entity-person-with-significant-control"@)
    }

    pub fn is_corporate(&self) -> (r: bool)
        ensures
            r == self.spec_is_corporate(),
    {
        match &self.kind {
            Some(k) => text::str_eq(k.as_str(), "corporate-entity-person-with-significant-control"),
            None => false,
        }
    }

    /// The registration number recorded in the PSC's identification, if any.
    pub open spec fn spec_registration_number(&self) -> Option<Seq<char>> {
        match self.identification {
            Some(id) => match id.registration_number {
                Some(n) => Some(n@),
                None => None,
            },
            None => None,
        }
    }

    pub fn registration_number(&self) -> (r: Option<&str>)
        ensures
            r is Some == self.spec_registration_number() is Some,
            r matches Some(x) ==> Some(x@) == self.spec_registration_number(),
    {
        match &self.identification {
            Some(id) => match &id.registration_number {
                Some(n) => Some(n.as_str()),
                None => None,
            },
            None => None,
        }
    }

    /// A PSC is active while no cessation date is recorded.
    pub open spec fn spec_is_active(&self) -> bool {
        self.ceased_on is None
    }

    pub fn is_active(&self) -> (r: bool)
        ensures
            r == self.spec_is_active(),
    {
        self.ceased_on.is_none()
    }
}

} // verus!
