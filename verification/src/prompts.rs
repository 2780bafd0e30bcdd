//! Prompt construction for the AI analyst.
//!
//! `build_company_context` renders everything known about a company as the
//! plain-text context the analyst reads; the two prompt builders wrap such
//! contexts in the analysis instructions.
use vstd::prelude::*;
use crate::text;
use crate::types::{
    Address, CompanyProfile, Officer, Psc, Charge, PersonEntitled, InsolvencyData, InsolvencyCase,
    InsolvencyDate, InsolvencyPractitioner, FilingHistoryItem,
};

verus! {

/// System prompt for corporate investigation analysis.
pub const SYSTEM_PROMPT: &'static str = "\
You are a corporate intelligence analyst specialising in UK company investigations \
using Companies House data. You provide clear, structured analysis of company profiles, \
officer networks, financial filings, and risk indicators.

IMPORTANT FORMATTING RULES:
- Do NOT use markdown formatting (no #, ##, **, `, |, or --- syntax)
- Use PLAIN TEXT with clear section headings in CAPITALS
- Use simple dashes (-) for bullet points
- Use blank lines between sections for readability
- For tables, use aligned plain text columns instead of pipe-separated tables

COMPANY CLASSIFICATION - ALWAYS DO THIS FIRST:
Before any analysis, classify the company into one of these types based on SIC codes, \
filing patterns, balance sheet structure, and company name:
- TRADING COMPANY: has turnover/revenue, SIC in retail/manufacturing/services, files P&L
- PROPERTY HOLDING / SPV: SIC 68xxx, balance sheet dominated by investment property or \
  fixed assets, little or no turnover — these companies exist to hold property, NOT to trade
- DORMANT / SHELL: files dormant accounts only, no financial activity
- GROUP HOLDING COMPANY: SIC 70100, exists to hold subsidiaries, may file consolidated accounts
- PROFESSIONAL SERVICES: SIC 69-74 range, likely fee-based income
- NEWLY INCORPORATED: no filings yet, recently created

State the classification prominently at the start of your executive summary. \
This classification MUST drive the rest of your analysis — do not apply trading \
company analysis (P&L, turnover trends, margins) to a non-trading entity.

ANALYTICAL TONE:
- Be factual, precise, and consistent. Avoid sensationalism or dramatic framing.
- Present the same data the same way each time: state the numbers, then state what they mean.
- Distinguish clearly between FACTS (from the data) and INFERENCES (your professional judgment).
- When citing risk, quantify it where possible rather than using vague alarming language.
- When referencing data from a specific filing document, cite it as [REF:filing_id] where \
  filing_id is the ID shown in the source label.

Keep responses focused and actionable. Flag anything that warrants further investigation.";

/// Descriptions of common SIC codes; the empty string for any other code.
pub open spec fn sic_desc(code: Seq<char>) -> Seq<char> {
    if code == "68100"@ {
        "Buying and selling of own real estate"@
    } else if code == "68201"@ {
        "Renting and operating of Housing Association real estate"@
    } else if code == "68202"@ {
        "Letting and operating of conference and exhibition centres"@
    } else if code == "68209"@ {
        "Other letting and operating of own or leased real estate"@
    } else if code == "68310"@ {
        "Real estate agencies"@
    } else if code == "68320"@ {
        "Management of real estate on a fee or contract basis"@
    } else if code == "64200"@ {
        "Activities of holding companies"@
    } else if code == "64209"@ {
        "Activities of other holding companies"@
    } else if code == "64910"@ {
        "Financial leasing"@
    } else if code == "64999"@ {
        "Financial intermediation not elsewhere classified"@
    } else if code == "70100"@ {
        "Activities of head offices"@
    } else if code == "70210"@ {
        "Public relations and communication activities"@
    } else if code == "70229"@ {
        "Management consultancy activities (other than financial management)"@
    } else if code == "69101"@ {
        "Barristers at law"@
    } else if code == "69102"@ {
        "Solicitors"@
    } else if code == "69109"@ {
        "Activities of patent and copyright agents; other legal activities"@
    } else if code == "69201"@ {
        "Accounting and auditing activities"@
    } else if code == "69202"@ {
        "Bookkeeping activities"@
    } else if code == "69203"@ {
        "Tax consultancy"@
    } else if code == "41100"@ {
        "Development of building projects"@
    } else if code == "41201"@ {
        "Construction of commercial buildings"@
    } else if code == "41202"@ {
        "Construction of domestic buildings"@
    } else if code == "43120"@ {
        "Site preparation"@
    } else if code == "43290"@ {
        "Other construction installation"@
    } else if code == "46900"@ {
        "Non-specialised wholesale trade"@
    } else if code == "47110"@ {
        "Retail sale in non-specialised stores with food, beverages or tobacco predominating"@
    } else if code == "47910"@ {
        "Retail sale via mail order houses or via Internet"@
    } else if code == "62011"@ {
        "Ready-made interactive leisure and entertainment software development"@
    } else if code == "62012"@ {
        "Business and domestic software development"@
    } else if code == "62020"@ {
        "Information technology consultancy activities"@
    } else if code == "62090"@ {
        "Other information technology service activities"@
    } else if code == "63110"@ {
        "Data processing, hosting and related activities"@
    } else if code == "56101"@ {
        "Licensed restaurants"@
    } else if code == "56102"@ {
        "Unlicensed restaurants and cafes"@
    } else if code == "56301"@ {
        "Licensed clubs"@
    } else if code == "55100"@ {
        "Hotels and similar accommodation"@
    } else if code == "10000"@ || code == "10110"@ {
        "Processing and preserving of meat"@
    } else if code == "25000"@ {
        "Manufacture of fabricated metal products"@
    } else if code == "74909"@ {
        "Other professional, scientific and technical activities nec"@
    } else if code == "74990"@ {
        "Non-trading company"@
    } else if code == "82990"@ {
        "Other business support service activities nec"@
    } else if code == "85600"@ {
        "Educational support activities"@
    } else if code == "96090"@ {
        "Other service activities not elsewhere classified"@
    } else {
        ""@
    }
}

/// Look up a human-readable description for a SIC code (surrounding whitespace ignored).
/// Returns the empty string for codes not in the table.
pub fn sic_description(code: &str) -> (r: &'static str)
    ensures
        r@ == sic_desc(text::trim(code@)),
{
    let t = text::trimmed(code);
    let t = t.as_str();
    if text::str_eq(t, "68100") {
        "Buying and selling of own real estate"
    } else if text::str_eq(t, "68201") {
        "Renting and operating of Housing Association real estate"
    } else if text::str_eq(t, "68202") {
        "Letting and operating of conference and exhibition centres"
    } else if text::str_eq(t, "68209") {
        "Other letting and operating of own or leased real estate"
    } else if text::str_eq(t, "68310") {
        "Real estate agencies"
    } else if text::str_eq(t, "68320") {
        "Management of real estate on a fee or contract basis"
    } else if text::str_eq(t, "64200") {
        "Activities of holding companies"
    } else if text::str_eq(t, "64209") {
        "Activities of other holding companies"
    } else if text::str_eq(t, "64910") {
        "Financial leasing"
    } else if text::str_eq(t, "64999") {
        "Financial intermediation not elsewhere classified"
    } else if text::str_eq(t, "70100") {
        "Activities of head offices"
    } else if text::str_eq(t, "70210") {
        "Public relations and communication activities"
    } else if text::str_eq(t, "70229") {
        "Management consultancy activities (other than financial management)"
    } else if text::str_eq(t, "69101") {
        "Barristers at law"
    } else if text::str_eq(t, "69102") {
        "Solicitors"
    } else if text::str_eq(t, "69109") {
        "Activities of patent and copyright agents; other legal activities"
    } else if text::str_eq(t, "69201") {
        "Accounting and auditing activities"
    } else if text::str_eq(t, "69202") {
        "Bookkeeping activities"
    } else if text::str_eq(t, "69203") {
        "Tax consultancy"
    } else if text::str_eq(t, "41100") {
        "Development of building projects"
    } else if text::str_eq(t, "41201") {
        "Construction of commercial buildings"
    } else if text::str_eq(t, "41202") {
        "Construction of domestic buildings"
    } else if text::str_eq(t, "43120") {
        "Site preparation"
    } else if text::str_eq(t, "43290") {
        "Other construction installation"
    } else if text::str_eq(t, "46900") {
        "Non-specialised wholesale trade"
    } else if text::str_eq(t, "47110") {
        "Retail sale in non-specialised stores with food, beverages or tobacco predominating"
    } else if text::str_eq(t, "47910") {
        "Retail sale via mail order houses or via Internet"
    } else if text::str_eq(t, "62011") {
        "Ready-made interactive leisure and entertainment software development"
    } else if text::str_eq(t, "62012") {
        "Business and domestic software development"
    } else if text::str_eq(t, "62020") {
        "Information technology consultancy activities"
    } else if text::str_eq(t, "62090") {
        "Other information technology service activities"
    } else if text::str_eq(t, "63110") {
        "Data processing, hosting and related activities"
    } else if text::str_eq(t, "56101") {
        "Licensed restaurants"
    } else if text::str_eq(t, "56102") {
        "Unlicensed restaurants and cafes"
    } else if text::str_eq(t, "56301") {
        "Licensed clubs"
    } else if text::str_eq(t, "55100") {
        "Hotels and similar accommodation"
    } else if text::str_eq(t, "10000") || text::str_eq(t, "10110") {
        "Processing and preserving of meat"
    } else if text::str_eq(t, "25000") {
        "Manufacture of fabricated metal products"
    } else if text::str_eq(t, "74909") {
        "Other professional, scientific and technical activities nec"
    } else if text::str_eq(t, "74990") {
        "Non-trading company"
    } else if text::str_eq(t, "82990") {
        "Other business support service activities nec"
    } else if text::str_eq(t, "85600") {
        "Educational support activities"
    } else if text::str_eq(t, "96090") {
        "Other service activities not elsewhere classified"
    } else {
        ""
    }
}

// ───────────────────────────── specification of the context ─────────────────────────────

/// `label`, the value and a newline when the value is present; nothing otherwise.
pub open spec fn opt_line(label: Seq<char>, o: Option<String>) -> Seq<char> {
    match o {
        Some(x) => label + x@ + "\n"@,
        None => Seq::empty(),
    }
}

/// A SIC code followed by its description in brackets, when it has one.
pub open spec fn sic_entry(code: Seq<char>) -> Seq<char> {
    let d = sic_desc(text::trim(code));
    if d.len() == 0 {
        code
    } else {
        code + " ("@ + d + ")"@
    }
}

pub open spec fn sic_entries(codes: Seq<String>) -> Seq<Seq<char>> {
    Seq::new(codes.len(), |i: int| sic_entry(codes[i]@))
}

/// The `## Company Profile` section.
pub open spec fn profile_section(num: Seq<char>, p: CompanyProfile) -> Seq<char> {
    "## Company Profile\n"@ + "Name: "@ + p.spec_display_name() + "\n"@ + "Number: "@ + num + "\n"@
        + opt_line("Status: "@, p.company_status) + opt_line("Type: "@, p.company_type)
        + opt_line("Incorporated: "@, p.date_of_creation) + opt_line("Dissolved: "@, p.date_of_cessation)
        + (match p.registered_office_address {
            Some(a) => "Address: "@ + a.spec_one_line() + "\n"@,
            None => Seq::empty(),
        })
        + (match p.sic_codes {
            Some(c) => "SIC codes: "@ + text::join(sic_entries(c@), ", "@) + "\n"@,
            None => Seq::empty(),
        })
        + (if p.spec_accounts_overdue() { "⚠ ACCOUNTS OVERDUE\n"@ } else { Seq::empty() })
        + "\n"@
}

/// Number of active officers.
pub open spec fn count_active(os: Seq<Officer>) -> nat
    decreases os.len(),
{
    if os.len() == 0 {
        0
    } else {
        count_active(os.drop_last()) + if os.last().spec_is_active() { 1nat } else { 0nat }
    }
}

/// Number of resigned officers.
pub open spec fn count_resigned(os: Seq<Officer>) -> nat
    decreases os.len(),
{
    if os.len() == 0 {
        0
    } else {
        count_resigned(os.drop_last()) + if os.last().spec_is_active() { 0nat } else { 1nat }
    }
}

pub open spec fn active_officer_line(o: Officer) -> Seq<char> {
    "  [ACTIVE] "@ + o.spec_display_name() + " — "@ + text::opt_or(o.officer_role, "?"@) + " (appointed "@
        + text::opt_or(o.appointed_on, "?"@) + ")\n"@ + opt_line("    Nationality: "@, o.nationality)
        + opt_line("    Occupation: "@, o.occupation)
}

pub open spec fn resigned_officer_line(o: Officer) -> Seq<char> {
    "  [RESIGNED] "@ + o.spec_display_name() + " — "@ + text::opt_or(o.officer_role, "?"@)
        + " (appointed "@ + text::opt_or(o.appointed_on, "?"@) + ", resigned "@
        + text::opt_or(o.resigned_on, "?"@) + ")\n"@
}

/// The lines of all active officers, in order.
pub open spec fn active_lines(os: Seq<Officer>) -> Seq<char>
    decreases os.len(),
{
    if os.len() == 0 {
        Seq::empty()
    } else {
        active_lines(os.drop_last()) + if os.last().spec_is_active() {
            active_officer_line(os.last())
        } else {
            Seq::empty()
        }
    }
}

/// The lines of the first five resigned officers, in order.
pub open spec fn resigned_lines(os: Seq<Officer>) -> Seq<char>
    decreases os.len(),
{
    if os.len() == 0 {
        Seq::empty()
    } else {
        resigned_lines(os.drop_last()) + if !os.last().spec_is_active() && count_resigned(
            os.drop_last(),
        ) < 5 {
            resigned_officer_line(os.last())
        } else {
            Seq::empty()
        }
    }
}

/// The `## Officers` section.
pub open spec fn officers_section(os: Seq<Officer>) -> Seq<char> {
    "## Officers ("@ + text::dec(count_active(os)) + " active, "@ + text::dec(count_resigned(os))
        + " resigned)\n"@ + active_lines(os) + (if count_resigned(os) > 0 {
        "  ("@ + text::dec(count_resigned(os)) + " resigned officers not shown in full)\n"@
            + resigned_lines(os)
    } else {
        Seq::empty()
    }) + "\n"@
}

pub open spec fn psc_entry(p: Psc) -> Seq<char> {
    "  PSC: "@ + text::opt_or(p.name, "Unknown"@) + (match p.natures_of_control {
        Some(n) => " — "@ + text::join(text::views(n@), ", "@),
        None => Seq::empty(),
    }) + "\n"@ + opt_line("    Nationality: "@, p.nationality) + opt_line("    Notified: "@, p.notified_on)
        + opt_line("    ⚠ Ceased: "@, p.ceased_on)
}

/// The `## Persons with Significant Control` section (empty when there are none).
pub open spec fn psc_section(ps: Seq<Psc>) -> Seq<char> {
    if ps.len() == 0 {
        Seq::empty()
    } else {
        "## Persons with Significant Control ("@ + text::dec(ps.len()) + " entries)\n"@
            + psc_entries(ps) + "\n"@
    }
}

pub open spec fn holder_line(h: PersonEntitled) -> Seq<char> {
    "    Holder: "@ + text::opt_or(h.name, "?"@) + "\n"@
}

pub open spec fn charge_entry(c: Charge) -> Seq<char> {
    "  Charge: "@ + (match c.classification {
        Some(cl) => text::opt_or(cl.description, "unknown type"@),
        None => "unknown type"@,
    }) + " (status: "@ + text::opt_or(c.status, "?"@) + ")\n"@ + (match c.persons_entitled {
        Some(hs) => holder_lines(hs@),
        None => Seq::empty(),
    }) + opt_line("    Created: "@, c.created_on)
}

/// The `## Charges & Mortgages` section (empty when there are none).
pub open spec fn charges_section(cs: Seq<Charge>) -> Seq<char> {
    if cs.len() == 0 {
        Seq::empty()
    } else {
        "## Charges & Mortgages ("@ + text::dec(cs.len()) + " entries)\n"@ + charge_entries(cs)
            + "\n"@
    }
}

pub open spec fn date_line(d: InsolvencyDate) -> Seq<char> {
    "    "@ + text::opt_or(d.date_type, "?"@) + ": "@ + text::opt_or(d.date, "?"@) + "\n"@
}

pub open spec fn practitioner_line(ip: InsolvencyPractitioner) -> Seq<char> {
    "    IP: "@ + text::opt_or(ip.name, "?"@) + " ("@ + text::opt_or(ip.role, "?"@) + ")\n"@
}

pub open spec fn case_entry(k: InsolvencyCase) -> Seq<char> {
    "  Case: "@ + text::opt_or(k.case_type, "?"@) + " (number "@ + text::dec(
        match k.number {
            Some(n) => n as nat,
            None => 0,
        },
    ) + ")\n"@ + (match k.dates {
        Some(ds) => date_lines(ds@),
        None => Seq::empty(),
    }) + (match k.practitioners {
        Some(ps) => practitioner_lines(ps@),
        None => Seq::empty(),
    })
}

/// The `## ⚠ INSOLVENCY DATA` section.
pub open spec fn insolvency_section(ins: InsolvencyData) -> Seq<char> {
    "## ⚠ INSOLVENCY DATA\n"@ + "  Status: "@ + text::join(text::views(ins.status@), ", "@) + "\n"@
        + case_entries(ins.cases@) + "\n"@
}

pub open spec fn filing_entry(f: FilingHistoryItem) -> Seq<char> {
    "  "@ + text::opt_or(f.date, "?"@) + " — "@ + text::opt_or(f.description, "?"@) + " ("@
        + text::opt_or(f.category, "?"@) + ")\n"@
}

/// Number of filings listed in the filing-history section.
pub open spec fn shown_filings(n: nat) -> nat {
    if n < 15 { n } else { 15 }
}

/// The `## Filing History` section (empty when there are no filings).
pub open spec fn filings_section(fs: Seq<FilingHistoryItem>) -> Seq<char> {
    if fs.len() == 0 {
        Seq::empty()
    } else {
        "## Filing History (showing "@ + text::dec(shown_filings(fs.len())) + " of "@ + text::dec(
            fs.len(),
        ) + ")\n"@ + filing_entries(fs.take(shown_filings(fs.len()) as int)) + "\n"@
    }
}

/// The text stored under `key` (the first entry with that key).
pub open spec fn lookup(texts: Seq<(String, String)>, key: Seq<char>) -> Option<Seq<char>>
    decreases texts.len(),
{
    if texts.len() == 0 {
        None
    } else if texts[0].0@ == key {
        Some(texts[0].1@)
    } else {
        lookup(texts.drop_first(), key)
    }
}

/// Documents (filing id, description, text) of the listed filings that have extracted text.
pub open spec fn matched_docs(fs: Seq<FilingHistoryItem>, texts: Seq<(String, String)>) -> Seq<
    (Seq<char>, Seq<char>, Seq<char>),
>
    decreases fs.len(),
{
    if fs.len() == 0 {
        Seq::empty()
    } else {
        let f = fs.last();
        matched_docs(fs.drop_last(), texts) + match f.transaction_id {
            Some(t) => match lookup(texts, t@) {
                Some(x) => seq![(t@, text::opt_or(f.description, "Unknown filing"@), x)],
                None => Seq::empty(),
            },
            None => Seq::empty(),
        }
    }
}

/// Every stored text, labelled as an unknown filing.
pub open spec fn all_docs(texts: Seq<(String, String)>) -> Seq<(Seq<char>, Seq<char>, Seq<char>)> {
    Seq::new(texts.len(), |i: int| (texts[i].0@, "Unknown filing"@, texts[i].1@))
}

/// The documents quoted in the context: those matched through the filing list, or,
/// when none match and at most three texts are stored, all stored texts.
pub open spec fn selected_docs(
    filings: Option<Seq<FilingHistoryItem>>,
    texts: Seq<(String, String)>,
) -> Seq<(Seq<char>, Seq<char>, Seq<char>)> {
    let m = match filings {
        Some(fs) => matched_docs(fs, texts),
        None => Seq::empty(),
    };
    if m.len() == 0 && texts.len() <= 3 {
        all_docs(texts)
    } else {
        m
    }
}

/// Filing `f` has a stored text: its transaction id is a key of `texts`.
pub open spec fn has_stored_text(f: FilingHistoryItem, texts: Seq<(String, String)>) -> bool {
    f.transaction_id matches Some(t) && lookup(texts, t@) is Some
}

/// Document `d` quotes filing `f`: the filing's transaction id, its
/// description (or "Unknown filing" when it has none), and the text stored
/// under that id.
pub open spec fn quotes_filing(d: (Seq<char>, Seq<char>, Seq<char>), f: FilingHistoryItem, texts: Seq<(String, String)>) -> bool {
    &&& f.transaction_id matches Some(t) && d.0 == t@ && lookup(texts, t@) == Some(d.2)
    &&& d.1 == text::opt_or(f.description, "Unknown filing"@)
}

/// The documents quoted for a filing list, paired with the positions of the
/// filings they quote: each quotes its filing, the positions increase, and
/// every listed filing with a stored text is quoted.
pub open spec fn quotes_in_filing_order(
    docs: Seq<(Seq<char>, Seq<char>, Seq<char>)>,
    fs: Seq<FilingHistoryItem>,
    texts: Seq<(String, String)>,
    idx: Seq<int>,
) -> bool {
    &&& idx.len() == docs.len()
    &&& forall|d: int| 0 <= d < idx.len() ==> 0 <= #[trigger] idx[d] < fs.len() && quotes_filing(docs[d], fs[idx[d]], texts)
    &&& forall|d: int| 0 < d < idx.len() ==> idx[d - 1] < #[trigger] idx[d]
    &&& forall|i: int| 0 <= i < fs.len() && has_stored_text(#[trigger] fs[i], texts) ==> exists|d: int| 0 <= d < idx.len() && idx[d] == i
}

proof fn lemma_matched_docs_order(fs: Seq<FilingHistoryItem>, texts: Seq<(String, String)>) -> (idx: Seq<int>)
    ensures
        quotes_in_filing_order(matched_docs(fs, texts), fs, texts, idx),
    decreases fs.len(),
{
    if fs.len() == 0 {
        Seq::empty()
    } else {
        let q = fs.drop_last();
        let iq = lemma_matched_docs_order(q, texts);
        let mq = matched_docs(q, texts);
        let m = matched_docs(fs, texts);
        let f = fs.last();
        let n = fs.len() - 1;
        assert(f == fs[n]);
        let idx = if has_stored_text(f, texts) { iq.push(n) } else { iq };
        assert forall|d: int| 0 <= d < idx.len() implies 0 <= #[trigger] idx[d] < fs.len() && quotes_filing(m[d], fs[idx[d]], texts) by {
            if d < iq.len() {
                assert(idx[d] == iq[d]);
                assert(m[d] == mq[d]);
                assert(fs[iq[d]] == q[iq[d]]);
            } else {
                assert(idx[d] == n);
                assert(m[d] == m.last());
            }
        }
        assert forall|d: int| 0 < d < idx.len() implies idx[d - 1] < #[trigger] idx[d] by {
            if d < iq.len() {
                assert(idx[d] == iq[d] && idx[d - 1] == iq[d - 1]);
            } else {
                assert(idx[d - 1] == iq[d - 1]);
                assert(0 <= iq[d - 1] < q.len());
            }
        }
        assert forall|i: int| 0 <= i < fs.len() && has_stored_text(#[trigger] fs[i], texts) implies exists|d: int|
            0 <= d < idx.len() && idx[d] == i by {
            if i < n {
                assert(fs[i] == q[i]);
                assert(has_stored_text(q[i], texts));
                let d = choose|d: int| 0 <= d < iq.len() && iq[d] == i;
                assert(idx[d] == iq[d]);
            } else {
                assert(idx[iq.len() as int] == n);
            }
        }
        idx
    }
}

/// When some listed filing has a stored text, the documents quoted in the
/// context are exactly the listed filings that have stored texts, in filing
/// order, each under its transaction id and description with its text; the
/// texts of filings that are not listed are then not quoted.
pub proof fn quoted_documents_follow_the_filing_list(fs: Seq<FilingHistoryItem>, texts: Seq<(String, String)>)
    requires
        exists|i: int| 0 <= i < fs.len() && has_stored_text(#[trigger] fs[i], texts),
    ensures
        exists|idx: Seq<int>| quotes_in_filing_order(selected_docs(Some(fs), texts), fs, texts, idx),
{
    let idx = lemma_matched_docs_order(fs, texts);
    let i = choose|i: int| 0 <= i < fs.len() && has_stored_text(#[trigger] fs[i], texts);
    assert(exists|d: int| 0 <= d < idx.len() && idx[d] == i);
    assert(matched_docs(fs, texts).len() > 0);
    assert(selected_docs(Some(fs), texts) == matched_docs(fs, texts));
}

/// Maximum number of bytes of one document quoted in the context.
pub open spec fn doc_limit() -> nat {
    6000
}

/// A document's text as quoted: cut to its first 6000 bytes with a note when longer.
pub open spec fn doc_display(t: Seq<char>) -> Seq<char> {
    if text::utf8_len(t) > doc_limit() {
        text::byte_prefix(t, doc_limit()) + "...\n[truncated, "@ + text::dec(text::utf8_len(t))
            + " chars total]"@
    } else {
        t
    }
}

pub open spec fn doc_entry(d: (Seq<char>, Seq<char>, Seq<char>)) -> Seq<char> {
    "--- [SOURCE:"@ + d.0 + "] "@ + d.1 + " ---\n"@ + doc_display(d.2) + "\n"@
}

pub open spec fn doc_entries(ds: Seq<(Seq<char>, Seq<char>, Seq<char>)>) -> Seq<char>
    decreases ds.len(),
{
    if ds.len() == 0 {
        Seq::empty()
    } else {
        doc_entries(ds.drop_last()) + doc_entry(ds.last())
    }
}

/// The `## Extracted Document Text` section (empty when no document is quoted).
pub open spec fn docs_section(ds: Seq<(Seq<char>, Seq<char>, Seq<char>)>) -> Seq<char> {
    if ds.len() == 0 {
        Seq::empty()
    } else {
        "## Extracted Document Text ("@ + text::dec(ds.len()) + " documents)\n"@ + doc_entries(ds)
            + "\n"@
    }
}

pub open spec fn opt_vec<T>(o: Option<&Vec<T>>) -> Option<Seq<T>> {
    match o {
        Some(v) => Some(v@),
        None => None,
    }
}

/// The full company context.
pub open spec fn company_context(
    num: Seq<char>,
    profile: Option<CompanyProfile>,
    officers: Option<Seq<Officer>>,
    pscs: Option<Seq<Psc>>,
    charges: Option<Seq<Charge>>,
    insolvency: Option<Option<InsolvencyData>>,
    filings: Option<Seq<FilingHistoryItem>>,
    texts: Seq<(String, String)>,
) -> Seq<char> {
    "=== COMPANY: "@ + num + " ===\n\n"@ + (match profile {
        Some(p) => profile_section(num, p),
        None => Seq::empty(),
    }) + (match officers {
        Some(os) => officers_section(os),
        None => Seq::empty(),
    }) + (match pscs {
        Some(ps) => psc_section(ps),
        None => Seq::empty(),
    }) + (match charges {
        Some(cs) => charges_section(cs),
        None => Seq::empty(),
    }) + (match insolvency {
        Some(Some(ins)) => insolvency_section(ins),
        _ => Seq::empty(),
    }) + (match filings {
        Some(fs) => filings_section(fs),
        None => Seq::empty(),
    }) + docs_section(selected_docs(filings, texts))
}

/// Every quoted document longer than the limit can be cut at the limit
/// (the limit falls between two characters).
pub open spec fn docs_cuttable(ds: Seq<(Seq<char>, Seq<char>, Seq<char>)>) -> bool {
    forall|i: int|
        0 <= i < ds.len() && text::utf8_len(#[trigger] ds[i].2) > doc_limit() ==> text::is_byte_boundary(
            ds[i].2,
            doc_limit(),
        )
}
/// The holder lines of a charge.
pub open spec fn holder_lines(s: Seq<PersonEntitled>) -> Seq<char>
    decreases s.len(),
{
    if s.len() == 0 {
        Seq::empty()
    } else {
        holder_lines(s.drop_last()) + holder_line(s.last())
    }
}

/// The entries of the charges section.
pub open spec fn charge_entries(s: Seq<Charge>) -> Seq<char>
    decreases s.len(),
{
    if s.len() == 0 {
        Seq::empty()
    } else {
        charge_entries(s.drop_last()) + charge_entry(s.last())
    }
}

/// The date lines of an insolvency case.
pub open spec fn date_lines(s: Seq<InsolvencyDate>) -> Seq<char>
    decreases s.len(),
{
    if s.len() == 0 {
        Seq::empty()
    } else {
        date_lines(s.drop_last()) + date_line(s.last())
    }
}

/// The practitioner lines of an insolvency case.
pub open spec fn practitioner_lines(s: Seq<InsolvencyPractitioner>) -> Seq<char>
    decreases s.len(),
{
    if s.len() == 0 {
        Seq::empty()
    } else {
        practitioner_lines(s.drop_last()) + practitioner_line(s.last())
    }
}

/// The case entries of the insolvency section.
pub open spec fn case_entries(s: Seq<InsolvencyCase>) -> Seq<char>
    decreases s.len(),
{
    if s.len() == 0 {
        Seq::empty()
    } else {
        case_entries(s.drop_last()) + case_entry(s.last())
    }
}

/// The entries of the PSC section.
pub open spec fn psc_entries(s: Seq<Psc>) -> Seq<char>
    decreases s.len(),
{
    if s.len() == 0 {
        Seq::empty()
    } else {
        psc_entries(s.drop_last()) + psc_entry(s.last())
    }
}

/// The entries of the filing-history section.
pub open spec fn filing_entries(s: Seq<FilingHistoryItem>) -> Seq<char>
    decreases s.len(),
{
    if s.len() == 0 {
        Seq::empty()
    } else {
        filing_entries(s.drop_last()) + filing_entry(s.last())
    }
}

fn push_holder_lines(out: &mut String, s: &Vec<PersonEntitled>)
    ensures
        final(out)@ == old(out)@ + holder_lines(s@),
{
    let mut i: usize = 0;
    while i < s.len()
        invariant
            i <= s.len(),
            out@ == old(out)@ + holder_lines(s@.take(i as int)),
        decreases s.len() - i,
    {
        proof {
            assert(s@.take(i + 1).drop_last() =~= s@.take(i as int));
            assert(s@.take(i + 1).last() == s@[i as int]);
        }
        let ghost before = out@;
        push_holder_line(out, &s[i]);
        proof {
            assert(old(out)@ + holder_lines(s@.take(i + 1)) =~= before + holder_line(s@[i as int]));
        }
        i += 1;
    }
    proof {
        assert(s@.take(i as int) =~= s@);
    }
}

fn push_charge_entries(out: &mut String, s: &Vec<Charge>)
    ensures
        final(out)@ == old(out)@ + charge_entries(s@),
{
    let mut i: usize = 0;
    while i < s.len()
        invariant
            i <= s.len(),
            out@ == old(out)@ + charge_entries(s@.take(i as int)),
        decreases s.len() - i,
    {
        proof {
            assert(s@.take(i + 1).drop_last() =~= s@.take(i as int));
            assert(s@.take(i + 1).last() == s@[i as int]);
        }
        let ghost before = out@;
        push_charge_entry(out, &s[i]);
        proof {
            assert(old(out)@ + charge_entries(s@.take(i + 1)) =~= before + charge_entry(s@[i as int]));
        }
        i += 1;
    }
    proof {
        assert(s@.take(i as int) =~= s@);
    }
}

fn push_date_lines(out: &mut String, s: &Vec<InsolvencyDate>)
    ensures
        final(out)@ == old(out)@ + date_lines(s@),
{
    let mut i: usize = 0;
    while i < s.len()
        invariant
            i <= s.len(),
            out@ == old(out)@ + date_lines(s@.take(i as int)),
        decreases s.len() - i,
    {
        proof {
            assert(s@.take(i + 1).drop_last() =~= s@.take(i as int));
            assert(s@.take(i + 1).last() == s@[i as int]);
        }
        let ghost before = out@;
        push_date_line(out, &s[i]);
        proof {
            assert(old(out)@ + date_lines(s@.take(i + 1)) =~= before + date_line(s@[i as int]));
        }
        i += 1;
    }
    proof {
        assert(s@.take(i as int) =~= s@);
    }
}

fn push_practitioner_lines(out: &mut String, s: &Vec<InsolvencyPractitioner>)
    ensures
        final(out)@ == old(out)@ + practitioner_lines(s@),
{
    let mut i: usize = 0;
    while i < s.len()
        invariant
            i <= s.len(),
            out@ == old(out)@ + practitioner_lines(s@.take(i as int)),
        decreases s.len() - i,
    {
        proof {
            assert(s@.take(i + 1).drop_last() =~= s@.take(i as int));
            assert(s@.take(i + 1).last() == s@[i as int]);
        }
        let ghost before = out@;
        push_practitioner_line(out, &s[i]);
        proof {
            assert(old(out)@ + practitioner_lines(s@.take(i + 1)) =~= before + practitioner_line(s@[i as int]));
        }
        i += 1;
    }
    proof {
        assert(s@.take(i as int) =~= s@);
    }
}

fn push_case_entries(out: &mut String, s: &Vec<InsolvencyCase>)
    ensures
        final(out)@ == old(out)@ + case_entries(s@),
{
    let mut i: usize = 0;
    while i < s.len()
        invariant
            i <= s.len(),
            out@ == old(out)@ + case_entries(s@.take(i as int)),
        decreases s.len() - i,
    {
        proof {
            assert(s@.take(i + 1).drop_last() =~= s@.take(i as int));
            assert(s@.take(i + 1).last() == s@[i as int]);
        }
        let ghost before = out@;
        push_case_entry(out, &s[i]);
        proof {
            assert(old(out)@ + case_entries(s@.take(i + 1)) =~= before + case_entry(s@[i as int]));
        }
        i += 1;
    }
    proof {
        assert(s@.take(i as int) =~= s@);
    }
}

fn push_psc_entries(out: &mut String, s: &Vec<Psc>)
    ensures
        final(out)@ == old(out)@ + psc_entries(s@),
{
    let mut i: usize = 0;
    while i < s.len()
        invariant
            i <= s.len(),
            out@ == old(out)@ + psc_entries(s@.take(i as int)),
        decreases s.len() - i,
    {
        proof {
            assert(s@.take(i + 1).drop_last() =~= s@.take(i as int));
            assert(s@.take(i + 1).last() == s@[i as int]);
        }
        let ghost before = out@;
        push_psc_entry(out, &s[i]);
        proof {
            assert(old(out)@ + psc_entries(s@.take(i + 1)) =~= before + psc_entry(s@[i as int]));
        }
        i += 1;
    }
    proof {
        assert(s@.take(i as int) =~= s@);
    }
}

fn push_filing_entries(out: &mut String, s: &Vec<FilingHistoryItem>)
    ensures
        final(out)@ == old(out)@ + filing_entries(s@),
{
    let mut i: usize = 0;
    while i < s.len()
        invariant
            i <= s.len(),
            out@ == old(out)@ + filing_entries(s@.take(i as int)),
        decreases s.len() - i,
    {
        proof {
            assert(s@.take(i + 1).drop_last() =~= s@.take(i as int));
            assert(s@.take(i + 1).last() == s@[i as int]);
        }
        let ghost before = out@;
        push_filing_entry(out, &s[i]);
        proof {
            assert(old(out)@ + filing_entries(s@.take(i + 1)) =~= before + filing_entry(s@[i as int]));
        }
        i += 1;
    }
    proof {
        assert(s@.take(i as int) =~= s@);
    }
}

// ───────────────────────────── building the context ─────────────────────────────

/// `label`, the value and a newline when the value is present; the empty string otherwise.
fn opt_line_string(label: &str, o: &Option<String>) -> (r: String)
    ensures
        r@ == opt_line(label@, *o),
{
    match o {
        Some(x) => {
            let mut r = text::owned(label);
            text::push_str(&mut r, x.as_str());
            text::push_str(&mut r, "\n");
            r
        },
        None => String::new(),
    }
}

fn push_opt_line(out: &mut String, label: &str, o: &Option<String>)
    ensures
        final(out)@ == old(out)@ + opt_line(label@, *o),
{
    let s = opt_line_string(label, o);
    text::push_str(out, s.as_str());
}

/// A SIC code with its description in brackets, when the code is in the table.
pub fn sic_entry_exec(code: &str) -> (r: String)
    ensures
        r@ == sic_entry(code@),
{
    let d = sic_description(code);
    let mut r = text::owned(code);
    if !d.is_empty() {
        text::push_str(&mut r, " (");
        text::push_str(&mut r, d);
        text::push_str(&mut r, ")");
    }
    r
}

fn address_line(a: &Option<Address>) -> (r: String)
    ensures
        r@ == match *a {
            Some(a) => "Address: "@ + a.spec_one_line() + "\n"@,
            None => Seq::empty(),
        },
{
    match a {
        Some(a) => {
            let mut r = text::owned("Address: ");
            let line = a.one_line();
            text::push_str(&mut r, line.as_str());
            text::push_str(&mut r, "\n");
            r
        },
        None => String::new(),
    }
}

fn sic_line(codes: &Option<Vec<String>>) -> (r: String)
    ensures
        r@ == match *codes {
            Some(c) => "SIC codes: "@ + text::join(sic_entries(c@), ", "@) + "\n"@,
            None => Seq::empty(),
        },
{
    match codes {
        Some(codes) => {
            let mut enriched: Vec<String> = Vec::new();
            let mut i: usize = 0;
            while i < codes.len()
                invariant
                    i <= codes.len(),
                    enriched@.len() == i,
                    forall|j: int| 0 <= j < i ==> #[trigger] enriched@[j]@ == sic_entry(codes@[j]@),
                decreases codes.len() - i,
            {
                enriched.push(sic_entry_exec(codes[i].as_str()));
                i += 1;
            }
            assert(text::views(enriched@) =~= sic_entries(codes@));
            let mut r = text::owned("SIC codes: ");
            text::push_joined(&mut r, &enriched, ", ");
            text::push_str(&mut r, "\n");
            r
        },
        None => String::new(),
    }
}

/// The `## Company Profile` section.
pub fn profile_section_string(num: &str, p: &CompanyProfile) -> (r: String)
    ensures
        r@ == profile_section(num@, *p),
{
    let mut r = text::owned("## Company Profile\n");
    text::push_str(&mut r, "Name: ");
    let name = p.display_name();
    text::push_str(&mut r, name.as_str());
    text::push_str(&mut r, "\n");
    text::push_str(&mut r, "Number: ");
    text::push_str(&mut r, num);
    text::push_str(&mut r, "\n");
    let s = opt_line_string("Status: ", &p.company_status);
    text::push_str(&mut r, s.as_str());
    let s = opt_line_string("Type: ", &p.company_type);
    text::push_str(&mut r, s.as_str());
    let s = opt_line_string("Incorporated: ", &p.date_of_creation);
    text::push_str(&mut r, s.as_str());
    let s = opt_line_string("Dissolved: ", &p.date_of_cessation);
    text::push_str(&mut r, s.as_str());
    let s = address_line(&p.registered_office_address);
    text::push_str(&mut r, s.as_str());
    let s = sic_line(&p.sic_codes);
    text::push_str(&mut r, s.as_str());
    let s = if p.accounts_overdue() { text::owned("⚠ ACCOUNTS OVERDUE\n") } else { String::new() };
    text::push_str(&mut r, s.as_str());
    text::push_str(&mut r, "\n");
    r
}

fn push_active_officer_line(out: &mut String, o: &Officer)
    ensures
        final(out)@ == old(out)@ + active_officer_line(*o),
{
    let ghost start = out@;
    text::push_str(out, "  [ACTIVE] ");
    let name = o.display_name();
    text::push_str(out, name.as_str());
    text::push_str(out, " — ");
    text::push_opt_or(out, &o.officer_role, "?");
    text::push_str(out, " (appointed ");
    text::push_opt_or(out, &o.appointed_on, "?");
    text::push_str(out, ")\n");
    push_opt_line(out, "    Nationality: ", &o.nationality);
    push_opt_line(out, "    Occupation: ", &o.occupation);
    proof {
        assert(out@ =~= start + active_officer_line(*o));
    }
}

fn push_resigned_officer_line(out: &mut String, o: &Officer)
    ensures
        final(out)@ == old(out)@ + resigned_officer_line(*o),
{
    let ghost start = out@;
    text::push_str(out, "  [RESIGNED] ");
    let name = o.display_name();
    text::push_str(out, name.as_str());
    text::push_str(out, " — ");
    text::push_opt_or(out, &o.officer_role, "?");
    text::push_str(out, " (appointed ");
    text::push_opt_or(out, &o.appointed_on, "?");
    text::push_str(out, ", resigned ");
    text::push_opt_or(out, &o.resigned_on, "?");
    text::push_str(out, ")\n");
    proof {
        assert(out@ =~= start + resigned_officer_line(*o));
    }
}

fn push_officers_section(out: &mut String, os: &Vec<Officer>)
    ensures
        final(out)@ == old(out)@ + officers_section(os@),
{
    let ghost start = out@;
    let mut active: usize = 0;
    let mut resigned: usize = 0;
    let mut i: usize = 0;
    while i < os.len()
        invariant
            i <= os.len(),
            active == count_active(os@.take(i as int)),
            resigned == count_resigned(os@.take(i as int)),
            active + resigned == i,
        decreases os.len() - i,
    {
        proof {
            assert(os@.take(i + 1).drop_last() =~= os@.take(i as int));
            assert(os@.take(i + 1).last() == os@[i as int]);
        }
        if os[i].is_active() {
            active += 1;
        } else {
            resigned += 1;
        }
        i += 1;
    }
    proof {
        assert(os@.take(i as int) =~= os@);
    }
    text::push_str(out, "## Officers (");
    text::push_dec(out, active as u64);
    text::push_str(out, " active, ");
    text::push_dec(out, resigned as u64);
    text::push_str(out, " resigned)\n");
    let ghost head = out@;
    let mut i: usize = 0;
    while i < os.len()
        invariant
            i <= os.len(),
            out@ == head + active_lines(os@.take(i as int)),
        decreases os.len() - i,
    {
        proof {
            assert(os@.take(i + 1).drop_last() =~= os@.take(i as int));
            assert(os@.take(i + 1).last() == os@[i as int]);
        }
        let ghost before = out@;
        if os[i].is_active() {
            push_active_officer_line(out, &os[i]);
        }
        proof {
            assert(head + active_lines(os@.take(i + 1)) =~= before + (if os@[i as int].spec_is_active() {
                active_officer_line(os@[i as int])
            } else {
                Seq::empty()
            }));
        }
        i += 1;
    }
    proof {
        assert(os@.take(i as int) =~= os@);
    }
    let ghost mid = out@;
    if resigned > 0 {
        text::push_str(out, "  (");
        text::push_dec(out, resigned as u64);
        text::push_str(out, " resigned officers not shown in full)\n");
        let ghost head2 = out@;
        let mut shown: usize = 0;
        let mut i: usize = 0;
        while i < os.len()
            invariant
                i <= os.len(),
                shown == count_resigned(os@.take(i as int)),
                shown <= i,
                out@ == head2 + resigned_lines(os@.take(i as int)),
            decreases os.len() - i,
        {
            proof {
                assert(os@.take(i + 1).drop_last() =~= os@.take(i as int));
                assert(os@.take(i + 1).last() == os@[i as int]);
            }
            let ghost before = out@;
            if !os[i].is_active() {
                if shown < 5 {
                    push_resigned_officer_line(out, &os[i]);
                }
                shown += 1;
            }
            proof {
                assert(head2 + resigned_lines(os@.take(i + 1)) =~= before + (if !os@[i as int].spec_is_active()
                    && count_resigned(os@.take(i as int)) < 5 {
                    resigned_officer_line(os@[i as int])
                } else {
                    Seq::empty()
                }));
            }
            i += 1;
        }
        proof {
            assert(os@.take(i as int) =~= os@);
        }
    }
    text::push_str(out, "\n");
    proof {
        assert(out@ =~= start + officers_section(os@));
    }
}

fn push_psc_entry(out: &mut String, p: &Psc)
    ensures
        final(out)@ == old(out)@ + psc_entry(*p),
{
    let ghost start = out@;
    text::push_str(out, "  PSC: ");
    text::push_opt_or(out, &p.name, "Unknown");
    match &p.natures_of_control {
        Some(n) => {
            text::push_str(out, " — ");
            text::push_joined(out, n, ", ");
        },
        None => {},
    }
    text::push_str(out, "\n");
    push_opt_line(out, "    Nationality: ", &p.nationality);
    push_opt_line(out, "    Notified: ", &p.notified_on);
    push_opt_line(out, "    ⚠ Ceased: ", &p.ceased_on);
    proof {
        assert(out@ =~= start + psc_entry(*p));
    }
}

fn push_holder_line(out: &mut String, h: &PersonEntitled)
    ensures
        final(out)@ == old(out)@ + holder_line(*h),
{
    let ghost start = out@;
    text::push_str(out, "    Holder: ");
    text::push_opt_or(out, &h.name, "?");
    text::push_str(out, "\n");
    proof {
        assert(out@ =~= start + holder_line(*h));
    }
}

fn push_charge_entry(out: &mut String, c: &Charge)
    ensures
        final(out)@ == old(out)@ + charge_entry(*c),
{
    let ghost start = out@;
    text::push_str(out, "  Charge: ");
    match &c.classification {
        Some(cl) => text::push_opt_or(out, &cl.description, "unknown type"),
        None => text::push_str(out, "unknown type"),
    }
    text::push_str(out, " (status: ");
    text::push_opt_or(out, &c.status, "?");
    text::push_str(out, ")\n");
    match &c.persons_entitled {
        Some(hs) => push_holder_lines(out, hs),
        None => {},
    }
    push_opt_line(out, "    Created: ", &c.created_on);
    proof {
        assert(out@ =~= start + charge_entry(*c));
    }
}

fn push_date_line(out: &mut String, d: &InsolvencyDate)
    ensures
        final(out)@ == old(out)@ + date_line(*d),
{
    let ghost start = out@;
    text::push_str(out, "    ");
    text::push_opt_or(out, &d.date_type, "?");
    text::push_str(out, ": ");
    text::push_opt_or(out, &d.date, "?");
    text::push_str(out, "\n");
    proof {
        assert(out@ =~= start + date_line(*d));
    }
}

fn push_practitioner_line(out: &mut String, ip: &InsolvencyPractitioner)
    ensures
        final(out)@ == old(out)@ + practitioner_line(*ip),
{
    let ghost start = out@;
    text::push_str(out, "    IP: ");
    text::push_opt_or(out, &ip.name, "?");
    text::push_str(out, " (");
    text::push_opt_or(out, &ip.role, "?");
    text::push_str(out, ")\n");
    proof {
        assert(out@ =~= start + practitioner_line(*ip));
    }
}

fn push_case_entry(out: &mut String, k: &InsolvencyCase)
    ensures
        final(out)@ == old(out)@ + case_entry(*k),
{
    let ghost start = out@;
    text::push_str(out, "  Case: ");
    text::push_opt_or(out, &k.case_type, "?");
    text::push_str(out, " (number ");
    let n: u32 = match k.number {
        Some(n) => n,
        None => 0,
    };
    text::push_dec(out, n as u64);
    text::push_str(out, ")\n");
    match &k.dates {
        Some(ds) => push_date_lines(out, ds),
        None => {},
    }
    match &k.practitioners {
        Some(ps) => push_practitioner_lines(out, ps),
        None => {},
    }
    proof {
        assert(out@ =~= start + case_entry(*k));
    }
}

fn push_filing_entry(out: &mut String, f: &FilingHistoryItem)
    ensures
        final(out)@ == old(out)@ + filing_entry(*f),
{
    let ghost start = out@;
    text::push_str(out, "  ");
    text::push_opt_or(out, &f.date, "?");
    text::push_str(out, " — ");
    text::push_opt_or(out, &f.description, "?");
    text::push_str(out, " (");
    text::push_opt_or(out, &f.category, "?");
    text::push_str(out, ")\n");
    proof {
        assert(out@ =~= start + filing_entry(*f));
    }
}

/// Index of the first stored text whose key is `key`.
fn lookup_index(texts: &Vec<(String, String)>, key: &str) -> (r: Option<usize>)
    ensures
        r is Some == lookup(texts@, key@) is Some,
        r matches Some(i) ==> i < texts.len() && lookup(texts@, key@) == Some(texts@[i as int].1@),
{
    let mut i: usize = 0;
    assert(texts@.subrange(0, texts.len() as int) =~= texts@);
    while i < texts.len()
        invariant
            i <= texts.len(),
            lookup(texts@, key@) == lookup(texts@.subrange(i as int, texts.len() as int), key@),
        decreases texts.len() - i,
    {
        let ghost rest = texts@.subrange(i as int, texts.len() as int);
        if text::str_eq(texts[i].0.as_str(), key) {
            assert(rest[0] == texts@[i as int]);
            return Some(i);
        }
        assert(rest.drop_first() =~= texts@.subrange(i + 1, texts.len() as int));
        i += 1;
    }
    None
}

pub open spec fn doc_view(d: (String, String, String)) -> (Seq<char>, Seq<char>, Seq<char>) {
    (d.0@, d.1@, d.2@)
}

/// The documents quoted by `build_company_context`.
pub fn select_docs(filings: Option<&Vec<FilingHistoryItem>>, texts: &Vec<(String, String)>) -> (r: Vec<(String, String, String)>)
    ensures
        r@.len() == selected_docs(opt_vec(filings), texts@).len(),
        forall|i: int| 0 <= i < r@.len() ==> doc_view(#[trigger] r@[i]) == selected_docs(opt_vec(filings), texts@)[i],
{
    let mut docs: Vec<(String, String, String)> = Vec::new();
    let ghost m: Seq<(Seq<char>, Seq<char>, Seq<char>)> = Seq::empty();
    match filings {
        Some(fs) => {
            let mut i: usize = 0;
            while i < fs.len()
                invariant
                    i <= fs.len(),
                    docs@.len() == matched_docs(fs@.take(i as int), texts@).len(),
                    forall|j: int| 0 <= j < docs@.len() ==> doc_view(#[trigger] docs@[j]) == matched_docs(fs@.take(i as int), texts@)[j],
                decreases fs.len() - i,
            {
                proof {
                    assert(fs@.take(i + 1).drop_last() =~= fs@.take(i as int));
                    assert(fs@.take(i + 1).last() == fs@[i as int]);
                }
                let f = &fs[i];
                match &f.transaction_id {
                    Some(t) => {
                        match lookup_index(texts, t.as_str()) {
                            Some(k) => {
                                let desc = match &f.description {
                                    Some(d) => d.clone(),
                                    None => text::owned("Unknown filing"),
                                };
                                docs.push((t.clone(), desc, texts[k].1.clone()));
                            },
                            None => {},
                        }
                    },
                    None => {},
                }
                i += 1;
            }
            proof {
                assert(fs@.take(i as int) =~= fs@);
            }
        },
        None => {},
    }
    if docs.len() == 0 && texts.len() <= 3 {
        let mut i: usize = 0;
        while i < texts.len()
            invariant
                i <= texts.len(),
                docs@.len() == i,
                forall|j: int| 0 <= j < i ==> doc_view(#[trigger] docs@[j]) == all_docs(texts@)[j],
            decreases texts.len() - i,
        {
            docs.push((texts[i].0.clone(), text::owned("Unknown filing"), texts[i].1.clone()));
            i += 1;
        }
    }
    docs
}

/// Whether every document that `build_company_context` would quote can be cut at the
/// quoting limit: the limit falls between two characters of every longer document.
pub fn docs_cuttable_exec(filings: Option<&Vec<FilingHistoryItem>>, texts: &Vec<(String, String)>) -> (r: bool)
    ensures
        r == docs_cuttable(selected_docs(opt_vec(filings), texts@)),
{
    let docs = select_docs(filings, texts);
    let ghost ds = selected_docs(opt_vec(filings), texts@);
    let mut i: usize = 0;
    while i < docs.len()
        invariant
            i <= docs.len(),
            ds == selected_docs(opt_vec(filings), texts@),
            docs@.len() == ds.len(),
            forall|j: int| 0 <= j < docs@.len() ==> doc_view(#[trigger] docs@[j]) == ds[j],
            forall|j: int| 0 <= j < i && text::utf8_len(#[trigger] ds[j].2) > doc_limit() ==> text::is_byte_boundary(ds[j].2, doc_limit()),
        decreases docs.len() - i,
    {
        let t = docs[i].2.as_str();
        assert(t@ == ds[i as int].2);
        let n = text::byte_len(t);
        if n > 6000 {
            let p = text::byte_prefix_of(t, 6000);
            let pl = text::byte_len(p.as_str());
            proof {
                text::lemma_chars_within_le(t@, 6000);
            }
            if pl != 6000 {
                proof {
                    lemma_not_boundary(t@, 6000);
                    assert(text::utf8_len(ds[i as int].2) > doc_limit());
                    assert(!text::is_byte_boundary(ds[i as int].2, doc_limit()));
                    assert(!docs_cuttable(ds));
                }
                return false;
            }
            proof {
                text::lemma_chars_within_le(t@, 6000);
            }
        }
        i += 1;
    }
    true
}

/// When the longest prefix within `b` bytes is shorter than `b` bytes, `b` is no boundary.
pub proof fn lemma_not_boundary(s: Seq<char>, b: nat)
    requires
        text::utf8_len(text::byte_prefix(s, b)) != b,
    ensures
        !text::is_byte_boundary(s, b),
{
    text::lemma_chars_within_le(s, b);
    if text::is_byte_boundary(s, b) {
        let k = choose|k: int| 0 <= k <= s.len() && #[trigger] text::utf8_len(s.take(k)) == b;
        lemma_chars_within_max(s, b, k);
        let c = text::chars_within(s, b) as int;
        text::lemma_utf8_len_take_mono(s, k, c);
        lemma_chars_within_fits(s, b);
    }
}

/// The prefix chosen by `chars_within` fits within `b` bytes.
pub proof fn lemma_chars_within_fits(s: Seq<char>, b: nat)
    ensures
        text::utf8_len(s.take(text::chars_within(s, b) as int)) <= b,
    decreases s.len(),
{
    text::lemma_chars_within_le(s, b);
    if s.len() == 0 {
        assert(s.take(0) =~= s);
    } else if text::utf8_len(s) <= b {
        assert(s.take(s.len() as int) =~= s);
    } else {
        lemma_chars_within_fits(s.drop_last(), b);
        text::lemma_chars_within_le(s.drop_last(), b);
        assert(s.drop_last().take(text::chars_within(s, b) as int) =~= s.take(text::chars_within(s, b) as int));
    }
}

/// Any prefix that fits within `b` bytes is no longer than the one `chars_within` picks.
pub proof fn lemma_chars_within_max(s: Seq<char>, b: nat, k: int)
    requires
        0 <= k <= s.len(),
        text::utf8_len(s.take(k)) <= b,
    ensures
        k <= text::chars_within(s, b),
    decreases s.len(),
{
    if s.len() > 0 && text::utf8_len(s) > b {
        if k == s.len() {
            assert(s.take(k) =~= s);
        } else {
            assert(s.drop_last().take(k) =~= s.take(k));
            lemma_chars_within_max(s.drop_last(), b, k);
        }
    }
}

fn push_doc_entry(out: &mut String, d: &(String, String, String))
    requires
        text::utf8_len(d.2@) > doc_limit() ==> text::is_byte_boundary(d.2@, doc_limit()),
    ensures
        final(out)@ == old(out)@ + doc_entry((d.0@, d.1@, d.2@)),
{
    let ghost start = out@;
    text::push_str(out, "--- [SOURCE:");
    text::push_str(out, d.0.as_str());
    text::push_str(out, "] ");
    text::push_str(out, d.1.as_str());
    text::push_str(out, " ---\n");
    let t = d.2.as_str();
    let n = text::byte_len(t);
    if n > 6000 {
        let p = text::byte_prefix_of(t, 6000);
        text::push_str(out, p.as_str());
        text::push_str(out, "...\n[truncated, ");
        text::push_dec(out, n as u64);
        text::push_str(out, " chars total]");
    } else {
        text::push_str(out, t);
    }
    text::push_str(out, "\n");
    proof {
        assert(out@ =~= start + doc_entry((d.0@, d.1@, d.2@)));
    }
}

/// The `## Officers` section.
pub fn officers_section_string(os: &Vec<Officer>) -> (r: String)
    ensures
        r@ == officers_section(os@),
{
    let mut r = String::new();
    push_officers_section(&mut r, os);
    assert(Seq::<char>::empty() + officers_section(os@) =~= officers_section(os@));
    r
}

/// The `## Persons with Significant Control` section.
pub fn psc_section_string(ps: &Vec<Psc>) -> (r: String)
    ensures
        r@ == psc_section(ps@),
{
    if ps.len() == 0 {
        return String::new();
    }
    let mut r = text::owned("## Persons with Significant Control (");
    text::push_dec(&mut r, ps.len() as u64);
    text::push_str(&mut r, " entries)\n");
    push_psc_entries(&mut r, ps);
    text::push_str(&mut r, "\n");
    r
}

/// The `## Charges & Mortgages` section.
pub fn charges_section_string(cs: &Vec<Charge>) -> (r: String)
    ensures
        r@ == charges_section(cs@),
{
    if cs.len() == 0 {
        return String::new();
    }
    let mut r = text::owned("## Charges & Mortgages (");
    text::push_dec(&mut r, cs.len() as u64);
    text::push_str(&mut r, " entries)\n");
    push_charge_entries(&mut r, cs);
    text::push_str(&mut r, "\n");
    r
}

/// The `## ⚠ INSOLVENCY DATA` section.
pub fn insolvency_section_string(ins: &InsolvencyData) -> (r: String)
    ensures
        r@ == insolvency_section(*ins),
{
    let mut r = text::owned("## ⚠ INSOLVENCY DATA\n");
    text::push_str(&mut r, "  Status: ");
    text::push_joined(&mut r, &ins.status, ", ");
    text::push_str(&mut r, "\n");
    push_case_entries(&mut r, &ins.cases);
    text::push_str(&mut r, "\n");
    r
}

/// The `## Filing History` section.
pub fn filings_section_string(fs: &Vec<FilingHistoryItem>) -> (r: String)
    ensures
        r@ == filings_section(fs@),
{
    if fs.len() == 0 {
        return String::new();
    }
    let shown: usize = if fs.len() < 15 { fs.len() } else { 15 };
    let mut r = text::owned("## Filing History (showing ");
    text::push_dec(&mut r, shown as u64);
    text::push_str(&mut r, " of ");
    text::push_dec(&mut r, fs.len() as u64);
    text::push_str(&mut r, ")\n");
    let ghost head = r@;
    let mut i: usize = 0;
    while i < shown
        invariant
            i <= shown <= fs.len(),
            shown == shown_filings(fs@.len()),
            r@ == head + filing_entries(fs@.take(i as int)),
        decreases shown - i,
    {
        proof {
            assert(fs@.take(i + 1).drop_last() =~= fs@.take(i as int));
            assert(fs@.take(i + 1).last() == fs@[i as int]);
        }
        let ghost before = r@;
        push_filing_entry(&mut r, &fs[i]);
        proof {
            assert(head + filing_entries(fs@.take(i + 1)) =~= before + filing_entry(fs@[i as int]));
        }
        i += 1;
    }
    text::push_str(&mut r, "\n");
    r
}

/// The `## Extracted Document Text` section for the given documents.
fn docs_section_string(docs: &Vec<(String, String, String)>, Ghost(ds): Ghost<Seq<(Seq<char>, Seq<char>, Seq<char>)>>) -> (r: String)
    requires
        docs@.len() == ds.len(),
        forall|j: int| 0 <= j < docs@.len() ==> doc_view(#[trigger] docs@[j]) == ds[j],
        docs_cuttable(ds),
    ensures
        r@ == docs_section(ds),
{
    if docs.len() == 0 {
        return String::new();
    }
    let mut r = text::owned("## Extracted Document Text (");
    text::push_dec(&mut r, docs.len() as u64);
    text::push_str(&mut r, " documents)\n");
    let ghost head = r@;
    let mut i: usize = 0;
    while i < docs.len()
        invariant
            i <= docs.len(),
            docs@.len() == ds.len(),
            forall|j: int| 0 <= j < docs@.len() ==> doc_view(#[trigger] docs@[j]) == ds[j],
            docs_cuttable(ds),
            r@ == head + doc_entries(ds.take(i as int)),
        decreases docs.len() - i,
    {
        proof {
            assert(ds.take(i + 1).drop_last() =~= ds.take(i as int));
            assert(ds.take(i + 1).last() == ds[i as int]);
            assert(doc_view(docs@[i as int]) == ds[i as int]);
            assert(docs@[i as int].2@ == ds[i as int].2);
            assert(text::utf8_len(ds[i as int].2) > doc_limit() ==> text::is_byte_boundary(ds[i as int].2, doc_limit()));
        }
        let ghost before = r@;
        push_doc_entry(&mut r, &docs[i]);
        proof {
            assert(head + doc_entries(ds.take(i + 1)) =~= before + doc_entry(ds[i as int]));
        }
        i += 1;
    }
    proof {
        assert(ds.take(i as int) =~= ds);
    }
    text::push_str(&mut r, "\n");
    r
}

/// Build a structured context string from all available company data.
/// This becomes the user message context that the AI analyses.
///
/// `extracted_texts` pairs filing ids with extracted document text.
pub fn build_company_context(
    company_number: &str,
    profile: Option<&CompanyProfile>,
    officers: Option<&Vec<Officer>>,
    pscs: Option<&Vec<Psc>>,
    charges: Option<&Vec<Charge>>,
    insolvency: Option<&Option<InsolvencyData>>,
    filings: Option<&Vec<FilingHistoryItem>>,
    extracted_texts: &Vec<(String, String)>,
) -> (ctx: String)
    requires
        docs_cuttable(selected_docs(opt_vec(filings), extracted_texts@)),
    ensures
        ctx@ == company_context(
            company_number@,
            match profile {
                Some(p) => Some(*p),
                None => None,
            },
            opt_vec(officers),
            opt_vec(pscs),
            opt_vec(charges),
            match insolvency {
                Some(i) => Some(*i),
                None => None,
            },
            opt_vec(filings),
            extracted_texts@,
        ),
{
    let mut ctx = text::owned("=== COMPANY: ");
    text::push_str(&mut ctx, company_number);
    text::push_str(&mut ctx, " ===\n\n");
    let s = match profile {
        Some(p) => profile_section_string(company_number, p),
        None => String::new(),
    };
    text::push_str(&mut ctx, s.as_str());
    let s = match officers {
        Some(os) => officers_section_string(os),
        None => String::new(),
    };
    text::push_str(&mut ctx, s.as_str());
    let s = match pscs {
        Some(ps) => psc_section_string(ps),
        None => String::new(),
    };
    text::push_str(&mut ctx, s.as_str());
    let s = match charges {
        Some(cs) => charges_section_string(cs),
        None => String::new(),
    };
    text::push_str(&mut ctx, s.as_str());
    let s = match insolvency {
        Some(Some(ins)) => insolvency_section_string(ins),
        _ => String::new(),
    };
    text::push_str(&mut ctx, s.as_str());
    let s = match filings {
        Some(fs) => filings_section_string(fs),
        None => String::new(),
    };
    text::push_str(&mut ctx, s.as_str());
    let docs = select_docs(filings, extracted_texts);
    let s = docs_section_string(&docs, Ghost(selected_docs(opt_vec(filings), extracted_texts@)));
    text::push_str(&mut ctx, s.as_str());
    ctx
}

// ───────────────────────────── analysis prompts ─────────────────────────────

/// The sentence telling the analyst which period to cover.
pub open spec fn year_instruction(year_from: int, year_to: int) -> Seq<char> {
    if year_from == year_to {
        "Focus your analysis on the "@ + text::dec_int(year_from) + " accounting period."@
    } else {
        "Focus your analysis on the period "@ + text::dec_int(year_from) + " to "@ + text::dec_int(year_to)
            + " inclusive. Compare year-on-year figures where data is available for multiple years in this range."@
    }
}

/// The analysis prompt: instructions around the year instruction and the company context.
pub open spec fn analysis_prompt(company_context: Seq<char>, year_from: int, year_to: int) -> Seq<char> {
    "Please analyse the following Companies House data for this company.\n\n\
         "@ + year_instruction(year_from, year_to)
        + "\n\n\
         STEP 1 — CLASSIFY THE COMPANY\n\
         First, determine the company type from the SIC codes, filing patterns, and balance \
         sheet structure. State your classification clearly (e.g. 'This is a PROPERTY HOLDING \
         COMPANY' or 'This is an ACTIVE TRADING COMPANY'). This classification drives the \
         entire analysis — do not apply irrelevant metrics.\n\n\
         STEP 2 — PLAIN LANGUAGE SUMMARY\n\
         Write a 3-4 paragraph summary for a non-expert reader covering:\n\
         - What this company is and what it does (based on your classification)\n\
         - The financial position in plain English, using ONLY metrics relevant to this \
           company type (see guidance below)\n\
         - Who runs it and anything notable about ownership\n\
         - Any genuine red flags — distinguish between real concerns and things that are \
           normal for this type of company\n\n\
         STEP 3 — DETAILED ASSESSMENT\n\n\
         1. COMPANY OVERVIEW — classification, current status, age, registered purpose\n\n\
         2. KEY PERSONNEL — officers, PSCs, appointment patterns, any concerns\n\n\
         3. FINANCIAL HEALTH — ADAPT THIS SECTION TO THE COMPANY TYPE:\n\n\
           FOR TRADING COMPANIES:\n\
           - Start with yearly turnover summary (Turnover 2024: £X, Turnover 2023: £Y, etc.)\n\
           - Full P&L breakdown: revenue, cost of sales, gross profit, admin expenses, \
             operating profit, profit before/after tax\n\
           - Balance sheet: net assets, fixed assets, current assets, cash, creditors\n\
           - Margins and trends year-on-year\n\n\
           FOR PROPERTY HOLDING / SPV COMPANIES:\n\
           - There is typically NO turnover and NO P&L — do not ask for or fabricate one\n\
           - Focus on: investment property valuation, total fixed assets, net asset value\n\
           - Debt position: mortgage/charge amounts vs property value (loan-to-value ratio)\n\
           - Rental income if disclosed, otherwise note it is a balance-sheet entity\n\
           - Equity position and changes year-on-year\n\n\
           FOR DORMANT / SHELL COMPANIES:\n\
           - Confirm dormant status from filing pattern\n\
           - Note any residual assets or liabilities\n\
           - Flag any outstanding charges despite dormancy\n\
           - Skip P&L analysis entirely\n\n\
           FOR GROUP HOLDING COMPANIES:\n\
           - Focus on investment in subsidiaries\n\
           - Intercompany balances and dividend income\n\
           - Consolidated vs entity-level figures\n\
           - Group structure and control\n\n\
           FOR ALL TYPES: state exact accounting period dates. If multiple years available \
           in the requested range, show side by side and comment on trends.\n\n\
         4. RISK INDICATORS — insolvency, overdue accounts, charges, unusual patterns. \
            Distinguish between risks that are NORMAL for this company type vs genuinely \
            concerning signals.\n\n\
         5. NETWORK CONNECTIONS — shared directors, PSC chains worth investigating\n\n\
         6. RECOMMENDATIONS — what to investigate further, tailored to company type\n\n\
         Remember: use plain text only, no markdown formatting. Be factual and consistent.\n\n\
         ---\n\n"@ + company_context
}

/// Build the initial analysis prompt (first message from user).
pub fn build_analysis_prompt(company_context: &str, year_from: i32, year_to: i32) -> (r: String)
    ensures
        r@ == analysis_prompt(company_context@, year_from as int, year_to as int),
{
    let mut yi = String::new();
    if year_from == year_to {
        text::push_str(&mut yi, "Focus your analysis on the ");
        text::push_dec_i32(&mut yi, year_from);
        text::push_str(&mut yi, " accounting period.");
    } else {
        text::push_str(&mut yi, "Focus your analysis on the period ");
        text::push_dec_i32(&mut yi, year_from);
        text::push_str(&mut yi, " to ");
        text::push_dec_i32(&mut yi, year_to);
        text::push_str(&mut yi, " inclusive. Compare year-on-year figures where data is available for multiple years in this range.");
    }
    assert(Seq::<char>::empty() + year_instruction(year_from as int, year_to as int) =~= year_instruction(year_from as int, year_to as int)) by {
        assert(yi@ =~= year_instruction(year_from as int, year_to as int));
    }
    let mut r = text::owned("Please analyse the following Companies House data for this company.\n\n\
         ");
    text::push_str(&mut r, yi.as_str());
    text::push_str(&mut r, "\n\n\
         STEP 1 — CLASSIFY THE COMPANY\n\
         First, determine the company type from the SIC codes, filing patterns, and balance \
         sheet structure. State your classification clearly (e.g. 'This is a PROPERTY HOLDING \
         COMPANY' or 'This is an ACTIVE TRADING COMPANY'). This classification drives the \
         entire analysis — do not apply irrelevant metrics.\n\n\
         STEP 2 — PLAIN LANGUAGE SUMMARY\n\
         Write a 3-4 paragraph summary for a non-expert reader covering:\n\
         - What this company is and what it does (based on your classification)\n\
         - The financial position in plain English, using ONLY metrics relevant to this \
           company type (see guidance below)\n\
         - Who runs it and anything notable about ownership\n\
         - Any genuine red flags — distinguish between real concerns and things that are \
           normal for this type of company\n\n\
         STEP 3 — DETAILED ASSESSMENT\n\n\
         1. COMPANY OVERVIEW — classification, current status, age, registered purpose\n\n\
         2. KEY PERSONNEL — officers, PSCs, appointment patterns, any concerns\n\n\
         3. FINANCIAL HEALTH — ADAPT THIS SECTION TO THE COMPANY TYPE:\n\n\
           FOR TRADING COMPANIES:\n\
           - Start with yearly turnover summary (Turnover 2024: £X, Turnover 2023: £Y, etc.)\n\
           - Full P&L breakdown: revenue, cost of sales, gross profit, admin expenses, \
             operating profit, profit before/after tax\n\
           - Balance sheet: net assets, fixed assets, current assets, cash, creditors\n\
           - Margins and trends year-on-year\n\n\
           FOR PROPERTY HOLDING / SPV COMPANIES:\n\
           - There is typically NO turnover and NO P&L — do not ask for or fabricate one\n\
           - Focus on: investment property valuation, total fixed assets, net asset value\n\
           - Debt position: mortgage/charge amounts vs property value (loan-to-value ratio)\n\
           - Rental income if disclosed, otherwise note it is a balance-sheet entity\n\
           - Equity position and changes year-on-year\n\n\
           FOR DORMANT / SHELL COMPANIES:\n\
           - Confirm dormant status from filing pattern\n\
           - Note any residual assets or liabilities\n\
           - Flag any outstanding charges despite dormancy\n\
           - Skip P&L analysis entirely\n\n\
           FOR GROUP HOLDING COMPANIES:\n\
           - Focus on investment in subsidiaries\n\
           - Intercompany balances and dividend income\n\
           - Consolidated vs entity-level figures\n\
           - Group structure and control\n\n\
           FOR ALL TYPES: state exact accounting period dates. If multiple years available \
           in the requested range, show side by side and comment on trends.\n\n\
         4. RISK INDICATORS — insolvency, overdue accounts, charges, unusual patterns. \
            Distinguish between risks that are NORMAL for this company type vs genuinely \
            concerning signals.\n\n\
         5. NETWORK CONNECTIONS — shared directors, PSC chains worth investigating\n\n\
         6. RECOMMENDATIONS — what to investigate further, tailored to company type\n\n\
         Remember: use plain text only, no markdown formatting. Be factual and consistent.\n\n\
         ---\n\n");
    text::push_str(&mut r, company_context);
    r
}

/// The period label of a group analysis: one year, or `from-to`.
pub open spec fn year_range(year_from: int, year_to: int) -> Seq<char> {
    if year_from == year_to {
        text::dec_int(year_from)
    } else {
        text::dec_int(year_from) + "-"@ + text::dec_int(year_to)
    }
}

/// Maximum number of bytes of one subsidiary context quoted in a group prompt.
pub open spec fn subsidiary_limit() -> nat {
    3000
}

/// A subsidiary context as quoted: cut to its first 3000 bytes with a note when longer.
pub open spec fn subsidiary_display(ctx: Seq<char>) -> Seq<char> {
    if text::utf8_len(ctx) > subsidiary_limit() {
        text::byte_prefix(ctx, subsidiary_limit()) + "\n... [truncated for token efficiency]\n"@
    } else {
        ctx
    }
}

pub open spec fn subsidiary_entry(s: (String, String)) -> Seq<char> {
    "=== SUBSIDIARY: "@ + s.0@ + " ===\n"@ + subsidiary_display(s.1@) + "\n\n"@
}

pub open spec fn subsidiary_entries(s: Seq<(String, String)>) -> Seq<char>
    decreases s.len(),
{
    if s.len() == 0 {
        Seq::empty()
    } else {
        subsidiary_entries(s.drop_last()) + subsidiary_entry(s.last())
    }
}

/// The subsidiary sections for `(name, context)` pairs.
pub open spec fn subsidiary_entries_of(s: Seq<(Seq<char>, Seq<char>)>) -> Seq<char>
    decreases s.len(),
{
    if s.len() == 0 {
        Seq::empty()
    } else {
        subsidiary_entries_of(s.drop_last()) + "=== SUBSIDIARY: "@ + s.last().0 + " ===\n"@
            + subsidiary_display(s.last().1) + "\n\n"@
    }
}

/// The group analysis prompt for `(name, context)` pairs of subsidiaries.
pub open spec fn group_analysis_prompt_of(
    parent_context: Seq<char>,
    subsidiaries: Seq<(Seq<char>, Seq<char>)>,
    has_consolidated: bool,
    year_from: int,
    year_to: int,
) -> Seq<char> {
    "Analyse this CORPORATE GROUP structure ("@ + year_range(year_from, year_to) + " period).\n\n"@
        + (if has_consolidated { consolidated_note() } else { Seq::empty() })
        + "=== PARENT COMPANY ===\n"@ + parent_context + "\n\n"@ + subsidiary_entries_of(subsidiaries)
        + group_instructions()
}

pub proof fn lemma_subsidiary_entries_of(s: Seq<(String, String)>)
    ensures
        subsidiary_entries(s) == subsidiary_entries_of(s.map_values(|p: (String, String)| (p.0@, p.1@))),
    decreases s.len(),
{
    let f = |p: (String, String)| (p.0@, p.1@);
    if s.len() > 0 {
        lemma_subsidiary_entries_of(s.drop_last());
        assert(s.drop_last().map_values(f) =~= s.map_values(f).drop_last());
        assert(s.map_values(f).last() == (s.last().0@, s.last().1@));
        assert(subsidiary_entry(s.last()) =~= "=== SUBSIDIARY: "@ + s.last().0@ + " ===\n"@
            + subsidiary_display(s.last().1@) + "\n\n"@);
        assert(subsidiary_entries(s) =~= subsidiary_entries_of(s.map_values(f)));
    } else {
        assert(s.map_values(f).len() == 0);
    }
}

/// The group prompt over strings is the group prompt over their characters.
pub proof fn lemma_group_prompt_of(parent_context: Seq<char>, s: Seq<(String, String)>, has_consolidated: bool, year_from: int, year_to: int)
    ensures
        group_analysis_prompt(parent_context, s, has_consolidated, year_from, year_to)
            == group_analysis_prompt_of(parent_context, s.map_values(|p: (String, String)| (p.0@, p.1@)),
                has_consolidated, year_from, year_to),
{
    lemma_subsidiary_entries_of(s);
}

/// Note placed in a group prompt when the parent files consolidated accounts.
pub open spec fn consolidated_note() -> Seq<char> {
    "IMPORTANT: The parent company files CONSOLIDATED (GROUP) ACCOUNTS. \
             These already include the financial results of all subsidiaries. \
             Use the consolidated figures as the primary data source. \
             Only reference individual subsidiary data for specific operational breakdowns.\n\n"@
}

/// Closing instructions of a group prompt.
pub open spec fn group_instructions() -> Seq<char> {
    "Provide a GROUP ANALYSIS with these sections:\n\n\
         1. GROUP OVERVIEW — what this group does, how many entities, hierarchy structure\n\n\
         2. GROUP FINANCIAL SUMMARY — consolidated turnover, profit, net assets for the \
            requested period. If consolidated accounts are available, lead with those figures. \
            Explain in plain English what the group earns and whether it's profitable.\n\n\
         3. SUBSIDIARY BREAKDOWN — for each active subsidiary:\n\
            - What it does (infer from SIC codes and name)\n\
            - Whether it's a trading entity or dormant/holding\n\
            - Key financials (if available and not already in consolidated figures)\n\
            - Status and any concerns\n\n\
         4. INTER-GROUP ANALYSIS — shared directors, common addresses, potential conflicts, \
            unusual structures\n\n\
         5. GROUP RISK ASSESSMENT — overall group health, contagion risks (if one entity fails \
            does it affect others?), concentration risks\n\n\
         6. RECOMMENDATIONS — what to investigate further across the group\n\n\
         Remember: use plain text only, no markdown formatting."@
}

/// The group analysis prompt.
pub open spec fn group_analysis_prompt(
    parent_context: Seq<char>,
    subsidiaries: Seq<(String, String)>,
    has_consolidated: bool,
    year_from: int,
    year_to: int,
) -> Seq<char> {
    "Analyse this CORPORATE GROUP structure ("@ + year_range(year_from, year_to) + " period).\n\n"@
        + (if has_consolidated { consolidated_note() } else { Seq::empty() })
        + "=== PARENT COMPANY ===\n"@ + parent_context + "\n\n"@ + subsidiary_entries(subsidiaries)
        + group_instructions()
}

/// The consolidated-accounts note is what sets the two prompts apart: the
/// prompt for a parent with consolidated accounts is the prompt for one
/// without, with a note inserted that begins "IMPORTANT: The parent company
/// files CONSOLIDATED (GROUP) ACCOUNTS."; so the note is there when the
/// parent has consolidated accounts and only then.
pub proof fn consolidated_note_marks_consolidated_groups(
    parent_context: Seq<char>,
    subsidiaries: Seq<(String, String)>,
    year_from: int,
    year_to: int,
)
    ensures
        exists|k: int, note: Seq<char>|
            0 <= k <= group_analysis_prompt(parent_context, subsidiaries, false, year_from, year_to).len()
                && text::starts_with(note, "IMPORTANT: The parent company files CONSOLIDATED (GROUP) ACCOUNTS."@)
                && #[trigger] group_analysis_prompt(parent_context, subsidiaries, true, year_from, year_to)
                == group_analysis_prompt(parent_context, subsidiaries, false, year_from, year_to).take(k) + note
                + group_analysis_prompt(parent_context, subsidiaries, false, year_from, year_to).skip(k),
{
    reveal_strlit("IMPORTANT: The parent company files CONSOLIDATED (GROUP) ACCOUNTS.");
    reveal_strlit("IMPORTANT: The parent company files CONSOLIDATED (GROUP) ACCOUNTS. \
             These already include the financial results of all subsidiaries. \
             Use the consolidated figures as the primary data source. \
             Only reference individual subsidiary data for specific operational breakdowns.\n\n");
    let head = "Analyse this CORPORATE GROUP structure ("@ + year_range(year_from, year_to) + " period).\n\n"@;
    let rest = "=== PARENT COMPANY ===\n"@ + parent_context + "\n\n"@ + subsidiary_entries(subsidiaries)
        + group_instructions();
    let p0 = group_analysis_prompt(parent_context, subsidiaries, false, year_from, year_to);
    let p1 = group_analysis_prompt(parent_context, subsidiaries, true, year_from, year_to);
    let note = consolidated_note();
    assert(p0 =~= head + rest);
    assert(p1 =~= head + note + rest);
    let k = head.len() as int;
    assert(p0.take(k) =~= head);
    assert(p0.skip(k) =~= rest);
    let lit = "IMPORTANT: The parent company files CONSOLIDATED (GROUP) ACCOUNTS."@;
    assert(note.subrange(0, lit.len() as int) =~= lit);
    assert(p1 == p0.take(k) + note + p0.skip(k));
}

/// Every subsidiary context longer than the limit can be cut at the limit.
pub open spec fn subsidiaries_cuttable(s: Seq<(String, String)>) -> bool {
    forall|i: int|
        0 <= i < s.len() && text::utf8_len(#[trigger] s[i].1@) > subsidiary_limit()
            ==> text::is_byte_boundary(s[i].1@, subsidiary_limit())
}

/// Whether every subsidiary context longer than the quoting limit can be cut there.
pub fn subsidiaries_cuttable_exec(subsidiary_contexts: &[(String, String)]) -> (r: bool)
    ensures
        r == subsidiaries_cuttable(subsidiary_contexts@),
{
    let mut i: usize = 0;
    while i < subsidiary_contexts.len()
        invariant
            i <= subsidiary_contexts@.len(),
            forall|j: int| 0 <= j < i && text::utf8_len(#[trigger] subsidiary_contexts@[j].1@) > subsidiary_limit()
                ==> text::is_byte_boundary(subsidiary_contexts@[j].1@, subsidiary_limit()),
        decreases subsidiary_contexts@.len() - i,
    {
        let t = subsidiary_contexts[i].1.as_str();
        let n = text::byte_len(t);
        if n > 3000 {
            let p = text::byte_prefix_of(t, 3000);
            let pl = text::byte_len(p.as_str());
            if pl != 3000 {
                proof {
                    lemma_not_boundary(t@, 3000);
                    assert(text::utf8_len(subsidiary_contexts@[i as int].1@) > subsidiary_limit());
                }
                return false;
            }
            proof {
                lemma_chars_within_fits(t@, 3000);
                text::lemma_chars_within_le(t@, 3000);
                assert(text::utf8_len(t@.take(text::chars_within(t@, 3000) as int)) == 3000);
            }
        }
        i += 1;
    }
    true
}

/// Build a group-level analysis prompt that analyses multiple companies in a corporate group.
///
/// If the parent has consolidated accounts, these are used as the primary source
/// to avoid token bloat from duplicated data across subsidiaries.
/// `subsidiary_contexts` pairs each subsidiary's name with its context.
pub fn build_group_analysis_prompt(
    parent_context: &str,
    subsidiary_contexts: &[(String, String)],
    has_consolidated: bool,
    year_from: i32,
    year_to: i32,
) -> (r: String)
    requires
        subsidiaries_cuttable(subsidiary_contexts@),
    ensures
        r@ == group_analysis_prompt(parent_context@, subsidiary_contexts@, has_consolidated, year_from as int, year_to as int),
{
    let mut yr = String::new();
    text::push_dec_i32(&mut yr, year_from);
    if year_from != year_to {
        text::push_str(&mut yr, "-");
        text::push_dec_i32(&mut yr, year_to);
    }
    assert(yr@ =~= year_range(year_from as int, year_to as int));
    let mut r = text::owned("Analyse this CORPORATE GROUP structure (");
    text::push_str(&mut r, yr.as_str());
    text::push_str(&mut r, " period).\n\n");
    let note = if has_consolidated {
        text::owned("IMPORTANT: The parent company files CONSOLIDATED (GROUP) ACCOUNTS. \
             These already include the financial results of all subsidiaries. \
             Use the consolidated figures as the primary data source. \
             Only reference individual subsidiary data for specific operational breakdowns.\n\n")
    } else {
        String::new()
    };
    text::push_str(&mut r, note.as_str());
    text::push_str(&mut r, "=== PARENT COMPANY ===\n");
    text::push_str(&mut r, parent_context);
    text::push_str(&mut r, "\n\n");
    let ghost head = r@;
    let mut i: usize = 0;
    while i < subsidiary_contexts.len()
        invariant
            i <= subsidiary_contexts@.len(),
            subsidiaries_cuttable(subsidiary_contexts@),
            r@ == head + subsidiary_entries(subsidiary_contexts@.take(i as int)),
        decreases subsidiary_contexts@.len() - i,
    {
        let ghost s = subsidiary_contexts@;
        proof {
            assert(s.take(i + 1).drop_last() =~= s.take(i as int));
            assert(s.take(i + 1).last() == s[i as int]);
        }
        let ghost before = r@;
        let (name, ctx) = (&subsidiary_contexts[i].0, &subsidiary_contexts[i].1);
        let mut e = text::owned("=== SUBSIDIARY: ");
        text::push_str(&mut e, name.as_str());
        text::push_str(&mut e, " ===\n");
        let n = text::byte_len(ctx.as_str());
        if n > 3000 {
            let p = text::byte_prefix_of(ctx.as_str(), 3000);
            text::push_str(&mut e, p.as_str());
            text::push_str(&mut e, "\n... [truncated for token efficiency]\n");
        } else {
            text::push_str(&mut e, ctx.as_str());
        }
        text::push_str(&mut e, "\n\n");
        assert(e@ =~= subsidiary_entry(s[i as int]));
        text::push_str(&mut r, e.as_str());
        proof {
            assert(head + subsidiary_entries(s.take(i + 1)) =~= before + subsidiary_entry(s[i as int]));
        }
        i += 1;
    }
    proof {
        assert(subsidiary_contexts@.take(i as int) =~= subsidiary_contexts@);
    }
    text::push_str(&mut r, "Provide a GROUP ANALYSIS with these sections:\n\n\
         1. GROUP OVERVIEW — what this group does, how many entities, hierarchy structure\n\n\
         2. GROUP FINANCIAL SUMMARY — consolidated turnover, profit, net assets for the \
            requested period. If consolidated accounts are available, lead with those figures. \
            Explain in plain English what the group earns and whether it's profitable.\n\n\
         3. SUBSIDIARY BREAKDOWN — for each active subsidiary:\n\
            - What it does (infer from SIC codes and name)\n\
            - Whether it's a trading entity or dormant/holding\n\
            - Key financials (if available and not already in consolidated figures)\n\
            - Status and any concerns\n\n\
         4. INTER-GROUP ANALYSIS — shared directors, common addresses, potential conflicts, \
            unusual structures\n\n\
         5. GROUP RISK ASSESSMENT — overall group health, contagion risks (if one entity fails \
            does it affect others?), concentration risks\n\n\
         6. RECOMMENDATIONS — what to investigate further across the group\n\n\
         Remember: use plain text only, no markdown formatting.");
    r
}

} // verus!
