//! What the panels of the investigation window show and what their buttons
//! do, worked out from plain values: the search box, a director's
//! appointments, the company card, the sidebar and the settings page.
//! Drawing them is the caller's.
use vstd::prelude::*;
use crate::text;
use crate::session::SearchMode;
use crate::analysis;
use crate::group::{GroupRole, SubsidiaryInfo};
use crate::keyed::Keyed;
use crate::network::{CompanyNode, CorporateNetwork, EdgeRelation, RiskLevel};
use crate::prompts;
use crate::view::View;
use vstd::view::View as _;
use crate::types::{
    CompanyProfile, CompanySearchResult, FilingHistoryItem, Officer, Psc, DateOfBirth, NameElements, OfficerAppointment, OfficerAppointmentsResponse,
    OfficerSearchResult,
};

verus! {

// ───────────────────────────── the search box ─────────────────────────────

/// What a submitted search leads to.
#[derive(Debug)]
pub enum SearchAction {
    /// Go straight to the company with this (zero-padded) number.
    OpenCompany(String),
    SearchCompanies(String),
    SearchOfficers(String),
}

pub open spec fn is_ascii_digit(c: char) -> bool {
    '0' <= c && c <= '9'
}

pub open spec fn is_ascii_alpha(c: char) -> bool {
    ('a' <= c && c <= 'z') || ('A' <= c && c <= 'Z')
}

pub open spec fn all_digits(s: Seq<char>) -> bool {
    forall|i: int| 0 <= i < s.len() ==> is_ascii_digit(#[trigger] s[i])
}

/// Two ASCII letters followed by ASCII digits only (`SC123456`).
pub open spec fn letter_prefixed_digits(s: Seq<char>) -> bool {
    &&& s.len() >= 2
    &&& is_ascii_alpha(s[0])
    &&& is_ascii_alpha(s[1])
    &&& all_digits(s.skip(2))
}

/// A query taken for a company number: six to eight bytes, all digits or two
/// letters and then digits.
pub open spec fn company_number_like(q: Seq<char>) -> bool {
    &&& 6 <= text::utf8_len(q) <= 8
    &&& (all_digits(q) || letter_prefixed_digits(q))
}

/// Byte offset 2 of the query falls between two characters.
pub open spec fn splits_at_second_byte(q: Seq<char>) -> bool {
    ||| q.len() >= 1 && text::char_utf8_len(q[0]) == 2
    ||| q.len() >= 2 && text::char_utf8_len(q[0]) == 1 && text::char_utf8_len(q[1]) == 1
}

/// The company-number test cannot be made on this query: it is six to eight
/// bytes long, not all digits, and its first two bytes do not form whole
/// characters (the test looks at them on their own).
pub open spec fn number_test_breaks(q: Seq<char>) -> bool {
    &&& 6 <= text::utf8_len(q) <= 8
    &&& !all_digits(q)
    &&& !splits_at_second_byte(q)
}

/// The query padded on the left with zeros to eight characters.
pub open spec fn zero_padded(q: Seq<char>) -> Seq<char> {
    if q.len() < 8 {
        Seq::new((8 - q.len()) as nat, |i: int| '0') + q
    } else {
        q
    }
}

pub open spec fn search_action_view(a: SearchAction) -> (u8, Seq<char>) {
    match a {
        SearchAction::OpenCompany(n) => (0, n@),
        SearchAction::SearchCompanies(q) => (1, q@),
        SearchAction::SearchOfficers(q) => (2, q@),
    }
}

/// What the search page does with a typed query: nothing when it is blank;
/// in company mode a company number opens that company and anything else is
/// searched for; in director mode directors are searched for.
pub open spec fn page_search(mode: SearchMode, typed: Seq<char>) -> Option<(u8, Seq<char>)> {
    let q = text::trim(typed);
    if q.len() == 0 {
        None
    } else {
        match mode {
            SearchMode::Company => if company_number_like(q) {
                Some((0u8, zero_padded(q)))
            } else {
                Some((1u8, q))
            },
            SearchMode::Officer => Some((2u8, q)),
        }
    }
}

/// What the sidebar's quick search does with a typed query: a company number
/// opens that company in either mode; anything else is searched for in the
/// current mode.
pub open spec fn sidebar_search(mode: SearchMode, typed: Seq<char>) -> Option<(u8, Seq<char>)> {
    let q = text::trim(typed);
    if q.len() == 0 {
        None
    } else if company_number_like(q) {
        Some((0u8, zero_padded(q)))
    } else {
        match mode {
            SearchMode::Company => Some((1u8, q)),
            SearchMode::Officer => Some((2u8, q)),
        }
    }
}

/// A query taken for a company number opens a number of exactly eight
/// characters that ends with the query.
pub proof fn opened_numbers_have_eight_characters(q: Seq<char>)
    requires
        company_number_like(q),
    ensures
        zero_padded(q).len() == 8,
        text::ends_with(zero_padded(q), q),
{
    text::lemma_utf8_len_ge_len(q);
    let p = zero_padded(q);
    assert(p.subrange(p.len() - q.len(), p.len() as int) =~= q);
}

/// In company mode the search page and the sidebar do the same with a query.
pub proof fn search_boxes_agree(typed: Seq<char>)
    ensures
        page_search(SearchMode::Company, typed) == sidebar_search(SearchMode::Company, typed),
{
}

fn char_is_ascii_digit(c: char) -> (b: bool)
    ensures
        b == is_ascii_digit(c),
{
    '0' <= c && c <= '9'
}

fn char_is_ascii_alpha(c: char) -> (b: bool)
    ensures
        b == is_ascii_alpha(c),
{
    ('a' <= c && c <= 'z') || ('A' <= c && c <= 'Z')
}

/// Whether `v[from..]` is all ASCII digits.
fn digits_from(v: &Vec<char>, from: usize) -> (b: bool)
    requires
        from <= v.len(),
    ensures
        b == all_digits(v@.skip(from as int)),
{
    let mut i: usize = from;
    while i < v.len()
        invariant
            from <= i <= v.len(),
            forall|j: int| from <= j < i ==> is_ascii_digit(#[trigger] v@[j]),
        decreases v.len() - i,
    {
        if !char_is_ascii_digit(v[i]) {
            assert(v@.skip(from as int)[i - from] == v@[i as int]);
            return false;
        }
        i += 1;
    }
    assert forall|j: int| 0 <= j < v@.skip(from as int).len() implies is_ascii_digit(#[trigger] v@.skip(from as int)[j]) by {
        assert(v@.skip(from as int)[j] == v@[from + j]);
    }
    true
}

/// Whether a (trimmed) query is taken for a company number.
pub fn is_company_number(query: &str) -> (b: bool)
    requires
        !number_test_breaks(query@),
    ensures
        b == company_number_like(query@),
{
    let n = text::byte_len(query);
    if n < 6 || n > 8 {
        return false;
    }
    let v = text::chars_of(query);
    assert(v@.skip(0) =~= v@);
    if digits_from(&v, 0) {
        return true;
    }
    v.len() >= 2 && char_is_ascii_alpha(v[0]) && char_is_ascii_alpha(v[1]) && digits_from(&v, 2)
}

/// Whether the company-number test cannot be made on a typed query (once trimmed).
pub fn breaks_number_test(typed: &str) -> (b: bool)
    ensures
        b == number_test_breaks(text::trim(typed@)),
{
    let q = text::trimmed(typed);
    let n = text::byte_len(q.as_str());
    if n < 6 || n > 8 {
        return false;
    }
    let v = text::chars_of(q.as_str());
    assert(v@.skip(0) =~= v@);
    if digits_from(&v, 0) {
        return false;
    }
    if v.len() >= 1 && text::char_len_utf8(v[0]) == 2 {
        return false;
    }
    if v.len() >= 2 && text::char_len_utf8(v[0]) == 1 && text::char_len_utf8(v[1]) == 1 {
        return false;
    }
    true
}

/// The query padded on the left with zeros to eight characters (`{:0>8}`).
pub fn pad_company_number(query: &str) -> (p: String)
    ensures
        p@ == zero_padded(query@),
{
    let v = text::chars_of(query);
    let mut p = String::new();
    let mut k: usize = v.len();
    while k < 8
        invariant
            v.len() <= k,
            v.len() <= 8 ==> k <= 8,
            v.len() >= 8 ==> k == v.len(),
            v@ == query@,
            p@ == Seq::new((k - v.len()) as nat, |i: int| '0'),
        decreases 8 - k,
    {
        text::push_char(&mut p, '0');
        assert(p@ =~= Seq::new((k + 1 - v.len()) as nat, |i: int| '0'));
        k += 1;
    }
    text::push_str(&mut p, query);
    if v.len() >= 8 {
        assert(p@ =~= query@);
    } else {
        assert(k == 8);
    }
    p
}

fn is_empty_str(s: &str) -> (b: bool)
    ensures
        b == (s@.len() == 0),
{
    let n = text::byte_len(s);
    assert(s@.len() > 0 ==> text::utf8_len(s@) > 0);
    n == 0
}

fn action_of(kind: u8, s: String) -> (a: SearchAction)
    requires
        kind <= 2,
    ensures
        search_action_view(a) == (kind, s@),
{
    if kind == 0 {
        SearchAction::OpenCompany(s)
    } else if kind == 1 {
        SearchAction::SearchCompanies(s)
    } else {
        SearchAction::SearchOfficers(s)
    }
}

/// What the search page does with a typed query.
pub fn search_from_page(mode: SearchMode, typed: &str) -> (r: Option<SearchAction>)
    requires
        mode == SearchMode::Company ==> !number_test_breaks(text::trim(typed@)),
    ensures
        match r {
            Some(a) => page_search(mode, typed@) == Some(search_action_view(a)),
            None => page_search(mode, typed@) is None,
        },
{
    let q = text::trimmed(typed);
    if is_empty_str(q.as_str()) {
        return None;
    }
    match mode {
        SearchMode::Company => if is_company_number(q.as_str()) {
            Some(action_of(0, pad_company_number(q.as_str())))
        } else {
            Some(action_of(1, q))
        },
        SearchMode::Officer => Some(action_of(2, q)),
    }
}

/// What the sidebar's quick search does with a typed query.
pub fn search_from_sidebar(mode: SearchMode, typed: &str) -> (r: Option<SearchAction>)
    requires
        !number_test_breaks(text::trim(typed@)),
    ensures
        match r {
            Some(a) => sidebar_search(mode, typed@) == Some(search_action_view(a)),
            None => sidebar_search(mode, typed@) is None,
        },
{
    let q = text::trimmed(typed);
    if is_empty_str(q.as_str()) {
        return None;
    }
    if is_company_number(q.as_str()) {
        return Some(action_of(0, pad_company_number(q.as_str())));
    }
    match mode {
        SearchMode::Company => Some(action_of(1, q)),
        SearchMode::Officer => Some(action_of(2, q)),
    }
}

// ───────────────────────────── directors and appointments ─────────────────────────────

/// A month number as a three-letter name (`?` outside 1..=12).
pub open spec fn month_name(m: nat) -> Seq<char> {
    if m == 1 { "Jan"@ }
    else if m == 2 { "Feb"@ }
    else if m == 3 { "Mar"@ }
    else if m == 4 { "Apr"@ }
    else if m == 5 { "May"@ }
    else if m == 6 { "Jun"@ }
    else if m == 7 { "Jul"@ }
    else if m == 8 { "Aug"@ }
    else if m == 9 { "Sep"@ }
    else if m == 10 { "Oct"@ }
    else if m == 11 { "Nov"@ }
    else if m == 12 { "Dec"@ }
    else { "?"@ }
}

/// A number that may be missing, missing taken as 0.
pub open spec fn or_zero(o: Option<u32>) -> nat {
    match o {
        Some(x) => x as nat,
        None => 0,
    }
}

/// `Born Mon YYYY` for a date of birth (a missing month shows `?`, a missing year `0`).
pub open spec fn born_text_of(d: DateOfBirth) -> Seq<char> {
    "Born "@ + month_name(or_zero(d.month)) + " "@ + text::dec(or_zero(d.year))
}

/// The three-letter name of a month (`?` for a missing or unknown month).
pub fn month_abbrev(month: Option<u32>) -> (r: &'static str)
    ensures
        r@ == month_name(or_zero(month)),
{
    let m: u32 = match month {
        Some(x) => x,
        None => 0,
    };
    if m == 1 { "Jan" }
    else if m == 2 { "Feb" }
    else if m == 3 { "Mar" }
    else if m == 4 { "Apr" }
    else if m == 5 { "May" }
    else if m == 6 { "Jun" }
    else if m == 7 { "Jul" }
    else if m == 8 { "Aug" }
    else if m == 9 { "Sep" }
    else if m == 10 { "Oct" }
    else if m == 11 { "Nov" }
    else if m == 12 { "Dec" }
    else { "?" }
}

/// `Born Mon YYYY` for a date of birth.
pub fn born_text(dob: &DateOfBirth) -> (t: String)
    ensures
        t@ == born_text_of(*dob),
{
    let mut t = text::owned("Born ");
    text::push_str(&mut t, month_abbrev(dob.month));
    text::push_str(&mut t, " ");
    let y: u32 = match dob.year {
        Some(x) => x,
        None => 0,
    };
    text::push_dec(&mut t, y as u64);
    t
}

/// How a company status is coloured.
#[derive(Debug, Clone, Copy, PartialEq, Eq, Structural)]
pub enum Tone {
    Good,
    Bad,
    Warning,
    Muted,
}

/// The colour of a company status badge: active is good; dissolved,
/// liquidation and insolvency proceedings are bad; administration is a
/// warning; anything else is muted.
pub open spec fn status_tone_of(status: Seq<char>) -> Tone {
    if status == "active"@ { Tone::Good }
    else if status == "dissolved"@ || status == "liquidation"@ || status == "insolvency-proceedings"@ { Tone::Bad }
    else if status == "administration"@ { Tone::Warning }
    else { Tone::Muted }
}

pub fn status_tone(status: &str) -> (t: Tone)
    ensures
        t == status_tone_of(status@),
{
    if text::str_eq(status, "active") { Tone::Good }
    else if text::str_eq(status, "dissolved") || text::str_eq(status, "liquidation")
        || text::str_eq(status, "insolvency-proceedings") { Tone::Bad }
    else if text::str_eq(status, "administration") { Tone::Warning }
    else { Tone::Muted }
}

/// The status of the company of an appointment as shown on its card:
/// active good, dissolved bad, liquidation a warning, anything else muted.
pub open spec fn appointment_tone_of(status: Seq<char>) -> Tone {
    if status == "active"@ { Tone::Good }
    else if status == "dissolved"@ { Tone::Bad }
    else if status == "liquidation"@ { Tone::Warning }
    else { Tone::Muted }
}

/// The icon shown before the status of an appointment's company.
pub open spec fn appointment_icon_of(status: Seq<char>) -> Seq<char> {
    if status == "active"@ { "🟢"@ }
    else if status == "dissolved"@ { "🔴"@ }
    else if status == "liquidation"@ { "🟡"@ }
    else { "⚪"@ }
}

/// A string field that may be missing, with its default.
pub open spec fn or_default(o: Option<String>, d: Seq<char>) -> Seq<char> {
    text::opt_or(o, d)
}

pub open spec fn appointed_name(a: OfficerAppointment) -> Seq<char> {
    match a.appointed_to {
        Some(t) => or_default(t.company_name, "Unknown Company"@),
        None => "Unknown Company"@,
    }
}

pub open spec fn appointed_number(a: OfficerAppointment) -> Seq<char> {
    match a.appointed_to {
        Some(t) => or_default(t.company_number, "?"@),
        None => "?"@,
    }
}

pub open spec fn appointed_status(a: OfficerAppointment) -> Seq<char> {
    match a.appointed_to {
        Some(t) => or_default(t.company_status, "?"@),
        None => "?"@,
    }
}

/// The present parts of a name (title, forenames, other forenames, surname), in that order.
pub open spec fn name_parts(n: NameElements) -> Seq<Seq<char>> {
    some_parts(seq![n.title, n.forename, n.other_forenames, n.surname])
}

/// The strings that are present among `parts`, in order.
pub open spec fn some_parts(parts: Seq<Option<String>>) -> Seq<Seq<char>>
    decreases parts.len(),
{
    if parts.len() == 0 {
        Seq::empty()
    } else {
        let rest = some_parts(parts.drop_last());
        match parts.last() {
            Some(s) => rest.push(s@),
            None => rest,
        }
    }
}

/// The full name given by the name elements, when any is present.
pub open spec fn full_name_of(a: OfficerAppointment) -> Option<Seq<char>> {
    match a.name_elements {
        Some(n) => if name_parts(n).len() > 0 { Some(text::join(name_parts(n), " "@)) } else { None },
        None => None,
    }
}

/// What the card of one appointment shows.
pub struct AppointmentCard {
    pub company_name: String,
    pub company_number: String,
    pub company_status: String,
    pub status_icon: &'static str,
    pub status_tone: Tone,
    pub role: String,
    pub appointed: String,
    /// The appointment is current (not resigned).
    pub is_active: bool,
    /// The address on one line, when there is one.
    pub address: Option<String>,
    /// The full name from the name elements, when any is present.
    pub full_name: Option<String>,
}

pub open spec fn opt_view(o: Option<String>) -> Option<Seq<char>> {
    match o {
        Some(s) => Some(s@),
        None => None,
    }
}

/// The card describes the appointment: defaults fill missing fields.
pub open spec fn card_describes(c: AppointmentCard, a: OfficerAppointment) -> bool {
    &&& c.company_name@ == appointed_name(a)
    &&& c.company_number@ == appointed_number(a)
    &&& c.company_status@ == appointed_status(a)
    &&& c.status_icon@ == appointment_icon_of(appointed_status(a))
    &&& c.status_tone == appointment_tone_of(appointed_status(a))
    &&& c.role@ == or_default(a.officer_role, "unknown"@)
    &&& c.appointed@ == or_default(a.appointed_on, "?"@)
    &&& c.is_active == (a.resigned_on is None)
    &&& opt_view(c.address) == match a.address {
        Some(ad) => Some(ad.spec_one_line()),
        None => None,
    }
    &&& opt_view(c.full_name) == full_name_of(a)
}

fn field_or(o: &Option<String>, default: &str) -> (s: String)
    ensures
        s@ == text::opt_or(*o, default@),
{
    let mut s = String::new();
    text::push_opt_or(&mut s, o, default);
    s
}

fn appointment_icon(status: &str) -> (r: &'static str)
    ensures
        r@ == appointment_icon_of(status@),
{
    if text::str_eq(status, "active") { "🟢" }
    else if text::str_eq(status, "dissolved") { "🔴" }
    else if text::str_eq(status, "liquidation") { "🟡" }
    else { "⚪" }
}

fn appointment_tone(status: &str) -> (t: Tone)
    ensures
        t == appointment_tone_of(status@),
{
    if text::str_eq(status, "active") { Tone::Good }
    else if text::str_eq(status, "dissolved") { Tone::Bad }
    else if text::str_eq(status, "liquidation") { Tone::Warning }
    else { Tone::Muted }
}

fn full_name(a: &OfficerAppointment) -> (r: Option<String>)
    ensures
        opt_view(r) == full_name_of(*a),
{
    match &a.name_elements {
        Some(n) => {
            let mut parts: Vec<String> = Vec::new();
            let ghost all = seq![n.title, n.forename, n.other_forenames, n.surname];
            proof {
                assert(all.take(0) =~= Seq::<Option<String>>::empty());
                assert(text::views(parts@) =~= Seq::<Seq<char>>::empty());
            }
            push_some(&mut parts, &n.title, Ghost(all), Ghost(0));
            push_some(&mut parts, &n.forename, Ghost(all), Ghost(1));
            push_some(&mut parts, &n.other_forenames, Ghost(all), Ghost(2));
            push_some(&mut parts, &n.surname, Ghost(all), Ghost(3));
            proof {
                assert(all.take(4) =~= all);
            }
            if parts.len() == 0 {
                None
            } else {
                let mut s = String::new();
                text::push_joined(&mut s, &parts, " ");
                Some(s)
            }
        },
        None => None,
    }
}

fn push_some(parts: &mut Vec<String>, o: &Option<String>, Ghost(all): Ghost<Seq<Option<String>>>, Ghost(i): Ghost<int>)
    requires
        0 <= i < all.len(),
        all[i] == *o,
        text::views(old(parts)@) == some_parts(all.take(i)),
    ensures
        text::views(final(parts)@) == some_parts(all.take(i + 1)),
{
    assert(all.take(i + 1).drop_last() =~= all.take(i));
    match o {
        Some(s) => {
            let ghost before = parts@;
            parts.push(s.clone());
            assert(text::views(parts@) =~= text::views(before).push(s@));
        },
        None => {},
    }
}

/// What the card of one appointment shows.
pub fn appointment_card(a: &OfficerAppointment) -> (c: AppointmentCard)
    ensures
        card_describes(c, *a),
{
    let (name, number, status) = match &a.appointed_to {
        Some(t) => (field_or(&t.company_name, "Unknown Company"), field_or(&t.company_number, "?"),
            field_or(&t.company_status, "?")),
        None => (text::owned("Unknown Company"), text::owned("?"), text::owned("?")),
    };
    let icon = appointment_icon(status.as_str());
    let tone = appointment_tone(status.as_str());
    let address = match &a.address {
        Some(ad) => Some(ad.one_line()),
        None => None,
    };
    AppointmentCard {
        company_name: name,
        company_number: number,
        company_status: status,
        status_icon: icon,
        status_tone: tone,
        role: field_or(&a.officer_role, "unknown"),
        appointed: field_or(&a.appointed_on, "?"),
        is_active: a.resigned_on.is_none(),
        address,
        full_name: full_name(a),
    }
}

/// An appointment counted for "investigate all": current, and at a company
/// that is known and not dissolved.
pub open spec fn is_live_appointment(a: OfficerAppointment) -> bool {
    &&& a.resigned_on is None
    &&& a.appointed_to is Some
    &&& !text::opt_is(a.appointed_to->0.company_status, "dissolved"@)
}

/// The live appointments among `items`, in order.
pub open spec fn live_appointments(items: Seq<OfficerAppointment>) -> Seq<OfficerAppointment>
    decreases items.len(),
{
    if items.len() == 0 {
        Seq::empty()
    } else {
        let rest = live_appointments(items.drop_last());
        if is_live_appointment(items.last()) { rest.push(items.last()) } else { rest }
    }
}

/// The company numbers of the live appointments that have one, in order.
pub open spec fn live_company_numbers(items: Seq<OfficerAppointment>) -> Seq<Seq<char>>
    decreases items.len(),
{
    if items.len() == 0 {
        Seq::empty()
    } else {
        let rest = live_company_numbers(items.drop_last());
        let a = items.last();
        if is_live_appointment(a) && a.appointed_to->0.company_number is Some {
            rest.push(a.appointed_to->0.company_number->0@)
        } else {
            rest
        }
    }
}

pub open spec fn appointment_items(r: OfficerAppointmentsResponse) -> Seq<OfficerAppointment> {
    match r.items {
        Some(v) => v@,
        None => Seq::empty(),
    }
}

/// "Investigate all" for a director: how many live appointments there are
/// (the button is offered when there is more than one) and the company
/// numbers to investigate when it is pressed.
pub fn live_appointment_targets(r: &OfficerAppointmentsResponse) -> (t: (usize, Vec<String>))
    ensures
        t.0 == live_appointments(appointment_items(*r)).len(),
        text::views(t.1@) == live_company_numbers(appointment_items(*r)),
{
    let mut count: usize = 0;
    let mut numbers: Vec<String> = Vec::new();
    match &r.items {
        Some(items) => {
            let mut i: usize = 0;
            proof {
                assert(items@.take(0) =~= Seq::<OfficerAppointment>::empty());
                assert(text::views(numbers@) =~= Seq::<Seq<char>>::empty());
            }
            while i < items.len()
                invariant
                    i <= items.len(),
                    count == live_appointments(items@.take(i as int)).len(),
                    count <= i,
                    text::views(numbers@) == live_company_numbers(items@.take(i as int)),
                decreases items.len() - i,
            {
                proof {
                    assert(items@.take(i + 1).drop_last() =~= items@.take(i as int));
                    assert(items@.take(i + 1).last() == items@[i as int]);
                }
                let a = &items[i];
                let live = match &a.appointed_to {
                    Some(t) => a.resigned_on.is_none() && match &t.company_status {
                        Some(st) => !text::str_eq(st.as_str(), "dissolved"),
                        None => true,
                    },
                    None => false,
                };
                if live {
                    count += 1;
                    match &a.appointed_to {
                        Some(t) => match &t.company_number {
                            Some(n) => {
                                let ghost before = numbers@;
                                numbers.push(n.clone());
                                assert(text::views(numbers@) =~= text::views(before).push(n@));
                            },
                            None => {},
                        },
                        None => {},
                    }
                }
                i += 1;
            }
            proof {
                assert(items@.take(items.len() as int) =~= items@);
            }
        },
        None => {
            assert(text::views(numbers@) =~= Seq::<Seq<char>>::empty());
        },
    }
    (count, numbers)
}

/// The summary line of a director's appointments.
pub struct OfficerSummary {
    /// `Born Mon YYYY`, when the date of birth is known.
    pub born: Option<String>,
    pub active: Option<u32>,
    pub inactive: Option<u32>,
    /// Shown only when some appointments were resigned.
    pub resigned: Option<u32>,
    pub corporate: bool,
    pub total: u32,
}

/// The summary line of a director's appointments.
pub fn officer_summary(r: &OfficerAppointmentsResponse) -> (s: OfficerSummary)
    ensures
        opt_view(s.born) == match r.date_of_birth {
            Some(d) => Some(born_text_of(d)),
            None => None,
        },
        s.active == r.active_count,
        s.inactive == r.inactive_count,
        s.resigned == match r.resigned_count {
            Some(n) => if n > 0 { Some(n) } else { None },
            None => None,
        },
        s.corporate == (r.is_corporate_officer == Some(true)),
        s.total as nat == or_zero(r.total_results),
{
    let born = match &r.date_of_birth {
        Some(d) => Some(born_text(d)),
        None => None,
    };
    let resigned = match r.resigned_count {
        Some(n) => if n > 0 { Some(n) } else { None },
        None => None,
    };
    let corporate = match r.is_corporate_officer {
        Some(b) => b,
        None => false,
    };
    let total = match r.total_results {
        Some(n) => n,
        None => 0,
    };
    OfficerSummary {
        born,
        active: r.active_count,
        inactive: r.inactive_count,
        resigned,
        corporate,
        total,
    }
}

/// What the card of one director in the search results shows.
pub struct OfficerResultCard {
    pub name: String,
    pub description: String,
    pub born: Option<String>,
    pub address: Option<String>,
    pub appointments: u32,
    /// Where the director's appointments are listed, when known.
    pub appointments_path: Option<String>,
}

pub fn officer_result_card(r: &OfficerSearchResult) -> (c: OfficerResultCard)
    ensures
        c.name@ == or_default(r.title, "Unknown"@),
        c.description@ == or_default(r.description, ""@),
        opt_view(c.born) == match r.date_of_birth {
            Some(d) => Some(born_text_of(d)),
            None => None,
        },
        opt_view(c.address) == match r.address {
            Some(a) => Some(a.spec_one_line()),
            None => None,
        },
        c.appointments as nat == or_zero(r.appointment_count),
        opt_view(c.appointments_path) == match r.links {
            Some(l) => opt_view(l.self_link),
            None => None,
        },
{
    let born = match &r.date_of_birth {
        Some(d) => Some(born_text(d)),
        None => None,
    };
    let address = match &r.address {
        Some(a) => Some(a.one_line()),
        None => None,
    };
    let path = match &r.links {
        Some(l) => match &l.self_link {
            Some(p) => Some(p.clone()),
            None => None,
        },
        None => None,
    };
    OfficerResultCard {
        name: field_or(&r.title, "Unknown"),
        description: field_or(&r.description, ""),
        born,
        address,
        appointments: match r.appointment_count {
            Some(n) => n,
            None => 0,
        },
        appointments_path: path,
    }
}

/// What the card of one company in the search results shows.
pub struct CompanyResultCard {
    pub name: String,
    pub number: String,
    pub status: String,
    pub tone: Tone,
}

pub fn company_result_card(r: &CompanySearchResult) -> (c: CompanyResultCard)
    ensures
        c.name@ == or_default(r.title, "Unknown"@),
        c.number@ == or_default(r.company_number, "?"@),
        c.status@ == or_default(r.company_status, "?"@),
        c.tone == status_tone_of(c.status@),
{
    let status = field_or(&r.company_status, "?");
    let tone = status_tone(status.as_str());
    CompanyResultCard {
        name: field_or(&r.title, "Unknown"),
        number: field_or(&r.company_number, "?"),
        status,
        tone,
    }
}

// ───────────────────────────── the company card ─────────────────────────────

/// At most the first 500 characters of an analysis, with `...` after them
/// when the analysis is longer than 500 bytes.
pub open spec fn preview_of(a: Seq<char>) -> Seq<char> {
    let p = if a.len() <= 500 { a } else { a.take(500) };
    if text::utf8_len(a) > 500 { p + "..."@ } else { p }
}

/// The preview of a company's analysis shown on its card.
pub fn analysis_preview(a: &str) -> (p: String)
    ensures
        p@ == preview_of(a@),
{
    let v = text::chars_of(a);
    let k: usize = if v.len() <= 500 { v.len() } else { 500 };
    let mut p = text::string_of(&v, 0, k);
    proof {
        assert(v@.subrange(0, k as int) =~= if a@.len() <= 500 { a@ } else { a@.take(500) });
    }
    if text::byte_len(a) > 500 {
        text::push_str(&mut p, "...");
    }
    p
}

/// A due date with its state: red when overdue, green otherwise (`-` when the date is missing).
pub open spec fn due_text_of(overdue: Option<bool>, next_due: Option<String>) -> Seq<char> {
    (if overdue == Some(true) { "🔴"@ } else { "🟢"@ }) + " Due: "@ + or_default(next_due, "-"@)
}

fn due_text(overdue: Option<bool>, next_due: &Option<String>) -> (t: String)
    ensures
        t@ == due_text_of(overdue, *next_due),
{
    let mut t = if overdue == Some(true) { text::owned("🔴") } else { text::owned("🟢") };
    text::push_str(&mut t, " Due: ");
    text::push_opt_or(&mut t, next_due, "-");
    t
}

/// The details shown on a company's card.
pub struct CompanyFacts {
    /// The status, upper-cased, and how it is coloured.
    pub status: String,
    pub status_tone: Tone,
    pub company_type: String,
    pub incorporated: String,
    pub dissolved: Option<String>,
    pub jurisdiction: String,
    /// The SIC codes joined by `, `, when there are any.
    pub sic_codes: Option<String>,
    /// The registered office on one line, or `-`.
    pub office: String,
    pub accounts_due: Option<String>,
    pub confirmation_due: Option<String>,
    pub charges: &'static str,
    pub insolvency: &'static str,
}

pub open spec fn status_of(p: CompanyProfile) -> Seq<char> {
    or_default(p.company_status, "unknown"@)
}

/// The facts describe the profile.
pub open spec fn facts_describe(f: CompanyFacts, p: CompanyProfile) -> bool {
    &&& f.status@ == analysis::uppercase_text(status_of(p))
    &&& f.status_tone == status_tone_of(status_of(p))
    &&& f.company_type@ == or_default(p.company_type, "-"@)
    &&& f.incorporated@ == or_default(p.date_of_creation, "-"@)
    &&& opt_view(f.dissolved) == opt_view(p.date_of_cessation)
    &&& f.jurisdiction@ == or_default(p.jurisdiction, "-"@)
    &&& opt_view(f.sic_codes) == match p.sic_codes {
        Some(v) => Some(text::join(text::views(v@), ", "@)),
        None => None,
    }
    &&& f.office@ == match p.registered_office_address {
        Some(a) => a.spec_one_line(),
        None => "-"@,
    }
    &&& opt_view(f.accounts_due) == match p.accounts {
        Some(a) => Some(due_text_of(a.overdue, a.next_due)),
        None => None,
    }
    &&& opt_view(f.confirmation_due) == match p.confirmation_statement {
        Some(c) => Some(due_text_of(c.overdue, c.next_due)),
        None => None,
    }
    &&& f.charges@ == if p.has_charges == Some(true) { "Yes"@ } else { "No"@ }
    &&& f.insolvency@ == if p.has_insolvency_history == Some(true) { "Yes ⚠"@ } else { "No"@ }
}

/// The details shown on a company's card.
pub fn company_facts(p: &CompanyProfile) -> (f: CompanyFacts)
    ensures
        facts_describe(f, *p),
{
    let status = field_or(&p.company_status, "unknown");
    let upper = analysis::to_uppercase(status.as_str());
    let tone = status_tone(status.as_str());
    let dissolved = match &p.date_of_cessation {
        Some(d) => Some(d.clone()),
        None => None,
    };
    let sic = match &p.sic_codes {
        Some(v) => {
            let mut s = String::new();
            text::push_joined(&mut s, v, ", ");
            Some(s)
        },
        None => None,
    };
    let office = match &p.registered_office_address {
        Some(a) => a.one_line(),
        None => text::owned("-"),
    };
    let accounts_due = match &p.accounts {
        Some(a) => Some(due_text(a.overdue, &a.next_due)),
        None => None,
    };
    let confirmation_due = match &p.confirmation_statement {
        Some(c) => Some(due_text(c.overdue, &c.next_due)),
        None => None,
    };
    CompanyFacts {
        status: upper,
        status_tone: tone,
        company_type: field_or(&p.company_type, "-"),
        incorporated: field_or(&p.date_of_creation, "-"),
        dissolved,
        jurisdiction: field_or(&p.jurisdiction, "-"),
        sic_codes: sic,
        office,
        accounts_due,
        confirmation_due,
        charges: if p.has_charges == Some(true) { "Yes" } else { "No" },
        insolvency: if p.has_insolvency_history == Some(true) { "Yes ⚠" } else { "No" },
    }
}

/// The heading of a company's group card.
pub open spec fn group_heading_of(role: GroupRole) -> Seq<char> {
    match role {
        GroupRole::Subsidiary => "🏢 SUBSIDIARY"@,
        GroupRole::Parent => "🏛 PARENT / HOLDING"@,
        GroupRole::Unknown => "🏢 GROUP STRUCTURE"@,
    }
}

pub fn group_heading(role: GroupRole) -> (r: &'static str)
    ensures
        r@ == group_heading_of(role),
{
    match role {
        GroupRole::Subsidiary => "🏢 SUBSIDIARY",
        GroupRole::Parent => "🏛 PARENT / HOLDING",
        GroupRole::Unknown => "🏢 GROUP STRUCTURE",
    }
}

/// The icon shown before a subsidiary: active, dissolved, or anything else.
pub open spec fn subsidiary_icon_of(status: Seq<char>) -> Seq<char> {
    if status == "active"@ { "🟢"@ } else if status == "dissolved"@ { "🔴"@ } else { "⚪"@ }
}

pub fn subsidiary_icon(status: &str) -> (r: &'static str)
    ensures
        r@ == subsidiary_icon_of(status@),
{
    if text::str_eq(status, "active") { "🟢" } else if text::str_eq(status, "dissolved") { "🔴" } else { "⚪" }
}

/// The numbers of the active subsidiaries, in order.
pub open spec fn active_numbers(subs: Seq<SubsidiaryInfo>) -> Seq<Seq<char>>
    decreases subs.len(),
{
    if subs.len() == 0 {
        Seq::empty()
    } else {
        let rest = active_numbers(subs.drop_last());
        if subs.last().status@ == "active"@ { rest.push(subs.last().company_number@) } else { rest }
    }
}

/// The subsidiaries that "investigate all active" investigates.
pub fn active_subsidiary_numbers(subs: &Vec<SubsidiaryInfo>) -> (r: Vec<String>)
    ensures
        text::views(r@) == active_numbers(subs@),
{
    let mut r: Vec<String> = Vec::new();
    let mut i: usize = 0;
    proof {
        assert(subs@.take(0) =~= Seq::<SubsidiaryInfo>::empty());
        assert(text::views(r@) =~= Seq::<Seq<char>>::empty());
    }
    while i < subs.len()
        invariant
            i <= subs.len(),
            text::views(r@) == active_numbers(subs@.take(i as int)),
        decreases subs.len() - i,
    {
        proof {
            assert(subs@.take(i + 1).drop_last() =~= subs@.take(i as int));
            assert(subs@.take(i + 1).last() == subs@[i as int]);
        }
        if text::str_eq(subs[i].status.as_str(), "active") {
            let ghost before = r@;
            r.push(subs[i].company_number.clone());
            assert(text::views(r@) =~= text::views(before).push(subs@[i as int].company_number@));
        }
        i += 1;
    }
    assert(subs@.take(subs.len() as int) =~= subs@);
    r
}

/// One line of the list of persons with significant control.
pub struct PscLine {
    /// A corporate PSC (shown with a building) rather than a person.
    pub corporate: bool,
    pub name: String,
    /// The company to investigate, for a corporate PSC with a registration number.
    pub investigate: Option<String>,
}

/// The line of an active PSC.
pub open spec fn psc_line_of(p: Psc) -> (bool, Seq<char>, Option<Seq<char>>) {
    (p.spec_is_corporate(), or_default(p.name, "Unknown"@),
        if p.spec_is_corporate() { p.spec_registration_number() } else { None })
}

/// The lines of the active PSCs, in order.
pub open spec fn psc_lines_of(ps: Seq<Psc>) -> Seq<(bool, Seq<char>, Option<Seq<char>>)>
    decreases ps.len(),
{
    if ps.len() == 0 {
        Seq::empty()
    } else {
        let rest = psc_lines_of(ps.drop_last());
        if ps.last().spec_is_active() { rest.push(psc_line_of(ps.last())) } else { rest }
    }
}

pub open spec fn psc_line_view(l: PscLine) -> (bool, Seq<char>, Option<Seq<char>>) {
    (l.corporate, l.name@, opt_view(l.investigate))
}

/// The lines of the active PSCs shown on a company's card.
pub fn psc_lines(ps: &Vec<Psc>) -> (r: Vec<PscLine>)
    ensures
        r@.map_values(|l: PscLine| psc_line_view(l)) == psc_lines_of(ps@),
{
    let mut r: Vec<PscLine> = Vec::new();
    let mut i: usize = 0;
    proof {
        assert(ps@.take(0) =~= Seq::<Psc>::empty());
        assert(r@.map_values(|l: PscLine| psc_line_view(l)) =~= Seq::<(bool, Seq<char>, Option<Seq<char>>)>::empty());
    }
    while i < ps.len()
        invariant
            i <= ps.len(),
            r@.map_values(|l: PscLine| psc_line_view(l)) == psc_lines_of(ps@.take(i as int)),
        decreases ps.len() - i,
    {
        proof {
            assert(ps@.take(i + 1).drop_last() =~= ps@.take(i as int));
            assert(ps@.take(i + 1).last() == ps@[i as int]);
        }
        let p = &ps[i];
        if p.is_active() {
            let corporate = p.is_corporate();
            let investigate = if corporate {
                match p.registration_number() {
                    Some(n) => Some(text::owned(n)),
                    None => None,
                }
            } else {
                None
            };
            let line = PscLine { corporate, name: field_or(&p.name, "Unknown"), investigate };
            let ghost before = r@;
            r.push(line);
            assert(r@.map_values(|l: PscLine| psc_line_view(l)) =~= before.map_values(|l: PscLine| psc_line_view(l)).push(psc_line_of(ps@[i as int])));
        }
        i += 1;
    }
    assert(ps@.take(ps.len() as int) =~= ps@);
    r
}

// ───────────────────────────── the dashboard and the lists ─────────────────────────────

/// How many of the nodes have risk level `level`.
pub open spec fn count_level(ns: Seq<CompanyNode>, level: RiskLevel) -> nat
    decreases ns.len(),
{
    if ns.len() == 0 {
        0
    } else {
        count_level(ns.drop_last(), level) + if ns.last().risk_level == level { 1nat } else { 0nat }
    }
}

proof fn lemma_count_level_le(ns: Seq<CompanyNode>, level: RiskLevel)
    ensures
        count_level(ns, level) <= ns.len(),
    decreases ns.len(),
{
    if ns.len() > 0 {
        lemma_count_level_le(ns.drop_last(), level);
    }
}

/// The dashboard's risk figures: how many investigated companies are high
/// risk, and how many medium.
pub fn risk_counts(network: &CorporateNetwork) -> (r: (usize, usize))
    ensures
        r.0 == count_level(network.nodes(), RiskLevel::High),
        r.1 == count_level(network.nodes(), RiskLevel::Medium),
{
    let n = network.node_count();
    let ghost ns = network.nodes();
    let mut high: usize = 0;
    let mut medium: usize = 0;
    let mut i: usize = 0;
    while i < n
        invariant
            n == ns.len(),
            ns == network.nodes(),
            i <= n,
            high == count_level(ns.take(i as int), RiskLevel::High),
            medium == count_level(ns.take(i as int), RiskLevel::Medium),
        decreases n - i,
    {
        proof {
            assert(ns.take(i + 1).drop_last() =~= ns.take(i as int));
            assert(ns.take(i + 1).last() == ns[i as int]);
            lemma_count_level_le(ns.take(i as int), RiskLevel::High);
            lemma_count_level_le(ns.take(i as int), RiskLevel::Medium);
        }
        let node = network.node_at(i);
        match node.risk_level {
            RiskLevel::High => high += 1,
            RiskLevel::Medium => medium += 1,
            RiskLevel::Low => {},
        }
        i += 1;
    }
    assert(ns.take(n as int) =~= ns);
    (high, medium)
}

/// The officers panel's figures: how many officers are active, and how many resigned.
pub fn officer_counts(officers: &Vec<Officer>) -> (r: (usize, usize))
    ensures
        r.0 == prompts::count_active(officers@),
        r.1 == officers@.len() - prompts::count_active(officers@),
{
    let mut active: usize = 0;
    let mut i: usize = 0;
    while i < officers.len()
        invariant
            i <= officers.len(),
            active == prompts::count_active(officers@.take(i as int)),
            active <= i,
        decreases officers.len() - i,
    {
        proof {
            assert(officers@.take(i + 1).drop_last() =~= officers@.take(i as int));
            assert(officers@.take(i + 1).last() == officers@[i as int]);
        }
        if officers[i].is_active() {
            active += 1;
        }
        i += 1;
    }
    assert(officers@.take(officers.len() as int) =~= officers@);
    (active, officers.len() - active)
}

/// The filing has a transaction id whose text was extracted.
pub open spec fn has_text(f: FilingHistoryItem, texts: Map<Seq<char>, String>) -> bool {
    f.transaction_id is Some && texts.contains_key(f.transaction_id->0@)
}

/// How many of the filings have extracted text.
pub open spec fn count_with_text(fs: Seq<FilingHistoryItem>, texts: Map<Seq<char>, String>) -> nat
    decreases fs.len(),
{
    if fs.len() == 0 {
        0
    } else {
        count_with_text(fs.drop_last(), texts) + if has_text(fs.last(), texts) { 1nat } else { 0nat }
    }
}

proof fn lemma_count_with_text_le(fs: Seq<FilingHistoryItem>, texts: Map<Seq<char>, String>)
    ensures
        count_with_text(fs, texts) <= fs.len(),
    decreases fs.len(),
{
    if fs.len() > 0 {
        lemma_count_with_text_le(fs.drop_last(), texts);
    }
}

/// How many of a company's filings have extracted text (the documents
/// shown as cached).
pub fn cached_document_count(filings: &Vec<FilingHistoryItem>, texts: &Keyed<String>) -> (n: usize)
    ensures
        n == count_with_text(filings@, texts@),
{
    let mut n: usize = 0;
    let mut i: usize = 0;
    while i < filings.len()
        invariant
            i <= filings.len(),
            n == count_with_text(filings@.take(i as int), texts@),
        decreases filings.len() - i,
    {
        proof {
            assert(filings@.take(i + 1).drop_last() =~= filings@.take(i as int));
            assert(filings@.take(i + 1).last() == filings@[i as int]);
            lemma_count_with_text_le(filings@.take(i as int), texts@);
        }
        let has = match &filings[i].transaction_id {
            Some(tid) => texts.contains_key(tid.as_str()),
            None => false,
        };
        if has {
            n += 1;
        }
        i += 1;
    }
    assert(filings@.take(filings.len() as int) =~= filings@);
    n
}

/// The kind of a filing, by its category, which decides how it is coloured.
#[derive(Debug, Clone, Copy, PartialEq, Eq, Structural)]
pub enum FilingKind {
    Accounts,
    ConfirmationStatement,
    Officers,
    Capital,
    Insolvency,
    Charges,
    Other,
}

pub open spec fn filing_kind_of(category: Seq<char>) -> FilingKind {
    if category == "accounts"@ { FilingKind::Accounts }
    else if category == "confirmation-statement"@ { FilingKind::ConfirmationStatement }
    else if category == "officers"@ { FilingKind::Officers }
    else if category == "capital"@ { FilingKind::Capital }
    else if category == "insolvency"@ { FilingKind::Insolvency }
    else if category == "charges"@ { FilingKind::Charges }
    else { FilingKind::Other }
}

/// What a filing's document allows.
#[derive(Debug)]
pub enum DocumentState {
    /// Its text was extracted (and may have been summarised).
    Extracted { summarised: bool },
    /// Its text can be downloaded from this metadata link.
    Extractable(String),
    /// Nothing: no transaction id, or no document to download.
    Unavailable,
}

/// What the card of one filing shows.
pub struct FilingCard {
    pub date: String,
    /// The category in brackets.
    pub category: String,
    pub kind: FilingKind,
    pub filing_type: String,
    pub description: String,
    pub document: DocumentState,
}

pub open spec fn document_state_view(d: DocumentState) -> (u8, bool, Seq<char>) {
    match d {
        DocumentState::Extracted { summarised } => (0, summarised, Seq::empty()),
        DocumentState::Extractable(u) => (1, false, u@),
        DocumentState::Unavailable => (2, false, Seq::empty()),
    }
}

/// The document state of a filing given the extracted texts and summaries.
pub open spec fn document_state_of(f: FilingHistoryItem, texts: Map<Seq<char>, String>, summaries: Map<Seq<char>, String>) -> (u8, bool, Seq<char>) {
    match f.transaction_id {
        Some(tid) => if texts.contains_key(tid@) {
            (0, summaries.contains_key(tid@), Seq::empty())
        } else {
            match f.links {
                Some(l) => match l.document_metadata {
                    Some(u) => (1, false, u@),
                    None => (2, false, Seq::empty()),
                },
                None => (2, false, Seq::empty()),
            }
        },
        None => (2, false, Seq::empty()),
    }
}

fn filing_kind(category: &str) -> (k: FilingKind)
    ensures
        k == filing_kind_of(category@),
{
    if text::str_eq(category, "accounts") { FilingKind::Accounts }
    else if text::str_eq(category, "confirmation-statement") { FilingKind::ConfirmationStatement }
    else if text::str_eq(category, "officers") { FilingKind::Officers }
    else if text::str_eq(category, "capital") { FilingKind::Capital }
    else if text::str_eq(category, "insolvency") { FilingKind::Insolvency }
    else if text::str_eq(category, "charges") { FilingKind::Charges }
    else { FilingKind::Other }
}

/// What the card of one filing shows.
pub fn filing_card(f: &FilingHistoryItem, texts: &Keyed<String>, summaries: &Keyed<String>) -> (c: FilingCard)
    ensures
        c.date@ == or_default(f.date, "-"@),
        c.category@ == "["@ + or_default(f.category, "-"@) + "]"@,
        c.kind == filing_kind_of(or_default(f.category, "-"@)),
        c.filing_type@ == or_default(f.filing_type, "-"@),
        c.description@ == or_default(f.description, "No description"@),
        document_state_view(c.document) == document_state_of(*f, texts@, summaries@),
{
    let category = field_or(&f.category, "-");
    let kind = filing_kind(category.as_str());
    let mut bracketed = text::owned("[");
    text::push_str(&mut bracketed, category.as_str());
    text::push_str(&mut bracketed, "]");
    let document = match &f.transaction_id {
        Some(tid) => if texts.contains_key(tid.as_str()) {
            DocumentState::Extracted { summarised: summaries.contains_key(tid.as_str()) }
        } else {
            match &f.links {
                Some(l) => match &l.document_metadata {
                    Some(u) => DocumentState::Extractable(u.clone()),
                    None => DocumentState::Unavailable,
                },
                None => DocumentState::Unavailable,
            }
        },
        None => DocumentState::Unavailable,
    };
    FilingCard {
        date: field_or(&f.date, "-"),
        category: bracketed,
        kind,
        filing_type: field_or(&f.filing_type, "-"),
        description: field_or(&f.description, "No description"),
        document,
    }
}

// ───────────────────────────── the sidebar, status line and settings ─────────────────────────────

/// An investigation page can be opened once some company was investigated;
/// the network page always can.
pub fn nav_enabled(view: View, companies: usize) -> (b: bool)
    ensures
        b == (companies > 0 || view == View::Network),
{
    companies > 0 || view == View::Network
}

/// The right-hand side of the status line: busy mark, key indicators,
/// network size, then the cost (already formatted by the caller, or empty).
pub open spec fn status_line_of(loading: bool, has_ch: bool, has_ai: bool, companies: nat, links: nat, cost: Seq<char>) -> Seq<char> {
    (if loading { "⏳"@ } else { ""@ }) + "  "@ + (if has_ch { "🟢"@ } else { "🔴"@ }) + " CH  "@
        + (if has_ai { "🟢"@ } else { "⚪"@ }) + " AI  │  "@ + text::dec(companies) + " companies  "@
        + text::dec(links) + " links  "@ + cost
}

pub fn status_line(loading: bool, has_ch: bool, has_ai: bool, companies: usize, links: usize, cost: &str) -> (t: String)
    ensures
        t@ == status_line_of(loading, has_ch, has_ai, companies as nat, links as nat, cost@),
{
    let mut t = if loading { text::owned("⏳") } else { String::new() };
    text::push_str(&mut t, "  ");
    text::push_str(&mut t, if has_ch { "🟢" } else { "🔴" });
    text::push_str(&mut t, " CH  ");
    text::push_str(&mut t, if has_ai { "🟢" } else { "⚪" });
    text::push_str(&mut t, " AI  │  ");
    text::push_dec(&mut t, companies as u64);
    text::push_str(&mut t, " companies  ");
    text::push_dec(&mut t, links as u64);
    text::push_str(&mut t, " links  ");
    text::push_str(&mut t, cost);
    proof {
        if !loading {
            reveal_strlit("");
            assert(""@ =~= Seq::<char>::empty());
        }
    }
    t
}

/// Which example model name the settings page suggests.
#[derive(Debug, Clone, Copy, PartialEq, Eq, Structural)]
pub enum ModelHint {
    /// A model of the Anthropic provider.
    Anthropic,
    /// A model of the OpenAI provider.
    OpenAi,
    /// A generic model name.
    Other,
}

pub open spec fn model_hint_of(provider: Seq<char>) -> ModelHint {
    if provider == "anthropic"@ { ModelHint::Anthropic }
    else if provider == "openai"@ { ModelHint::OpenAi }
    else { ModelHint::Other }
}

pub fn model_hint(provider: &str) -> (h: ModelHint)
    ensures
        h == model_hint_of(provider@),
{
    if text::str_eq(provider, "anthropic") { ModelHint::Anthropic }
    else if text::str_eq(provider, "openai") { ModelHint::OpenAi }
    else { ModelHint::Other }
}

/// The base URL field is shown for a custom provider only.
pub fn shows_base_url(provider: &str) -> (b: bool)
    ensures
        b == (provider@ == "custom"@),
{
    text::str_eq(provider, "custom")
}

// ───────────────────────────── the network view ─────────────────────────────

/// The edges among the first `upto` that leave node `idx`, newest first, as
/// (label, name of the company they lead to).
pub open spec fn outgoing_links(ns: Seq<CompanyNode>, es: Seq<(nat, nat, EdgeRelation)>, idx: nat, upto: nat) -> Seq<(Seq<char>, Seq<char>)>
    decreases upto,
{
    if upto == 0 {
        Seq::empty()
    } else {
        let e = es[upto - 1];
        let rest = outgoing_links(ns, es, idx, (upto - 1) as nat);
        if e.0 == idx { seq![(e.2.spec_label(), ns[e.1 as int].company_name@)] + rest } else { rest }
    }
}

/// The edges among the first `upto` that reach node `idx`, newest first, as
/// (label, name of the company they come from).
pub open spec fn incoming_links(ns: Seq<CompanyNode>, es: Seq<(nat, nat, EdgeRelation)>, idx: nat, upto: nat) -> Seq<(Seq<char>, Seq<char>)>
    decreases upto,
{
    if upto == 0 {
        Seq::empty()
    } else {
        let e = es[upto - 1];
        let rest = incoming_links(ns, es, idx, (upto - 1) as nat);
        if e.1 == idx { seq![(e.2.spec_label(), ns[e.0 as int].company_name@)] + rest } else { rest }
    }
}

pub open spec fn link_views(v: Seq<(String, String)>) -> Seq<(Seq<char>, Seq<char>)> {
    v.map_values(|p: (String, String)| (p.0@, p.1@))
}

/// The links of one company in the network view: the edges leaving it and
/// those reaching it, each newest first.
pub fn node_links(network: &CorporateNetwork, idx: usize) -> (r: (Vec<(String, String)>, Vec<(String, String)>))
    requires
        network.wf(),
    ensures
        link_views(r.0@) == outgoing_links(network.nodes(), network.edges(), idx as nat, network.edges().len()),
        link_views(r.1@) == incoming_links(network.nodes(), network.edges(), idx as nat, network.edges().len()),
{
    let n = network.edge_count();
    let ghost ns = network.nodes();
    let ghost es = network.edges();
    let mut out: Vec<(String, String)> = Vec::new();
    let mut inc: Vec<(String, String)> = Vec::new();
    let mut e: usize = 0;
    assert(link_views(out@) =~= Seq::<(Seq<char>, Seq<char>)>::empty());
    assert(link_views(inc@) =~= Seq::<(Seq<char>, Seq<char>)>::empty());
    while e < n
        invariant
            network.wf(),
            n == es.len(),
            ns == network.nodes(),
            es == network.edges(),
            e <= n,
            link_views(out@) == outgoing_links(ns, es, idx as nat, e as nat),
            link_views(inc@) == incoming_links(ns, es, idx as nat, e as nat),
        decreases n - e,
    {
        let (a, b, rel) = network.edge_at(e);
        proof {
            network.lemma_edge_wf(e as int);
        }
        if a == idx {
            let label = rel.label();
            let name = network.node_at(b).company_name.clone();
            let ghost before = out@;
            out.insert(0, (label, name));
            assert(link_views(out@) =~= seq![(es[e as int].2.spec_label(), ns[es[e as int].1 as int].company_name@)] + link_views(before));
        }
        if b == idx {
            let label = rel.label();
            let name = network.node_at(a).company_name.clone();
            let ghost before = inc@;
            inc.insert(0, (label, name));
            assert(link_views(inc@) =~= seq![(es[e as int].2.spec_label(), ns[es[e as int].0 as int].company_name@)] + link_views(before));
        }
        e += 1;
    }
    (out, inc)
}

} // verus!
