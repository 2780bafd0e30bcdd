//! Companies House API requests: which URL and query each request uses, how
//! the client authenticates, how a response status is handled, and how a
//! downloaded document is classified. The HTTP traffic itself is the
//! caller's.
use vstd::prelude::*;
use crate::text;
use crate::types::{InsolvencyCase, InsolvencyData, InsolvencyResponse};
use base64::Engine;

verus! {

/// Base URL of the Companies House public data API.
pub const CH_API_BASE: &'static str = "https://api.company-information.service.gov.uk";

/// Base URL of the Companies House document API.
pub const DOCUMENT_API_BASE: &'static str = "https://document-api.company-information.service.gov.uk";

/// A request to the public data API.
#[derive(Clone, Debug)]
pub enum ApiRequest {
    /// Company search for the query.
    SearchCompanies(String),
    /// Officer search for the query.
    SearchOfficers(String),
    /// The appointments of an officer, by the path (or URL) that the search gave.
    OfficerAppointments(String),
    /// The profile of a company, by number.
    CompanyProfile(String),
    Officers(String),
    Pscs(String),
    Charges(String),
    Insolvency(String),
    /// A company's filing history, optionally of one category, `items_per_page`
    /// items (25 when not given).
    FilingHistory { company_number: String, category: Option<String>, items_per_page: Option<u32> },
}

/// `s` begins with `http`.
pub open spec fn is_absolute(s: Seq<char>) -> bool {
    text::starts_with(s, "http"@)
}

/// The URL of a request.
pub open spec fn request_url(r: ApiRequest) -> Seq<char> {
    match r {
        ApiRequest::SearchCompanies(_) => CH_API_BASE@ + "/search/companies"@,
        ApiRequest::SearchOfficers(_) => CH_API_BASE@ + "/search/officers"@,
        ApiRequest::OfficerAppointments(path) => if is_absolute(path@) {
            path@
        } else {
            CH_API_BASE@ + path@
        },
        ApiRequest::CompanyProfile(n) => CH_API_BASE@ + "/company/"@ + n@,
        ApiRequest::Officers(n) => CH_API_BASE@ + "/company/"@ + n@ + "/officers"@,
        ApiRequest::Pscs(n) => CH_API_BASE@ + "/company/"@ + n@ + "/persons-with-significant-control"@,
        ApiRequest::Charges(n) => CH_API_BASE@ + "/company/"@ + n@ + "/charges"@,
        ApiRequest::Insolvency(n) => CH_API_BASE@ + "/company/"@ + n@ + "/insolvency"@,
        ApiRequest::FilingHistory { company_number, .. } => CH_API_BASE@ + "/company/"@ + company_number@
            + "/filing-history"@,
    }
}

/// The query parameters of a request, in order.
pub open spec fn request_query(r: ApiRequest) -> Seq<(Seq<char>, Seq<char>)> {
    match r {
        ApiRequest::SearchCompanies(q) => seq![("q"@, q@), ("items_per_page"@, "20"@)],
        ApiRequest::SearchOfficers(q) => seq![("q"@, q@), ("items_per_page"@, "20"@)],
        ApiRequest::OfficerAppointments(_) => seq![("items_per_page"@, "100"@)],
        ApiRequest::CompanyProfile(_) => Seq::empty(),
        ApiRequest::Officers(_) => seq![("items_per_page"@, "100"@)],
        ApiRequest::Pscs(_) => seq![("items_per_page"@, "100"@)],
        ApiRequest::Charges(_) => seq![("items_per_page"@, "100"@)],
        ApiRequest::Insolvency(_) => Seq::empty(),
        ApiRequest::FilingHistory { category, items_per_page, .. } => {
            let per_page = match items_per_page {
                Some(n) => text::dec(n as nat),
                None => "25"@,
            };
            let first = seq![("items_per_page"@, per_page)];
            match category {
                Some(c) => first.push(("category"@, c@)),
                None => first,
            }
        },
    }
}

/// A "not found" answer to the request means that there is nothing to list
/// (a company without charges, or without insolvency history).
pub open spec fn not_found_is_empty(r: ApiRequest) -> bool {
    r is Charges || r is Insolvency
}

impl ApiRequest {
    /// The URL that this request is sent to.
    pub fn url(&self) -> (u: String)
        ensures
            u@ == request_url(*self),
    {
        let mut u = text::owned(CH_API_BASE);
        match self {
            ApiRequest::SearchCompanies(_) => text::push_str(&mut u, "/search/companies"),
            ApiRequest::SearchOfficers(_) => text::push_str(&mut u, "/search/officers"),
            ApiRequest::OfficerAppointments(path) => {
                if text::str_starts_with(path.as_str(), "http") {
                    return text::owned(path.as_str());
                }
                text::push_str(&mut u, path.as_str());
            },
            ApiRequest::CompanyProfile(n) => {
                text::push_str(&mut u, "/company/");
                text::push_str(&mut u, n.as_str());
            },
            ApiRequest::Officers(n) => {
                text::push_str(&mut u, "/company/");
                text::push_str(&mut u, n.as_str());
                text::push_str(&mut u, "/officers");
            },
            ApiRequest::Pscs(n) => {
                text::push_str(&mut u, "/company/");
                text::push_str(&mut u, n.as_str());
                text::push_str(&mut u, "/persons-with-significant-control");
            },
            ApiRequest::Charges(n) => {
                text::push_str(&mut u, "/company/");
                text::push_str(&mut u, n.as_str());
                text::push_str(&mut u, "/charges");
            },
            ApiRequest::Insolvency(n) => {
                text::push_str(&mut u, "/company/");
                text::push_str(&mut u, n.as_str());
                text::push_str(&mut u, "/insolvency");
            },
            ApiRequest::FilingHistory { company_number, .. } => {
                text::push_str(&mut u, "/company/");
                text::push_str(&mut u, company_number.as_str());
                text::push_str(&mut u, "/filing-history");
            },
        }
        u
    }

    /// The query parameters that this request carries.
    pub fn query(&self) -> (q: Vec<(String, String)>)
        ensures
            q.deep_view() == request_query(*self),
    {
        let mut q: Vec<(String, String)> = Vec::new();
        match self {
            ApiRequest::SearchCompanies(s) | ApiRequest::SearchOfficers(s) => {
                q.push((text::owned("q"), text::owned(s.as_str())));
                q.push((text::owned("items_per_page"), text::owned("20")));
            },
            ApiRequest::OfficerAppointments(_) | ApiRequest::Officers(_) | ApiRequest::Pscs(_)
            | ApiRequest::Charges(_) => {
                q.push((text::owned("items_per_page"), text::owned("100")));
            },
            ApiRequest::CompanyProfile(_) | ApiRequest::Insolvency(_) => {},
            ApiRequest::FilingHistory { category, items_per_page, .. } => {
                let mut per_page = String::new();
                match items_per_page {
                    Some(n) => text::push_dec(&mut per_page, *n as u64),
                    None => text::push_str(&mut per_page, "25"),
                }
                q.push((text::owned("items_per_page"), per_page));
                match category {
                    Some(c) => q.push((text::owned("category"), text::owned(c.as_str()))),
                    None => {},
                }
            },
        }
        assert(q.deep_view() =~= request_query(*self));
        q
    }

    /// Whether a "not found" answer means an empty result for this request.
    pub fn not_found_is_empty(&self) -> (b: bool)
        ensures
            b == not_found_is_empty(*self),
    {
        match self {
            ApiRequest::Charges(_) | ApiRequest::Insolvency(_) => true,
            _ => false,
        }
    }
}

/// What to do with an answer.
#[derive(Clone, Copy, Debug, PartialEq, Eq, Structural)]
pub enum ResponseStep {
    /// Parse the body.
    Read,
    /// Nothing to list: answer with an empty result.
    Empty,
    /// The request failed.
    Fail,
}

/// The step for an answer with HTTP `status`: a success is read, a "not
/// found" is an empty result where the request allows it, anything else fails.
pub open spec fn response_step_spec(status: u16, not_found_is_empty: bool) -> ResponseStep {
    if not_found_is_empty && status == 404 {
        ResponseStep::Empty
    } else if 200 <= status <= 299 {
        ResponseStep::Read
    } else {
        ResponseStep::Fail
    }
}

/// What to do with an answer with HTTP `status` to `request`.
pub fn response_step(request: &ApiRequest, status: u16) -> (s: ResponseStep)
    ensures
        s == response_step_spec(status, not_found_is_empty(*request)),
{
    if request.not_found_is_empty() && status == 404 {
        ResponseStep::Empty
    } else if 200 <= status && status <= 299 {
        ResponseStep::Read
    } else {
        ResponseStep::Fail
    }
}

/// The insolvency data of an answer, missing lists read as empty.
pub fn insolvency_from_response(resp: InsolvencyResponse) -> (d: InsolvencyData)
    ensures
        d.status@ == (match resp.status { Some(s) => s@, None => Seq::<String>::empty() }),
        d.cases@ == (match resp.cases { Some(c) => c@, None => Seq::<InsolvencyCase>::empty() }),
{
    let status = match resp.status {
        Some(s) => s,
        None => Vec::new(),
    };
    let cases = match resp.cases {
        Some(c) => c,
        None => Vec::new(),
    };
    InsolvencyData { status, cases }
}

// ───────────────────────────── authentication ─────────────────────────────

/// What the standard base64 engine of `base64` gives for the UTF-8 bytes of `s`.
pub uninterp spec fn base64_standard(s: Seq<char>) -> Seq<char>;

/// `base64::engine::general_purpose::STANDARD.encode` of the bytes of `s`: the
/// standard alphabet, with padding. The encoding is named by
/// `base64_standard`, a function of `s` alone.
#[verifier::external_body]
fn base64_encode(s: &str) -> (r: String)
    ensures
        r@ == base64_standard(s@),
{
    base64::engine::general_purpose::STANDARD.encode(s)
}

/// The `Authorization` header value for an API key: HTTP basic
/// authentication with the key as user name and an empty password.
pub fn basic_auth_value(api_key: &str) -> (v: String)
    ensures
        v@ == "Basic "@ + base64_standard(api_key@ + ":"@),
{
    let mut credentials = text::owned(api_key);
    text::push_str(&mut credentials, ":");
    let encoded = base64_encode(credentials.as_str());
    let mut v = text::owned("Basic ");
    text::push_str(&mut v, encoded.as_str());
    v
}

// ───────────────────────────── documents ─────────────────────────────

/// A JSON value. Object members come as `serde_json` keeps them: sorted by key.
#[derive(Debug)]
pub enum JsonValue {
    Null,
    Bool(bool),
    /// A number, as it is written back (`{}` of the parsed number).
    Number(String),
    String(String),
    Array(Vec<JsonValue>),
    Object(Vec<(String, JsonValue)>),
}

/// A JSON document that parsed: its value and its pretty-printed form.
#[derive(Debug)]
pub struct ParsedJson {
    pub value: JsonValue,
    pub pretty: String,
}

#[verifier::external_type_specification]
#[verifier::external_body]
pub struct ExJsonDoc(serde_json::Value);

/// What `serde_json` makes of a JSON text: its value and its pretty-printed
/// form, or `None` when the text does not parse.
pub uninterp spec fn json_parsed(text: Seq<char>) -> Option<ParsedJson>;

/// A `serde_json::Value` as a `JsonValue`, variant for variant (numbers by
/// their written form).
#[verifier::external_body]
fn json_value_of(v: &serde_json::Value) -> JsonValue {
    match v {
        serde_json::Value::Null => JsonValue::Null,
        serde_json::Value::Bool(b) => JsonValue::Bool(*b),
        serde_json::Value::Number(n) => JsonValue::Number(n.to_string()),
        serde_json::Value::String(t) => JsonValue::String(t.clone()),
        serde_json::Value::Array(a) => JsonValue::Array(a.iter().map(json_value_of).collect()),
        serde_json::Value::Object(o) => JsonValue::Object(o.iter().map(|(k, x)| (k.clone(), json_value_of(x))).collect()),
    }
}

/// `serde_json::from_str` into a `serde_json::Value`, then
/// `serde_json::to_string_pretty` of it (the text itself should printing
/// fail). The result is named by `json_parsed`, a function of the text alone.
#[verifier::external_body]
pub(crate) fn parse_json(text: &str) -> (r: Option<ParsedJson>)
    ensures
        r == json_parsed(text@),
{
    let v: serde_json::Value = serde_json::from_str(text).ok()?;
    let pretty = serde_json::to_string_pretty(&v).unwrap_or_else(|_| text.to_string());
    Some(ParsedJson { value: json_value_of(&v), pretty })
}

/// A downloaded filing document, by content type.
#[derive(Debug)]
pub enum DocumentContent {
    Xhtml(String),
    /// A PDF, by what `pdf_extract` read from it: its text layer, or the
    /// message of the error that stopped it.
    Pdf(Result<String, String>),
    Json(String),
    Xml(String),
    Other { content_type: String, bytes: Vec<u8> },
}

/// The document API URL of a document's metadata, from the link a filing gives.
pub open spec fn metadata_url_spec(link: Seq<char>) -> Seq<char> {
    if is_absolute(link) { link } else { DOCUMENT_API_BASE@ + link }
}

/// The URL of a document's metadata.
pub fn document_metadata_url(link: &str) -> (u: String)
    ensures
        u@ == metadata_url_spec(link@),
{
    if text::str_starts_with(link, "http") {
        text::owned(link)
    } else {
        let mut u = text::owned(DOCUMENT_API_BASE);
        text::push_str(&mut u, link);
        u
    }
}

/// The URL of a document's content, from the document link of its metadata
/// (which may end in `/content` already).
pub fn document_content_url(document_link: &str) -> (u: String)
    ensures
        u@ == (if text::ends_with(document_link@, "/content"@) {
            document_link@
        } else {
            document_link@ + "/content"@
        }),
{
    let mut u = text::owned(document_link);
    if !text::str_ends_with(document_link, "/content") {
        text::push_str(&mut u, "/content");
    }
    u
}

/// An answer to the request for XHTML is taken as XHTML when its content
/// type mentions `xhtml`, `html` or `xml`.
pub fn accepts_as_xhtml(content_type: &str) -> (b: bool)
    ensures
        b == (text::contains(content_type@, "xhtml"@) || text::contains(content_type@, "html"@)
            || text::contains(content_type@, "xml"@)),
{
    text::str_contains(content_type, "xhtml") || text::str_contains(content_type, "html")
        || text::str_contains(content_type, "xml")
}

/// How an answer to the request for PDF is read.
#[derive(Clone, Copy, Debug, PartialEq, Eq, Structural)]
pub enum ContentKind {
    Pdf,
    Json,
    Xml,
    Other,
}

pub open spec fn content_kind_spec(content_type: Seq<char>) -> ContentKind {
    if text::contains(content_type, "pdf"@) {
        ContentKind::Pdf
    } else if text::contains(content_type, "json"@) {
        ContentKind::Json
    } else if text::contains(content_type, "xml"@) {
        ContentKind::Xml
    } else {
        ContentKind::Other
    }
}

/// The kind of a document answered with `content_type`: PDF, then JSON,
/// then XML, by what the content type mentions.
pub fn content_kind(content_type: &str) -> (k: ContentKind)
    ensures
        k == content_kind_spec(content_type@),
{
    if text::str_contains(content_type, "pdf") {
        ContentKind::Pdf
    } else if text::str_contains(content_type, "json") {
        ContentKind::Json
    } else if text::str_contains(content_type, "xml") {
        ContentKind::Xml
    } else {
        ContentKind::Other
    }
}

} // verus!
