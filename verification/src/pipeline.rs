//! The extraction pipeline: from a downloaded filing document to text, by
//! the document's kind.
use vstd::prelude::*;
use crate::text;
use crate::xhtml;
use crate::pdf;
use crate::client::{DocumentContent, JsonValue, ParsedJson, json_parsed, parse_json};

verus! {

/// Result of the extraction pipeline.
#[derive(Debug, Clone)]
pub struct ExtractionResult {
    /// The extracted text.
    pub text: String,
    /// How the text was extracted.
    pub method: ExtractionMethod,
    /// The iXBRL values found, as `(name, value)` pairs.
    pub ixbrl_values: Vec<(String, String)>,
}

/// How text was extracted from a document.
#[derive(Debug, Clone, PartialEq)]
pub enum ExtractionMethod {
    /// Parsed from XHTML/iXBRL markup.
    Xhtml,
    /// Read from JSON.
    Json,
    /// Read from XML markup.
    Xml,
    /// The text layer of a PDF.
    PdfNative,
    /// A scanned PDF, which would need OCR.
    PdfScannedNoOcr,
    /// A document type without text extraction, with its content type.
    Unsupported(String),
}

// ───────────────────────────── XHTML and XML ─────────────────────────────

/// The part of a qualified name after its last `:` (all of it without one).
pub open spec fn local_part(name: Seq<char>) -> Seq<char>
    decreases name.len(),
{
    if name.len() == 0 {
        name
    } else if name.last() == ':' {
        Seq::empty()
    } else {
        local_part(name.drop_last()).push(name.last())
    }
}

/// The lines listing iXBRL values, `  local-name: value` each.
pub open spec fn value_lines(values: Seq<(Seq<char>, Seq<char>)>) -> Seq<char>
    decreases values.len(),
{
    if values.len() == 0 {
        Seq::empty()
    } else {
        value_lines(values.drop_last()) + "  "@ + local_part(values.last().0) + ": "@ + values.last().1
            + seq!['\n']
    }
}

/// The section appended to XHTML text when the document has iXBRL values.
pub open spec fn tagged_section(values: Seq<(Seq<char>, Seq<char>)>) -> Seq<char> {
    if values.len() == 0 {
        Seq::empty()
    } else {
        "\n\n--- iXBRL Tagged Data ---\n"@ + value_lines(values)
    }
}

/// The result for an XHTML document whose text is `text` and whose iXBRL
/// values are `values`: a placeholder when there is neither, else the text
/// followed by the values.
pub open spec fn xhtml_result(r: ExtractionResult, text: Seq<char>, values: Seq<(Seq<char>, Seq<char>)>) -> bool {
    &&& r.method == ExtractionMethod::Xhtml
    &&& if text::trim(text).len() == 0 && values.len() == 0 {
        r.text@ == "[XHTML document contained no extractable text.]"@ && r.ixbrl_values@.len() == 0
    } else {
        r.text@ == text + tagged_section(values) && r.ixbrl_values.deep_view() == values
    }
}

/// The result for an XML document whose text is `text`.
pub open spec fn xml_result(r: ExtractionResult, text: Seq<char>) -> bool {
    &&& r.method == ExtractionMethod::Xml
    &&& r.ixbrl_values@.len() == 0
    &&& r.text@ == (if text::trim(text).len() == 0 {
        "[XML document contained no extractable text.]"@
    } else {
        text
    })
}

/// An XHTML or XML extraction always has text: the document's text, its
/// tagged values, or a note that there was none.
pub proof fn markup_results_have_text(r: ExtractionResult, t: Seq<char>, values: Seq<(Seq<char>, Seq<char>)>)
    ensures
        xhtml_result(r, t, values) ==> r.text@.len() > 0,
        xml_result(r, t) ==> r.text@.len() > 0,
{
    reveal_strlit("[XHTML document contained no extractable text.]");
    reveal_strlit("[XML document contained no extractable text.]");
    reveal_strlit("\n\n--- iXBRL Tagged Data ---\n");
    text::lemma_trim_len(t);
}

/// The part of `name` after its last `:`.
pub fn local_name(name: &str) -> (r: String)
    ensures
        r@ == local_part(name@),
{
    let v = text::chars_of(name);
    let mut start: usize = 0;
    let mut i: usize = 0;
    while i < v.len()
        invariant
            start <= i <= v.len(),
            v@ == name@,
            local_part(v@.take(i as int)) == v@.subrange(start as int, i as int),
        decreases v.len() - i,
    {
        proof {
            assert(v@.take(i + 1).drop_last() =~= v@.take(i as int));
            assert(v@.take(i + 1).last() == v@[i as int]);
        }
        if v[i] == ':' {
            start = i + 1;
            assert(v@.subrange(start as int, i + 1) =~= Seq::<char>::empty());
        } else {
            assert(v@.subrange(start as int, i + 1) =~= v@.subrange(start as int, i as int).push(v@[i as int]));
        }
        i = i + 1;
    }
    assert(v@.take(v.len() as int) =~= v@);
    text::string_of(&v, start, v.len())
}

/// The result for an XHTML document, from its extracted text and iXBRL values.
pub fn xhtml_extraction(text: String, values: Vec<(String, String)>) -> (r: ExtractionResult)
    ensures
        xhtml_result(r, text@, values.deep_view()),
{
    let t = text::trimmed(text.as_str());
    if t.as_str().is_empty() && values.len() == 0 {
        return ExtractionResult {
            text: text::owned("[XHTML document contained no extractable text.]"),
            method: ExtractionMethod::Xhtml,
            ixbrl_values: Vec::new(),
        };
    }
    let mut full = text;
    let ghost base = full@;
    if values.len() > 0 {
        text::push_str(&mut full, "\n\n--- iXBRL Tagged Data ---\n");
        let ghost head = full@;
        let mut i: usize = 0;
        while i < values.len()
            invariant
                i <= values.len(),
                full@ == head + value_lines(values.deep_view().take(i as int)),
            decreases values.len() - i,
        {
            let ghost vv = values.deep_view();
            proof {
                assert(vv.take(i + 1).drop_last() =~= vv.take(i as int));
                assert(vv.take(i + 1).last() == vv[i as int]);
            }
            text::push_str(&mut full, "  ");
            text::push_str(&mut full, local_name(values[i].0.as_str()).as_str());
            text::push_str(&mut full, ": ");
            text::push_str(&mut full, values[i].1.as_str());
            text::push_char(&mut full, '\n');
            i = i + 1;
            assert(full@ =~= head + value_lines(vv.take(i as int)));
        }
        assert(values.deep_view().take(values.len() as int) =~= values.deep_view());
        assert(full@ =~= base + tagged_section(values.deep_view()));
    } else {
        assert(full@ =~= base + tagged_section(values.deep_view()));
    }
    ExtractionResult { text: full, method: ExtractionMethod::Xhtml, ixbrl_values: values }
}

/// The result for an XML document, from its extracted text.
pub fn xml_extraction(text: String) -> (r: ExtractionResult)
    ensures
        xml_result(r, text@),
{
    let t = text::trimmed(text.as_str());
    let out = if t.as_str().is_empty() {
        text::owned("[XML document contained no extractable text.]")
    } else {
        text
    };
    ExtractionResult { text: out, method: ExtractionMethod::Xml, ixbrl_values: Vec::new() }
}

/// The text that `extract_text_from_xhtml` gives for `html`.
pub open spec fn xhtml_text(html: Seq<char>) -> Seq<char> {
    match xhtml::html_selection(html, "body"@) {
        Some(ev) if ev.len() > 0 => xhtml::document_text(ev),
        _ => xhtml::document_text(xhtml::html_root_walk(html)),
    }
}

/// The values that `extract_ixbrl_values` gives for `html`.
pub open spec fn xhtml_values(html: Seq<char>) -> Seq<(Seq<char>, Seq<char>)> {
    xhtml::selection_values(xhtml::html_selection(html, xhtml::non_numeric_selector()))
        + xhtml::selection_values(xhtml::html_selection(html, xhtml::non_fraction_selector()))
}

/// Extract from XHTML/iXBRL: the readable text, followed by the tagged values.
pub fn extract_from_xhtml(content: &str) -> (r: ExtractionResult)
    ensures
        xhtml_result(r, xhtml_text(content@), xhtml_values(content@)),
{
    let text = xhtml::extract_text_from_xhtml(content);
    let values = xhtml::extract_ixbrl_values(content);
    xhtml_extraction(text, values)
}

/// Extract from XML: read as XHTML, without iXBRL values.
pub fn extract_from_xml(content: &str) -> (r: ExtractionResult)
    ensures
        xml_result(r, xhtml_text(content@)),
{
    xml_extraction(xhtml::extract_text_from_xhtml(content))
}

// ───────────────────────────── JSON ─────────────────────────────

/// What `char::to_uppercase` gives for `c` (one or more characters).
pub uninterp spec fn uppercase_of(c: char) -> Seq<char>;

/// `char::to_uppercase`, collected. The mapping is Unicode's and is named by
/// `uppercase_of`.
#[verifier::external_body]
fn char_uppercase(c: char) -> (r: String)
    ensures
        r@ == uppercase_of(c),
{
    c.to_uppercase().to_string()
}

/// The maximal runs of non-whitespace characters of `s`, in order (what
/// `split_whitespace` yields).
pub open spec fn words(s: Seq<char>) -> Seq<Seq<char>>
    decreases s.len(),
{
    if s.len() == 0 {
        Seq::empty()
    } else {
        let prev = words(s.drop_last());
        let c = s.last();
        if text::is_ws(c) {
            prev
        } else if s.len() >= 2 && !text::is_ws(s[s.len() - 2]) {
            prev.update(prev.len() - 1, prev.last().push(c))
        } else {
            prev.push(seq![c])
        }
    }
}

/// A word with its first character in upper case.
pub open spec fn capitalized(w: Seq<char>) -> Seq<char> {
    if w.len() == 0 { w } else { uppercase_of(w[0]) + w.drop_first() }
}

/// A JSON key as a label: underscores read as spaces, each word capitalised,
/// words joined by single spaces.
pub open spec fn humanized(key: Seq<char>) -> Seq<char> {
    text::join(words(text::replace_char(key, '_', " "@)).map_values(|w: Seq<char>| capitalized(w)), " "@)
}

pub proof fn lemma_words_nonempty(s: Seq<char>)
    ensures
        forall|k: int| 0 <= k < words(s).len() ==> #[trigger] words(s)[k].len() > 0,
        s.len() > 0 && !text::is_ws(s.last()) ==> words(s).len() > 0,
    decreases s.len(),
{
    if s.len() > 0 {
        lemma_words_nonempty(s.drop_last());
        let prev = words(s.drop_last());
        let c = s.last();
        if !text::is_ws(c) && s.len() >= 2 && !text::is_ws(s[s.len() - 2]) {
            assert(s.drop_last().last() == s[s.len() - 2]);
        }
    }
}

/// Convert a snake_case JSON key to a readable label.
pub fn humanize_key(key: &str) -> (r: String)
    ensures
        r@ == humanized(key@),
{
    let spaced = text::replace_char_with(key, '_', " ");
    let v = text::chars_of(spaced.as_str());
    let mut ws: Vec<String> = Vec::new();
    let mut i: usize = 0;
    while i < v.len()
        invariant
            i <= v.len(),
            v@ == spaced@,
            ws.deep_view() == words(v@.take(i as int)),
        decreases v.len() - i,
    {
        let ghost prev = ws.deep_view();
        proof {
            assert(v@.take(i + 1).drop_last() =~= v@.take(i as int));
            assert(v@.take(i + 1).last() == v@[i as int]);
            if i >= 1 {
                assert(v@.take(i + 1)[i - 1] == v@[i - 1]);
                lemma_words_nonempty(v@.take(i as int));
                assert(v@.take(i as int).last() == v@[i - 1]);
            }
        }
        let c = v[i];
        if !text::char_is_ws(c) {
            if i >= 1 && !text::char_is_ws(v[i - 1]) {
                let k = ws.len() - 1;
                let mut w = ws[k].clone();
                text::push_char(&mut w, c);
                ws.set(k, w);
                assert(ws.deep_view() =~= prev.update(prev.len() - 1, prev.last().push(c)));
            } else {
                let mut w = String::new();
                text::push_char(&mut w, c);
                ws.push(w);
                assert(ws.deep_view() =~= prev.push(seq![c]));
            }
        }
        i = i + 1;
    }
    assert(v@.take(v.len() as int) =~= v@);
    proof {
        lemma_words_nonempty(v@);
    }
    let mut caps: Vec<String> = Vec::new();
    let mut j: usize = 0;
    while j < ws.len()
        invariant
            j <= ws.len(),
            ws.deep_view() == words(v@),
            forall|k: int| 0 <= k < words(v@).len() ==> #[trigger] words(v@)[k].len() > 0,
            caps.deep_view() == ws.deep_view().take(j as int).map_values(|w: Seq<char>| capitalized(w)),
        decreases ws.len() - j,
    {
        let wv = text::chars_of(ws[j].as_str());
        assert(wv@.len() > 0) by {
            assert(ws.deep_view()[j as int] == ws@[j as int]@);
        }
        let mut w = char_uppercase(wv[0]);
        text::push_chars(&mut w, &wv, 1, wv.len());
        let ghost prev = caps.deep_view();
        caps.push(w);
        proof {
            assert(wv@.subrange(1, wv@.len() as int) =~= wv@.drop_first());
            assert(ws.deep_view()[j as int] == wv@);
            assert(ws.deep_view().take(j + 1).map_values(|w: Seq<char>| capitalized(w))
                =~= prev.push(capitalized(wv@)));
            assert(caps.deep_view() =~= prev.push(capitalized(wv@)));
        }
        j = j + 1;
    }
    assert(ws.deep_view().take(ws.len() as int) =~= ws.deep_view());
    let mut r = String::new();
    assert(text::views(caps@) =~= caps.deep_view());
    text::push_joined(&mut r, &caps, " ");
    r
}

/// `true` or `false`.
pub open spec fn bool_text(b: bool) -> Seq<char> {
    if b { "true"@ } else { "false"@ }
}

/// The lines that a JSON value reads as, each starting with `indent`:
/// an object lists its non-empty strings, numbers and booleans as
/// `Label: value`, and each nested object or array as `Label:` followed by
/// its own lines indented two spaces more; an array lists each item's lines
/// followed by an empty line; anything else gives no line.
pub open spec fn json_lines(val: JsonValue, indent: Seq<char>) -> Seq<Seq<char>>
    decreases val, 1nat, 0nat,
{
    match val {
        JsonValue::Object(entries) => entry_lines(val, indent, entries@.len()),
        JsonValue::Array(items) => item_lines(val, indent, items@.len()),
        _ => Seq::empty(),
    }
}

/// The lines of the first `n` members of the object `obj`.
pub open spec fn entry_lines(obj: JsonValue, indent: Seq<char>, n: nat) -> Seq<Seq<char>>
    decreases obj, 0nat, n,
{
    match obj {
        JsonValue::Object(entries) => if n == 0 || n > entries@.len() {
            Seq::empty()
        } else {
            let prev = entry_lines(obj, indent, (n - 1) as nat);
            let (key, value) = entries@[n - 1];
            let label = indent + humanized(key@);
            match value {
                JsonValue::String(s) => if s@.len() > 0 {
                    prev.push(label + ": "@ + s@)
                } else {
                    prev
                },
                JsonValue::Number(num) => prev.push(label + ": "@ + num@),
                JsonValue::Bool(b) => prev.push(label + ": "@ + bool_text(b)),
                JsonValue::Object(_) => {
                    proof {
                        assert(decreases_to!(obj => entries));
                        assert(decreases_to!(entries => entries@));
                        assert(decreases_to!(entries@ => entries@[n - 1]));
                    }
                    prev.push(label + ":"@) + json_lines(value, indent + "  "@)
                },
                JsonValue::Array(_) => {
                    proof {
                        assert(decreases_to!(obj => entries));
                        assert(decreases_to!(entries => entries@));
                        assert(decreases_to!(entries@ => entries@[n - 1]));
                    }
                    prev.push(label + ":"@) + json_lines(value, indent + "  "@)
                },
                JsonValue::Null => prev,
            }
        },
        _ => Seq::empty(),
    }
}

/// The lines of the first `n` items of the array `arr`.
pub open spec fn item_lines(arr: JsonValue, indent: Seq<char>, n: nat) -> Seq<Seq<char>>
    decreases arr, 0nat, n,
{
    match arr {
        JsonValue::Array(items) => if n == 0 || n > items@.len() {
            Seq::empty()
        } else {
            let item = items@[n - 1];
            proof {
                assert(decreases_to!(arr => items));
                assert(decreases_to!(items => items@));
                assert(decreases_to!(items@ => items@[n - 1]));
            }
            item_lines(arr, indent, (n - 1) as nat) + json_lines(item, indent) + seq![Seq::empty()]
        },
        _ => Seq::empty(),
    }
}

/// Append the lines that `val` reads as.
fn push_json_lines(parts: &mut Vec<String>, val: &JsonValue, indent: &str)
    ensures
        final(parts).deep_view() == old(parts).deep_view() + json_lines(*val, indent@),
    decreases *val,
{
    match val {
        JsonValue::Object(entries) => {
            let mut i: usize = 0;
            while i < entries.len()
                invariant
                    i <= entries.len(),
                    *val == JsonValue::Object(*entries),
                    parts.deep_view() == old(parts).deep_view() + entry_lines(*val, indent@, i as nat),
                decreases entries.len() - i,
            {
                let ghost before = parts.deep_view();
                let key = &entries[i].0;
                let value = &entries[i].1;
                let mut label = text::owned(indent);
                text::push_str(&mut label, humanize_key(key.as_str()).as_str());
                let ghost lab = label@;
                assert(lab == indent@ + humanized(key@));
                match value {
                    JsonValue::String(s) => {
                        if !s.as_str().is_empty() {
                            text::push_str(&mut label, ": ");
                            text::push_str(&mut label, s.as_str());
                            let ghost l = label@;
                            parts.push(label);
                            assert(parts.deep_view() =~= before.push(l));
                        }
                    },
                    JsonValue::Number(num) => {
                        text::push_str(&mut label, ": ");
                        text::push_str(&mut label, num.as_str());
                        let ghost l = label@;
                        parts.push(label);
                        assert(parts.deep_view() =~= before.push(l));
                    },
                    JsonValue::Bool(b) => {
                        text::push_str(&mut label, ": ");
                        text::push_str(&mut label, if *b { "true" } else { "false" });
                        let ghost l = label@;
                        parts.push(label);
                        assert(parts.deep_view() =~= before.push(l));
                    },
                    JsonValue::Object(_) | JsonValue::Array(_) => {
                        text::push_str(&mut label, ":");
                        let ghost l = label@;
                        parts.push(label);
                        assert(parts.deep_view() =~= before.push(l));
                        let mut deeper = text::owned(indent);
                        text::push_str(&mut deeper, "  ");
                        proof {
                            assert(decreases_to!(*val => *entries));
                            assert(decreases_to!(*entries => entries@));
                            assert(decreases_to!(entries@ => entries@[i as int]));
                        }
                        push_json_lines(parts, value, deeper.as_str());
                    },
                    JsonValue::Null => {},
                }
                i = i + 1;
                proof {
                    assert(entry_lines(*val, indent@, i as nat) == {
                        let prev = entry_lines(*val, indent@, (i - 1) as nat);
                        let (k, v) = entries@[i - 1];
                        let label = indent@ + humanized(k@);
                        match v {
                            JsonValue::String(s) => if s@.len() > 0 { prev.push(label + ": "@ + s@) } else { prev },
                            JsonValue::Number(num) => prev.push(label + ": "@ + num@),
                            JsonValue::Bool(b) => prev.push(label + ": "@ + bool_text(b)),
                            JsonValue::Object(_) => prev.push(label + ":"@) + json_lines(v, indent@ + "  "@),
                            JsonValue::Array(_) => prev.push(label + ":"@) + json_lines(v, indent@ + "  "@),
                            JsonValue::Null => prev,
                        }
                    });
                    assert(parts.deep_view() =~= old(parts).deep_view() + entry_lines(*val, indent@, i as nat));
                }
            }
            assert(json_lines(*val, indent@) == entry_lines(*val, indent@, entries@.len()));
        },
        JsonValue::Array(items) => {
            let mut i: usize = 0;
            while i < items.len()
                invariant
                    i <= items.len(),
                    *val == JsonValue::Array(*items),
                    parts.deep_view() == old(parts).deep_view() + item_lines(*val, indent@, i as nat),
                decreases items.len() - i,
            {
                let ghost before = parts.deep_view();
                proof {
                    assert(decreases_to!(*val => *items));
                    assert(decreases_to!(*items => items@));
                    assert(decreases_to!(items@ => items@[i as int]));
                }
                push_json_lines(parts, &items[i], indent);
                let ghost mid = parts.deep_view();
                parts.push(String::new());
                i = i + 1;
                proof {
                    assert(parts.deep_view() =~= mid.push(Seq::empty()));
                    assert(parts.deep_view() =~= old(parts).deep_view() + item_lines(*val, indent@, i as nat));
                }
            }
            assert(json_lines(*val, indent@) == item_lines(*val, indent@, items@.len()));
        },
        _ => {
            assert(parts.deep_view() =~= old(parts).deep_view() + json_lines(*val, indent@));
        },
    }
}

/// The text of a JSON document: its lines joined by line feeds, its
/// pretty-printed form when it gives no line, and its text as it came when
/// it did not parse.
pub open spec fn json_text(text: Seq<char>, parsed: Option<ParsedJson>) -> Seq<char> {
    match parsed {
        Some(p) => {
            let lines = json_lines(p.value, Seq::empty());
            if lines.len() == 0 { p.pretty@ } else { text::join(lines, "\n"@) }
        },
        None => text,
    }
}

/// The text of a JSON document, or a note when it gives none.
pub open spec fn json_extracted(text: Seq<char>, parsed: Option<ParsedJson>) -> Seq<char> {
    if json_text(text, parsed).len() == 0 {
        "[JSON document contained no extractable text.]"@
    } else {
        json_text(text, parsed)
    }
}

/// Extract from a JSON document, given what its text parsed to.
pub fn extract_from_parsed_json(text: &str, parsed: &Option<ParsedJson>) -> (r: ExtractionResult)
    ensures
        r.text@ == json_extracted(text@, *parsed),
        r.method == ExtractionMethod::Json,
        r.ixbrl_values@.len() == 0,
{
    let out = match parsed {
        Some(p) => {
            let mut lines: Vec<String> = Vec::new();
            push_json_lines(&mut lines, &p.value, "");
            proof {
                assert(""@ =~= Seq::<char>::empty()) by {
                    reveal_strlit("");
                }
                assert(lines.deep_view() =~= json_lines(p.value, Seq::empty()));
            }
            if lines.len() == 0 {
                text::owned(p.pretty.as_str())
            } else {
                let mut joined = String::new();
                assert(text::views(lines@) =~= lines.deep_view());
                text::push_joined(&mut joined, &lines, "\n");
                joined
            }
        },
        None => text::owned(text),
    };
    let out = if out.as_str().is_empty() { text::owned("[JSON document contained no extractable text.]") } else { out };
    ExtractionResult { text: out, method: ExtractionMethod::Json, ixbrl_values: Vec::new() }
}

/// Extract from a JSON document: labelled lines of its fields, its
/// pretty-printed form when there are none, its text as it came when it
/// does not parse, and a note when that leaves nothing.
pub fn extract_from_json(text: &str) -> (r: ExtractionResult)
    ensures
        r.text@ == json_extracted(text@, json_parsed(text@)),
        r.method == ExtractionMethod::Json,
        r.ixbrl_values@.len() == 0,
{
    let parsed = parse_json(text);
    extract_from_parsed_json(text, &parsed)
}

// ───────────────────────────── PDF and dispatch ─────────────────────────────

/// The text shown for a scanned PDF.
pub open spec fn scanned_pdf_text() -> Seq<char> {
    "[Scanned PDF — OCR not yet implemented. This document contains images rather than embedded text.]"@
}

/// The result for a PDF whose extraction came to `outcome`.
pub open spec fn pdf_result(r: ExtractionResult, outcome: pdf::PdfExtractionResult) -> bool {
    &&& r.ixbrl_values@.len() == 0
    &&& match outcome {
        pdf::PdfExtractionResult::Text(t) => if t@.len() > 0 {
            r.text@ == t@ && r.method == ExtractionMethod::PdfNative
        } else {
            r.text@ == scanned_pdf_text() && r.method == ExtractionMethod::PdfScannedNoOcr
        },
        pdf::PdfExtractionResult::NeedsOcr => r.text@ == scanned_pdf_text() && r.method == ExtractionMethod::PdfScannedNoOcr,
        pdf::PdfExtractionResult::Error(e) => r.text@ == "[PDF extraction error: "@ + e@ + "]"@
            && r.method == ExtractionMethod::PdfNative,
    }
}

/// A PDF extraction always has text: a scan or an empty text layer gets a
/// note, an error its message.
pub proof fn pdf_results_have_text(r: ExtractionResult, o: pdf::PdfExtractionResult)
    requires
        pdf_result(r, o),
    ensures
        r.text@.len() > 0,
{
    reveal_strlit("[Scanned PDF — OCR not yet implemented. This document contains images rather than embedded text.]");
    reveal_strlit("[PDF extraction error: ");
}

/// The result for a PDF, from what its extraction came to.
pub fn pdf_extraction(outcome: pdf::PdfExtractionResult) -> (r: ExtractionResult)
    ensures
        pdf_result(r, outcome),
{
    match outcome {
        pdf::PdfExtractionResult::Text(t) => if !t.as_str().is_empty() {
            ExtractionResult { text: t, method: ExtractionMethod::PdfNative, ixbrl_values: Vec::new() }
        } else {
            ExtractionResult {
                text: text::owned(
                    "[Scanned PDF — OCR not yet implemented. This document contains images rather than embedded text.]",
                ),
                method: ExtractionMethod::PdfScannedNoOcr,
                ixbrl_values: Vec::new(),
            }
        },
        pdf::PdfExtractionResult::NeedsOcr => ExtractionResult {
            text: text::owned(
                "[Scanned PDF — OCR not yet implemented. This document contains images rather than embedded text.]",
            ),
            method: ExtractionMethod::PdfScannedNoOcr,
            ixbrl_values: Vec::new(),
        },
        pdf::PdfExtractionResult::Error(e) => {
            let mut t = text::owned("[PDF extraction error: ");
            text::push_str(&mut t, e.as_str());
            text::push_str(&mut t, "]");
            ExtractionResult { text: t, method: ExtractionMethod::PdfNative, ixbrl_values: Vec::new() }
        },
    }
}

/// Extract from a PDF, from what `pdf_extract` read from it: its text
/// layer, or a message when it has none or cannot be read.
pub fn extract_from_pdf(extracted: Result<String, String>) -> (r: ExtractionResult)
    ensures
        exists|o: pdf::PdfExtractionResult| pdf::pdf_outcome(o, pdf::result_view(extracted)) && #[trigger] pdf_result(r, o),
        r.text@.len() > 0,
{
    let outcome = pdf::extract_text_from_pdf(extracted);
    let ghost o = outcome;
    let r = pdf_extraction(outcome);
    assert(pdf_result(r, o));
    proof {
        pdf_results_have_text(r, o);
    }
    r
}

/// The text shown for a document of a type without text extraction.
pub open spec fn unsupported_text(content_type: Seq<char>) -> Seq<char> {
    "[Unsupported document type: "@ + content_type + ". Text extraction not available.]"@
}

/// Extract text from a downloaded Companies House document, by its kind.
pub fn extract_text(doc: &DocumentContent) -> (r: ExtractionResult)
    ensures
        match *doc {
            DocumentContent::Xhtml(c) => xhtml_result(r, xhtml_text(c@), xhtml_values(c@)),
            DocumentContent::Json(t) => r.text@ == json_extracted(t@, json_parsed(t@))
                && r.method == ExtractionMethod::Json && r.ixbrl_values@.len() == 0,
            DocumentContent::Xml(c) => xml_result(r, xhtml_text(c@)),
            DocumentContent::Pdf(x) => exists|o: pdf::PdfExtractionResult|
                pdf::pdf_outcome(o, pdf::result_view(x)) && #[trigger] pdf_result(r, o),
            DocumentContent::Other { content_type, .. } => r.text@ == unsupported_text(content_type@)
                && r.method == ExtractionMethod::Unsupported(content_type) && r.ixbrl_values@.len() == 0,
        },
        r.text@.len() > 0,
{
    let r = match doc {
        DocumentContent::Xhtml(c) => extract_from_xhtml(c.as_str()),
        DocumentContent::Json(t) => extract_from_json(t.as_str()),
        DocumentContent::Xml(c) => extract_from_xml(c.as_str()),
        DocumentContent::Pdf(x) => extract_from_pdf(clone_result(x)),
        DocumentContent::Other { content_type, .. } => {
            let mut t = text::owned("[Unsupported document type: ");
            text::push_str(&mut t, content_type.as_str());
            text::push_str(&mut t, ". Text extraction not available.]");
            ExtractionResult {
                text: t,
                method: ExtractionMethod::Unsupported(content_type.clone()),
                ixbrl_values: Vec::new(),
            }
        },
    };
    proof {
        markup_results_have_text(r, xhtml_text_of_doc(*doc), xhtml_values_of_doc(*doc));
        reveal_strlit("[JSON document contained no extractable text.]");
        reveal_strlit("[Unsupported document type: ");
    }
    r
}

/// The text of the markup of a document (empty for other kinds).
pub open spec fn xhtml_text_of_doc(doc: DocumentContent) -> Seq<char> {
    match doc {
        DocumentContent::Xhtml(c) => xhtml_text(c@),
        DocumentContent::Xml(c) => xhtml_text(c@),
        _ => Seq::empty(),
    }
}

/// The tagged values of an XHTML document (none for other kinds).
pub open spec fn xhtml_values_of_doc(doc: DocumentContent) -> Seq<(Seq<char>, Seq<char>)> {
    match doc {
        DocumentContent::Xhtml(c) => xhtml_values(c@),
        _ => Seq::empty(),
    }
}

fn clone_result(x: &Result<String, String>) -> (r: Result<String, String>)
    ensures
        pdf::result_view(r) == pdf::result_view(*x),
{
    match x {
        Ok(t) => Ok(t.clone()),
        Err(e) => Err(e.clone()),
    }
}

} // verus!
