//! What exporting an investigation writes: folder and file names, and the
//! contents of the analysis, chat-log and filing-text files. Layout:
//! `{export root}/{project}/{number} - {name}/` holding `profile.txt`,
//! `analysis.md`, `chat_log.md` and `filings/{id}[ - {description}].txt`.
//! Writing the files is the caller's.
use vstd::prelude::*;
use crate::text;
use crate::keyed::Keyed;
use crate::types::FilingHistoryItem;

verus! {

/// Characters that cannot stand in a file name on common systems.
pub open spec fn is_unsafe_char(c: char) -> bool {
    c == '/' || c == '\\' || c == ':' || c == '*' || c == '?' || c == '"' || c == '<' || c == '>' || c == '|'
}

/// `s` with each unsafe character replaced by `_`.
pub open spec fn replace_unsafe(s: Seq<char>) -> Seq<char> {
    s.map_values(|c: char| if is_unsafe_char(c) { '_' } else { c })
}

/// A name made safe for a file or folder: unsafe characters become `_`, and
/// surrounding whitespace is trimmed.
pub open spec fn safe_name(s: Seq<char>) -> Seq<char> {
    text::trim(replace_unsafe(s))
}

/// A name made safe holds no unsafe character.
pub proof fn safe_names_are_safe(s: Seq<char>)
    ensures
        forall|i: int| 0 <= i < safe_name(s).len() ==> !is_unsafe_char(#[trigger] safe_name(s)[i]),
{
    let r = replace_unsafe(s);
    text::lemma_trim_chars(r);
    assert forall|i: int| 0 <= i < safe_name(s).len() implies !is_unsafe_char(#[trigger] safe_name(s)[i]) by {
        let j = choose|j: int| 0 <= j < r.len() && #[trigger] r[j] == #[trigger] text::trim(r)[i];
        assert(r[j] == (if is_unsafe_char(s[j]) { '_' } else { s[j] }));
    }
}

/// Make a string safe for use as a file or folder name.
pub fn sanitise_filename(name: &str) -> (r: String)
    ensures
        r@ == safe_name(name@),
{
    let v = text::chars_of(name);
    let mut s = String::new();
    let mut i: usize = 0;
    while i < v.len()
        invariant
            i <= v.len(),
            v@ == name@,
            s@ == replace_unsafe(v@.take(i as int)),
        decreases v.len() - i,
    {
        let c = v[i];
        let d = if c == '/' || c == '\\' || c == ':' || c == '*' || c == '?' || c == '"' || c == '<' || c == '>'
            || c == '|' { '_' } else { c };
        text::push_char(&mut s, d);
        i = i + 1;
        assert(s@ =~= replace_unsafe(v@.take(i as int)));
    }
    assert(v@.take(v.len() as int) =~= v@);
    text::trimmed(s.as_str())
}

/// `base` joined with `name` as a path (a separator added when needed).
pub open spec fn join_path(base: Seq<char>, name: Seq<char>) -> Seq<char> {
    if base.len() == 0 {
        name
    } else if base.last() == '/' {
        base + name
    } else {
        base + seq!['/'] + name
    }
}

/// `base` joined with `name` as a path.
pub fn path_join(base: &str, name: &str) -> (p: String)
    ensures
        p@ == join_path(base@, name@),
{
    let v = text::chars_of(base);
    let mut p = text::owned(base);
    if v.len() > 0 && v[v.len() - 1] != '/' {
        text::push_char(&mut p, '/');
    }
    text::push_str(&mut p, name);
    assert(p@ =~= join_path(base@, name@));
    p
}

/// The folder that exports go to: `Corpex Investigations` in the home
/// directory, or in the current directory when there is no home directory.
pub fn export_root(home: Option<&str>) -> (p: String)
    ensures
        p@ == join_path(match home { Some(h) => h@, None => "."@ }, "Corpex Investigations"@),
{
    match home {
        Some(h) => path_join(h, "Corpex Investigations"),
        None => path_join(".", "Corpex Investigations"),
    }
}

/// The folder of one company inside a project: `{number} - {safe name}`.
pub fn company_folder_name(company_number: &str, company_name: &str) -> (f: String)
    ensures
        f@ == company_number@ + " - "@ + safe_name(company_name@),
{
    let mut f = text::owned(company_number);
    text::push_str(&mut f, " - ");
    text::push_str(&mut f, sanitise_filename(company_name).as_str());
    f
}

/// The contents of `analysis.md`.
pub fn analysis_document(company_name: &str, company_number: &str, analysis: &str) -> (d: String)
    ensures
        d@ == "# AI Analysis: "@ + company_name@ + " ("@ + company_number@ + ")\n\n"@ + analysis@ + "\n"@,
{
    let mut d = text::owned("# AI Analysis: ");
    text::push_str(&mut d, company_name);
    text::push_str(&mut d, " (");
    text::push_str(&mut d, company_number);
    text::push_str(&mut d, ")\n\n");
    text::push_str(&mut d, analysis);
    text::push_str(&mut d, "\n");
    d
}

/// The chat-log entries: `## USER` or `## AI`, then the message.
pub open spec fn chat_entries(msgs: Seq<(String, String)>) -> Seq<char>
    decreases msgs.len(),
{
    if msgs.len() == 0 {
        Seq::empty()
    } else {
        let (role, msg) = msgs.last();
        chat_entries(msgs.drop_last()) + "## "@ + (if role@ == "user"@ { "USER"@ } else { "AI"@ }) + "\n"@ + msg@
            + "\n\n"@
    }
}

/// The contents of `chat_log.md`, or `None` for an empty conversation.
pub fn chat_log_document(company_name: &str, company_number: &str, messages: &[(String, String)]) -> (d: Option<String>)
    ensures
        messages@.len() == 0 ==> d is None,
        messages@.len() > 0 ==> (d matches Some(s) && s@ == "# AI Chat Log: "@ + company_name@ + " ("@
            + company_number@ + ")\n\n"@ + chat_entries(messages@)),
{
    if messages.len() == 0 {
        return None;
    }
    let mut d = text::owned("# AI Chat Log: ");
    text::push_str(&mut d, company_name);
    text::push_str(&mut d, " (");
    text::push_str(&mut d, company_number);
    text::push_str(&mut d, ")\n\n");
    let ghost head = d@;
    let mut i: usize = 0;
    while i < messages.len()
        invariant
            i <= messages@.len(),
            d@ == head + chat_entries(messages@.take(i as int)),
        decreases messages@.len() - i,
    {
        proof {
            assert(messages@.take(i + 1).drop_last() =~= messages@.take(i as int));
            assert(messages@.take(i + 1).last() == messages@[i as int]);
        }
        text::push_str(&mut d, "## ");
        if text::str_eq(messages[i].0.as_str(), "user") {
            text::push_str(&mut d, "USER");
        } else {
            text::push_str(&mut d, "AI");
        }
        text::push_str(&mut d, "\n");
        text::push_str(&mut d, messages[i].1.as_str());
        text::push_str(&mut d, "\n\n");
        i = i + 1;
        assert(d@ =~= head + chat_entries(messages@.take(i as int)));
    }
    assert(messages@.take(messages@.len() as int) =~= messages@);
    Some(d)
}

/// The file name of a filing's text: `{id}.txt`, or `{id} - {description}.txt`
/// with the description made safe when one remains.
pub open spec fn filing_file_name_spec(filing_id: Seq<char>, desc: Seq<char>) -> Seq<char> {
    let d = safe_name(desc);
    if d.len() == 0 { filing_id + ".txt"@ } else { filing_id + " - "@ + d + ".txt"@ }
}

/// The file name of a filing's text.
pub fn filing_file_name(filing_id: &str, description: Option<&str>) -> (f: String)
    ensures
        f@ == filing_file_name_spec(filing_id@, match description { Some(d) => d@, None => Seq::empty() }),
{
    let d = match description {
        Some(x) => sanitise_filename(x),
        None => {
            let e = String::new();
            proof {
                assert(text::trim(replace_unsafe(Seq::<char>::empty())) =~= Seq::<char>::empty()) by {
                    assert(replace_unsafe(Seq::<char>::empty()) =~= Seq::<char>::empty());
                }
            }
            e
        },
    };
    let mut f = text::owned(filing_id);
    if !d.as_str().is_empty() {
        text::push_str(&mut f, " - ");
        text::push_str(&mut f, d.as_str());
    }
    text::push_str(&mut f, ".txt");
    f
}

/// The project an export goes to: the name typed in, trimmed, or the company's
/// name when none was typed.
pub fn save_project_name(typed: &str, company_name: &str) -> (p: String)
    ensures
        p@ == (if text::trim(typed@).len() == 0 { company_name@ } else { text::trim(typed@) }),
{
    let t = text::trimmed(typed);
    if t.as_str().is_empty() {
        text::owned(company_name)
    } else {
        t
    }
}

/// The texts to export, by filing id: those of the filings whose text was
/// extracted.
pub open spec fn selected_texts(fs: Seq<FilingHistoryItem>, extracted: Map<Seq<char>, String>) -> Map<Seq<char>, String>
    decreases fs.len(),
{
    if fs.len() == 0 {
        Map::empty()
    } else {
        let m = selected_texts(fs.drop_last(), extracted);
        let f = fs.last();
        match f.transaction_id {
            Some(tid) => if extracted.contains_key(tid@) { m.insert(tid@, extracted[tid@]) } else { m },
            None => m,
        }
    }
}

/// The descriptions to export, by filing id: that of the last filing with
/// extracted text and a description, for each id.
pub open spec fn selected_descriptions(fs: Seq<FilingHistoryItem>, extracted: Map<Seq<char>, String>) -> Map<Seq<char>, String>
    decreases fs.len(),
{
    if fs.len() == 0 {
        Map::empty()
    } else {
        let m = selected_descriptions(fs.drop_last(), extracted);
        let f = fs.last();
        match (f.transaction_id, f.description) {
            (Some(tid), Some(d)) => if extracted.contains_key(tid@) { m.insert(tid@, d) } else { m },
            _ => m,
        }
    }
}

/// The texts (by filing id) and descriptions (by filing id) to export for a
/// company: those of its filings whose text has been extracted.
pub fn export_selection(filings: &Vec<FilingHistoryItem>, extracted: &Keyed<String>) -> (r: (Keyed<String>, Keyed<String>))
    ensures
        r.0@ == selected_texts(filings@, extracted@),
        r.1@ == selected_descriptions(filings@, extracted@),
{
    let mut texts: Keyed<String> = Keyed::new();
    let mut descs: Keyed<String> = Keyed::new();
    let mut i: usize = 0;
    assert(filings@.take(0) =~= Seq::<FilingHistoryItem>::empty());
    while i < filings.len()
        invariant
            i <= filings.len(),
            texts@ == selected_texts(filings@.take(i as int), extracted@),
            descs@ == selected_descriptions(filings@.take(i as int), extracted@),
        decreases filings.len() - i,
    {
        proof {
            assert(filings@.take(i + 1).drop_last() =~= filings@.take(i as int));
            assert(filings@.take(i + 1).last() == filings@[i as int]);
        }
        let f = &filings[i];
        match &f.transaction_id {
            Some(tid) => match extracted.get(tid.as_str()) {
                Some(t) => {
                    texts.insert(tid.clone(), t.clone());
                    match &f.description {
                        Some(d) => descs.insert(tid.clone(), d.clone()),
                        None => {},
                    }
                },
                None => {},
            },
            None => {},
        }
        i = i + 1;
    }
    assert(filings@.take(filings.len() as int) =~= filings@);
    (texts, descs)
}

// ───────────────────────────── project names ─────────────────────────────

/// `a` comes before or equals `b` in the order of their characters (the order
/// of `String`).
pub open spec fn text_le(a: Seq<char>, b: Seq<char>) -> bool
    decreases a.len(),
{
    if a.len() == 0 {
        true
    } else if b.len() == 0 {
        false
    } else if a[0] != b[0] {
        a[0] < b[0]
    } else {
        text_le(a.drop_first(), b.drop_first())
    }
}

pub proof fn lemma_text_le_total(a: Seq<char>, b: Seq<char>)
    ensures
        text_le(a, b) || text_le(b, a),
    decreases a.len(),
{
    if a.len() > 0 && b.len() > 0 && a[0] == b[0] {
        lemma_text_le_total(a.drop_first(), b.drop_first());
    }
}

pub proof fn lemma_text_le_trans(a: Seq<char>, b: Seq<char>, c: Seq<char>)
    requires
        text_le(a, b),
        text_le(b, c),
    ensures
        text_le(a, c),
    decreases a.len(),
{
    if a.len() > 0 && b.len() > 0 && c.len() > 0 && a[0] == b[0] && b[0] == c[0] {
        lemma_text_le_trans(a.drop_first(), b.drop_first(), c.drop_first());
    }
}

/// Whether `a` comes before or equals `b`.
fn le_text(a: &Vec<char>, b: &Vec<char>) -> (r: bool)
    ensures
        r == text_le(a@, b@),
{
    let mut i: usize = 0;
    assert(a@.subrange(0, a.len() as int) =~= a@);
    assert(b@.subrange(0, b.len() as int) =~= b@);
    while i < a.len() && i < b.len() && a[i] == b[i]
        invariant
            i <= a.len(),
            i <= b.len(),
            text_le(a@, b@) == text_le(a@.subrange(i as int, a.len() as int), b@.subrange(i as int, b.len() as int)),
        decreases a.len() - i,
    {
        proof {
            let sa = a@.subrange(i as int, a.len() as int);
            let sb = b@.subrange(i as int, b.len() as int);
            assert(sa.drop_first() =~= a@.subrange(i + 1, a.len() as int));
            assert(sb.drop_first() =~= b@.subrange(i + 1, b.len() as int));
            assert(sa[0] == a@[i as int] && sb[0] == b@[i as int]);
        }
        i = i + 1;
    }
    proof {
        let sa = a@.subrange(i as int, a.len() as int);
        let sb = b@.subrange(i as int, b.len() as int);
        if sa.len() > 0 && sb.len() > 0 {
            assert(sa[0] == a@[i as int] && sb[0] == b@[i as int]);
        }
    }
    if i == a.len() {
        assert(a@.subrange(i as int, a.len() as int).len() == 0);
        true
    } else if i == b.len() {
        false
    } else {
        a[i] < b[i]
    }
}

/// The names in order.
pub open spec fn names_sorted(v: Seq<String>) -> bool {
    forall|i: int, j: int| 0 <= i < j < v.len() ==> text_le(v[i]@, v[j]@)
}

/// The project names (the sub-folders of the export root) in order.
pub fn list_projects(names: Vec<String>) -> (r: Vec<String>)
    ensures
        names_sorted(r@),
        r@.to_multiset() == names@.to_multiset(),
{
    let mut r: Vec<String> = Vec::new();
    let mut i: usize = 0;
    assert(r@ =~= names@.take(0));
    while i < names.len()
        invariant
            i <= names.len(),
            names_sorted(r@),
            r@.to_multiset() == names@.take(i as int).to_multiset(),
        decreases names.len() - i,
    {
        let x = names[i].clone();
        let xv = text::chars_of(x.as_str());
        let mut k: usize = r.len();
        while k > 0 && !le_text(&text::chars_of(r[k - 1].as_str()), &xv)
            invariant
                k <= r.len(),
                xv@ == x@,
                names_sorted(r@),
                forall|j: int| k <= j < r.len() ==> !text_le(r@[j]@, x@),
            decreases k,
        {
            k = k - 1;
        }
        let ghost before = r@;
        proof {
            assert forall|j: int| k <= j < before.len() implies text_le(x@, before[j]@) by {
                lemma_text_le_total(before[j]@, x@);
            }
            if k > 0 {
                assert(text_le(before[k - 1]@, x@));
            }
        }
        r.insert(k, x);
        proof {
            assert(r@ == before.insert(k as int, x));
            assert forall|p: int, q: int| 0 <= p < q < r@.len() implies text_le(r@[p]@, r@[q]@) by {
                if p < k && q == k {
                    if p < k - 1 {
                        lemma_text_le_trans(before[p]@, before[k - 1]@, x@);
                    }
                } else if p == k && q > k {
                } else if p < k && q > k {
                    assert(r@[q] == before[q - 1]);
                } else if p > k {
                    assert(r@[p] == before[p - 1] && r@[q] == before[q - 1]);
                }
                if p < k && q == k && p == k - 1 {
                }
            }
            vstd::seq_lib::to_multiset_insert(before, k as int, x);
            vstd::seq_lib::to_multiset_build(names@.take(i as int), names@[i as int]);
            assert(names@.take(i + 1) =~= names@.take(i as int).push(names@[i as int]));
            assert(r@.to_multiset() =~= before.to_multiset().insert(x));
        }
        i = i + 1;
    }
    assert(names@.take(names.len() as int) =~= names@);
    r
}

} // verus!
