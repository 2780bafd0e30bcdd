//! Reading an AI analysis report: splitting it into sections by heading,
//! cleaning headings and markdown, laying out body lines (separators,
//! sub-headings, bullets, table rows) and finding `[REF:id]` filing
//! references.
use vstd::prelude::*;
use crate::text;

verus! {

// ───────────────────────────── characters ─────────────────────────────

/// Whether `char::is_alphabetic` holds of `c` (Unicode `Alphabetic`).
pub uninterp spec fn alphabetic(c: char) -> bool;

/// Whether `char::is_uppercase` holds of `c` (Unicode `Uppercase`).
pub uninterp spec fn uppercase(c: char) -> bool;

/// What `str::to_uppercase` gives for `s`.
pub uninterp spec fn uppercase_text(s: Seq<char>) -> Seq<char>;

/// `char::is_alphabetic`; the Unicode property is named by `alphabetic`.
#[verifier::external_body]
fn char_is_alphabetic(c: char) -> (b: bool)
    ensures
        b == alphabetic(c),
{
    c.is_alphabetic()
}

/// `char::is_uppercase`; the Unicode property is named by `uppercase`.
#[verifier::external_body]
fn char_is_uppercase(c: char) -> (b: bool)
    ensures
        b == uppercase(c),
{
    c.is_uppercase()
}

/// `str::to_uppercase`; the Unicode mapping is named by `uppercase_text`.
#[verifier::external_body]
pub(crate) fn to_uppercase(s: &str) -> (r: String)
    ensures
        r@ == uppercase_text(s@),
{
    s.to_uppercase()
}

/// The number of letters in `s`.
pub open spec fn letter_count(s: Seq<char>) -> nat
    decreases s.len(),
{
    if s.len() == 0 {
        0
    } else {
        letter_count(s.drop_last()) + (if alphabetic(s.last()) { 1nat } else { 0nat })
    }
}

/// The number of upper-case letters in `s`.
pub open spec fn upper_count(s: Seq<char>) -> nat
    decreases s.len(),
{
    if s.len() == 0 {
        0
    } else {
        upper_count(s.drop_last()) + (if alphabetic(s.last()) && uppercase(s.last()) { 1nat } else { 0nat })
    }
}

/// The numbers of letters and of upper-case letters in `s`.
fn count_letters(s: &str) -> (r: (usize, usize))
    ensures
        r.0 == letter_count(s@),
        r.1 == upper_count(s@),
        r.1 <= r.0 <= s@.len(),
{
    let v = text::chars_of(s);
    let mut letters: usize = 0;
    let mut upper: usize = 0;
    let mut i: usize = 0;
    while i < v.len()
        invariant
            i <= v.len(),
            v@ == s@,
            letters == letter_count(v@.take(i as int)),
            upper == upper_count(v@.take(i as int)),
            upper <= letters <= i,
        decreases v.len() - i,
    {
        proof {
            assert(v@.take(i + 1).drop_last() =~= v@.take(i as int));
            assert(v@.take(i + 1).last() == v@[i as int]);
        }
        if char_is_alphabetic(v[i]) {
            letters = letters + 1;
            if char_is_uppercase(v[i]) {
                upper = upper + 1;
            }
        }
        i = i + 1;
    }
    assert(v@.take(v.len() as int) =~= v@);
    (letters, upper)
}

// ───────────────────────────── headings ─────────────────────────────

/// An ASCII digit or a full stop (the characters of a section number).
pub open spec fn is_number_mark(c: char) -> bool {
    ('0' <= c && c <= '9') || c == '.'
}

/// `s` without its leading `#` markers (when `hashes`) or without its
/// leading section-number characters (otherwise).
pub open spec fn without_leading(s: Seq<char>, hashes: bool) -> Seq<char>
    decreases s.len(),
{
    if s.len() > 0 && (if hashes { s[0] == '#' } else { is_number_mark(s[0]) }) {
        without_leading(s.drop_first(), hashes)
    } else {
        s
    }
}

/// `s` without a leading section number, trimmed.
pub open spec fn after_numbering(s: Seq<char>) -> Seq<char> {
    text::trim(without_leading(s, false))
}

/// `s` without its leading `#` characters.
pub open spec fn without_hashes(s: Seq<char>) -> Seq<char> {
    without_leading(s, true)
}

pub proof fn lemma_without_leading_skip(s: Seq<char>, hashes: bool, i: int)
    requires
        0 <= i <= s.len(),
        forall|j: int| 0 <= j < i ==> (if hashes { s[j] == '#' } else { is_number_mark(s[j]) }),
    ensures
        without_leading(s, hashes) == without_leading(s.subrange(i, s.len() as int), hashes),
    decreases i,
{
    if i > 0 {
        assert(s.drop_first() =~= s.subrange(1, s.len() as int));
        lemma_without_leading_skip(s.drop_first(), hashes, i - 1);
        assert(s.drop_first().subrange(i - 1, s.drop_first().len() as int) =~= s.subrange(i, s.len() as int));
    } else {
        assert(s.subrange(0, s.len() as int) =~= s);
    }
}

/// Whether a word begins at position `i` of `s`: a character that is not
/// white space, at the start or after white space.
pub open spec fn starts_word(s: Seq<char>, i: int) -> bool {
    !text::is_ws(s[i]) && (i == 0 || text::is_ws(s[i - 1]))
}

/// The number of words among the first `n` characters of `s` that begin
/// with a letter.
pub open spec fn word_count(s: Seq<char>, n: nat) -> nat
    decreases n,
{
    if n == 0 {
        0
    } else {
        word_count(s, (n - 1) as nat) + (if starts_word(s, n - 1) && alphabetic(s[n - 1]) { 1nat } else { 0nat })
    }
}

/// The number of words among the first `n` characters of `s` that begin
/// with an upper-case letter.
pub open spec fn capital_count(s: Seq<char>, n: nat) -> nat
    decreases n,
{
    if n == 0 {
        0
    } else {
        capital_count(s, (n - 1) as nat) + (if starts_word(s, n - 1) && alphabetic(s[n - 1]) && uppercase(s[n - 1]) {
            1nat
        } else {
            0nat
        })
    }
}

/// A numbered title reads as a heading when its letters are mostly upper
/// case (more than half of them) or it is in title case (more than half of
/// its words that begin with a letter begin with a capital).
pub open spec fn heading_case(a: Seq<char>) -> bool {
    2 * upper_count(a) > letter_count(a) || 2 * capital_count(a, a.len()) > word_count(a, a.len())
}

/// The numbers of letter-initial words and of capitalised words in `s`.
fn count_words(s: &str) -> (r: (usize, usize))
    ensures
        r.0 == word_count(s@, s@.len()),
        r.1 == capital_count(s@, s@.len()),
        r.1 <= r.0 <= s@.len(),
{
    let v = text::chars_of(s);
    let mut words: usize = 0;
    let mut capitals: usize = 0;
    let mut i: usize = 0;
    while i < v.len()
        invariant
            i <= v.len(),
            v@ == s@,
            words == word_count(v@, i as nat),
            capitals == capital_count(v@, i as nat),
            capitals <= words <= i,
        decreases v.len() - i,
    {
        let first = !text::char_is_ws(v[i]) && (i == 0 || text::char_is_ws(v[i - 1]));
        if first && char_is_alphabetic(v[i]) {
            words = words + 1;
            if char_is_uppercase(v[i]) {
                capitals = capitals + 1;
            }
        }
        i = i + 1;
    }
    (words, capitals)
}

/// A line is a section heading when it is a markdown heading (`# ` or `## `),
/// a numbered title whose letters are mostly upper case or which is in
/// title case (see `heading_case`; at least three letters, more than three
/// bytes after the number, not a `-` item), or a line of 5 to 59 bytes
/// whose letters (at least three) are more than 70% upper case. The
/// proportions are compared exactly, in integers.
pub open spec fn is_heading_line(line: Seq<char>) -> bool {
    let t = text::trim(line);
    let a = after_numbering(t);
    ||| text::starts_with(t, "# "@)
    ||| text::starts_with(t, "## "@)
    ||| (a != t && text::utf8_len(a) > 3 && !text::starts_with(a, seq!['-']) && letter_count(a) >= 3
        && heading_case(a))
    ||| (text::utf8_len(t) > 4 && text::utf8_len(t) < 60 && letter_count(t) >= 3
        && 10 * upper_count(t) > 7 * letter_count(t))
}

/// A `#` (when `hashes`) or a section-number character (otherwise).
fn is_marker(c: char, hashes: bool) -> (b: bool)
    ensures
        b == (if hashes { c == '#' } else { is_number_mark(c) }),
{
    if hashes { c == '#' } else { ('0' <= c && c <= '9') || c == '.' }
}

/// `s` without its leading `#` markers (when `hashes`) or its leading section number.
fn strip_leading_of(s: &str, hashes: bool) -> (r: String)
    ensures
        r@ == without_leading(s@, hashes),
{
    let v = text::chars_of(s);
    let mut i: usize = 0;
    while i < v.len() && is_marker(v[i], hashes)
        invariant
            i <= v.len(),
            v@ == s@,
            forall|j: int| 0 <= j < i ==> (if hashes { v@[j] == '#' } else { is_number_mark(v@[j]) }),
        decreases v.len() - i,
    {
        i = i + 1;
    }
    proof {
        lemma_without_leading_skip(v@, hashes, i as int);
        let rest = v@.subrange(i as int, v.len() as int);
        if rest.len() > 0 {
            assert(rest[0] == v@[i as int]);
        }
        assert(without_leading(rest, hashes) == rest);
    }
    text::string_of(&v, i, v.len())
}

/// Whether a line is a major section heading.
pub fn is_section_heading(line: &str) -> (b: bool)
    ensures
        b == is_heading_line(line@),
{
    let t = text::trimmed(line);
    if text::str_starts_with(t.as_str(), "# ") || text::str_starts_with(t.as_str(), "## ") {
        return true;
    }
    let stripped = strip_leading_of(t.as_str(), false);
    let a = text::trimmed(stripped.as_str());
    if !text::str_eq(a.as_str(), t.as_str()) && text::byte_len(a.as_str()) > 3
        && !text::str_starts_with(a.as_str(), "-") {
        proof {
            assert("-"@ == seq!['-']) by {
                reveal_strlit("-");
            }
        }
        let (letters, upper) = count_letters(a.as_str());
        if letters >= 3 {
            let (words, capitals) = count_words(a.as_str());
            if 2 * (upper as u128) > letters as u128 || 2 * (capitals as u128) > words as u128 {
                return true;
            }
        }
    } else {
        proof {
            assert("-"@ == seq!['-']) by {
                reveal_strlit("-");
            }
        }
    }
    let n = text::byte_len(t.as_str());
    if n > 4 && n < 60 {
        let (letters, upper) = count_letters(t.as_str());
        proof {
            text::lemma_utf8_len_ge_len(t@);
        }
        if letters >= 3 && 10 * upper > 7 * letters {
            return true;
        }
    }
    false
}

/// The position of the first `c` in `s`, if any.
pub open spec fn first_index(s: Seq<char>, c: char) -> Option<int>
    decreases s.len(),
{
    if s.len() == 0 {
        None
    } else if s[0] == c {
        Some(0)
    } else {
        match first_index(s.drop_first(), c) {
            Some(k) => Some(k + 1),
            None => None,
        }
    }
}

/// A heading without its markup: `#` markers and surrounding space, a
/// section number (when more than two bytes remain), bold markers, and a
/// description after an em dash (when more than three bytes come before it).
pub open spec fn clean_heading(line: Seq<char>) -> Seq<char> {
    let s1 = text::trim(without_hashes(text::trim(line)));
    let a = after_numbering(s1);
    let s2 = if a != s1 && text::utf8_len(a) > 2 { a } else { s1 };
    let s3 = text::replace_all(s2, "**"@, ""@);
    let s4 = match first_index(s3, '—') {
        Some(pos) => {
            let before = text::trim(s3.take(pos));
            if text::utf8_len(before) > 3 { before } else { s3 }
        },
        None => s3,
    };
    text::trim(s4)
}

/// The position of the first `c` in `s`, if any.
fn find_char(s: &str, c: char) -> (r: Option<usize>)
    ensures
        match first_index(s@, c) {
            Some(k) => r is Some && r->0 as int == k && 0 <= k < s@.len(),
            None => r is None,
        },
{
    let v = text::chars_of(s);
    let mut i: usize = 0;
    assert(v@.subrange(0, v.len() as int) =~= v@);
    while i < v.len()
        invariant
            i <= v.len(),
            v@ == s@,
            forall|j: int| 0 <= j < i ==> v@[j] != c,
            first_index(v@, c) == (match first_index(v@.subrange(i as int, v.len() as int), c) {
                Some(k) => Some(k + i),
                None => None,
            }),
        decreases v.len() - i,
    {
        let ghost rest = v@.subrange(i as int, v.len() as int);
        if v[i] == c {
            assert(rest[0] == c);
            return Some(i);
        }
        assert(rest.drop_first() =~= v@.subrange(i + 1, v.len() as int));
        assert(rest[0] == v@[i as int]);
        i = i + 1;
    }
    assert(v@.subrange(i as int, v.len() as int) =~= Seq::<char>::empty());
    None
}

/// Strip heading markers (`#`, numbering, bold, a trailing description).
pub fn strip_heading(line: &str) -> (r: String)
    ensures
        r@ == clean_heading(line@),
{
    let t = text::trimmed(line);
    let h = strip_leading_of(t.as_str(), true);
    let s1 = text::trimmed(h.as_str());
    let stripped = strip_leading_of(s1.as_str(), false);
    let a = text::trimmed(stripped.as_str());
    let s2 = if !text::str_eq(a.as_str(), s1.as_str()) && text::byte_len(a.as_str()) > 2 { a } else { s1 };
    let s3 = text::replace_str(s2.as_str(), "**", "");
    let s4 = match find_char(s3.as_str(), '—') {
        Some(pos) => {
            let v = text::chars_of(s3.as_str());
            let head = text::string_of(&v, 0, pos);
            let before = text::trimmed(head.as_str());
            assert(v@.subrange(0, pos as int) =~= s3@.take(pos as int));
            if text::byte_len(before.as_str()) > 3 { before } else { s3 }
        },
        None => s3,
    };
    text::trimmed(s4.as_str())
}

/// Text without markdown: leading `#` markers, bold markers and backticks
/// removed, and trimmed.
pub open spec fn plain_text(s: Seq<char>) -> Seq<char> {
    let s1 = text::trim(without_hashes(s));
    text::trim(text::replace_char(text::replace_all(s1, "**"@, ""@), '`', ""@))
}

/// Strip common markdown formatting from text.
pub fn strip_markdown(s: &str) -> (r: String)
    ensures
        r@ == plain_text(s@),
{
    let h = strip_leading_of(s, true);
    let s1 = text::trimmed(h.as_str());
    let s2 = text::replace_str(s1.as_str(), "**", "");
    let s3 = text::replace_char_with(s2.as_str(), '`', "");
    text::trimmed(s3.as_str())
}

// ───────────────────────────── sections ─────────────────────────────

/// A part of a report under one heading (the first may have none).
#[derive(Clone, Debug)]
pub struct Section {
    pub heading: String,
    pub body: String,
}

/// Sections by their heading and body text.
pub open spec fn sections_view(v: Seq<Section>) -> Seq<(Seq<char>, Seq<char>)> {
    v.map_values(|s: Section| (s.heading@, s.body@))
}

/// The state after reading `lines`: the sections completed, and the heading
/// and body of the section being read.
pub open spec fn read_sections(lines: Seq<Seq<char>>) -> (Seq<(Seq<char>, Seq<char>)>, Seq<char>, Seq<char>)
    decreases lines.len(),
{
    if lines.len() == 0 {
        (Seq::empty(), Seq::empty(), Seq::empty())
    } else {
        let (done, heading, body) = read_sections(lines.drop_last());
        let line = lines.last();
        let t = text::trim(line);
        if is_heading_line(t) {
            let done2 = if heading.len() > 0 || text::trim(body).len() > 0 {
                done.push((heading, text::trim(body)))
            } else {
                done
            };
            (done2, clean_heading(t), Seq::empty())
        } else {
            (done, heading, body + line + seq!['\n'])
        }
    }
}

/// The sections of a report: each heading line starts a section; the lines
/// up to the next heading are its body, trimmed; sections with neither
/// heading nor body are left out.
pub open spec fn report_sections(report: Seq<char>) -> Seq<(Seq<char>, Seq<char>)> {
    let (done, heading, body) = read_sections(text::std_lines(report));
    if heading.len() > 0 || text::trim(body).len() > 0 {
        done.push((heading, text::trim(body)))
    } else {
        done
    }
}

pub proof fn lemma_read_sections_content(lines: Seq<Seq<char>>)
    ensures
        forall|i: int| 0 <= i < read_sections(lines).0.len() ==> (#[trigger] read_sections(lines).0[i]).0.len() > 0
            || read_sections(lines).0[i].1.len() > 0,
    decreases lines.len(),
{
    if lines.len() > 0 {
        lemma_read_sections_content(lines.drop_last());
        let (done, heading, body) = read_sections(lines.drop_last());
        let r = read_sections(lines).0;
        assert forall|i: int| 0 <= i < r.len() implies (#[trigger] r[i]).0.len() > 0 || r[i].1.len() > 0 by {
            if i < done.len() {
                assert(r[i] == done[i]);
            }
        }
    }
}

/// Every section of a report has a heading or a body.
pub proof fn sections_have_content(report: Seq<char>)
    ensures
        forall|i: int| 0 <= i < report_sections(report).len() ==> (#[trigger] report_sections(report)[i]).0.len() > 0
            || report_sections(report)[i].1.len() > 0,
{
    lemma_read_sections_content(text::std_lines(report));
}

/// Append a finished section unless it has neither heading nor body.
fn finish_section(sections: &mut Vec<Section>, heading: &String, body: &String)
    ensures
        sections_view(final(sections)@) == (if heading@.len() > 0 || text::trim(body@).len() > 0 {
            sections_view(old(sections)@).push((heading@, text::trim(body@)))
        } else {
            sections_view(old(sections)@)
        }),
{
    let b = text::trimmed(body.as_str());
    if !heading.as_str().is_empty() || !b.as_str().is_empty() {
        let ghost before = sections@;
        sections.push(Section { heading: heading.clone(), body: b });
        assert(sections_view(sections@) =~= sections_view(before).push((heading@, text::trim(body@))));
    }
}

/// Split a report into sections by its heading lines.
pub fn parse_sections(report: &str) -> (r: Vec<Section>)
    ensures
        sections_view(r@) == report_sections(report@),
{
    let lines = text::lines_of(report);
    let ghost lv = lines.deep_view();
    let mut sections: Vec<Section> = Vec::new();
    let mut heading = String::new();
    let mut body = String::new();
    let mut i: usize = 0;
    while i < lines.len()
        invariant
            i <= lines.len(),
            lv == lines.deep_view(),
            lv == text::std_lines(report@),
            (sections_view(sections@), heading@, body@) == read_sections(lv.take(i as int)),
        decreases lines.len() - i,
    {
        proof {
            assert(lv.take(i + 1).drop_last() =~= lv.take(i as int));
            assert(lv.take(i + 1).last() == lines@[i as int]@);
        }
        let line = &lines[i];
        let t = text::trimmed(line.as_str());
        if is_section_heading(t.as_str()) {
            proof {
                assert(text::trim(t@) == t@) by {
                    lemma_trim_idempotent(line@);
                }
            }
            finish_section(&mut sections, &heading, &body);
            heading = strip_heading(t.as_str());
            proof {
                assert(clean_heading(t@) == clean_heading(text::trim(line@)));
            }
            body = String::new();
        } else {
            proof {
                lemma_trim_idempotent(line@);
            }
            text::push_str(&mut body, line.as_str());
            text::push_char(&mut body, '\n');
        }
        i = i + 1;
    }
    assert(lv.take(lines.len() as int) =~= lv);
    finish_section(&mut sections, &heading, &body);
    sections
}

pub proof fn lemma_trim_start_idempotent(s: Seq<char>)
    ensures
        text::trim_start(text::trim_start(s)) == text::trim_start(s),
        text::trim_start(s).len() > 0 ==> !text::is_ws(text::trim_start(s)[0]),
    decreases s.len(),
{
    if s.len() > 0 && text::is_ws(s[0]) {
        lemma_trim_start_idempotent(s.drop_first());
    }
}

pub proof fn lemma_trim_end_keeps_start(s: Seq<char>)
    requires
        s.len() > 0 ==> !text::is_ws(s[0]),
    ensures
        text::trim_end(s).len() > 0 ==> !text::is_ws(text::trim_end(s)[0]),
        text::trim_end(s).len() > 0 ==> !text::is_ws(text::trim_end(s).last()),
        text::trim_end(s).len() > 0 ==> text::trim_end(s)[0] == s[0],
    decreases s.len(),
{
    if s.len() > 0 && text::is_ws(s.last()) {
        lemma_trim_end_keeps_start(s.drop_last());
    }
}

pub proof fn lemma_trim_idempotent(s: Seq<char>)
    ensures
        text::trim(text::trim(s)) == text::trim(s),
{
    let a = text::trim_start(s);
    lemma_trim_start_idempotent(s);
    lemma_trim_end_keeps_start(a);
    let t = text::trim_end(a);
    if t.len() > 0 {
        assert(text::trim_start(t) == t);
        assert(text::trim_end(t) == t);
    } else {
        assert(text::trim_start(t) == t);
        assert(text::trim_end(t) == t);
    }
}


// ───────────────────────────── filing references ─────────────────────────────

/// The opening of a filing reference marker, `[REF:`.
pub open spec fn ref_open() -> Seq<char> {
    seq!['[', 'R', 'E', 'F', ':']
}

pub proof fn lemma_first_index_bounds(s: Seq<char>, c: char)
    ensures
        first_index(s, c) matches Some(k) ==> 0 <= k < s.len() && s[k] == c,
        first_index(s, c) matches Some(k) ==> forall|j: int| 0 <= j < k ==> s[j] != c,
        first_index(s, c) is None ==> forall|j: int| 0 <= j < s.len() ==> s[j] != c,
    decreases s.len(),
{
    if s.len() > 0 && s[0] != c {
        lemma_first_index_bounds(s.drop_first(), c);
        assert forall|j: int| 1 <= j < s.len() implies s[j] == s.drop_first()[j - 1] by {}
    }
}

/// Where the reference marker that starts at `i` ends, just past its `]`:
/// `[REF:`, then one or more characters other than `]`, then `]`.
pub open spec fn ref_end(s: Seq<char>, i: int) -> Option<int> {
    if text::occurs_at(s, ref_open(), i) {
        match first_index(s.subrange(i + 5, s.len() as int), ']') {
            Some(k) => if k > 0 { Some(i + 5 + k + 1) } else { None },
            None => None,
        }
    } else {
        None
    }
}

pub proof fn lemma_ref_end_bounds(s: Seq<char>, i: int)
    ensures
        ref_end(s, i) matches Some(e) ==> i + 7 <= e <= s.len() && 0 <= i,
{
    if text::occurs_at(s, ref_open(), i) {
        lemma_first_index_bounds(s.subrange(i + 5, s.len() as int), ']');
    }
}

/// The line holds a reference marker.
pub open spec fn has_ref(s: Seq<char>) -> bool {
    exists|i: int| 0 <= i < s.len() && #[trigger] ref_end(s, i) is Some
}

/// The pieces of `s` from position `i` on, plain text starting at `p`: text
/// between markers as `(false, text)`, each marker as `(true, id)`; markers
/// are found left to right without overlapping, and empty text is left out.
pub open spec fn ref_pieces_from(s: Seq<char>, p: int, i: int) -> Seq<(bool, Seq<char>)>
    decreases s.len() - i,
{
    if i < 0 || i >= s.len() {
        if 0 <= p < s.len() { seq![(false, s.subrange(p, s.len() as int))] } else { Seq::empty() }
    } else {
        match ref_end(s, i) {
            Some(e) => {
                proof {
                    lemma_ref_end_bounds(s, i);
                }
                (if p < i { seq![(false, s.subrange(p, i))] } else { Seq::empty() })
                    + seq![(true, s.subrange(i + 5, e - 1))] + ref_pieces_from(s, e, e)
            },
            None => ref_pieces_from(s, p, i + 1),
        }
    }
}

/// The pieces of a line with filing references.
pub open spec fn ref_pieces(s: Seq<char>) -> Seq<(bool, Seq<char>)> {
    ref_pieces_from(s, 0, 0)
}

/// The text that pieces stand for: text as it is, a reference as its marker
/// `[REF:id]`.
pub open spec fn rejoined(pieces: Seq<(bool, Seq<char>)>) -> Seq<char>
    decreases pieces.len(),
{
    if pieces.len() == 0 {
        Seq::empty()
    } else {
        rejoined(pieces.drop_last()) + (if pieces.last().0 {
            ref_open() + pieces.last().1 + seq![']']
        } else {
            pieces.last().1
        })
    }
}

pub proof fn lemma_rejoined_append(a: Seq<(bool, Seq<char>)>, b: Seq<(bool, Seq<char>)>)
    ensures
        rejoined(a + b) == rejoined(a) + rejoined(b),
    decreases b.len(),
{
    if b.len() == 0 {
        assert(a + b =~= a);
        assert(rejoined(a) + Seq::<char>::empty() =~= rejoined(a));
    } else {
        lemma_rejoined_append(a, b.drop_last());
        assert((a + b).drop_last() =~= a + b.drop_last());
        assert((a + b).last() == b.last());
        assert(rejoined(a + b) =~= rejoined(a) + rejoined(b));
    }
}

pub proof fn lemma_pieces_from_rejoin(s: Seq<char>, p: int, i: int)
    requires
        0 <= p <= i <= s.len(),
    ensures
        rejoined(ref_pieces_from(s, p, i)) == s.subrange(p, s.len() as int),
    decreases s.len() - i,
{
    if i >= s.len() {
        if p < s.len() {
            let one = seq![(false, s.subrange(p, s.len() as int))];
            assert(one.drop_last() =~= Seq::<(bool, Seq<char>)>::empty());
            assert(one.last() == (false, s.subrange(p, s.len() as int)));
            assert(rejoined(one.drop_last()) == Seq::<char>::empty());
            assert(rejoined(one) =~= s.subrange(p, s.len() as int));
        } else {
            assert(s.subrange(p, s.len() as int) =~= Seq::<char>::empty());
        }
    } else {
        match ref_end(s, i) {
            Some(e) => {
                lemma_ref_end_bounds(s, i);
                lemma_pieces_from_rejoin(s, e, e);
                let text_part = if p < i { seq![(false, s.subrange(p, i))] } else { Seq::empty() };
                let marker = seq![(true, s.subrange(i + 5, e - 1))];
                let rest = ref_pieces_from(s, e, e);
                lemma_rejoined_append(text_part + marker, rest);
                lemma_rejoined_append(text_part, marker);
                assert(marker.drop_last() =~= Seq::<(bool, Seq<char>)>::empty());
                if p < i {
                    assert(text_part.drop_last() =~= Seq::<(bool, Seq<char>)>::empty());
                    assert(text_part.last() == (false, s.subrange(p, i)));
                    assert(rejoined(text_part.drop_last()) == Seq::<char>::empty());
                } else {
                    assert(s.subrange(p, i) =~= Seq::<char>::empty());
                }
                assert(rejoined(text_part) =~= s.subrange(p, i));
                assert(marker.last() == (true, s.subrange(i + 5, e - 1)));
                assert(rejoined(marker.drop_last()) == Seq::<char>::empty());
                let rest_index = s.subrange(i + 5, s.len() as int);
                lemma_first_index_bounds(rest_index, ']');
                assert(s.subrange(i, i + 5) =~= ref_open());
                assert(s[e - 1] == ']') by {
                    let k = e - i - 6;
                    assert(rest_index[k] == s[i + 5 + k]);
                }
                assert(s.subrange(p, s.len() as int) =~= s.subrange(p, i) + (ref_open() + s.subrange(i + 5, e - 1)
                    + seq![']']) + s.subrange(e, s.len() as int));
            },
            None => {
                lemma_pieces_from_rejoin(s, p, i + 1);
            },
        }
    }
}

/// Splitting a line at its filing references loses nothing: the pieces,
/// references written back as `[REF:id]`, give the line again.
pub proof fn refs_round_trip(line: Seq<char>)
    ensures
        rejoined(ref_pieces(line)) == line,
{
    lemma_pieces_from_rejoin(line, 0, 0);
    assert(line.subrange(0, line.len() as int) =~= line);
}

/// A piece of a line: text, or a reference to a filing by its id.
#[derive(Clone, Debug)]
pub enum RefPiece {
    Text(String),
    Ref(String),
}

pub open spec fn pieces_view(v: Seq<RefPiece>) -> Seq<(bool, Seq<char>)> {
    v.map_values(|p: RefPiece| match p {
        RefPiece::Text(t) => (false, t@),
        RefPiece::Ref(r) => (true, r@),
    })
}

/// Where the marker starting at `i` of `v` ends, if one does.
fn ref_end_at(v: &Vec<char>, i: usize) -> (r: Option<usize>)
    requires
        i < v.len(),
    ensures
        match ref_end(v@, i as int) {
            Some(e) => r is Some && r->0 as int == e,
            None => r is None,
        },
{
    proof {
        lemma_ref_end_bounds(v@, i as int);
    }
    let n = v.len();
    if n - i < 5 || v[i] != '[' || v[i + 1] != 'R' || v[i + 2] != 'E' || v[i + 3] != 'F' || v[i + 4] != ':' {
        proof {
            if text::occurs_at(v@, ref_open(), i as int) {
                let sub = v@.subrange(i as int, i + 5);
                assert(sub[0] == v@[i as int] && sub[1] == v@[i + 1] && sub[2] == v@[i + 2]);
                assert(sub[3] == v@[i + 3] && sub[4] == v@[i + 4]);
            }
        }
        return None;
    }
    assert(v@.subrange(i as int, i + 5) =~= ref_open());
    let ghost rest = v@.subrange(i + 5, n as int);
    proof {
        lemma_first_index_bounds(rest, ']');
    }
    let mut j: usize = i + 5;
    while j < n && v[j] != ']'
        invariant
            i + 5 <= j <= n == v.len(),
            rest == v@.subrange(i + 5, n as int),
            forall|k: int| i + 5 <= k < j ==> v@[k] != ']',
        decreases n - j,
    {
        j = j + 1;
    }
    if j == n || j == i + 5 {
        proof {
            match first_index(rest, ']') {
                Some(k) => {
                    assert(rest[k] == v@[i + 5 + k]);
                    if j == n {
                        assert(false);
                    } else {
                        assert(rest[0] == v@[j as int]);
                        assert(k == 0);
                    }
                },
                None => {},
            }
        }
        None
    } else {
        proof {
            match first_index(rest, ']') {
                Some(k) => {
                    assert(rest[j - i - 5] == v@[j as int]);
                    assert(rest[k] == v@[i + 5 + k]);
                    assert(k == j - i - 5);
                },
                None => {
                    assert(rest[j - i - 5] == v@[j as int]);
                },
            }
        }
        Some(j + 1)
    }
}

/// Whether a line holds a filing reference marker.
pub fn contains_ref(s: &str) -> (b: bool)
    ensures
        b == has_ref(s@),
{
    let v = text::chars_of(s);
    let mut i: usize = 0;
    while i < v.len()
        invariant
            i <= v.len(),
            v@ == s@,
            forall|j: int| 0 <= j < i ==> #[trigger] ref_end(v@, j) is None,
        decreases v.len() - i,
    {
        if ref_end_at(&v, i).is_some() {
            return true;
        }
        i = i + 1;
    }
    false
}

/// Split a line into text and filing references.
pub fn split_refs(s: &str) -> (r: Vec<RefPiece>)
    ensures
        pieces_view(r@) == ref_pieces(s@),
{
    let v = text::chars_of(s);
    let mut out: Vec<RefPiece> = Vec::new();
    let mut p: usize = 0;
    let mut i: usize = 0;
    while i < v.len()
        invariant
            p <= i <= v.len(),
            v@ == s@,
            pieces_view(out@) + ref_pieces_from(v@, p as int, i as int) == ref_pieces(v@),
        decreases v.len() - i,
    {
        let ghost before = pieces_view(out@);
        match ref_end_at(&v, i) {
            Some(e) => {
                proof {
                    lemma_ref_end_bounds(v@, i as int);
                }
                let ghost text_part = if p < i { seq![(false, v@.subrange(p as int, i as int))] } else { Seq::empty() };
                if p < i {
                    out.push(RefPiece::Text(text::string_of(&v, p, i)));
                }
                assert(pieces_view(out@) =~= before + text_part);
                let ghost mid = out@;
                out.push(RefPiece::Ref(text::string_of(&v, i + 5, e - 1)));
                proof {
                    assert(pieces_view(out@) =~= pieces_view(mid).push((true, v@.subrange(i + 5, e - 1))));
                    assert(pieces_view(out@) + ref_pieces_from(v@, e as int, e as int)
                        =~= before + (text_part + seq![(true, v@.subrange(i + 5, e - 1))] + ref_pieces_from(v@, e as int, e as int)));
                }
                p = e;
                i = e;
            },
            None => {
                i = i + 1;
            },
        }
    }
    if p < v.len() {
        let ghost before = pieces_view(out@);
        out.push(RefPiece::Text(text::string_of(&v, p, v.len())));
        assert(pieces_view(out@) =~= before.push((false, v@.subrange(p as int, v.len() as int))));
    }
    assert(pieces_view(out@) =~= pieces_view(out@) + Seq::<(bool, Seq<char>)>::empty());
    out
}

// ───────────────────────────── body lines ─────────────────────────────

/// How one line of a section body is shown.
#[derive(Clone, Debug)]
pub enum BodyLine {
    /// An empty line: a little space.
    Gap,
    /// A rule (`---`, `===`, ...).
    Separator,
    SubHeading(String),
    /// A line with filing references.
    WithRefs(Vec<RefPiece>),
    Bullet(String),
    BulletWithRefs(Vec<RefPiece>),
    /// A table row, its cells separated by four spaces.
    TableRow(String),
    Paragraph(String),
}

/// A body line by its contents: a kind (0 gap, 1 separator, 2 sub-heading,
/// 3 line with references, 4 bullet, 5 bullet with references, 6 table row,
/// 7 paragraph), its text, and its pieces.
pub open spec fn line_view(l: BodyLine) -> (u8, Seq<char>, Seq<(bool, Seq<char>)>) {
    match l {
        BodyLine::Gap => (0, Seq::empty(), Seq::empty()),
        BodyLine::Separator => (1, Seq::empty(), Seq::empty()),
        BodyLine::SubHeading(t) => (2, t@, Seq::empty()),
        BodyLine::WithRefs(p) => (3, Seq::empty(), pieces_view(p@)),
        BodyLine::Bullet(t) => (4, t@, Seq::empty()),
        BodyLine::BulletWithRefs(p) => (5, Seq::empty(), pieces_view(p@)),
        BodyLine::TableRow(t) => (6, t@, Seq::empty()),
        BodyLine::Paragraph(t) => (7, t@, Seq::empty()),
    }
}

pub open spec fn lines_view(v: Seq<BodyLine>) -> Seq<(u8, Seq<char>, Seq<(bool, Seq<char>)>)> {
    v.map_values(|l: BodyLine| line_view(l))
}

pub open spec fn is_rule_line(t: Seq<char>) -> bool {
    ||| text::starts_with(t, "---"@)
    ||| text::starts_with(t, "==="@)
    ||| ((forall|k: int| 0 <= k < t.len() ==> t[k] == '-' || t[k] == '=') && text::utf8_len(t) > 2)
}

pub open spec fn is_subheading_line(t: Seq<char>) -> bool {
    ||| text::starts_with(t, "### "@)
    ||| (text::starts_with(t, "**"@) && text::ends_with(t, "**"@))
    ||| (text::starts_with(t, "**"@) && text::contains(t, ":**"@))
}

pub open spec fn is_bullet_line(t: Seq<char>) -> bool {
    text::starts_with(t, "- "@) || text::starts_with(t, "• "@) || text::starts_with(t, "· "@)
}

/// The text of a bullet line after its first two bytes (`- ` or `·`).
pub open spec fn bullet_rest(t: Seq<char>) -> Seq<char> {
    if text::starts_with(t, "- "@) { t.subrange(2, t.len() as int) } else { t.subrange(1, t.len() as int) }
}

/// A table row's cells, trimmed and without markdown, separated by four spaces.
pub open spec fn table_row_text(t: Seq<char>) -> Seq<char> {
    let cells = text::split_char(text::trim_char(t, '|'), '|');
    text::join(cells.map_values(|c: Seq<char>| plain_text(text::trim(c))), "    "@)
}

/// How a body line is shown, or `None` for a table's rule row (not shown).
pub open spec fn line_layout(line: Seq<char>) -> Option<(u8, Seq<char>, Seq<(bool, Seq<char>)>)> {
    let t = text::trim(line);
    let clean = plain_text(t);
    if t.len() == 0 {
        Some((0, Seq::empty(), Seq::empty()))
    } else if is_rule_line(t) {
        Some((1, Seq::empty(), Seq::empty()))
    } else if is_subheading_line(t) {
        Some((2, clean, Seq::empty()))
    } else if has_ref(clean) {
        Some((3, Seq::empty(), ref_pieces(clean)))
    } else if is_bullet_line(t) {
        let b = plain_text(bullet_rest(t));
        if has_ref(b) { Some((5, Seq::empty(), ref_pieces(b))) } else { Some((4, b, Seq::empty())) }
    } else if text::starts_with(t, "|"@) && text::ends_with(t, "|"@) {
        if text::contains(t, "---"@) { None } else { Some((6, table_row_text(t), Seq::empty())) }
    } else {
        Some((7, clean, Seq::empty()))
    }
}

/// A line that reaches the bullet case starting with `• `, whose first two
/// bytes end inside the bullet character: it cannot be laid out.
pub open spec fn line_breaks_layout(line: Seq<char>) -> bool {
    let t = text::trim(line);
    &&& t.len() > 0
    &&& !is_rule_line(t)
    &&& !is_subheading_line(t)
    &&& !has_ref(plain_text(t))
    &&& !text::starts_with(t, "- "@)
    &&& text::starts_with(t, "• "@)
}

/// The layout of the lines `lines`.
pub open spec fn layout_lines(lines: Seq<Seq<char>>) -> Seq<(u8, Seq<char>, Seq<(bool, Seq<char>)>)>
    decreases lines.len(),
{
    if lines.len() == 0 {
        Seq::empty()
    } else {
        let prev = layout_lines(lines.drop_last());
        match line_layout(lines.last()) {
            Some(l) => prev.push(l),
            None => prev,
        }
    }
}

/// The layout of a section body.
pub open spec fn body_layout(body: Seq<char>) -> Seq<(u8, Seq<char>, Seq<(bool, Seq<char>)>)> {
    layout_lines(text::std_lines(body))
}

/// No line of `body` breaks the layout.
pub open spec fn body_can_be_laid_out(body: Seq<char>) -> bool {
    forall|k: int| 0 <= k < text::std_lines(body).len() ==> !line_breaks_layout(#[trigger] text::std_lines(body)[k])
}


/// Whether every character of `t` is `-` or `=`.
fn all_rule_chars(t: &str) -> (b: bool)
    ensures
        b == (forall|k: int| 0 <= k < t@.len() ==> t@[k] == '-' || t@[k] == '='),
{
    let v = text::chars_of(t);
    let mut i: usize = 0;
    while i < v.len()
        invariant
            i <= v.len(),
            v@ == t@,
            forall|k: int| 0 <= k < i ==> v@[k] == '-' || v@[k] == '=',
        decreases v.len() - i,
    {
        if v[i] != '-' && v[i] != '=' {
            return false;
        }
        i = i + 1;
    }
    true
}

fn rule_line(t: &str) -> (b: bool)
    ensures
        b == is_rule_line(t@),
{
    text::str_starts_with(t, "---") || text::str_starts_with(t, "===")
        || (all_rule_chars(t) && text::byte_len(t) > 2)
}

fn subheading_line(t: &str) -> (b: bool)
    ensures
        b == is_subheading_line(t@),
{
    text::str_starts_with(t, "### ")
        || (text::str_starts_with(t, "**") && text::str_ends_with(t, "**"))
        || (text::str_starts_with(t, "**") && text::str_contains(t, ":**"))
}

/// The cells of a table row, trimmed, without markdown, four spaces apart.
fn row_text(t: &str) -> (r: String)
    ensures
        r@ == table_row_text(t@),
{
    let inner = text::trim_char_of(t, '|');
    let cells = text::split_char_of(inner.as_str(), '|');
    let ghost cv = cells.deep_view();
    let mut shown: Vec<String> = Vec::new();
    let mut i: usize = 0;
    while i < cells.len()
        invariant
            i <= cells.len(),
            cv == cells.deep_view(),
            shown.deep_view() == cv.take(i as int).map_values(|c: Seq<char>| plain_text(text::trim(c))),
        decreases cells.len() - i,
    {
        let c = text::trimmed(cells[i].as_str());
        let ghost before = shown.deep_view();
        shown.push(strip_markdown(c.as_str()));
        proof {
            assert(cv[i as int] == cells@[i as int]@);
            assert(cv.take(i + 1).map_values(|c: Seq<char>| plain_text(text::trim(c)))
                =~= before.push(plain_text(text::trim(cv[i as int]))));
            assert(shown.deep_view() =~= before.push(plain_text(text::trim(cv[i as int]))));
        }
        i = i + 1;
    }
    assert(cv.take(cells.len() as int) =~= cv);
    let mut r = String::new();
    assert(text::views(shown@) =~= shown.deep_view());
    text::push_joined(&mut r, &shown, "    ");
    r
}

/// A bullet line's text after its marker (`- ` or `· `).
fn bullet_text(t: &str) -> (r: String)
    requires
        text::starts_with(t@, "- "@) || text::starts_with(t@, "· "@),
    ensures
        r@ == bullet_rest(t@),
{
    proof {
        reveal_strlit("- ");
        reveal_strlit("· ");
    }
    let v = text::chars_of(t);
    if text::str_starts_with(t, "- ") {
        text::string_of(&v, 2, v.len())
    } else {
        text::string_of(&v, 1, v.len())
    }
}

/// How one body line is shown (`None` for a table's rule row).
pub fn lay_out_line(line: &str) -> (r: Option<BodyLine>)
    requires
        !line_breaks_layout(line@),
    ensures
        match r {
            Some(l) => line_layout(line@) == Some(line_view(l)),
            None => line_layout(line@) is None,
        },
{
    let t = text::trimmed(line);
    let clean = strip_markdown(t.as_str());
    if t.as_str().is_empty() {
        return Some(BodyLine::Gap);
    }
    if rule_line(t.as_str()) {
        return Some(BodyLine::Separator);
    }
    if subheading_line(t.as_str()) {
        return Some(BodyLine::SubHeading(clean));
    }
    if contains_ref(clean.as_str()) {
        return Some(BodyLine::WithRefs(split_refs(clean.as_str())));
    }
    let dash = text::str_starts_with(t.as_str(), "- ");
    let dot = text::str_starts_with(t.as_str(), "• ");
    let middle = text::str_starts_with(t.as_str(), "· ");
    if dash || dot || middle {
        let rest = bullet_text(t.as_str());
        let b = strip_markdown(rest.as_str());
        if contains_ref(b.as_str()) {
            return Some(BodyLine::BulletWithRefs(split_refs(b.as_str())));
        }
        return Some(BodyLine::Bullet(b));
    }
    if text::str_starts_with(t.as_str(), "|") && text::str_ends_with(t.as_str(), "|") {
        if text::str_contains(t.as_str(), "---") {
            return None;
        }
        return Some(BodyLine::TableRow(row_text(t.as_str())));
    }
    Some(BodyLine::Paragraph(clean))
}

/// Whether some line of `body` cannot be laid out (see `line_breaks_layout`).
pub fn body_breaks_layout(body: &str) -> (b: bool)
    ensures
        b == !body_can_be_laid_out(body@),
{
    let lines = text::lines_of(body);
    let ghost lv = lines.deep_view();
    let mut i: usize = 0;
    while i < lines.len()
        invariant
            i <= lines.len(),
            lv == lines.deep_view(),
            lv == text::std_lines(body@),
            forall|k: int| 0 <= k < i ==> !line_breaks_layout(#[trigger] lv[k]),
        decreases lines.len() - i,
    {
        let t = text::trimmed(lines[i].as_str());
        let clean = strip_markdown(t.as_str());
        assert(lv[i as int] == lines@[i as int]@);
        if !t.as_str().is_empty() && !rule_line(t.as_str()) && !subheading_line(t.as_str())
            && !contains_ref(clean.as_str()) && !text::str_starts_with(t.as_str(), "- ")
            && text::str_starts_with(t.as_str(), "• ") {
            assert(line_breaks_layout(lv[i as int]));
            return true;
        }
        i = i + 1;
    }
    false
}

/// How the lines of a section body are shown.
pub fn lay_out_body(body: &str) -> (r: Vec<BodyLine>)
    requires
        body_can_be_laid_out(body@),
    ensures
        lines_view(r@) == body_layout(body@),
{
    let lines = text::lines_of(body);
    let ghost lv = lines.deep_view();
    let mut out: Vec<BodyLine> = Vec::new();
    let mut i: usize = 0;
    while i < lines.len()
        invariant
            i <= lines.len(),
            lv == lines.deep_view(),
            lv == text::std_lines(body@),
            body_can_be_laid_out(body@),
            lines_view(out@) == layout_lines(lv.take(i as int)),
        decreases lines.len() - i,
    {
        proof {
            assert(lv[i as int] == lines@[i as int]@);
            assert(lv.take(i + 1).drop_last() =~= lv.take(i as int));
            assert(lv.take(i + 1).last() == lv[i as int]);
        }
        let ghost before = lines_view(out@);
        match lay_out_line(lines[i].as_str()) {
            Some(l) => {
                let ghost lview = line_view(l);
                out.push(l);
                assert(lines_view(out@) =~= before.push(lview));
            },
            None => {},
        }
        i = i + 1;
    }
    assert(lv.take(lines.len() as int) =~= lv);
    out
}

// ───────────────────────────── report layout ─────────────────────────────

/// How a report is shown.
#[derive(Clone, Debug)]
pub enum ReportLayout {
    /// A report of several sections: the first as a summary card when it has a
    /// body (headed `Executive Summary` when it has no heading), each other
    /// section as a card of its own.
    Sectioned { summary: Option<Section>, cards: Vec<Section> },
    /// A report without sections, shown whole.
    Plain,
}

/// The layout of a report, by its sections.
pub open spec fn report_layout_matches(r: ReportLayout, report: Seq<char>) -> bool {
    let secs = report_sections(report);
    if secs.len() > 1 {
        &&& r matches ReportLayout::Sectioned { summary, cards } && sections_view(cards@) == secs.drop_first()
            && (if text::trim(secs[0].1).len() > 0 {
                summary matches Some(s) && s.body@ == secs[0].1
                    && s.heading@ == (if secs[0].0.len() == 0 { "Executive Summary"@ } else { secs[0].0 })
            } else {
                summary is None
            })
    } else {
        r is Plain
    }
}

/// Lay out a report as cards by its sections.
pub fn report_layout(report: &str) -> (r: ReportLayout)
    ensures
        report_layout_matches(r, report@),
{
    let secs = parse_sections(report);
    if secs.len() <= 1 {
        return ReportLayout::Plain;
    }
    let ghost sv = sections_view(secs@);
    assert(sv[0] == (secs@[0].heading@, secs@[0].body@));
    let first = &secs[0];
    let b = text::trimmed(first.body.as_str());
    let summary = if !b.as_str().is_empty() {
        let heading = if first.heading.as_str().is_empty() {
            text::owned("Executive Summary")
        } else {
            first.heading.clone()
        };
        Some(Section { heading, body: first.body.clone() })
    } else {
        None
    };
    let mut cards: Vec<Section> = Vec::new();
    let mut i: usize = 1;
    while i < secs.len()
        invariant
            1 <= i <= secs.len(),
            sv == sections_view(secs@),
            sections_view(cards@) == sv.subrange(1, i as int),
        decreases secs.len() - i,
    {
        let ghost before = sections_view(cards@);
        let card = Section { heading: secs[i].heading.clone(), body: secs[i].body.clone() };
        assert(sv[i as int] == (card.heading@, card.body@));
        cards.push(card);
        assert(sections_view(cards@) =~= before.push(sv[i as int]));
        assert(sv.subrange(1, i + 1) =~= sv.subrange(1, i as int).push(sv[i as int]));
        i = i + 1;
    }
    assert(sv.subrange(1, secs.len() as int) =~= sv.drop_first());
    ReportLayout::Sectioned { summary, cards }
}

/// The accent a section card gets, by what its heading is about.
#[derive(Clone, Copy, Debug, PartialEq, Eq, Structural)]
pub enum Accent {
    /// Risks, insolvency, warnings.
    Alarm,
    /// Finances, health, accounts.
    Caution,
    /// Recommendations, next steps, further enquiries.
    Advice,
    /// Networks, connections.
    Links,
    /// Anything else.
    Neutral,
}

pub open spec fn accent_of(heading: Seq<char>) -> Accent {
    let h = uppercase_text(heading);
    if text::contains(h, "RISK"@) || text::contains(h, "INSOLVENCY"@) || text::contains(h, "WARNING"@) {
        Accent::Alarm
    } else if text::contains(h, "FINANCIAL"@) || text::contains(h, "HEALTH"@) || text::contains(h, "ACCOUNTS"@) {
        Accent::Caution
    } else if text::contains(h, "RECOMMENDATION"@) || text::contains(h, "NEXT"@) || text::contains(h, "FURTHER"@) {
        Accent::Advice
    } else if text::contains(h, "NETWORK"@) || text::contains(h, "CONNECTION"@) {
        Accent::Links
    } else {
        Accent::Neutral
    }
}

/// Choose a section card's accent from its heading (upper-cased).
pub fn section_accent(heading: &str) -> (a: Accent)
    ensures
        a == accent_of(heading@),
{
    let h = to_uppercase(heading);
    let hs = h.as_str();
    if text::str_contains(hs, "RISK") || text::str_contains(hs, "INSOLVENCY") || text::str_contains(hs, "WARNING") {
        Accent::Alarm
    } else if text::str_contains(hs, "FINANCIAL") || text::str_contains(hs, "HEALTH") || text::str_contains(hs, "ACCOUNTS") {
        Accent::Caution
    } else if text::str_contains(hs, "RECOMMENDATION") || text::str_contains(hs, "NEXT") || text::str_contains(hs, "FURTHER") {
        Accent::Advice
    } else if text::str_contains(hs, "NETWORK") || text::str_contains(hs, "CONNECTION") {
        Accent::Links
    } else {
        Accent::Neutral
    }
}

/// The public page of a filing's document (PDF) on Companies House.
pub fn filing_document_url(company_number: &str, filing_id: &str) -> (u: String)
    ensures
        u@ == "https://find-and-update.company-information.service.gov.uk/company/"@ + company_number@
            + "/filing-history/"@ + filing_id@ + "/document?format=pdf"@,
{
    let mut u = text::owned("https://find-and-update.company-information.service.gov.uk/company/");
    text::push_str(&mut u, company_number);
    text::push_str(&mut u, "/filing-history/");
    text::push_str(&mut u, filing_id);
    text::push_str(&mut u, "/document?format=pdf");
    u
}

} // verus!
