//! Text out of PDF filings. The caller reads the text layer with
//! `pdf_extract` (which can panic on malformed files, so it is not called
//! here); a PDF with (almost) no text is taken for a scan. Extracted text is tidied with
//! two `regex` substitutions and page breaks are marked.
use vstd::prelude::*;
use crate::text;

verus! {

/// Result of a PDF text extraction attempt.
#[derive(Debug)]
pub enum PdfExtractionResult {
    /// Text extracted from the PDF.
    Text(String),
    /// The PDF has no text layer: it needs OCR.
    NeedsOcr,
    /// Extraction failed.
    Error(String),
}

/// A `Result` of strings by the views of its strings.
pub open spec fn result_view(r: Result<String, String>) -> Result<Seq<char>, Seq<char>> {
    match r {
        Ok(t) => Ok(t@),
        Err(e) => Err(e@),
    }
}

/// What `regex` gives for replacing every match of `pattern` in `haystack`
/// by `replacement`, or `None` when the pattern does not compile.
pub uninterp spec fn regex_replaced(pattern: Seq<char>, haystack: Seq<char>, replacement: Seq<char>) -> Option<Seq<char>>;

/// A replacement that `replace_all` takes literally: it has no `$`.
pub open spec fn literal(rep: Seq<char>) -> bool {
    !rep.contains('$')
}

/// A character of the runs that tidying collapses: a space or a tab
/// (`spaces`), or a line feed.
pub open spec fn in_run(c: char, spaces: bool) -> bool {
    if spaces { c == ' ' || c == '\t' } else { c == '\n' }
}

/// The length of the run of such characters that `s` starts with.
pub open spec fn run_len(s: Seq<char>, spaces: bool) -> nat
    decreases s.len(),
{
    if s.len() > 0 && in_run(s[0], spaces) {
        1 + run_len(s.drop_first(), spaces)
    } else {
        0
    }
}

pub proof fn lemma_run_len_bound(s: Seq<char>, spaces: bool)
    ensures
        run_len(s, spaces) <= s.len(),
    decreases s.len(),
{
    if s.len() > 0 && in_run(s[0], spaces) {
        lemma_run_len_bound(s.drop_first(), spaces);
    }
}

/// `s` with every whole run of at least `min` such characters replaced by
/// `rep`, from left to right.
pub open spec fn runs_replaced(s: Seq<char>, spaces: bool, min: nat, rep: Seq<char>) -> Seq<char>
    decreases s.len(),
{
    if s.len() == 0 {
        Seq::empty()
    } else {
        let n = run_len(s, spaces);
        if n == 0 {
            seq![s[0]] + runs_replaced(s.drop_first(), spaces, min, rep)
        } else {
            proof {
                lemma_run_len_bound(s, spaces);
            }
            (if n >= min { rep } else { s.take(n as int) }) + runs_replaced(s.skip(n as int), spaces, min, rep)
        }
    }
}

/// `regex::Regex::new(pattern)` and `Regex::replace_all`, or `None` when the
/// pattern does not compile. The result is named by `regex_replaced`, a
/// function of the three arguments. For the two patterns that tidying uses,
/// and a replacement without `$` (which `replace_all` takes literally), the
/// regex documentation's leftmost-first, greedy matching gives the result
/// exactly: each whole run of three or more spaces and tabs, or of four or
/// more line feeds, is replaced.
#[verifier::external_body]
fn regex_replace_all(pattern: &str, haystack: &str, replacement: &str) -> (r: Option<String>)
    ensures
        r matches Some(s) ==> regex_replaced(pattern@, haystack@, replacement@) == Some(s@),
        r is None ==> regex_replaced(pattern@, haystack@, replacement@) is None,
        r is None ==> pattern@ != space_runs() && pattern@ != blank_runs(),
        r matches Some(s) ==> (pattern@ == space_runs() && literal(replacement@) ==> s@ == runs_replaced(haystack@, true, 3, replacement@)),
        r matches Some(s) ==> (pattern@ == blank_runs() && literal(replacement@) ==> s@ == runs_replaced(haystack@, false, 4, replacement@)),
{
    match regex::Regex::new(pattern) {
        Ok(re) => Some(re.replace_all(haystack, replacement).to_string()),
        Err(_) => None,
    }
}

/// The pattern of runs of three or more spaces or tabs.
pub open spec fn space_runs() -> Seq<char> {
    "[ \\t]{3,}"@
}

/// The pattern of runs of four or more line feeds.
pub open spec fn blank_runs() -> Seq<char> {
    "\\n{4,}"@
}

/// PDF text tidied: runs of three or more spaces and tabs become two
/// spaces, runs of four or more line feeds become three, form feeds become a
/// `---` line, and the whole is trimmed.
pub open spec fn cleaned_pdf_text(t: Seq<char>) -> Seq<char> {
    let a = runs_replaced(t, true, 3, seq![' ', ' ']);
    let b = runs_replaced(a, false, 4, seq!['\n', '\n', '\n']);
    text::trim(text::replace_char(b, '\x0C', "\n---\n"@))
}

/// The note added to very short PDF text.
pub open spec fn scanned_note() -> Seq<char> {
    "\n\n[Note: Very little text extracted — this may be a scanned document]"@
}

/// What an extraction attempt comes to: trimmed text of fewer than 50 bytes
/// is kept with a note, or read as a scan when empty; longer text is tidied.
pub open spec fn pdf_outcome(r: PdfExtractionResult, extracted: Result<Seq<char>, Seq<char>>) -> bool {
    match extracted {
        Ok(t) => {
            let tt = text::trim(t);
            if text::utf8_len(tt) < 50 {
                if tt.len() == 0 {
                    r is NeedsOcr
                } else {
                    r matches PdfExtractionResult::Text(x) && x@ == tt + scanned_note()
                }
            } else {
                r matches PdfExtractionResult::Text(x) && x@ == cleaned_pdf_text(tt)
            }
        },
        Err(e) => r matches PdfExtractionResult::Error(x) && x@ == "PDF extraction failed: "@ + e,
    }
}

/// Tidy PDF-extracted text.
pub fn clean_pdf_text(t: &str) -> (r: String)
    ensures
        r@ == cleaned_pdf_text(t@),
{
    proof {
        reveal_strlit("[ \\t]{3,}");
        reveal_strlit("\\n{4,}");
        reveal_strlit("  ");
        reveal_strlit("\n\n\n");
        assert("  "@ =~= seq![' ', ' ']);
        assert("\n\n\n"@ =~= seq!['\n', '\n', '\n']);
        assert(literal("  "@));
        assert(literal("\n\n\n"@));
    }
    let a = match regex_replace_all("[ \\t]{3,}", t, "  ") {
        Some(s) => s,
        None => text::owned(t),
    };
    let b = match regex_replace_all("\\n{4,}", a.as_str(), "\n\n\n") {
        Some(s) => s,
        None => text::owned(a.as_str()),
    };
    let c = text::replace_char_with(b.as_str(), '\x0C', "\n---\n");
    text::trimmed(c.as_str())
}

/// Extract text from a PDF file, from what `pdf_extract` read from it (its
/// text layer, or the message of the error that stopped it): the text,
/// tidied; a note when there is very little of it; `NeedsOcr` when there is
/// none; the error otherwise.
pub fn extract_text_from_pdf(extracted: Result<String, String>) -> (r: PdfExtractionResult)
    ensures
        pdf_outcome(r, result_view(extracted)),
{
    match extracted {
        Ok(t) => {
            let tt = text::trimmed(t.as_str());
            if text::byte_len(tt.as_str()) < 50 {
                if tt.as_str().is_empty() {
                    PdfExtractionResult::NeedsOcr
                } else {
                    let mut x = text::owned(tt.as_str());
                    text::push_str(&mut x, "\n\n[Note: Very little text extracted — this may be a scanned document]");
                    PdfExtractionResult::Text(x)
                }
            } else {
                PdfExtractionResult::Text(clean_pdf_text(tt.as_str()))
            }
        },
        Err(e) => {
            let mut x = text::owned("PDF extraction failed: ");
            text::push_str(&mut x, e.as_str());
            PdfExtractionResult::Error(x)
        },
    }
}

} // verus!
