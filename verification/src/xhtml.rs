//! Readable text out of XHTML / iXBRL filings.
//!
//! The HTML parser and CSS selector engine come from `scraper`; what they
//! produce reaches this module as a flat walk of the tree (`HtmlEvent`s).
//! Everything that turns that walk into text is specified and proved here:
//!   - tables become pipe-delimited rows with a separator under the header,
//!   - definition lists become `Term: Definition` lines,
//!   - ordered and unordered lists become numbered / bulleted lines,
//!   - headings get level markers, block elements get line breaks,
//!   - `script`, `style`, `head` and `noscript` are dropped,
//! and the result is cleaned of surplus blank lines and whitespace.
use vstd::prelude::*;
use crate::text;
use scraper::node::Node;
use ego_tree::iter::Edge;

verus! {

/// One step of a depth-first walk over an HTML tree. Every node is entered
/// once (`Element`, `Text` or `Other`) and left once (`Close`), so the events
/// of a subtree are balanced.
#[derive(Clone, Debug)]
pub enum HtmlEvent {
    /// An element starts: its local name and its `name` attribute, if any.
    Element { tag: String, name_attr: Option<String> },
    /// A text node starts.
    Text(String),
    /// Any other node (comment, doctype, ...) starts.
    Other,
    /// The most recently entered node that is still open ends.
    Close,
}

// ───────────────────────────── tree structure ─────────────────────────────

/// Scanning from position `i` with `open` nodes entered and not yet left:
/// the position just past the `Close` that leaves the outermost of them
/// (the length of the walk when it never comes).
pub open spec fn scan_end(ev: Seq<HtmlEvent>, i: int, open: nat) -> int
    decreases ev.len() - i,
{
    if i >= ev.len() {
        ev.len() as int
    } else if ev[i] is Close {
        if open <= 1 {
            i + 1
        } else {
            scan_end(ev, i + 1, (open - 1) as nat)
        }
    } else {
        scan_end(ev, i + 1, open + 1)
    }
}

/// The position just past the subtree entered at `i`: where its next
/// sibling starts.
pub open spec fn subtree_end(ev: Seq<HtmlEvent>, i: int) -> int {
    scan_end(ev, i + 1, 1)
}

pub proof fn lemma_scan_end_bounds(ev: Seq<HtmlEvent>, i: int, open: nat)
    requires
        0 <= i <= ev.len(),
    ensures
        i <= scan_end(ev, i, open) <= ev.len(),
        i < ev.len() ==> i < scan_end(ev, i, open),
    decreases ev.len() - i,
{
    if i < ev.len() {
        if ev[i] is Close {
            if open > 1 {
                lemma_scan_end_bounds(ev, i + 1, (open - 1) as nat);
            }
        } else {
            lemma_scan_end_bounds(ev, i + 1, open + 1);
        }
    }
}

pub proof fn lemma_subtree_end_bounds(ev: Seq<HtmlEvent>, i: int)
    requires
        0 <= i < ev.len(),
    ensures
        i < subtree_end(ev, i) <= ev.len(),
{
    lemma_scan_end_bounds(ev, i + 1, 1);
}

/// The texts of the text nodes entered at positions `[lo, hi)`, in order.
pub open spec fn texts_in(ev: Seq<HtmlEvent>, lo: int, hi: int) -> Seq<Seq<char>>
    decreases hi - lo,
{
    if hi <= lo {
        Seq::empty()
    } else {
        let prev = texts_in(ev, lo, hi - 1);
        match ev[hi - 1] {
            HtmlEvent::Text(t) => prev.push(t@),
            _ => prev,
        }
    }
}

/// All text beneath the node entered at `p`, the pieces joined by one space
/// (what `ElementRef::text` collected and joined gives).
pub open spec fn collect_text(ev: Seq<HtmlEvent>, p: int) -> Seq<char> {
    text::join(texts_in(ev, p + 1, subtree_end(ev, p)), " "@)
}

/// Positions in `[lo, hi)` where an element named `name` is entered.
pub open spec fn elems_named(ev: Seq<HtmlEvent>, lo: int, hi: int, name: Seq<char>) -> Seq<int>
    decreases hi - lo,
{
    if hi <= lo {
        Seq::empty()
    } else {
        let prev = elems_named(ev, lo, hi - 1, name);
        match ev[hi - 1] {
            HtmlEvent::Element { tag, .. } => if tag@ == name {
                prev.push(hi - 1)
            } else {
                prev
            },
            _ => prev,
        }
    }
}

/// The descendant elements named `name` of the node entered at `p`, in
/// document order.
pub open spec fn descendants_named(ev: Seq<HtmlEvent>, p: int, name: Seq<char>) -> Seq<int> {
    elems_named(ev, p + 1, subtree_end(ev, p), name)
}

/// Positions as integers.
pub open spec fn as_ints(v: Seq<usize>) -> Seq<int> {
    v.map_values(|x: usize| x as int)
}

// ───────────────────────────── rendering ─────────────────────────────

/// How an element is rendered, by its tag name.
#[derive(Clone, Copy, Debug, PartialEq, Eq, Structural)]
pub enum TagKind {
    /// `script`, `style`, `head`, `noscript`: dropped with their content.
    Skipped,
    Table,
    DefinitionList,
    OrderedList,
    UnorderedList,
    /// Paragraph-like elements, set on lines of their own.
    Block,
    Heading1,
    Heading2,
    Heading3,
    /// `h4`, `h5`, `h6`.
    MinorHeading,
    LineBreak,
    Rule,
    /// Anything else: its children are rendered in place.
    Inline,
}

pub open spec fn is_skipped_tag(t: Seq<char>) -> bool {
    t == "script"@ || t == "style"@ || t == "head"@ || t == "noscript"@
}

pub open spec fn is_block_tag(t: Seq<char>) -> bool {
    ||| t == "p"@
    ||| t == "div"@
    ||| t == "section"@
    ||| t == "article"@
    ||| t == "blockquote"@
    ||| t == "pre"@
    ||| t == "header"@
    ||| t == "footer"@
    ||| t == "main"@
    ||| t == "aside"@
    ||| t == "figure"@
    ||| t == "figcaption"@
    ||| t == "details"@
    ||| t == "summary"@
}

pub open spec fn kind_of_tag(t: Seq<char>) -> TagKind {
    if is_skipped_tag(t) {
        TagKind::Skipped
    } else if t == "table"@ {
        TagKind::Table
    } else if t == "dl"@ {
        TagKind::DefinitionList
    } else if t == "ol"@ {
        TagKind::OrderedList
    } else if t == "ul"@ {
        TagKind::UnorderedList
    } else if is_block_tag(t) {
        TagKind::Block
    } else if t == "h1"@ {
        TagKind::Heading1
    } else if t == "h2"@ {
        TagKind::Heading2
    } else if t == "h3"@ {
        TagKind::Heading3
    } else if t == "h4"@ || t == "h5"@ || t == "h6"@ {
        TagKind::MinorHeading
    } else if t == "br"@ {
        TagKind::LineBreak
    } else if t == "hr"@ {
        TagKind::Rule
    } else {
        TagKind::Inline
    }
}

pub open spec fn newline() -> Seq<char> {
    seq!['\n']
}

/// `n` copies of `c`.
pub open spec fn repeat_char(c: char, n: nat) -> Seq<char> {
    Seq::new(n, |_i: int| c)
}

/// `s` padded with spaces on the right to `w` characters (`{:<w$}`).
pub open spec fn pad_right(s: Seq<char>, w: nat) -> Seq<char> {
    if s.len() < w {
        s + repeat_char(' ', (w - s.len()) as nat)
    } else {
        s
    }
}

/// The trimmed text of the element entered at `q` (a table cell, list item,
/// term or definition).
pub open spec fn cell_text(ev: Seq<HtmlEvent>, q: int) -> Seq<char> {
    text::trim(collect_text(ev, q))
}

pub open spec fn cells_of(ev: Seq<HtmlEvent>, qs: Seq<int>) -> Seq<Seq<char>> {
    qs.map_values(|q: int| cell_text(ev, q))
}

/// The cells of the row entered at `tr`: its header cells, then its data cells.
pub open spec fn row_cells(ev: Seq<HtmlEvent>, tr: int) -> Seq<Seq<char>> {
    cells_of(ev, descendants_named(ev, tr, "th"@)) + cells_of(ev, descendants_named(ev, tr, "td"@))
}

pub open spec fn is_header_row(ev: Seq<HtmlEvent>, tr: int) -> bool {
    descendants_named(ev, tr, "th"@).len() > 0
}

/// The rows of a table from its `tr` elements `trs`, and whether one of them is
/// a header row: rows without cells are left out, and the first row with
/// header cells is moved to the front.
pub open spec fn table_rows(ev: Seq<HtmlEvent>, trs: Seq<int>) -> (Seq<Seq<Seq<char>>>, bool)
    decreases trs.len(),
{
    if trs.len() == 0 {
        (Seq::empty(), false)
    } else {
        let (rows, has_header) = table_rows(ev, trs.drop_last());
        let cells = row_cells(ev, trs.last());
        if cells.len() == 0 {
            (rows, has_header)
        } else if is_header_row(ev, trs.last()) && !has_header {
            (seq![cells] + rows, true)
        } else {
            (rows.push(cells), has_header)
        }
    }
}

/// The largest number of cells in a row.
pub open spec fn max_cells(rows: Seq<Seq<Seq<char>>>) -> nat
    decreases rows.len(),
{
    if rows.len() == 0 {
        0
    } else {
        let m = max_cells(rows.drop_last());
        if rows.last().len() > m { rows.last().len() } else { m }
    }
}

/// The width of column `i`: the longest cell of the column in bytes, and at
/// least 3 (0 for a column that no row reaches).
pub open spec fn col_width(rows: Seq<Seq<Seq<char>>>, i: nat) -> nat
    decreases rows.len(),
{
    if rows.len() == 0 {
        0
    } else {
        let w = col_width(rows.drop_last(), i);
        if i < rows.last().len() {
            let b = text::utf8_len(rows.last()[i as int]);
            let m = if b > w { b } else { w };
            if m > 3 { m } else { 3 }
        } else {
            w
        }
    }
}

/// The padded cells `0..n` of `row`, each followed by ` | `; missing cells are blank.
pub open spec fn row_segments(rows: Seq<Seq<Seq<char>>>, row: Seq<Seq<char>>, n: nat) -> Seq<char>
    decreases n,
{
    if n == 0 {
        Seq::empty()
    } else {
        let k = (n - 1) as nat;
        let cell = if k < row.len() { row[k as int] } else { Seq::empty() };
        row_segments(rows, row, k) + pad_right(cell, col_width(rows, k)) + " | "@
    }
}

/// The dashes under columns `0..n`, each followed by ` | `.
pub open spec fn rule_segments(rows: Seq<Seq<Seq<char>>>, n: nat) -> Seq<char>
    decreases n,
{
    if n == 0 {
        Seq::empty()
    } else {
        let k = (n - 1) as nat;
        rule_segments(rows, k) + repeat_char('-', col_width(rows, k)) + " | "@
    }
}

pub open spec fn row_line(rows: Seq<Seq<Seq<char>>>, row: Seq<Seq<char>>) -> Seq<char> {
    "| "@ + row_segments(rows, row, max_cells(rows)) + newline()
}

pub open spec fn rule_line(rows: Seq<Seq<Seq<char>>>) -> Seq<char> {
    "| "@ + rule_segments(rows, max_cells(rows)) + newline()
}

/// The first `n` rows rendered, with the rule under the first row when it is a header.
pub open spec fn table_lines(rows: Seq<Seq<Seq<char>>>, has_header: bool, n: nat) -> Seq<char>
    decreases n,
{
    if n == 0 {
        Seq::empty()
    } else {
        let k = (n - 1) as nat;
        table_lines(rows, has_header, k) + row_line(rows, rows[k as int])
            + (if k == 0 && has_header { rule_line(rows) } else { Seq::empty() })
    }
}

/// `[Table: caption]` for a table whose first caption has text.
pub open spec fn caption_line(ev: Seq<HtmlEvent>, p: int) -> Seq<char> {
    let caps = descendants_named(ev, p, "caption"@);
    if caps.len() > 0 && cell_text(ev, caps[0]).len() > 0 {
        "[Table: "@ + cell_text(ev, caps[0]) + "]"@ + newline()
    } else {
        Seq::empty()
    }
}

/// The table entered at `p`.
pub open spec fn table_text(ev: Seq<HtmlEvent>, p: int) -> Seq<char> {
    let (rows, has_header) = table_rows(ev, descendants_named(ev, p, "tr"@));
    caption_line(ev, p) + table_lines(rows, has_header, rows.len())
}

/// One `Term: Definition` line; a lone term or a lone definition gets a line too.
pub open spec fn dl_entry(term: Seq<char>, def: Seq<char>) -> Seq<char> {
    if term.len() > 0 && def.len() > 0 {
        term + ": "@ + def + newline()
    } else if term.len() > 0 {
        term + ":"@ + newline()
    } else if def.len() > 0 {
        "  "@ + def + newline()
    } else {
        Seq::empty()
    }
}

/// The text of the `i`-th of the elements `qs`, or nothing when there is none.
pub open spec fn nth_cell(ev: Seq<HtmlEvent>, qs: Seq<int>, i: int) -> Seq<char> {
    if 0 <= i < qs.len() { cell_text(ev, qs[i]) } else { Seq::empty() }
}

/// The first `n` term/definition pairs.
pub open spec fn dl_lines(ev: Seq<HtmlEvent>, dts: Seq<int>, dds: Seq<int>, n: nat) -> Seq<char>
    decreases n,
{
    if n == 0 {
        Seq::empty()
    } else {
        dl_lines(ev, dts, dds, (n - 1) as nat) + dl_entry(nth_cell(ev, dts, n - 1), nth_cell(ev, dds, n - 1))
    }
}

/// The definition list entered at `p`: its `dt` and `dd` elements paired by position.
pub open spec fn dl_text(ev: Seq<HtmlEvent>, p: int) -> Seq<char> {
    let dts = descendants_named(ev, p, "dt"@);
    let dds = descendants_named(ev, p, "dd"@);
    dl_lines(ev, dts, dds, if dts.len() > dds.len() { dts.len() } else { dds.len() })
}

/// One list item: numbered (from 1, counting every item) or bulleted; an item
/// without text gets no line.
pub open spec fn list_item(indent: Seq<char>, ordered: bool, i: nat, item: Seq<char>) -> Seq<char> {
    if item.len() == 0 {
        Seq::empty()
    } else if ordered {
        indent + text::dec(i + 1) + ". "@ + item + newline()
    } else {
        indent + "• "@ + item + newline()
    }
}

/// The first `n` items.
pub open spec fn list_lines(ev: Seq<HtmlEvent>, lis: Seq<int>, indent: Seq<char>, ordered: bool, n: nat) -> Seq<char>
    decreases n,
{
    if n == 0 {
        Seq::empty()
    } else {
        let k = (n - 1) as nat;
        list_lines(ev, lis, indent, ordered, k) + list_item(indent, ordered, k, cell_text(ev, lis[k as int]))
    }
}

/// The list entered at `p`, its items indented by two spaces per `depth`.
pub open spec fn list_text(ev: Seq<HtmlEvent>, p: int, depth: nat, ordered: bool) -> Seq<char> {
    let lis = descendants_named(ev, p, "li"@);
    list_lines(ev, lis, repeat_char(' ', 2 * depth), ordered, lis.len())
}

/// The text of the children of a node, starting with the child entered at `c`.
pub open spec fn children_text(ev: Seq<HtmlEvent>, c: int, depth: nat) -> Seq<char>
    decreases ev.len() - c, 1int,
{
    if c < 0 || c >= ev.len() || ev[c] is Close {
        Seq::empty()
    } else {
        proof {
            lemma_subtree_end_bounds(ev, c);
        }
        node_out(ev, c, depth) + children_text(ev, subtree_end(ev, c), depth)
    }
}

/// The text of the node entered at `c`.
pub open spec fn node_out(ev: Seq<HtmlEvent>, c: int, depth: nat) -> Seq<char>
    decreases ev.len() - c, 0int,
{
    if c < 0 || c >= ev.len() {
        Seq::empty()
    } else {
        match ev[c] {
            HtmlEvent::Text(t) => {
                let s = text::trim(t@);
                if s.len() > 0 { s.push(' ') } else { Seq::empty() }
            },
            HtmlEvent::Element { tag, .. } => match kind_of_tag(tag@) {
                TagKind::Skipped => Seq::empty(),
                TagKind::Table => newline() + table_text(ev, c) + newline(),
                TagKind::DefinitionList => newline() + dl_text(ev, c) + newline(),
                TagKind::OrderedList => newline() + list_text(ev, c, depth, true) + newline(),
                TagKind::UnorderedList => newline() + list_text(ev, c, depth, false) + newline(),
                TagKind::Block => newline() + children_text(ev, c + 1, depth) + newline(),
                TagKind::Heading1 => "\n═══ "@ + collect_text(ev, c) + " ═══\n"@,
                TagKind::Heading2 => "\n─── "@ + collect_text(ev, c) + " ───\n"@,
                TagKind::Heading3 => "\n── "@ + collect_text(ev, c) + " ──\n"@,
                TagKind::MinorHeading => "\n— "@ + collect_text(ev, c) + " —\n"@,
                TagKind::LineBreak => newline(),
                TagKind::Rule => "\n────────────────────\n"@,
                TagKind::Inline => children_text(ev, c + 1, depth),
            },
            _ => Seq::empty(),
        }
    }
}

/// Paragraph-like elements stand on lines of their own: an element whose
/// tag is p, div, section, article, blockquote, pre, header, footer, main,
/// aside, figure, figcaption, details or summary is rendered as a line feed,
/// the text of its children, and a line feed.
pub proof fn block_elements_are_set_on_their_own_lines(ev: Seq<HtmlEvent>, c: int, depth: nat, t: Seq<char>)
    requires
        0 <= c < ev.len(),
        ev[c] matches HtmlEvent::Element { tag, .. } && tag@ == t,
        t == "p"@ || t == "div"@ || t == "section"@ || t == "article"@ || t == "blockquote"@ || t == "pre"@ || t == "header"@ || t == "footer"@ || t == "main"@ || t == "aside"@ || t == "figure"@ || t == "figcaption"@ || t == "details"@ || t == "summary"@,
    ensures
        node_out(ev, c, depth) == seq!['\n'] + children_text(ev, c + 1, depth) + seq!['\n'],
{
    reveal_strlit("p");
    reveal_strlit("div");
    reveal_strlit("section");
    reveal_strlit("article");
    reveal_strlit("blockquote");
    reveal_strlit("pre");
    reveal_strlit("header");
    reveal_strlit("footer");
    reveal_strlit("main");
    reveal_strlit("aside");
    reveal_strlit("figure");
    reveal_strlit("figcaption");
    reveal_strlit("details");
    reveal_strlit("summary");
    reveal_strlit("script");
    reveal_strlit("style");
    reveal_strlit("head");
    reveal_strlit("noscript");
    reveal_strlit("table");
    reveal_strlit("dl");
    reveal_strlit("ol");
    reveal_strlit("ul");
    // Lengths and first letters tell these tags apart from those rendered otherwise.
    assert(t.len() != 2 && t.len() != 8);
    assert(t.len() == 4 ==> t[0] == 'm');
    assert(t.len() == 5 ==> t[0] == 'a');
    assert(t.len() == 6 ==> t[0] != 's');
    assert(!is_skipped_tag(t));
    assert(t != "table"@ && t != "dl"@ && t != "ol"@ && t != "ul"@);
    assert(is_block_tag(t));
    assert(kind_of_tag(t) == TagKind::Block);
}

// ───────────────────────────── documents ─────────────────────────────

/// The pieces of `s` between line feeds (one more piece than there are line feeds).
pub open spec fn split_lines(s: Seq<char>) -> Seq<Seq<char>>
    decreases s.len(),
{
    if s.len() == 0 {
        seq![Seq::empty()]
    } else {
        let prev = split_lines(s.drop_last());
        if s.last() == '\n' {
            prev.push(Seq::empty())
        } else {
            prev.update(prev.len() - 1, prev.last().push(s.last()))
        }
    }
}

pub proof fn lemma_split_lines_len(s: Seq<char>)
    ensures
        split_lines(s).len() >= 1,
    decreases s.len(),
{
    if s.len() > 0 {
        lemma_split_lines_len(s.drop_last());
    }
}

/// The lines kept when cleaning, from `lines` trimmed: runs of blank lines
/// become one blank line and leading blank lines are dropped. The flag says
/// whether the last kept line is blank.
pub open spec fn kept_lines(lines: Seq<Seq<char>>) -> (Seq<Seq<char>>, bool)
    decreases lines.len(),
{
    if lines.len() == 0 {
        (Seq::empty(), false)
    } else {
        let (kept, blank) = kept_lines(lines.drop_last());
        let line = text::trim(lines.last());
        if line.len() == 0 {
            if !blank && kept.len() > 0 {
                (kept.push(Seq::empty()), true)
            } else {
                (kept, blank)
            }
        } else {
            (kept.push(line), false)
        }
    }
}

/// Extracted text cleaned up: lines trimmed, blank runs collapsed, the whole trimmed.
pub open spec fn clean_text(s: Seq<char>) -> Seq<char> {
    text::trim(text::join(kept_lines(split_lines(s)).0, "\n"@))
}

/// `s` never has two blank lines in a row: no three newlines follow each other.
pub open spec fn no_blank_run(s: Seq<char>) -> bool {
    forall|i: int| #![trigger s[i]] 0 <= i && i + 2 < s.len() ==> !(s[i] == '\n' && s[i + 1] == '\n' && s[i + 2] == '\n')
}

/// `s` has no newline.
pub open spec fn one_line(s: Seq<char>) -> bool {
    forall|k: int| 0 <= k < s.len() ==> #[trigger] s[k] != '\n'
}

proof fn lemma_split_lines_one_line(s: Seq<char>)
    ensures
        forall|j: int| 0 <= j < split_lines(s).len() ==> one_line(#[trigger] split_lines(s)[j]),
    decreases s.len(),
{
    lemma_split_lines_len(s);
    if s.len() > 0 {
        let prev = split_lines(s.drop_last());
        lemma_split_lines_one_line(s.drop_last());
        lemma_split_lines_len(s.drop_last());
        if s.last() != '\n' {
            let l = prev.last().push(s.last());
            assert(one_line(prev[prev.len() - 1]));
            assert forall|j: int| 0 <= j < split_lines(s).len() implies one_line(#[trigger] split_lines(s)[j]) by {
                if j == prev.len() - 1 {
                    assert(split_lines(s)[j] == l);
                    assert forall|k: int| 0 <= k < l.len() implies #[trigger] l[k] != '\n' by {
                        if k < l.len() - 1 {
                            assert(l[k] == prev.last()[k]);
                        }
                    }
                } else {
                    assert(split_lines(s)[j] == prev[j]);
                }
            }
        } else {
            assert forall|j: int| 0 <= j < split_lines(s).len() implies one_line(#[trigger] split_lines(s)[j]) by {
                if j < prev.len() {
                    assert(split_lines(s)[j] == prev[j]);
                } else {
                    assert(split_lines(s)[j] =~= Seq::<char>::empty());
                }
            }
        }
    }
}

/// Trimming leaves a piece of the text: the characters between two positions.
proof fn lemma_trim_piece(s: Seq<char>) -> (ab: (int, int))
    ensures
        0 <= ab.0 <= ab.1 <= s.len(),
        text::trim(s) == s.subrange(ab.0, ab.1),
{
    text::lemma_trim_start_suffix(s);
    let a = choose|a: int| 0 <= a <= s.len() && text::trim_start(s) == #[trigger] s.subrange(a, s.len() as int);
    let t = text::trim_start(s);
    text::lemma_trim_end_prefix(t);
    let b = choose|b: int| 0 <= b <= t.len() && text::trim_end(t) == #[trigger] t.take(b);
    assert(t.take(b) =~= s.subrange(a, a + b));
    (a, a + b)
}

/// The kept lines are single lines, the first is not blank, no two blank
/// lines follow each other, and the flag says whether the last is blank.
proof fn lemma_kept_lines(lines: Seq<Seq<char>>)
    requires
        forall|j: int| 0 <= j < lines.len() ==> one_line(#[trigger] lines[j]),
    ensures
        ({
            let (kept, blank) = kept_lines(lines);
            &&& forall|j: int| 0 <= j < kept.len() ==> one_line(#[trigger] kept[j])
            &&& forall|j: int| 0 <= j < kept.len() - 1 ==> !(#[trigger] kept[j].len() == 0 && kept[j + 1].len() == 0)
            &&& kept.len() > 0 ==> kept[0].len() > 0
            &&& blank == (kept.len() > 0 && kept.last().len() == 0)
        }),
    decreases lines.len(),
{
    if lines.len() > 0 {
        lemma_kept_lines(lines.drop_last());
        let (kept, blank) = kept_lines(lines.drop_last());
        let line = text::trim(lines.last());
        let ab = lemma_trim_piece(lines.last());
        assert(one_line(lines[lines.len() - 1]));
        assert forall|k: int| 0 <= k < line.len() implies #[trigger] line[k] != '\n' by {
            assert(line[k] == lines.last()[ab.0 + k]);
        }
        let (k2, b2) = kept_lines(lines);
        assert forall|j: int| 0 <= j < k2.len() implies one_line(#[trigger] k2[j]) by {
            if j < kept.len() {
                assert(k2[j] == kept[j]);
            } else {
                assert forall|k: int| 0 <= k < k2[j].len() implies #[trigger] k2[j][k] != '\n' by {}
            }
        }
        assert forall|j: int| 0 <= j < k2.len() - 1 implies !(#[trigger] k2[j].len() == 0 && k2[j + 1].len() == 0) by {
            if j + 1 < kept.len() {
                assert(k2[j] == kept[j] && k2[j + 1] == kept[j + 1]);
            } else {
                assert(k2[j] == kept[j]);
            }
        }
    }
}

/// Joining single lines, no two blank ones in a row and the first not
/// blank, with newlines gives no blank run; the text ends in a non-newline
/// after a non-blank last line, and in one newline after a blank last line.
proof fn lemma_join_no_blank_run(k: Seq<Seq<char>>)
    requires
        forall|j: int| 0 <= j < k.len() ==> one_line(#[trigger] k[j]),
        forall|j: int| 0 <= j < k.len() - 1 ==> !(#[trigger] k[j].len() == 0 && k[j + 1].len() == 0),
        k.len() > 0 ==> k[0].len() > 0,
    ensures
        no_blank_run(text::join(k, "\n"@)),
        k.len() > 0 && k.last().len() > 0 ==> text::join(k, "\n"@).len() > 0
            && text::join(k, "\n"@).last() != '\n',
        k.len() > 0 && k.last().len() == 0 ==> text::join(k, "\n"@).len() >= 2
            && text::join(k, "\n"@).last() == '\n' && text::join(k, "\n"@)[text::join(k, "\n"@).len() - 2] != '\n',
    decreases k.len(),
{
    reveal_strlit("\n");
    if k.len() == 1 {
        assert(text::join(k, "\n"@) == k[0]);
        assert(one_line(k[0]));
    } else if k.len() > 1 {
        let k1 = k.drop_last();
        assert forall|j: int| 0 <= j < k1.len() implies one_line(#[trigger] k1[j]) by {
            assert(k1[j] == k[j]);
        }
        assert forall|j: int| 0 <= j < k1.len() - 1 implies !(#[trigger] k1[j].len() == 0 && k1[j + 1].len() == 0) by {
            assert(k1[j] == k[j] && k1[j + 1] == k[j + 1]);
        }
        lemma_join_no_blank_run(k1);
        let j1 = text::join(k1, "\n"@);
        let x = k.last();
        let jn = text::join(k, "\n"@);
        assert(jn == j1 + "\n"@ + x);
        assert(one_line(k[k.len() - 1]));
        assert(!(k[k.len() - 2].len() == 0 && k[k.len() - 1].len() == 0));
        assert(k1.last() == k[k.len() - 2]);
        let n = j1.len();
        assert forall|i: int| #![trigger jn[i]] 0 <= i && i + 2 < jn.len()
            implies !(jn[i] == '\n' && jn[i + 1] == '\n' && jn[i + 2] == '\n') by {
            if i + 2 < n {
                assert(jn[i] == j1[i] && jn[i + 1] == j1[i + 1] && jn[i + 2] == j1[i + 2]);
            } else if i + 1 < n {
                assert(jn[i] == j1[i] && jn[i + 1] == j1[i + 1]);
            } else if i < n {
                assert(jn[i] == j1[i]);
                assert(jn[i + 2] == x[0]);
            } else if i == n {
                assert(jn[i + 1] == x[0]);
            } else {
                assert(jn[i] == x[i - n - 1]);
            }
        }
        if x.len() > 0 {
            assert(jn.last() == x.last());
        } else {
            assert(jn.last() == '\n');
            assert(jn[jn.len() - 2] == j1.last());
        }
    }
}

/// Cleaned text never has two blank lines in a row, and is trimmed.
pub proof fn cleaned_text_has_no_blank_runs(s: Seq<char>)
    ensures
        no_blank_run(clean_text(s)),
        text::trim(clean_text(s)) == clean_text(s),
{
    lemma_split_lines_one_line(s);
    lemma_kept_lines(split_lines(s));
    let k = kept_lines(split_lines(s)).0;
    lemma_join_no_blank_run(k);
    let j = text::join(k, "\n"@);
    let ab = lemma_trim_piece(j);
    let c = clean_text(s);
    assert forall|i: int| #![trigger c[i]] 0 <= i && i + 2 < c.len() implies !(c[i] == '\n' && c[i + 1] == '\n' && c[i + 2] == '\n') by {
        assert(c[i] == j[ab.0 + i] && c[i + 1] == j[ab.0 + i + 1] && c[i + 2] == j[ab.0 + i + 2]);
    }
    crate::analysis::lemma_trim_idempotent(j);
}

/// A non-empty line whose first and last characters are not white space.
pub open spec fn edge_clean(l: Seq<char>) -> bool {
    l.len() > 0 && !text::is_ws(l[0]) && !text::is_ws(l.last())
}

/// Lines fit to be joined into cleaned text: single lines, each blank or
/// without white space at its ends, the first and last not blank, and no two
/// blank lines in a row.
pub open spec fn clean_lines(k: Seq<Seq<char>>) -> bool {
    &&& forall|j: int| 0 <= j < k.len() ==> one_line(#[trigger] k[j])
    &&& forall|j: int| 0 <= j < k.len() ==> (#[trigger] k[j]).len() == 0 || edge_clean(k[j])
    &&& forall|j: int| 0 <= j < k.len() - 1 ==> !(#[trigger] k[j].len() == 0 && k[j + 1].len() == 0)
    &&& k.len() > 0 ==> k[0].len() > 0 && k.last().len() > 0
}

/// The characters of `s` that are not white space, in order.
pub open spec fn without_ws(s: Seq<char>) -> Seq<char>
    decreases s.len(),
{
    if s.len() == 0 {
        Seq::empty()
    } else {
        without_ws(s.drop_last()) + (if text::is_ws(s.last()) { Seq::empty() } else { seq![s.last()] })
    }
}

/// The characters that are not white space of each of `ls`, one after another.
pub open spec fn lines_without_ws(ls: Seq<Seq<char>>) -> Seq<char>
    decreases ls.len(),
{
    if ls.len() == 0 {
        Seq::empty()
    } else {
        lines_without_ws(ls.drop_last()) + without_ws(ls.last())
    }
}

proof fn lemma_trimmed_line(l: Seq<char>)
    requires
        l.len() == 0 || edge_clean(l),
    ensures
        text::trim(l) == l,
{
}

/// Trimming gives a blank line or one without white space at its ends.
proof fn lemma_trim_edge_clean(s: Seq<char>)
    ensures
        text::trim(s).len() == 0 || edge_clean(text::trim(s)),
{
    crate::analysis::lemma_trim_start_idempotent(s);
    crate::analysis::lemma_trim_end_keeps_start(text::trim_start(s));
}

proof fn lemma_without_ws_append(a: Seq<char>, b: Seq<char>)
    ensures
        without_ws(a + b) == without_ws(a) + without_ws(b),
    decreases b.len(),
{
    if b.len() == 0 {
        assert(a + b =~= a);
    } else {
        lemma_without_ws_append(a, b.drop_last());
        assert((a + b).drop_last() =~= a + b.drop_last());
        assert((a + b).last() == b.last());
    }
}

proof fn lemma_without_ws_single(c: char)
    ensures
        without_ws(seq![c]) == (if text::is_ws(c) { Seq::<char>::empty() } else { seq![c] }),
{
    assert(seq![c].drop_last() =~= Seq::<char>::empty());
    assert(without_ws(Seq::<char>::empty()) == Seq::<char>::empty());
    assert(seq![c].last() == c);
}

proof fn lemma_without_ws_trim_start(s: Seq<char>)
    ensures
        without_ws(text::trim_start(s)) == without_ws(s),
    decreases s.len(),
{
    if s.len() > 0 && text::is_ws(s[0]) {
        lemma_without_ws_trim_start(s.drop_first());
        assert(s =~= seq![s[0]] + s.drop_first());
        lemma_without_ws_append(seq![s[0]], s.drop_first());
        lemma_without_ws_single(s[0]);
        assert(Seq::<char>::empty() + without_ws(s.drop_first()) =~= without_ws(s.drop_first()));
    }
}

proof fn lemma_without_ws_trim_end(s: Seq<char>)
    ensures
        without_ws(text::trim_end(s)) == without_ws(s),
    decreases s.len(),
{
    if s.len() > 0 && text::is_ws(s.last()) {
        lemma_without_ws_trim_end(s.drop_last());
        assert(without_ws(s.drop_last()) + Seq::<char>::empty() =~= without_ws(s.drop_last()));
    }
}

proof fn lemma_without_ws_trim(s: Seq<char>)
    ensures
        without_ws(text::trim(s)) == without_ws(s),
{
    lemma_without_ws_trim_start(s);
    lemma_without_ws_trim_end(text::trim_start(s));
}

proof fn lemma_lines_without_ws_join(ls: Seq<Seq<char>>)
    ensures
        without_ws(text::join(ls, "\n"@)) == lines_without_ws(ls),
    decreases ls.len(),
{
    reveal_strlit("\n");
    if ls.len() == 1 {
        assert(ls.drop_last() =~= Seq::<Seq<char>>::empty());
        assert(lines_without_ws(Seq::<Seq<char>>::empty()) == Seq::<char>::empty());
        assert(ls.last() == ls[0]);
        assert(lines_without_ws(ls) =~= without_ws(ls[0]));
    } else if ls.len() > 1 {
        lemma_lines_without_ws_join(ls.drop_last());
        let j1 = text::join(ls.drop_last(), "\n"@);
        lemma_without_ws_append(j1 + "\n"@, ls.last());
        lemma_without_ws_append(j1, "\n"@);
        assert("\n"@ =~= seq!['\n']);
        lemma_without_ws_single('\n');
    }
}

proof fn lemma_lines_without_ws_split(s: Seq<char>)
    ensures
        lines_without_ws(split_lines(s)) == without_ws(s),
    decreases s.len(),
{
    if s.len() == 0 {
        let ls = split_lines(s);
        assert(ls.drop_last() =~= Seq::<Seq<char>>::empty());
        assert(lines_without_ws(Seq::<Seq<char>>::empty()) == Seq::<char>::empty());
        assert(without_ws(ls.last()) == Seq::<char>::empty());
        assert(lines_without_ws(ls) =~= Seq::<char>::empty());
    } else {
        lemma_lines_without_ws_split(s.drop_last());
        lemma_split_lines_len(s.drop_last());
        let prev = split_lines(s.drop_last());
        let c = s.last();
        if c == '\n' {
            assert(split_lines(s).drop_last() =~= prev);
        } else {
            let y = prev.last().push(c);
            let ls = split_lines(s);
            assert(ls.drop_last() =~= prev.drop_last());
            assert(ls.last() == y);
            assert(y.drop_last() =~= prev.last());
        }
    }
}

proof fn lemma_lines_without_ws_kept(ls: Seq<Seq<char>>)
    ensures
        lines_without_ws(kept_lines(ls).0) == lines_without_ws(ls),
    decreases ls.len(),
{
    if ls.len() > 0 {
        lemma_lines_without_ws_kept(ls.drop_last());
        let (kept, blank) = kept_lines(ls.drop_last());
        let line = text::trim(ls.last());
        lemma_without_ws_trim(ls.last());
        if line.len() == 0 {
            assert(without_ws(line) =~= Seq::<char>::empty());
            if !blank && kept.len() > 0 {
                assert(kept.push(Seq::empty()).drop_last() =~= kept);
            }
        } else {
            assert(kept.push(line).drop_last() =~= kept);
        }
    }
}

/// Cleaning changes only white space: the text keeps every other character, in order.
pub proof fn cleaning_keeps_visible_text(s: Seq<char>)
    ensures
        without_ws(clean_text(s)) == without_ws(s),
{
    let k = kept_lines(split_lines(s)).0;
    lemma_without_ws_trim(text::join(k, "\n"@));
    lemma_lines_without_ws_join(k);
    lemma_lines_without_ws_kept(split_lines(s));
    lemma_lines_without_ws_split(s);
}

/// The kept lines are blank or without white space at their ends.
proof fn lemma_kept_lines_edges(lines: Seq<Seq<char>>)
    ensures
        forall|j: int|
            0 <= j < kept_lines(lines).0.len() ==> (#[trigger] kept_lines(lines).0[j]).len() == 0 || edge_clean(
                kept_lines(lines).0[j],
            ),
    decreases lines.len(),
{
    if lines.len() > 0 {
        lemma_kept_lines_edges(lines.drop_last());
        let (kept, blank) = kept_lines(lines.drop_last());
        let line = text::trim(lines.last());
        lemma_trim_edge_clean(lines.last());
        let k2 = kept_lines(lines).0;
        assert forall|j: int| 0 <= j < k2.len() implies (#[trigger] k2[j]).len() == 0 || edge_clean(k2[j]) by {
            if j < kept.len() {
                assert(k2[j] == kept[j]);
            }
        }
    }
}

/// The cleaned lines: the kept lines without a blank last one.
pub open spec fn cleaned_lines(s: Seq<char>) -> Seq<Seq<char>> {
    let k = kept_lines(split_lines(s)).0;
    if k.len() > 0 && k.last().len() == 0 {
        k.drop_last()
    } else {
        k
    }
}

proof fn lemma_join_ends(k: Seq<Seq<char>>)
    requires
        k.len() > 0,
        k[0].len() > 0,
        k.last().len() > 0,
    ensures
        text::join(k, "\n"@).len() > 0,
        text::join(k, "\n"@)[0] == k[0][0],
        text::join(k, "\n"@).last() == k.last().last(),
    decreases k.len(),
{
    if k.len() > 1 {
        let k1 = k.drop_last();
        if k1.last().len() > 0 {
            lemma_join_ends(k1);
        } else {
            lemma_join_first(k1);
        }
    }
}

proof fn lemma_join_first(k: Seq<Seq<char>>)
    requires
        k.len() > 0,
        k[0].len() > 0,
    ensures
        text::join(k, "\n"@).len() > 0,
        text::join(k, "\n"@)[0] == k[0][0],
    decreases k.len(),
{
    if k.len() > 1 {
        lemma_join_first(k.drop_last());
    }
}

/// The kept lines of any text are fit to be joined, once a blank last line is dropped.
proof fn lemma_cleaned_lines_clean(s: Seq<char>)
    ensures
        clean_lines(cleaned_lines(s)),
{
    lemma_split_lines_one_line(s);
    lemma_kept_lines(split_lines(s));
    lemma_kept_lines_edges(split_lines(s));
    let k = kept_lines(split_lines(s)).0;
    let c = cleaned_lines(s);
    if k.len() > 0 && k.last().len() == 0 {
        assert(k.len() >= 2);
        assert forall|j: int| 0 <= j < c.len() implies one_line(#[trigger] c[j]) && (c[j].len() == 0 || edge_clean(c[j])) by {
            assert(c[j] == k[j]);
        }
        assert forall|j: int| 0 <= j < c.len() - 1 implies !(#[trigger] c[j].len() == 0 && c[j + 1].len() == 0) by {
            assert(c[j] == k[j] && c[j + 1] == k[j + 1]);
        }
        assert(!(k[k.len() - 2].len() == 0 && k[k.len() - 1].len() == 0));
    }
}

/// Cleaned text is its cleaned lines joined by line feeds.
proof fn lemma_clean_text_joined(s: Seq<char>)
    ensures
        clean_text(s) == text::join(cleaned_lines(s), "\n"@),
{
    reveal_strlit("\n");
    lemma_cleaned_lines_clean(s);
    let k = kept_lines(split_lines(s)).0;
    let c = cleaned_lines(s);
    let jc = text::join(c, "\n"@);
    if c.len() > 0 {
        lemma_join_ends(c);
        assert(edge_clean(c[0]));
        assert(edge_clean(c.last()));
    }
    lemma_trimmed_line(jc);
    if k.len() > 0 && k.last().len() == 0 {
        lemma_split_lines_one_line(s);
        lemma_kept_lines(split_lines(s));
        assert(k.len() >= 2);
        let j = text::join(k, "\n"@);
        assert(k.drop_last() == c);
        assert(j == jc + "\n"@ + k.last());
        assert(j =~= jc + seq!['\n']);
        text::lemma_trim_end_skip(j, jc.len() as int);
        assert(j.take(jc.len() as int) =~= jc);
        assert(text::trim_start(j) == j);
        assert(text::trim_start(jc) == jc);
    }
}

proof fn lemma_split_one_line(x: Seq<char>)
    requires
        one_line(x),
    ensures
        split_lines(x) == seq![x],
    decreases x.len(),
{
    if x.len() > 0 {
        assert(one_line(x.drop_last()));
        lemma_split_one_line(x.drop_last());
        assert(x.drop_last().push(x.last()) =~= x);
        assert(x.last() == x[x.len() - 1]);
    } else {
        assert(x =~= Seq::<char>::empty());
    }
}

proof fn lemma_split_after_newline(a: Seq<char>, x: Seq<char>)
    requires
        one_line(x),
    ensures
        split_lines(a + seq!['\n'] + x) == split_lines(a).push(x),
    decreases x.len(),
{
    if x.len() == 0 {
        assert(x =~= Seq::<char>::empty());
        assert(a + seq!['\n'] + x =~= (a + seq!['\n']));
        assert((a + seq!['\n']).drop_last() =~= a);
        assert((a + seq!['\n']).last() == '\n');
    } else {
        assert(one_line(x.drop_last()));
        lemma_split_after_newline(a, x.drop_last());
        assert((a + seq!['\n'] + x).drop_last() =~= a + seq!['\n'] + x.drop_last());
        assert((a + seq!['\n'] + x).last() == x.last());
        assert(x.last() == x[x.len() - 1]);
        assert(x.drop_last().push(x.last()) =~= x);
        let prev = split_lines(a).push(x.drop_last());
        assert(prev.len() - 1 == split_lines(a).len());
        assert(prev.last() == x.drop_last());
        assert(x.last() != '\n');
        assert(prev.update(prev.len() - 1, prev.last().push(x.last())) =~= split_lines(a).push(x));
    }
}

/// Splitting single lines joined by line feeds gives them back.
proof fn lemma_split_join(k: Seq<Seq<char>>)
    requires
        k.len() > 0,
        forall|j: int| 0 <= j < k.len() ==> one_line(#[trigger] k[j]),
    ensures
        split_lines(text::join(k, "\n"@)) == k,
    decreases k.len(),
{
    reveal_strlit("\n");
    if k.len() == 1 {
        assert(one_line(k[0]));
        lemma_split_one_line(k[0]);
        assert(k =~= seq![k[0]]);
    } else {
        let k1 = k.drop_last();
        assert forall|j: int| 0 <= j < k1.len() implies one_line(#[trigger] k1[j]) by {
            assert(k1[j] == k[j]);
        }
        lemma_split_join(k1);
        assert(one_line(k[k.len() - 1]));
        assert("\n"@ =~= seq!['\n']);
        lemma_split_after_newline(text::join(k1, "\n"@), k.last());
        assert(k1.push(k.last()) =~= k);
    }
}

/// Lines fit to be joined are kept as they are.
proof fn lemma_kept_clean_lines(ls: Seq<Seq<char>>)
    requires
        forall|j: int| 0 <= j < ls.len() ==> (#[trigger] ls[j]).len() == 0 || edge_clean(ls[j]),
        forall|j: int| 0 <= j < ls.len() - 1 ==> !(#[trigger] ls[j].len() == 0 && ls[j + 1].len() == 0),
        ls.len() > 0 ==> ls[0].len() > 0,
    ensures
        kept_lines(ls) == (ls, ls.len() > 0 && ls.last().len() == 0),
    decreases ls.len(),
{
    if ls.len() > 0 {
        let l1 = ls.drop_last();
        assert forall|j: int| 0 <= j < l1.len() implies (#[trigger] l1[j]).len() == 0 || edge_clean(l1[j]) by {
            assert(l1[j] == ls[j]);
        }
        assert forall|j: int| 0 <= j < l1.len() - 1 implies !(#[trigger] l1[j].len() == 0 && l1[j + 1].len() == 0) by {
            assert(l1[j] == ls[j] && l1[j + 1] == ls[j + 1]);
        }
        if l1.len() > 0 {
            assert(l1[0] == ls[0]);
        }
        lemma_kept_clean_lines(l1);
        assert(ls[ls.len() - 1] == ls.last());
        lemma_trimmed_line(ls.last());
        if ls.last().len() == 0 {
            assert(ls.len() >= 2);
            assert(!(ls[ls.len() - 2].len() == 0 && ls[ls.len() - 1].len() == 0));
            assert(l1.last() == ls[ls.len() - 2]);
            assert(ls.last() =~= Seq::<char>::empty());
            assert(l1.push(Seq::empty()) =~= ls);
        } else {
            assert(l1.push(ls.last()) =~= ls);
        }
    }
}

/// Every line of cleaned text is trimmed.
pub proof fn cleaned_lines_are_trimmed(s: Seq<char>)
    ensures
        forall|j: int|
            0 <= j < split_lines(clean_text(s)).len() ==> text::trim(#[trigger] split_lines(clean_text(s))[j])
                == split_lines(clean_text(s))[j],
{
    lemma_clean_text_joined(s);
    lemma_cleaned_lines_clean(s);
    let c = cleaned_lines(s);
    if c.len() > 0 {
        lemma_split_join(c);
        assert forall|j: int| 0 <= j < c.len() implies text::trim(#[trigger] c[j]) == c[j] by {
            lemma_trimmed_line(c[j]);
        }
    } else {
        assert(text::join(c, "\n"@) =~= Seq::<char>::empty());
        assert(split_lines(Seq::<char>::empty())[0] =~= Seq::<char>::empty());
    }
}

/// Cleaning cleaned text changes nothing.
pub proof fn cleaning_is_idempotent(s: Seq<char>)
    ensures
        clean_text(clean_text(s)) == clean_text(s),
{
    lemma_clean_text_joined(s);
    lemma_cleaned_lines_clean(s);
    let c = cleaned_lines(s);
    let t = clean_text(s);
    if c.len() > 0 {
        lemma_split_join(c);
        lemma_kept_clean_lines(c);
        lemma_clean_text_joined(t);
        assert(cleaned_lines(t) == c);
    } else {
        assert(t =~= Seq::<char>::empty());
        let ls = split_lines(t);
        assert(ls =~= seq![Seq::<char>::empty()]);
        assert(ls.drop_last() =~= Seq::<Seq<char>>::empty());
        assert(kept_lines(Seq::<Seq<char>>::empty()) == (Seq::<Seq<char>>::empty(), false));
        lemma_trimmed_line(ls.last());
        assert(kept_lines(ls).0 =~= Seq::<Seq<char>>::empty());
        assert(clean_text(t) =~= Seq::<char>::empty());
    }
}

/// The raw text of the walks in `ev` from the one starting at `g`: for each
/// walked element, the text of its children.
pub open spec fn walks_text(ev: Seq<HtmlEvent>, g: int) -> Seq<char>
    decreases ev.len() - g,
{
    if g < 0 || g >= ev.len() || ev[g] is Close {
        Seq::empty()
    } else {
        proof {
            lemma_subtree_end_bounds(ev, g);
        }
        children_text(ev, g + 1, 0) + walks_text(ev, subtree_end(ev, g))
    }
}

/// The readable text of the elements walked in `ev`.
pub open spec fn document_text(ev: Seq<HtmlEvent>) -> Seq<char> {
    clean_text(walks_text(ev, 0))
}

/// The `(name, value)` pairs of the tagged elements walked in `ev` from the
/// one starting at `g`: the element's `name` attribute (`unknown` without
/// one) and its trimmed text; elements without text are left out.
pub open spec fn tagged_values(ev: Seq<HtmlEvent>, g: int) -> Seq<(Seq<char>, Seq<char>)>
    decreases ev.len() - g,
{
    if g < 0 || g >= ev.len() || ev[g] is Close {
        Seq::empty()
    } else {
        proof {
            lemma_subtree_end_bounds(ev, g);
        }
        let name = match ev[g] {
            HtmlEvent::Element { name_attr, .. } => text::opt_or(name_attr, "unknown"@),
            _ => "unknown"@,
        };
        let value = cell_text(ev, g);
        let rest = tagged_values(ev, subtree_end(ev, g));
        if value.len() > 0 {
            seq![(name, value)] + rest
        } else {
            rest
        }
    }
}

/// The tagged values of an optional selection (none when the selector was refused).
pub open spec fn selection_values(sel: Option<Seq<HtmlEvent>>) -> Seq<(Seq<char>, Seq<char>)> {
    match sel {
        Some(ev) => tagged_values(ev, 0),
        None => Seq::empty(),
    }
}

/// An optional walk by its view.
pub open spec fn walk_view(o: Option<Vec<HtmlEvent>>) -> Option<Seq<HtmlEvent>> {
    match o {
        Some(v) => Some(v@),
        None => None,
    }
}

/// The CSS selector of the iXBRL elements that hold text.
pub open spec fn non_numeric_selector() -> Seq<char> {
    "ix\\:nonNumeric, ix\\:nonnumeric"@
}

/// The CSS selector of the iXBRL elements that hold numbers.
pub open spec fn non_fraction_selector() -> Seq<char> {
    "ix\\:nonFraction, ix\\:nonfraction"@
}

// ───────────────────────────── outside parser ─────────────────────────────

/// What `scraper` gives for `html` parsed as a document and the CSS
/// `selector`: the walks of the selected elements one after another, or
/// `None` when the selector does not parse.
pub uninterp spec fn html_selection(html: Seq<char>, selector: Seq<char>) -> Option<Seq<HtmlEvent>>;

/// What `scraper` gives for the walk of the root element of `html` parsed as a document.
pub uninterp spec fn html_root_walk(html: Seq<char>) -> Seq<HtmlEvent>;

/// `scraper::Html::parse_document` on `html`, then `Selector::parse(selector)`
/// and `Html::select`, then `traverse` of each selected element; every edge
/// of the walk becomes one event (an element keeps its local name and its
/// `name` attribute). Nothing is stated of the parse itself: the result is
/// named by `html_selection`, a function of the two arguments.
#[verifier::external_body]
fn select_walks(html: &str, selector: &str) -> (r: Option<Vec<HtmlEvent>>)
    ensures
        walk_view(r) == html_selection(html@, selector@),
{
    let sel = scraper::Selector::parse(selector).ok()?;
    let doc = scraper::Html::parse_document(html);
    let mut out = Vec::new();
    for el in doc.select(&sel) {
        for edge in el.traverse() {
            out.push(match edge {
                Edge::Close(_) => HtmlEvent::Close,
                Edge::Open(n) => match n.value() {
                    Node::Element(e) => HtmlEvent::Element { tag: e.name().to_string(), name_attr: e.attr("name").map(String::from) },
                    Node::Text(t) => HtmlEvent::Text(t.text.to_string()), _ => HtmlEvent::Other,
                },
            });
        }
    }
    Some(out)
}

/// `scraper::Html::parse_document` on `html`, then `Html::root_element` (the
/// `<html>` element, which the HTML5 tree builder always creates) and its
/// `traverse`, converted edge by edge as in `select_walks`. The result is
/// named by `html_root_walk`.
#[verifier::external_body]
fn root_walk(html: &str) -> (r: Vec<HtmlEvent>)
    ensures
        r@ == html_root_walk(html@),
{
    let doc = scraper::Html::parse_document(html);
    let mut out = Vec::new();
    for edge in doc.root_element().traverse() {
        out.push(match edge {
            Edge::Close(_) => HtmlEvent::Close,
            Edge::Open(n) => match n.value() {
                Node::Element(e) => HtmlEvent::Element { tag: e.name().to_string(), name_attr: e.attr("name").map(String::from) },
                Node::Text(t) => HtmlEvent::Text(t.text.to_string()),
                _ => HtmlEvent::Other,
            },
        });
    }
    out
}

// ───────────────────────────── executable walk ─────────────────────────────

/// Whether the event leaves a node.
fn is_close(e: &HtmlEvent) -> (r: bool)
    ensures
        r == (*e is Close),
{
    match e {
        HtmlEvent::Close => true,
        _ => false,
    }
}

/// Where the next sibling of the node entered at `c` starts.
pub fn next_sibling(ev: &Vec<HtmlEvent>, c: usize) -> (r: usize)
    requires
        c < ev.len(),
    ensures
        r as int == subtree_end(ev@, c as int),
        c < r <= ev.len(),
{
    proof {
        lemma_subtree_end_bounds(ev@, c as int);
    }
    let mut i: usize = c + 1;
    let mut open: usize = 1;
    while i < ev.len()
        invariant
            c < i <= ev.len(),
            1 <= open <= i - c,
            scan_end(ev@, i as int, open as nat) == subtree_end(ev@, c as int),
        decreases ev.len() - i,
    {
        if is_close(&ev[i]) {
            if open <= 1 {
                return i + 1;
            }
            open = open - 1;
        } else {
            open = open + 1;
        }
        i = i + 1;
    }
    i
}

/// The texts of the text nodes at positions `[lo, hi)`.
fn texts_between(ev: &Vec<HtmlEvent>, lo: usize, hi: usize) -> (r: Vec<String>)
    requires
        lo <= hi <= ev.len(),
    ensures
        r.deep_view() == texts_in(ev@, lo as int, hi as int),
{
    let mut r: Vec<String> = Vec::new();
    let mut i: usize = lo;
    while i < hi
        invariant
            lo <= i <= hi <= ev.len(),
            r.deep_view() == texts_in(ev@, lo as int, i as int),
        decreases hi - i,
    {
        match &ev[i] {
            HtmlEvent::Text(t) => {
                let ghost before = r.deep_view();
                r.push(text::owned(t.as_str()));
                assert(r.deep_view() =~= before.push(t@));
            },
            _ => {},
        }
        i = i + 1;
    }
    r
}

/// All text beneath the node entered at `p`, joined by single spaces.
pub fn collected_text(ev: &Vec<HtmlEvent>, p: usize) -> (r: String)
    requires
        p < ev.len(),
    ensures
        r@ == collect_text(ev@, p as int),
{
    let end = next_sibling(ev, p);
    let parts = texts_between(ev, p + 1, end);
    let mut r = String::new();
    proof {
        assert(text::views(parts@) =~= parts.deep_view());
    }
    text::push_joined(&mut r, &parts, " ");
    r
}

/// Positions in `[lo, hi)` where an element named `name` is entered.
fn elements_named(ev: &Vec<HtmlEvent>, lo: usize, hi: usize, name: &str) -> (r: Vec<usize>)
    requires
        lo <= hi <= ev.len(),
    ensures
        as_ints(r@) == elems_named(ev@, lo as int, hi as int, name@),
        forall|k: int| 0 <= k < r.len() ==> lo <= #[trigger] r@[k] < hi,
{
    let mut r: Vec<usize> = Vec::new();
    let mut i: usize = lo;
    while i < hi
        invariant
            lo <= i <= hi <= ev.len(),
            as_ints(r@) == elems_named(ev@, lo as int, i as int, name@),
            forall|k: int| 0 <= k < r.len() ==> lo <= #[trigger] r@[k] < i,
        decreases hi - i,
    {
        match &ev[i] {
            HtmlEvent::Element { tag, .. } => {
                if text::str_eq(tag.as_str(), name) {
                    let ghost before = r@;
                    r.push(i);
                    assert(as_ints(r@) =~= as_ints(before).push(i as int));
                }
            },
            _ => {},
        }
        i = i + 1;
    }
    r
}

/// The descendant elements named `name` of the node entered at `p`.
fn descendants(ev: &Vec<HtmlEvent>, p: usize, name: &str) -> (r: Vec<usize>)
    requires
        p < ev.len(),
    ensures
        as_ints(r@) == descendants_named(ev@, p as int, name@),
        forall|k: int| 0 <= k < r.len() ==> p < #[trigger] r@[k] < ev.len(),
{
    let end = next_sibling(ev, p);
    elements_named(ev, p + 1, end, name)
}


/// The trimmed text of the element entered at `q`.
fn cell_string(ev: &Vec<HtmlEvent>, q: usize) -> (r: String)
    requires
        q < ev.len(),
    ensures
        r@ == cell_text(ev@, q as int),
{
    let s = collected_text(ev, q);
    text::trimmed(s.as_str())
}

/// Whether the characters `v` spell `lit`.
fn spells(v: &Vec<char>, lit: &str) -> (r: bool)
    ensures
        r == (v@ == lit@),
{
    let w = text::chars_of(lit);
    if v.len() != w.len() {
        return false;
    }
    let mut i: usize = 0;
    while i < v.len()
        invariant
            v.len() == w.len(),
            w@ == lit@,
            i <= v.len(),
            forall|j: int| 0 <= j < i ==> v@[j] == w@[j],
        decreases v.len() - i,
    {
        if v[i] != w[i] {
            return false;
        }
        i = i + 1;
    }
    assert(v@ =~= w@);
    true
}

/// How the element named `tag` is rendered.
pub fn tag_kind(tag: &str) -> (k: TagKind)
    ensures
        k == kind_of_tag(tag@),
{
    let t = text::chars_of(tag);
    if spells(&t, "script") || spells(&t, "style") || spells(&t, "head") || spells(&t, "noscript") {
        TagKind::Skipped
    } else if spells(&t, "table") {
        TagKind::Table
    } else if spells(&t, "dl") {
        TagKind::DefinitionList
    } else if spells(&t, "ol") {
        TagKind::OrderedList
    } else if spells(&t, "ul") {
        TagKind::UnorderedList
    } else if spells(&t, "p") || spells(&t, "div") || spells(&t, "section") || spells(&t, "article")
        || spells(&t, "blockquote") || spells(&t, "pre") || spells(&t, "header") || spells(&t, "footer")
        || spells(&t, "main") || spells(&t, "aside") || spells(&t, "figure") || spells(&t, "figcaption")
        || spells(&t, "details") || spells(&t, "summary") {
        TagKind::Block
    } else if spells(&t, "h1") {
        TagKind::Heading1
    } else if spells(&t, "h2") {
        TagKind::Heading2
    } else if spells(&t, "h3") {
        TagKind::Heading3
    } else if spells(&t, "h4") || spells(&t, "h5") || spells(&t, "h6") {
        TagKind::MinorHeading
    } else if spells(&t, "br") {
        TagKind::LineBreak
    } else if spells(&t, "hr") {
        TagKind::Rule
    } else {
        TagKind::Inline
    }
}

/// Append `n` copies of `c`.
fn push_repeat(out: &mut String, c: char, n: usize)
    ensures
        final(out)@ == old(out)@ + repeat_char(c, n as nat),
{
    let mut i: usize = 0;
    while i < n
        invariant
            i <= n,
            out@ == old(out)@ + repeat_char(c, i as nat),
        decreases n - i,
    {
        text::push_char(out, c);
        i = i + 1;
        assert(repeat_char(c, i as nat) =~= repeat_char(c, (i - 1) as nat).push(c));
    }
}

/// Append `s` padded with spaces to `w` characters.
fn push_padded(out: &mut String, s: &str, w: usize)
    ensures
        final(out)@ == old(out)@ + pad_right(s@, w as nat),
{
    let n = text::chars_of(s).len();
    text::push_str(out, s);
    if n < w {
        push_repeat(out, ' ', w - n);
        assert(old(out)@ + s@ + repeat_char(' ', (w - n) as nat) =~= old(out)@ + (s@ + repeat_char(' ', (w - n) as nat)));
    }
}

pub proof fn lemma_max_cells(rows: Seq<Seq<Seq<char>>>, r: int)
    requires
        0 <= r < rows.len(),
    ensures
        rows[r].len() <= max_cells(rows),
    decreases rows.len(),
{
    if r < rows.len() - 1 {
        lemma_max_cells(rows.drop_last(), r);
    }
}

/// The cells of the row entered at `tr`, and whether it has header cells.
fn row_cells_of(ev: &Vec<HtmlEvent>, tr: usize) -> (r: (Vec<String>, bool))
    requires
        tr < ev.len(),
    ensures
        r.0.deep_view() == row_cells(ev@, tr as int),
        r.1 == is_header_row(ev@, tr as int),
{
    let ths = descendants(ev, tr, "th");
    let tds = descendants(ev, tr, "td");
    let ghost hs = as_ints(ths@);
    let ghost ds = as_ints(tds@);
    let mut cells: Vec<String> = Vec::new();
    let mut i: usize = 0;
    while i < ths.len()
        invariant
            i <= ths.len(),
            hs == as_ints(ths@),
            forall|k: int| 0 <= k < ths.len() ==> tr < #[trigger] ths@[k] < ev.len(),
            cells.deep_view() == cells_of(ev@, hs.take(i as int)),
        decreases ths.len() - i,
    {
        let c = cell_string(ev, ths[i]);
        let ghost before = cells.deep_view();
        cells.push(c);
        assert(cells_of(ev@, hs.take(i + 1)) =~= cells_of(ev@, hs.take(i as int)).push(cell_text(ev@, hs[i as int])));
        assert(cells.deep_view() =~= before.push(c@));
        i = i + 1;
    }
    assert(hs.take(ths.len() as int) =~= hs);
    let mut j: usize = 0;
    while j < tds.len()
        invariant
            j <= tds.len(),
            hs == as_ints(ths@),
            ds == as_ints(tds@),
            forall|k: int| 0 <= k < tds.len() ==> tr < #[trigger] tds@[k] < ev.len(),
            cells.deep_view() == cells_of(ev@, hs) + cells_of(ev@, ds.take(j as int)),
        decreases tds.len() - j,
    {
        let c = cell_string(ev, tds[j]);
        let ghost before = cells.deep_view();
        cells.push(c);
        assert(cells_of(ev@, ds.take(j + 1)) =~= cells_of(ev@, ds.take(j as int)).push(cell_text(ev@, ds[j as int])));
        assert(cells.deep_view() =~= before.push(c@));
        j = j + 1;
    }
    assert(ds.take(tds.len() as int) =~= ds);
    let header = ths.len() > 0;
    (cells, header)
}

/// The rows of a table from its `tr` elements.
fn collect_rows(ev: &Vec<HtmlEvent>, trs: &Vec<usize>) -> (r: (Vec<Vec<String>>, bool))
    requires
        forall|k: int| 0 <= k < trs.len() ==> #[trigger] trs@[k] < ev.len(),
    ensures
        (r.0.deep_view(), r.1) == table_rows(ev@, as_ints(trs@)),
{
    let ghost ts = as_ints(trs@);
    let mut rows: Vec<Vec<String>> = Vec::new();
    let mut has_header = false;
    let mut k: usize = 0;
    while k < trs.len()
        invariant
            k <= trs.len(),
            ts == as_ints(trs@),
            forall|m: int| 0 <= m < trs.len() ==> #[trigger] trs@[m] < ev.len(),
            (rows.deep_view(), has_header) == table_rows(ev@, ts.take(k as int)),
        decreases trs.len() - k,
    {
        let (cells, header) = row_cells_of(ev, trs[k]);
        proof {
            assert(ts.take(k + 1).drop_last() =~= ts.take(k as int));
            assert(ts.take(k + 1).last() == trs@[k as int] as int);
        }
        let ghost before = rows.deep_view();
        if cells.len() == 0 {
            assert(cells.deep_view().len() == 0);
        } else if header && !has_header {
            let ghost cv = cells.deep_view();
            rows.insert(0, cells);
            has_header = true;
            assert(rows.deep_view() =~= seq![cv] + before);
        } else {
            let ghost cv = cells.deep_view();
            rows.push(cells);
            assert(rows.deep_view() =~= before.push(cv));
        }
        k = k + 1;
    }
    assert(ts.take(trs.len() as int) =~= ts);
    (rows, has_header)
}

/// The column widths of `rows`, one per column.
fn column_widths(rows: &Vec<Vec<String>>) -> (w: Vec<usize>)
    ensures
        w.len() == max_cells(rows.deep_view()),
        forall|i: int| 0 <= i < w.len() ==> #[trigger] w@[i] == col_width(rows.deep_view(), i as nat),
{
    let ghost rv = rows.deep_view();
    let mut m: usize = 0;
    let mut r: usize = 0;
    while r < rows.len()
        invariant
            r <= rows.len(),
            rv == rows.deep_view(),
            m == max_cells(rv.take(r as int)),
        decreases rows.len() - r,
    {
        assert(rv.take(r + 1).drop_last() =~= rv.take(r as int));
        if rows[r].len() > m {
            m = rows[r].len();
        }
        r = r + 1;
    }
    assert(rv.take(rows.len() as int) =~= rv);
    let mut w: Vec<usize> = Vec::new();
    while w.len() < m
        invariant
            w.len() <= m,
            forall|i: int| 0 <= i < w.len() ==> #[trigger] w@[i] == 0,
        decreases m - w.len(),
    {
        w.push(0);
    }
    r = 0;
    while r < rows.len()
        invariant
            r <= rows.len(),
            rv == rows.deep_view(),
            m == max_cells(rv),
            w.len() == m,
            forall|i: int| 0 <= i < m ==> #[trigger] w@[i] == col_width(rv.take(r as int), i as nat),
        decreases rows.len() - r,
    {
        let row = &rows[r];
        proof {
            lemma_max_cells(rv, r as int);
            assert(rv.take(r + 1).drop_last() =~= rv.take(r as int));
            assert(rv.take(r + 1).last() == rv[r as int]);
        }
        let mut i: usize = 0;
        while i < row.len()
            invariant
                r < rows.len(),
                row == &rows@[r as int],
                rv == rows.deep_view(),
                i <= row.len() <= m,
                w.len() == m,
                forall|j: int| 0 <= j < i ==> #[trigger] w@[j] == col_width(rv.take(r + 1), j as nat),
                forall|j: int| i <= j < m ==> #[trigger] w@[j] == col_width(rv.take(r as int), j as nat),
                rv.take(r + 1).drop_last() == rv.take(r as int),
                rv.take(r + 1).last() == rv[r as int],
            decreases row.len() - i,
        {
            let b = text::byte_len(row[i].as_str());
            let old_w = w[i];
            let mut nw = if b > old_w { b } else { old_w };
            if nw < 3 {
                nw = 3;
            }
            w.set(i, nw);
            i = i + 1;
        }
        assert forall|j: int| 0 <= j < m implies #[trigger] w@[j] == col_width(rv.take(r + 1), j as nat) by {
            if j >= row.len() {
                assert(col_width(rv.take(r + 1), j as nat) == col_width(rv.take(r as int), j as nat));
            }
        }
        r = r + 1;
    }
    assert(rv.take(rows.len() as int) =~= rv);
    w
}

/// Append the line of row `k` of `rows`.
fn push_row_line(out: &mut String, rows: &Vec<Vec<String>>, k: usize, widths: &Vec<usize>)
    requires
        k < rows.len(),
        widths.len() == max_cells(rows.deep_view()),
        forall|i: int| 0 <= i < widths.len() ==> #[trigger] widths@[i] == col_width(rows.deep_view(), i as nat),
    ensures
        final(out)@ == old(out)@ + row_line(rows.deep_view(), rows.deep_view()[k as int]),
{
    let ghost rv = rows.deep_view();
    let row = &rows[k];
    let ghost rowv = rv[k as int];
    assert(row.deep_view() == rowv);
    text::push_str(out, "| ");
    let ghost start = out@;
    let mut i: usize = 0;
    while i < widths.len()
        invariant
            i <= widths.len(),
            rv == rows.deep_view(),
            row.deep_view() == rowv,
            widths.len() == max_cells(rv),
            forall|j: int| 0 <= j < widths.len() ==> #[trigger] widths@[j] == col_width(rv, j as nat),
            out@ == start + row_segments(rv, rowv, i as nat),
        decreases widths.len() - i,
    {
        let ghost before = out@;
        if i < row.len() {
            push_padded(out, row[i].as_str(), widths[i]);
        } else {
            push_padded(out, "", widths[i]);
        }
        text::push_str(out, " | ");
        i = i + 1;
        proof {
            let cell = if ((i - 1) as nat) < rowv.len() { rowv[i - 1] } else { Seq::empty() };
            if ((i - 1) as nat) >= rowv.len() {
                assert(""@.len() == 0) by {
                    reveal_strlit("");
                }
                assert(""@ =~= Seq::<char>::empty());
            }
            assert(out@ =~= start + (row_segments(rv, rowv, (i - 1) as nat) + pad_right(cell, col_width(rv, (i - 1) as nat)) + " | "@));
        }
    }
    text::push_char(out, '\n');
    assert(out@ =~= old(out)@ + row_line(rv, rowv));
}

/// Append the rule under a header row.
fn push_rule_line(out: &mut String, rows: &Vec<Vec<String>>, widths: &Vec<usize>)
    requires
        widths.len() == max_cells(rows.deep_view()),
        forall|i: int| 0 <= i < widths.len() ==> #[trigger] widths@[i] == col_width(rows.deep_view(), i as nat),
    ensures
        final(out)@ == old(out)@ + rule_line(rows.deep_view()),
{
    let ghost rv = rows.deep_view();
    text::push_str(out, "| ");
    let ghost start = out@;
    let mut i: usize = 0;
    while i < widths.len()
        invariant
            i <= widths.len(),
            rv == rows.deep_view(),
            widths.len() == max_cells(rv),
            forall|j: int| 0 <= j < widths.len() ==> #[trigger] widths@[j] == col_width(rv, j as nat),
            out@ == start + rule_segments(rv, i as nat),
        decreases widths.len() - i,
    {
        push_repeat(out, '-', widths[i]);
        text::push_str(out, " | ");
        i = i + 1;
        assert(out@ =~= start + (rule_segments(rv, (i - 1) as nat) + repeat_char('-', col_width(rv, (i - 1) as nat)) + " | "@));
    }
    text::push_char(out, '\n');
    assert(out@ =~= old(out)@ + rule_line(rv));
}

/// Append the table entered at `p`.
fn push_table(out: &mut String, ev: &Vec<HtmlEvent>, p: usize)
    requires
        p < ev.len(),
    ensures
        final(out)@ == old(out)@ + table_text(ev@, p as int),
{
    let caps = descendants(ev, p, "caption");
    if caps.len() > 0 {
        let ct = cell_string(ev, caps[0]);
        if !ct.as_str().is_empty() {
            text::push_str(out, "[Table: ");
            text::push_str(out, ct.as_str());
            text::push_str(out, "]");
            text::push_char(out, '\n');
        }
    }
    assert(out@ =~= old(out)@ + caption_line(ev@, p as int));
    let ghost after_caption = out@;
    let trs = descendants(ev, p, "tr");
    let (rows, has_header) = collect_rows(ev, &trs);
    let ghost rv = rows.deep_view();
    let widths = column_widths(&rows);
    let mut k: usize = 0;
    while k < rows.len()
        invariant
            k <= rows.len(),
            rv == rows.deep_view(),
            widths.len() == max_cells(rv),
            forall|i: int| 0 <= i < widths.len() ==> #[trigger] widths@[i] == col_width(rv, i as nat),
            out@ == after_caption + table_lines(rv, has_header, k as nat),
        decreases rows.len() - k,
    {
        let ghost before = out@;
        push_row_line(out, &rows, k, &widths);
        if k == 0 && has_header {
            push_rule_line(out, &rows, &widths);
        }
        k = k + 1;
        proof {
            let extra = if (k - 1) as nat == 0 && has_header { rule_line(rv) } else { Seq::empty() };
            assert(out@ =~= after_caption + (table_lines(rv, has_header, (k - 1) as nat) + row_line(rv, rv[k - 1]) + extra));
        }
    }
    assert(out@ =~= old(out)@ + table_text(ev@, p as int));
}

/// Append one definition-list line.
fn push_dl_entry(out: &mut String, term: &String, def: &String)
    ensures
        final(out)@ == old(out)@ + dl_entry(term@, def@),
{
    let has_term = !term.as_str().is_empty();
    let has_def = !def.as_str().is_empty();
    if has_term && has_def {
        text::push_str(out, term.as_str());
        text::push_str(out, ": ");
        text::push_str(out, def.as_str());
        text::push_char(out, '\n');
    } else if has_term {
        text::push_str(out, term.as_str());
        text::push_str(out, ":");
        text::push_char(out, '\n');
    } else if has_def {
        text::push_str(out, "  ");
        text::push_str(out, def.as_str());
        text::push_char(out, '\n');
    }
    assert(out@ =~= old(out)@ + dl_entry(term@, def@));
}

/// Append the definition list entered at `p`.
fn push_dl(out: &mut String, ev: &Vec<HtmlEvent>, p: usize)
    requires
        p < ev.len(),
    ensures
        final(out)@ == old(out)@ + dl_text(ev@, p as int),
{
    let dts = descendants(ev, p, "dt");
    let dds = descendants(ev, p, "dd");
    let ghost ts = as_ints(dts@);
    let ghost ds = as_ints(dds@);
    let n = if dts.len() > dds.len() { dts.len() } else { dds.len() };
    let mut i: usize = 0;
    while i < n
        invariant
            i <= n,
            n == (if dts.len() > dds.len() { dts.len() } else { dds.len() }),
            ts == as_ints(dts@),
            ds == as_ints(dds@),
            forall|k: int| 0 <= k < dts.len() ==> p < #[trigger] dts@[k] < ev.len(),
            forall|k: int| 0 <= k < dds.len() ==> p < #[trigger] dds@[k] < ev.len(),
            out@ == old(out)@ + dl_lines(ev@, ts, ds, i as nat),
        decreases n - i,
    {
        let term = if i < dts.len() { cell_string(ev, dts[i]) } else { String::new() };
        let def = if i < dds.len() { cell_string(ev, dds[i]) } else { String::new() };
        assert(term@ == nth_cell(ev@, ts, i as int));
        assert(def@ == nth_cell(ev@, ds, i as int));
        push_dl_entry(out, &term, &def);
        i = i + 1;
        assert(out@ =~= old(out)@ + (dl_lines(ev@, ts, ds, (i - 1) as nat) + dl_entry(nth_cell(ev@, ts, i - 1), nth_cell(ev@, ds, i - 1))));
    }
}

/// Append the list entered at `p`, numbered when `ordered`.
fn push_list(out: &mut String, ev: &Vec<HtmlEvent>, p: usize, depth: usize, ordered: bool)
    requires
        p < ev.len(),
    ensures
        final(out)@ == old(out)@ + list_text(ev@, p as int, depth as nat, ordered),
{
    let lis = descendants(ev, p, "li");
    let ghost ls = as_ints(lis@);
    let mut indent = String::new();
    push_repeat(&mut indent, ' ', depth);
    push_repeat(&mut indent, ' ', depth);
    assert(indent@ =~= repeat_char(' ', 2 * (depth as nat)));
    let mut k: usize = 0;
    while k < lis.len()
        invariant
            k <= lis.len(),
            ls == as_ints(lis@),
            indent@ == repeat_char(' ', 2 * (depth as nat)),
            forall|m: int| 0 <= m < lis.len() ==> p < #[trigger] lis@[m] < ev.len(),
            out@ == old(out)@ + list_lines(ev@, ls, indent@, ordered, k as nat),
        decreases lis.len() - k,
    {
        let item = cell_string(ev, lis[k]);
        let ghost before = out@;
        if !item.as_str().is_empty() {
            text::push_str(out, indent.as_str());
            if ordered {
                text::push_dec(out, (k + 1) as u64);
                text::push_str(out, ". ");
            } else {
                text::push_str(out, "• ");
            }
            text::push_str(out, item.as_str());
            text::push_char(out, '\n');
        }
        k = k + 1;
        assert(out@ =~= old(out)@ + (list_lines(ev@, ls, indent@, ordered, (k - 1) as nat)
            + list_item(indent@, ordered, (k - 1) as nat, cell_text(ev@, ls[k - 1]))));
    }
}

/// Append the text of the children of a node, starting with the child entered at `c`.
fn push_children(out: &mut String, ev: &Vec<HtmlEvent>, c: usize, depth: usize)
    requires
        c <= ev.len(),
    ensures
        final(out)@ == old(out)@ + children_text(ev@, c as int, depth as nat),
    decreases ev.len() - c, 1int,
{
    let mut i: usize = c;
    while i < ev.len() && !is_close(&ev[i])
        invariant
            c <= i <= ev.len(),
            out@ + children_text(ev@, i as int, depth as nat) == old(out)@ + children_text(ev@, c as int, depth as nat),
        decreases ev.len() - i,
    {
        let ghost before = out@;
        push_node(out, ev, i, depth);
        let next = next_sibling(ev, i);
        proof {
            lemma_subtree_end_bounds(ev@, i as int);
            assert(children_text(ev@, i as int, depth as nat)
                == node_out(ev@, i as int, depth as nat) + children_text(ev@, next as int, depth as nat));
            assert(out@ + children_text(ev@, next as int, depth as nat)
                =~= before + (node_out(ev@, i as int, depth as nat) + children_text(ev@, next as int, depth as nat)));
        }
        i = next;
    }
    assert(children_text(ev@, i as int, depth as nat) =~= Seq::<char>::empty());
    assert(out@ =~= out@ + children_text(ev@, i as int, depth as nat));
}

/// Append the text of the node entered at `c`.
fn push_node(out: &mut String, ev: &Vec<HtmlEvent>, c: usize, depth: usize)
    requires
        c < ev.len(),
    ensures
        final(out)@ == old(out)@ + node_out(ev@, c as int, depth as nat),
    decreases ev.len() - c, 0int,
{
    match &ev[c] {
        HtmlEvent::Text(t) => {
            let s = text::trimmed(t.as_str());
            if !s.as_str().is_empty() {
                text::push_str(out, s.as_str());
                text::push_char(out, ' ');
                assert(out@ =~= old(out)@ + s@.push(' '));
            } else {
                assert(out@ =~= old(out)@ + Seq::<char>::empty());
            }
        },
        HtmlEvent::Element { tag, .. } => {
            let kind = tag_kind(tag.as_str());
            match kind {
                TagKind::Skipped => {
                    assert(out@ =~= old(out)@ + Seq::<char>::empty());
                },
                TagKind::Table => {
                    text::push_char(out, '\n');
                    push_table(out, ev, c);
                    text::push_char(out, '\n');
                    assert(out@ =~= old(out)@ + (newline() + table_text(ev@, c as int) + newline()));
                },
                TagKind::DefinitionList => {
                    text::push_char(out, '\n');
                    push_dl(out, ev, c);
                    text::push_char(out, '\n');
                    assert(out@ =~= old(out)@ + (newline() + dl_text(ev@, c as int) + newline()));
                },
                TagKind::OrderedList => {
                    text::push_char(out, '\n');
                    push_list(out, ev, c, depth, true);
                    text::push_char(out, '\n');
                    assert(out@ =~= old(out)@ + (newline() + list_text(ev@, c as int, depth as nat, true) + newline()));
                },
                TagKind::UnorderedList => {
                    text::push_char(out, '\n');
                    push_list(out, ev, c, depth, false);
                    text::push_char(out, '\n');
                    assert(out@ =~= old(out)@ + (newline() + list_text(ev@, c as int, depth as nat, false) + newline()));
                },
                TagKind::Block => {
                    text::push_char(out, '\n');
                    push_children(out, ev, c + 1, depth);
                    text::push_char(out, '\n');
                    assert(out@ =~= old(out)@ + (newline() + children_text(ev@, c + 1, depth as nat) + newline()));
                },
                TagKind::Heading1 => {
                    text::push_str(out, "\n═══ ");
                    text::push_str(out, collected_text(ev, c).as_str());
                    text::push_str(out, " ═══\n");
                    assert(out@ =~= old(out)@ + ("\n═══ "@ + collect_text(ev@, c as int) + " ═══\n"@));
                },
                TagKind::Heading2 => {
                    text::push_str(out, "\n─── ");
                    text::push_str(out, collected_text(ev, c).as_str());
                    text::push_str(out, " ───\n");
                    assert(out@ =~= old(out)@ + ("\n─── "@ + collect_text(ev@, c as int) + " ───\n"@));
                },
                TagKind::Heading3 => {
                    text::push_str(out, "\n── ");
                    text::push_str(out, collected_text(ev, c).as_str());
                    text::push_str(out, " ──\n");
                    assert(out@ =~= old(out)@ + ("\n── "@ + collect_text(ev@, c as int) + " ──\n"@));
                },
                TagKind::MinorHeading => {
                    text::push_str(out, "\n— ");
                    text::push_str(out, collected_text(ev, c).as_str());
                    text::push_str(out, " —\n");
                    assert(out@ =~= old(out)@ + ("\n— "@ + collect_text(ev@, c as int) + " —\n"@));
                },
                TagKind::LineBreak => {
                    text::push_char(out, '\n');
                    assert(out@ =~= old(out)@ + newline());
                },
                TagKind::Rule => {
                    text::push_str(out, "\n────────────────────\n");
                },
                TagKind::Inline => {
                    push_children(out, ev, c + 1, depth);
                },
            }
        },
        _ => {
            assert(out@ =~= old(out)@ + Seq::<char>::empty());
        },
    }
}

/// Keep (or drop) one line of the text being cleaned.
fn keep_line(kept: &mut Vec<String>, blank: &mut bool, v: &Vec<char>, from: usize, to: usize)
    requires
        from <= to <= v.len(),
    ensures
        ({
            let (k, b) = kept_lines(seq![v@.subrange(from as int, to as int)]);
            let line = text::trim(v@.subrange(from as int, to as int));
            &&& line.len() == 0 ==> (if !*old(blank) && old(kept)@.len() > 0 {
                final(kept).deep_view() == old(kept).deep_view().push(Seq::empty()) && *final(blank)
            } else {
                final(kept).deep_view() == old(kept).deep_view() && *final(blank) == *old(blank)
            })
            &&& line.len() > 0 ==> (final(kept).deep_view() == old(kept).deep_view().push(line) && !*final(blank))
        }),
{
    let (a, b) = text::trim_bounds_in(v, from, to);
    if a == b {
        if !*blank && kept.len() > 0 {
            let ghost before = kept.deep_view();
            kept.push(String::new());
            *blank = true;
            assert(kept.deep_view() =~= before.push(Seq::empty()));
        }
    } else {
        let ghost before = kept.deep_view();
        let line = text::string_of(v, a, b);
        kept.push(line);
        *blank = false;
        assert(kept.deep_view() =~= before.push(text::trim(v@.subrange(from as int, to as int))));
    }
}

/// Clean extracted text: trim every line, collapse runs of blank lines into
/// one, drop leading blank lines, and trim the whole.
pub fn clean_extracted_text(s: &str) -> (r: String)
    ensures
        r@ == clean_text(s@),
{
    let v = text::chars_of(s);
    let mut kept: Vec<String> = Vec::new();
    let mut blank = false;
    let mut start: usize = 0;
    let mut i: usize = 0;
    proof {
        assert(v@.take(0) =~= Seq::<char>::empty());
        assert(v@.subrange(0, 0) =~= Seq::<char>::empty());
    }
    while i < v.len()
        invariant
            start <= i <= v.len(),
            v@ == s@,
            split_lines(v@.take(i as int)).len() >= 1,
            split_lines(v@.take(i as int)).last() == v@.subrange(start as int, i as int),
            (kept.deep_view(), blank) == kept_lines(split_lines(v@.take(i as int)).drop_last()),
        decreases v.len() - i,
    {
        let ghost lines = split_lines(v@.take(i as int));
        proof {
            assert(v@.take(i + 1).drop_last() =~= v@.take(i as int));
            assert(v@.take(i + 1).last() == v@[i as int]);
        }
        if v[i] == '\n' {
            keep_line(&mut kept, &mut blank, &v, start, i);
            proof {
                let nl = split_lines(v@.take(i + 1));
                assert(nl =~= lines.push(Seq::empty()));
                assert(nl.drop_last() =~= lines);
                assert(lines.drop_last().push(lines.last()) =~= lines);
            }
            start = i + 1;
            assert(v@.subrange(start as int, (i + 1) as int) =~= Seq::<char>::empty());
        } else {
            proof {
                let nl = split_lines(v@.take(i + 1));
                assert(nl.drop_last() =~= lines.drop_last());
                assert(v@.subrange(start as int, i + 1) =~= v@.subrange(start as int, i as int).push(v@[i as int]));
            }
        }
        i = i + 1;
    }
    keep_line(&mut kept, &mut blank, &v, start, i);
    proof {
        let lines = split_lines(v@.take(i as int));
        assert(v@.take(i as int) =~= v@);
        assert(lines.drop_last().push(lines.last()) =~= lines);
    }
    let mut joined = String::new();
    proof {
        assert(text::views(kept@) =~= kept.deep_view());
    }
    text::push_joined(&mut joined, &kept, "\n");
    text::trimmed(joined.as_str())
}

/// The readable text of the elements walked in `ev`: the text of each walked
/// element's children, cleaned.
pub fn render_document(ev: &Vec<HtmlEvent>) -> (r: String)
    ensures
        r@ == document_text(ev@),
{
    let mut raw = String::new();
    let mut g: usize = 0;
    while g < ev.len() && !is_close(&ev[g])
        invariant
            g <= ev.len(),
            raw@ + walks_text(ev@, g as int) == walks_text(ev@, 0),
        decreases ev.len() - g,
    {
        let ghost before = raw@;
        push_children(&mut raw, ev, g + 1, 0);
        let next = next_sibling(ev, g);
        proof {
            lemma_subtree_end_bounds(ev@, g as int);
            assert(raw@ + walks_text(ev@, next as int)
                =~= before + (children_text(ev@, g + 1, 0) + walks_text(ev@, next as int)));
        }
        g = next;
    }
    assert(raw@ =~= raw@ + walks_text(ev@, g as int));
    clean_extracted_text(raw.as_str())
}

/// The `(name, value)` pairs of the tagged elements walked in `ev`.
pub fn tagged_values_of(ev: &Vec<HtmlEvent>) -> (r: Vec<(String, String)>)
    ensures
        r.deep_view() == tagged_values(ev@, 0),
{
    let mut r: Vec<(String, String)> = Vec::new();
    let mut g: usize = 0;
    while g < ev.len() && !is_close(&ev[g])
        invariant
            g <= ev.len(),
            r.deep_view() + tagged_values(ev@, g as int) == tagged_values(ev@, 0),
        decreases ev.len() - g,
    {
        let name = match &ev[g] {
            HtmlEvent::Element { name_attr, .. } => {
                let mut n = String::new();
                text::push_opt_or(&mut n, name_attr, "unknown");
                n
            },
            _ => text::owned("unknown"),
        };
        let value = cell_string(ev, g);
        let next = next_sibling(ev, g);
        proof {
            lemma_subtree_end_bounds(ev@, g as int);
        }
        let ghost before = r.deep_view();
        if !value.as_str().is_empty() {
            let ghost pair = (name@, value@);
            r.push((name, value));
            assert(r.deep_view() =~= before.push(pair));
            assert(r.deep_view() + tagged_values(ev@, next as int)
                =~= before + (seq![pair] + tagged_values(ev@, next as int)));
        }
        g = next;
    }
    assert(r.deep_view() =~= r.deep_view() + tagged_values(ev@, g as int));
    r
}

/// Extract readable text from an XHTML/HTML document: the content of each
/// `<body>` (or of the root element when there is none), with tables, lists,
/// definition lists and headings laid out, scripts and styles dropped, and
/// whitespace cleaned.
pub fn extract_text_from_xhtml(xhtml: &str) -> (r: String)
    ensures
        r@ == (match html_selection(xhtml@, "body"@) {
            Some(ev) if ev.len() > 0 => document_text(ev),
            _ => document_text(html_root_walk(xhtml@)),
        }),
{
    let bodies = select_walks(xhtml, "body");
    match bodies {
        Some(ev) => {
            if ev.len() > 0 {
                return render_document(&ev);
            }
        },
        None => {},
    }
    let root = root_walk(xhtml);
    render_document(&root)
}

/// The `(name, value)` pairs of an optional selection.
pub fn selection_values_of(sel: &Option<Vec<HtmlEvent>>) -> (r: Vec<(String, String)>)
    ensures
        r.deep_view() == selection_values(walk_view(*sel)),
{
    match sel {
        Some(ev) => tagged_values_of(ev),
        None => Vec::new(),
    }
}

/// The values tagged in an iXBRL document: first every `ix:nonNumeric`
/// element (text), then every `ix:nonFraction` element (numbers), each as its
/// `name` attribute (`unknown` without one) and its trimmed text; elements
/// without text are left out.
pub fn extract_ixbrl_values(xhtml: &str) -> (r: Vec<(String, String)>)
    ensures
        r.deep_view() == selection_values(html_selection(xhtml@, non_numeric_selector()))
            + selection_values(html_selection(xhtml@, non_fraction_selector())),
{
    let text_sel = select_walks(xhtml, "ix\\:nonNumeric, ix\\:nonnumeric");
    let mut r = selection_values_of(&text_sel);
    let num_sel = select_walks(xhtml, "ix\\:nonFraction, ix\\:nonfraction");
    let mut more = selection_values_of(&num_sel);
    let ghost a = r.deep_view();
    let ghost b = more.deep_view();
    r.append(&mut more);
    assert(r.deep_view() =~= a + b);
    r
}

} // verus!
