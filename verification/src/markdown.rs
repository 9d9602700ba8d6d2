//! Dissecting and sanitizing the markdown text that hover answers carry.
//!
//! The pattern matching (fenced code, inline code, links, emphasis, list
//! markers, table rows, declaration signatures) is done by the regex
//! library behind named results; everything assembled from those results
//! — line classification, table grouping, cell splitting — and all the
//! escaping helpers are verified character-level code.

use vstd::prelude::*;

use crate::text::{
    chars_of, join_spec, join_with, lines_spec, matches_at, remove_all,
    remove_all_spec, split_lines, split_on, split_spec, starts_with_at, string_from_chars,
    subvec_chars, trim_chars, trim_spec,
};

verus! {

/// The raw inner texts (the second capture) of the fenced code blocks
/// of a document, in order, as matched.
pub uninterp spec fn code_block_caps_of(s: Seq<char>) -> Seq<Seq<char>>;

/// The inner texts of the fenced code blocks of a document, in order,
/// each trimmed of ASCII whitespace.
pub open spec fn code_blocks_of(s: Seq<char>) -> Seq<Seq<char>> {
    code_block_caps_of(s).map_values(|b: Seq<char>| trim_spec(b))
}

/// The inner texts of the inline code spans of a document, in order.
pub uninterp spec fn inline_code_of(s: Seq<char>) -> Seq<Seq<char>>;

/// The text/target pairs of the links of a document, in order.
pub uninterp spec fn links_of(s: Seq<char>) -> Seq<(Seq<char>, Seq<char>)>;

/// The inner texts of the bold spans of a document, in order.
pub uninterp spec fn emphasized_of(s: Seq<char>) -> Seq<Seq<char>>;

/// The inner texts of the italic spans of a document, in order.
pub uninterp spec fn italic_of(s: Seq<char>) -> Seq<Seq<char>>;

/// The item text of a line that is a list entry, if it is one.
pub uninterp spec fn list_item_of(line: Seq<char>) -> Option<Seq<char>>;

/// Whether a line has the shape of a table row: a pipe, one or more
/// cells of at least one non-pipe character each, each closed by a pipe.
pub open spec fn is_table_row(line: Seq<char>) -> bool {
    &&& line.len() >= 3
    &&& line[0] == '|'
    &&& line.last() == '|'
    &&& forall|i: int| 0 <= i < line.len() - 1 ==> !((#[trigger] line[i]) == '|' && line[i + 1] == '|')
}

/// Whether a line has the shape of a table separator row.
pub uninterp spec fn is_table_separator(line: Seq<char>) -> bool;

/// The text of a heading that the whole document consists of, if it does.
pub uninterp spec fn title_of(s: Seq<char>) -> Option<Seq<char>>;

/// The declaration-shaped fragments of a document, in pattern order.
pub uninterp spec fn signature_matches_of(s: Seq<char>) -> Seq<Seq<char>>;

/// Whether a line matches one of the declaration patterns.
pub uninterp spec fn is_signature_line(line: Seq<char>) -> bool;

/// The declared name inside a declaration-shaped fragment, if one of the
/// patterns captures it.
pub uninterp spec fn signature_name_of(sig: Seq<char>) -> Option<Seq<char>>;

/// Relies on `regex::Regex::captures_iter` with the fenced-code pattern
/// ``` ```(\w+)?\n?([\s\S]*?)``` ```: the second capture of each match,
/// as matched.
#[verifier::external_body]
fn regex_code_blocks(content: &str) -> (r: Vec<String>)
    ensures
        r.deep_view() == code_block_caps_of(content@),
{
    let re = regex::Regex::new(r"```(\w+)?\n?([\s\S]*?)```").unwrap();
    re.captures_iter(content).filter_map(
        |c| c.get(2).map(|m| m.as_str().to_string()),
    ).collect()
}

/// Relies on `regex::Regex::captures_iter` with the inline-code pattern
/// `` `([^`]+)` ``: the first capture of each match.
#[verifier::external_body]
fn regex_inline_code(content: &str) -> (r: Vec<String>)
    ensures
        r.deep_view() == inline_code_of(content@),
{
    let re = regex::Regex::new(r"`([^`]+)`").unwrap();
    re.captures_iter(content).filter_map(|c| c.get(1).map(|m| m.as_str().to_string())).collect()
}

/// Relies on `regex::Regex::captures_iter` with the link pattern
/// `\[([^\]]+)\]\(([^)]+)\)`: the two captures of each match.
#[verifier::external_body]
fn regex_links(content: &str) -> (r: Vec<(String, String)>)
    ensures
        r@.len() == links_of(content@).len(),
        forall|i: int|
            0 <= i < r@.len() ==> (#[trigger] r@[i]).0@ == links_of(content@)[i].0 && r@[i].1@
                == links_of(content@)[i].1,
{
    let re = regex::Regex::new(r"\[([^\]]+)\]\(([^)]+)\)").unwrap();
    re.captures_iter(content).filter_map(
        |c| match (c.get(1), c.get(2)) {
            (Some(t), Some(u)) => Some((t.as_str().to_string(), u.as_str().to_string())),
            _ => None,
        },
    ).collect()
}

/// Relies on `regex::Regex::captures_iter` with the bold pattern
/// `\*\*(.*?)\*\*|__(.*?)__`: the first present capture of each match.
#[verifier::external_body]
fn regex_emphasized(content: &str) -> (r: Vec<String>)
    ensures
        r.deep_view() == emphasized_of(content@),
{
    let re = regex::Regex::new(r"\*\*(.*?)\*\*|__(.*?)__").unwrap();
    re.captures_iter(content).filter_map(
        |c| c.get(1).or_else(|| c.get(2)).map(|m| m.as_str().to_string()),
    ).collect()
}

/// Relies on `regex::Regex::captures_iter` with the italic pattern
/// `\*([^*]+)\*`: the first capture of each match.
#[verifier::external_body]
fn regex_italic(content: &str) -> (r: Vec<String>)
    ensures
        r.deep_view() == italic_of(content@),
{
    let re = regex::Regex::new(r"\*([^*]+)\*").unwrap();
    re.captures_iter(content).filter_map(|c| c.get(1).map(|m| m.as_str().to_string())).collect()
}

/// Relies on `regex::Regex::captures` with the list pattern
/// `^(\s*)([-*+]|\d+\.)\s+(.*)$`: the third capture, when the line is a
/// list entry.
#[verifier::external_body]
fn regex_list_item(line: &str) -> (r: Option<String>)
    ensures
        match r {
            Some(t) => list_item_of(line@) == Some(t@),
            None => list_item_of(line@) is None,
        },
{
    let re = regex::Regex::new(r"^(\s*)([-*+]|\d+\.)\s+(.*)$").unwrap();
    re.captures(line).and_then(|c| c.get(3).map(|m| m.as_str().to_string()))
}

/// Relies on `regex::Regex::is_match` with the table-row pattern
/// `^\|(?:[^|]+\|)+$`: a match is exactly a line of the shape
/// [`is_table_row`] describes.
#[verifier::external_body]
fn regex_is_table_row(line: &str) -> (r: bool)
    ensures
        r == is_table_row(line@),
{
    let re = regex::Regex::new(r"^\|(?:[^|]+\|)+$").unwrap();
    re.is_match(line)
}

/// Relies on `regex::Regex::is_match` with the table-separator pattern
/// `^\|?(\s*:?-+:?\s*\|)+\s*$`.
#[verifier::external_body]
fn regex_is_table_separator(line: &str) -> (r: bool)
    ensures
        r == is_table_separator(line@),
{
    let re = regex::Regex::new(r"^\|?(\s*:?-+:?\s*\|)+\s*$").unwrap();
    re.is_match(line)
}

/// Relies on `regex::Regex::captures` with the heading pattern
/// `^(#{1,6})\s+(.*)$`: the second capture.
#[verifier::external_body]
fn regex_title(content: &str) -> (r: Option<String>)
    ensures
        match r {
            Some(t) => title_of(content@) == Some(t@),
            None => title_of(content@) is None,
        },
{
    let re = regex::Regex::new(r"^(#{1,6})\s+(.*)$").unwrap();
    re.captures(content).and_then(|c| c.get(2).map(|m| m.as_str().to_string()))
}

/// Relies on `regex::Regex::captures_iter` with the five declaration
/// patterns (Rust functions, structs, enums, bindings, and
/// JavaScript-style functions), applied in that order: the whole text of
/// each match.
#[verifier::external_body]
fn regex_signatures(content: &str) -> (r: Vec<String>)
    ensures
        r.deep_view() == signature_matches_of(content@),
{
    let patterns = [
        r"\b(pub\s+)?fn\s+(\w+)\s*\((.*?)\)(\s*->\s*[^{]+)?",
        r"\b(pub\s+)?struct\s+(\w+)\s*[<{]?",
        r"\b(pub\s+)?enum\s+(\w+)\s*[<{]?",
        r"\b(const|let)\s+(\w+)\s*:?\s*([^=]+)?=?",
        r"\b(function|var|const|let)\s+(\w+)\s*\((.*?)\)(\s*:\s*[^{]+)?",
    ];
    patterns.iter().flat_map(
        |p| {
            let re = regex::Regex::new(p).unwrap();
            re.captures_iter(content).filter_map(|c| c.get(0).map(|m| m.as_str().to_string()))
                .collect::<Vec<String>>()
        },
    ).collect()
}

/// Relies on `regex::Regex::is_match` with the five declaration patterns:
/// whether any of them matches the line.
#[verifier::external_body]
fn regex_is_signature_line(line: &str) -> (r: bool)
    ensures
        r == is_signature_line(line@),
{
    let patterns = [
        r"\b(pub\s+)?fn\s+(\w+)\s*\((.*?)\)(\s*->\s*[^{]+)?",
        r"\b(pub\s+)?struct\s+(\w+)\s*[<{]?",
        r"\b(pub\s+)?enum\s+(\w+)\s*[<{]?",
        r"\b(const|let)\s+(\w+)\s*:?\s*([^=]+)?=?",
        r"\b(function|var|const|let)\s+(\w+)\s*\((.*?)\)(\s*:\s*[^{]+)?",
    ];
    patterns.iter().any(|p| regex::Regex::new(p).unwrap().is_match(line))
}

/// Relies on `regex::Regex::captures` with the five declaration patterns:
/// the second capture of the first pattern that captures the line.
#[verifier::external_body]
pub(crate) fn regex_signature_name(sig: &str) -> (r: Option<String>)
    ensures
        match r {
            Some(t) => signature_name_of(sig@) == Some(t@),
            None => signature_name_of(sig@) is None,
        },
{
    let patterns = [
        r"\b(pub\s+)?fn\s+(\w+)\s*\((.*?)\)(\s*->\s*[^{]+)?",
        r"\b(pub\s+)?struct\s+(\w+)\s*[<{]?",
        r"\b(pub\s+)?enum\s+(\w+)\s*[<{]?",
        r"\b(const|let)\s+(\w+)\s*:?\s*([^=]+)?=?",
        r"\b(function|var|const|let)\s+(\w+)\s*\((.*?)\)(\s*:\s*[^{]+)?",
    ];
    patterns.iter().find_map(
        |p| {
            regex::Regex::new(p).unwrap().captures(sig).and_then(
                |c| c.get(2).map(|m| m.as_str().to_string()),
            )
        },
    )
}

/// The dissected parts of one markdown document.
#[derive(Debug)]
pub struct MarkdownSections {
    /// The heading text, when the document is a heading.
    pub title: Option<String>,
    /// The declaration-shaped fragments, in pattern order.
    pub signatures: Vec<String>,
    /// The prose lines: trimmed, outside code fences and tables, and not
    /// declaration-shaped.
    pub documentation_lines: Vec<String>,
    /// The fenced code blocks, trimmed.
    pub code_blocks: Vec<String>,
    /// The inline code spans.
    pub inline_code: Vec<String>,
    /// The links, as text/target pairs.
    pub links: Vec<(String, String)>,
    /// The bold spans.
    pub emphasized_text: Vec<String>,
    /// The italic spans.
    pub italic_text: Vec<String>,
    /// The list entries, each with its nesting depth.
    pub list_items: Vec<(u32, String)>,
    /// The tables, each a sequence of rows of cell texts.
    pub tables: Vec<Vec<Vec<String>>>,
}

impl MarkdownSections {
    /// An empty dissection.
    pub fn new() -> (r: MarkdownSections)
        ensures
            r.title is None,
            r.signatures@.len() == 0,
            r.documentation_lines@.len() == 0,
            r.code_blocks@.len() == 0,
            r.inline_code@.len() == 0,
            r.links@.len() == 0,
            r.emphasized_text@.len() == 0,
            r.italic_text@.len() == 0,
            r.list_items@.len() == 0,
            r.tables@.len() == 0,
    {
        MarkdownSections {
            title: None,
            signatures: Vec::new(),
            documentation_lines: Vec::new(),
            code_blocks: Vec::new(),
            inline_code: Vec::new(),
            links: Vec::new(),
            emphasized_text: Vec::new(),
            italic_text: Vec::new(),
            list_items: Vec::new(),
            tables: Vec::new(),
        }
    }
}

/// What part of a document a fragment belongs to.
#[derive(Debug, PartialEq, Clone, Copy)]
pub enum Section {
    /// A heading.
    Title,
    /// A declaration-shaped fragment.
    Signature,
    /// Prose.
    Documentation,
    /// A fenced code block.
    CodeBlock,
    /// None of the above.
    Unknown,
}

/// The list-entry texts of the lines from `i` on.
pub open spec fn list_items_spec(lines: Seq<Seq<char>>, i: int) -> Seq<Seq<char>>
    decreases lines.len() - i,
{
    if i < 0 || i >= lines.len() {
        Seq::<Seq<char>>::empty()
    } else {
        (match list_item_of(lines[i]) {
            Some(t) => seq![t],
            None => Seq::<Seq<char>>::empty(),
        }) + list_items_spec(lines, i + 1)
    }
}

/// The sequence with its leading occurrences of `c` dropped.
pub open spec fn strip_leading(s: Seq<char>, c: char) -> Seq<char>
    decreases s.len(),
{
    if s.len() > 0 && s[0] == c {
        strip_leading(s.drop_first(), c)
    } else {
        s
    }
}

/// The sequence with its trailing occurrences of `c` dropped.
pub open spec fn strip_trailing(s: Seq<char>, c: char) -> Seq<char>
    decreases s.len(),
{
    if s.len() > 0 && s.last() == c {
        strip_trailing(s.drop_last(), c)
    } else {
        s
    }
}

/// The cell texts of one table row: the row trimmed, stripped of its
/// outer pipes, split on pipes, each cell trimmed.
pub open spec fn row_cells(line: Seq<char>) -> Seq<Seq<char>> {
    split_spec(strip_trailing(strip_leading(trim_spec(line), '|'), '|'), '|').map_values(
        |p: Seq<char>| trim_spec(p),
    )
}

/// The first index at or past `j` whose line is neither a table row nor
/// a separator.
pub open spec fn table_end(lines: Seq<Seq<char>>, j: int) -> int
    decreases lines.len() - j,
{
    if j < 0 || j >= lines.len() {
        j
    } else if is_table_row(lines[j]) || is_table_separator(lines[j]) {
        table_end(lines, j + 1)
    } else {
        j
    }
}

/// The cell rows of the table spanning lines `j` (inclusive) to `end`
/// (exclusive), separator lines skipped.
pub open spec fn table_rows(lines: Seq<Seq<char>>, j: int, end: int) -> Seq<Seq<Seq<char>>>
    decreases end - j,
{
    if j < 0 || j >= end || end > lines.len() {
        Seq::<Seq<Seq<char>>>::empty()
    } else if is_table_separator(lines[j]) {
        table_rows(lines, j + 1, end)
    } else {
        seq![row_cells(lines[j])] + table_rows(lines, j + 1, end)
    }
}

/// The tables of the lines from `i` on: each maximal run of row or
/// separator lines, started by a row line, that yields at least one cell
/// row.
pub open spec fn tables_spec(lines: Seq<Seq<char>>, i: int) -> Seq<Seq<Seq<Seq<char>>>>
    decreases lines.len() - i,
{
    if i < 0 || i >= lines.len() {
        Seq::<Seq<Seq<Seq<char>>>>::empty()
    } else if is_table_row(lines[i]) {
        let end = table_end(lines, i);
        let t = table_rows(lines, i, end);
        if end <= i || end > lines.len() {
            Seq::<Seq<Seq<Seq<char>>>>::empty()
        } else {
            (if t.len() > 0 {
                seq![t]
            } else {
                Seq::<Seq<Seq<Seq<char>>>>::empty()
            }) + tables_spec(lines, end)
        }
    } else {
        tables_spec(lines, i + 1)
    }
}

/// The prose lines of the lines from `i` on, given whether a code fence
/// or a table is open: each line trimmed; fence markers toggle code
/// state; inside code, inside tables, empty and declaration-shaped lines
/// are dropped.
pub open spec fn doc_lines_spec(lines: Seq<Seq<char>>, i: int, in_code: bool, in_table: bool)
    -> Seq<Seq<char>>
    decreases lines.len() - i,
{
    if i < 0 || i >= lines.len() {
        Seq::<Seq<char>>::empty()
    } else {
        let t = trim_spec(lines[i]);
        if matches_at(t, seq!['`', '`', '`'], 0) {
            doc_lines_spec(lines, i + 1, !in_code, in_table)
        } else {
            let nt = if !in_code {
                is_table_row(t) || is_table_separator(t)
            } else {
                in_table
            };
            let keep = !in_code && t.len() > 0 && !is_signature_line(t) && !nt;
            (if keep {
                seq![t]
            } else {
                Seq::<Seq<char>>::empty()
            }) + doc_lines_spec(lines, i + 1, in_code, nt)
        }
    }
}

fn strip_pipes(v: &Vec<char>) -> (r: Vec<char>)
    ensures
        r@ == strip_trailing(strip_leading(v@, '|'), '|'),
{
    let mut lo: usize = 0;
    proof {
        assert(v@.subrange(0, v@.len() as int) =~= v@);
    }
    while lo < v.len() && v[lo] == '|'
        invariant
            lo <= v@.len(),
            strip_leading(v@, '|') == strip_leading(v@.subrange(lo as int, v@.len() as int), '|'),
        decreases v@.len() - lo,
    {
        proof {
            assert(v@.subrange(lo as int, v@.len() as int).drop_first() =~= v@.subrange(
                lo + 1,
                v@.len() as int,
            ));
        }
        lo = lo + 1;
    }
    proof {
        if lo < v@.len() {
            assert(v@.subrange(lo as int, v@.len() as int)[0] == v@[lo as int]);
        }
        assert(strip_leading(v@, '|') == v@.subrange(lo as int, v@.len() as int));
    }
    let mut hi: usize = v.len();
    while hi > lo && v[hi - 1] == '|'
        invariant
            lo <= hi <= v@.len(),
            strip_leading(v@, '|') == v@.subrange(lo as int, v@.len() as int),
            strip_trailing(v@.subrange(lo as int, v@.len() as int), '|') == strip_trailing(
                v@.subrange(lo as int, hi as int),
                '|',
            ),
        decreases hi,
    {
        proof {
            assert(v@.subrange(lo as int, hi as int).drop_last() =~= v@.subrange(
                lo as int,
                hi - 1,
            ));
            assert(v@.subrange(lo as int, hi as int).last() == v@[hi - 1]);
        }
        hi = hi - 1;
    }
    proof {
        if hi > lo {
            assert(v@.subrange(lo as int, hi as int).last() == v@[hi - 1]);
        }
        assert(strip_trailing(v@.subrange(lo as int, hi as int), '|') == v@.subrange(
            lo as int,
            hi as int,
        ));
    }
    subvec_chars(v, lo, hi)
}

fn cells_of_line(line: &Vec<char>) -> (r: Vec<String>)
    ensures
        r.deep_view() == row_cells(line@),
{
    let trimmed = trim_chars(line);
    let stripped = strip_pipes(&trimmed);
    let parts = split_on(&stripped, '|');
    let mut r: Vec<String> = Vec::new();
    let mut i: usize = 0;
    while i < parts.len()
        invariant
            i <= parts@.len(),
            parts.deep_view() == split_spec(
                strip_trailing(strip_leading(trim_spec(line@), '|'), '|'),
                '|',
            ),
            parts.deep_view().len() == parts@.len(),
            r.deep_view() =~~= parts.deep_view().subrange(0, i as int).map_values(
                |p: Seq<char>| trim_spec(p),
            ),
        decreases parts@.len() - i,
    {
        let ghost pdv = parts.deep_view();
        let cell = trim_chars(&parts[i]);
        r.push(string_from_chars(&cell));
        proof {
            assert(pdv[i as int] =~= parts@[i as int]@);
            assert(cell@ == trim_spec(pdv[i as int]));
            assert(r.deep_view() =~~= pdv.subrange(0, i as int).map_values(
                |p: Seq<char>| trim_spec(p),
            ).push(trim_spec(pdv[i as int])));
            assert(pdv.subrange(0, i + 1).map_values(|p: Seq<char>| trim_spec(p)) =~= pdv.subrange(
                0,
                i as int,
            ).map_values(|p: Seq<char>| trim_spec(p)).push(trim_spec(pdv[i as int])));
        }
        i = i + 1;
    }
    proof {
        assert(parts.deep_view().subrange(0, parts.deep_view().len() as int) =~= parts.deep_view());
        assert(r.deep_view() =~~= row_cells(line@));
    }
    r
}

/// Dissects a markdown document into its sections.
pub fn extract_markdown_sections(content: &str) -> (r: MarkdownSections)
    ensures
        r.code_blocks.deep_view() == code_blocks_of(content@),
        r.inline_code.deep_view() == inline_code_of(content@),
        r.links@.len() == links_of(content@).len(),
        forall|i: int|
            0 <= i < r.links@.len() ==> (#[trigger] r.links@[i]).0@ == links_of(content@)[i].0
                && r.links@[i].1@ == links_of(content@)[i].1,
        r.emphasized_text.deep_view() == emphasized_of(content@),
        r.italic_text.deep_view() == italic_of(content@),
        r.signatures.deep_view() == signature_matches_of(content@),
        match r.title {
            Some(t) => title_of(content@) == Some(t@),
            None => title_of(content@) is None,
        },
        r.list_items@.len() == list_items_spec(lines_spec(content@), 0).len(),
        forall|i: int|
            0 <= i < r.list_items@.len() ==> (#[trigger] r.list_items@[i]).0 == 0
                && r.list_items@[i].1@ == list_items_spec(lines_spec(content@), 0)[i],
        r.tables.deep_view() == tables_spec(lines_spec(content@), 0),
        r.documentation_lines.deep_view() == doc_lines_spec(lines_spec(content@), 0, false, false),
{
    let mut sections = MarkdownSections::new();
    let raw_blocks = regex_code_blocks(content);
    let mut blocks: Vec<String> = Vec::new();
    let mut i: usize = 0;
    while i < raw_blocks.len()
        invariant
            i <= raw_blocks@.len(),
            raw_blocks.deep_view() == code_block_caps_of(content@),
            raw_blocks.deep_view().len() == raw_blocks@.len(),
            blocks.deep_view() =~~= raw_blocks.deep_view().subrange(0, i as int).map_values(
                |b: Seq<char>| trim_spec(b),
            ),
        decreases raw_blocks@.len() - i,
    {
        let ghost rdv = raw_blocks.deep_view();
        let raw = chars_of(raw_blocks[i].as_str());
        let cut = trim_chars(&raw);
        blocks.push(string_from_chars(&cut));
        proof {
            assert(rdv[i as int] =~= raw_blocks@[i as int]@);
            assert(cut@ == trim_spec(rdv[i as int]));
            assert(blocks.deep_view() =~~= rdv.subrange(0, i as int).map_values(
                |b: Seq<char>| trim_spec(b),
            ).push(trim_spec(rdv[i as int])));
            assert(rdv.subrange(0, i + 1).map_values(|b: Seq<char>| trim_spec(b)) =~= rdv.subrange(
                0,
                i as int,
            ).map_values(|b: Seq<char>| trim_spec(b)).push(trim_spec(rdv[i as int])));
        }
        i = i + 1;
    }
    proof {
        assert(raw_blocks.deep_view().subrange(0, raw_blocks.deep_view().len() as int)
            =~= raw_blocks.deep_view());
        assert(blocks.deep_view() == code_blocks_of(content@));
    }
    sections.code_blocks = blocks;
    sections.inline_code = regex_inline_code(content);
    sections.links = regex_links(content);
    sections.emphasized_text = regex_emphasized(content);
    sections.italic_text = regex_italic(content);
    sections.signatures = regex_signatures(content);
    sections.title = regex_title(content);

    let chars = chars_of(content);
    let lines = split_lines(&chars);
    let ghost lv = lines_spec(content@);
    proof {
        assert(lines.deep_view() == lv);
        assert(lines.deep_view().len() == lines@.len());
    }

    let mut line_strings: Vec<String> = Vec::new();
    let mut i: usize = 0;
    while i < lines.len()
        invariant
            i <= lines@.len(),
            lines.deep_view() == lv,
            lines.deep_view().len() == lines@.len(),
            line_strings@.len() == i,
            forall|j: int| 0 <= j < i ==> (#[trigger] line_strings@[j])@ == lv[j],
        decreases lines@.len() - i,
    {
        let s = string_from_chars(&lines[i]);
        proof {
            assert(lines@[i as int]@ == lv[i as int]);
        }
        line_strings.push(s);
        i = i + 1;
    }

    // List entries, one probe per line.
    let mut items: Vec<(u32, String)> = Vec::new();
    let mut i: usize = 0;
    while i < line_strings.len()
        invariant
            i <= line_strings@.len(),
            line_strings@.len() == lv.len(),
            forall|j: int| 0 <= j < lv.len() ==> (#[trigger] line_strings@[j])@ == lv[j],
            items@.len() == list_items_spec(lv, 0).len() - list_items_spec(lv, i as int).len(),
            list_items_spec(lv, 0) == items@.map_values(|p: (u32, String)| p.1@) + list_items_spec(
                lv,
                i as int,
            ),
            forall|j: int| 0 <= j < items@.len() ==> (#[trigger] items@[j]).0 == 0,
        decreases line_strings@.len() - i,
    {
        let ghost before = items@;
        match regex_list_item(line_strings[i].as_str()) {
            Some(t) => {
                items.push((0, t));
                proof {
                    assert(items@.map_values(|p: (u32, String)| p.1@) =~= before.map_values(
                        |p: (u32, String)| p.1@,
                    ).push(items@.last().1@));
                    assert(before.map_values(|p: (u32, String)| p.1@) + (seq![items@.last().1@]
                        + list_items_spec(lv, i + 1)) =~= before.map_values(
                        |p: (u32, String)| p.1@,
                    ).push(items@.last().1@) + list_items_spec(lv, i + 1));
                }
            },
            None => {
                proof {
                    assert(Seq::<Seq<char>>::empty() + list_items_spec(lv, i + 1)
                        =~= list_items_spec(lv, i + 1));
                }
            },
        }
        i = i + 1;
    }
    proof {
        assert(items@.map_values(|p: (u32, String)| p.1@) + list_items_spec(lv, lv.len() as int)
            =~= items@.map_values(|p: (u32, String)| p.1@));
        assert(forall|j: int|
            0 <= j < items@.len() ==> (#[trigger] items@[j]).1@ == items@.map_values(
                |p: (u32, String)| p.1@,
            )[j]);
    }
    sections.list_items = items;

    // Table grouping: a run of row/separator lines becomes one table.
    let mut tables: Vec<Vec<Vec<String>>> = Vec::new();
    let mut i: usize = 0;
    while i < line_strings.len()
        invariant
            i <= line_strings@.len(),
            line_strings@.len() == lv.len(),
            lines.deep_view() == lv,
            lines.deep_view().len() == lines@.len(),
            forall|j: int| 0 <= j < lv.len() ==> (#[trigger] line_strings@[j])@ == lv[j],
            tables_spec(lv, 0) == tables.deep_view() + tables_spec(lv, i as int),
        decreases line_strings@.len() - i,
    {
        if regex_is_table_row(line_strings[i].as_str()) {
            let mut j: usize = i;
            while j < line_strings.len() && (regex_is_table_row(line_strings[j].as_str())
                || regex_is_table_separator(line_strings[j].as_str()))
                invariant
                    i <= j <= line_strings@.len(),
                    line_strings@.len() == lv.len(),
                    forall|k: int| 0 <= k < lv.len() ==> (#[trigger] line_strings@[k])@ == lv[k],
                    table_end(lv, i as int) == table_end(lv, j as int),
                decreases line_strings@.len() - j,
            {
                j = j + 1;
            }
            proof {
                assert(table_end(lv, j as int) == j);
                assert(table_end(lv, i as int) == j);
            }
            let mut current: Vec<Vec<String>> = Vec::new();
            let mut k: usize = i;
            while k < j
                invariant
                    i <= k <= j <= lines@.len(),
                    line_strings@.len() == lv.len(),
                    lines.deep_view() == lv,
                    lines.deep_view().len() == lines@.len(),
                    forall|m: int| 0 <= m < lv.len() ==> (#[trigger] line_strings@[m])@ == lv[m],
                    table_rows(lv, i as int, j as int) == current.deep_view() + table_rows(
                        lv,
                        k as int,
                        j as int,
                    ),
                decreases j - k,
            {
                let ghost dv = current.deep_view();
                if !regex_is_table_separator(line_strings[k].as_str()) {
                    let cells = cells_of_line(&lines[k]);
                    let ghost cellsv = cells.deep_view();
                    current.push(cells);
                    proof {
                        assert(lines@[k as int]@ == lv[k as int]);
                        assert(current.deep_view() =~~= dv.push(cellsv));
                        assert(dv + (seq![row_cells(lv[k as int])] + table_rows(lv, k + 1, j as int))
                            =~= dv.push(row_cells(lv[k as int])) + table_rows(lv, k + 1, j as int));
                    }
                } else {
                    proof {
                        assert(dv + table_rows(lv, k + 1, j as int) == current.deep_view()
                            + table_rows(lv, k + 1, j as int));
                    }
                }
                k = k + 1;
            }
            proof {
                assert(table_rows(lv, j as int, j as int) =~= Seq::<Seq<Seq<char>>>::empty());
                assert(current.deep_view() + Seq::<Seq<Seq<char>>>::empty()
                    =~= current.deep_view());
                assert(current.deep_view() == table_rows(lv, i as int, j as int));
            }
            let ghost tdv = tables.deep_view();
            if current.len() > 0 {
                let ghost curdv = current.deep_view();
                tables.push(current);
                proof {
                    assert(tables.deep_view() =~~= tdv.push(curdv));
                    assert(tdv + (seq![curdv] + tables_spec(lv, j as int)) =~= tdv.push(curdv)
                        + tables_spec(lv, j as int));
                    assert(curdv.len() > 0);
                }
            } else {
                proof {
                    assert(tdv + (Seq::<Seq<Seq<Seq<char>>>>::empty() + tables_spec(lv, j as int))
                        =~= tdv + tables_spec(lv, j as int));
                }
            }
            i = j;
        } else {
            i = i + 1;
        }
    }
    proof {
        assert(tables.deep_view() + tables_spec(lv, lv.len() as int) =~= tables.deep_view());
    }
    sections.tables = tables;

    // Prose lines, tracking fences and tables.
    let ticks: Vec<char> = vec!['`', '`', '`'];
    proof {
        assert(ticks@ =~= seq!['`', '`', '`']);
    }
    let mut doc_lines: Vec<String> = Vec::new();
    let mut in_code: bool = false;
    let mut in_table: bool = false;
    let mut i: usize = 0;
    while i < lines.len()
        invariant
            i <= lines@.len(),
            lines.deep_view() == lv,
            lines.deep_view().len() == lines@.len(),
            ticks@ == seq!['`', '`', '`'],
            doc_lines_spec(lv, 0, false, false) == doc_lines.deep_view() + doc_lines_spec(
                lv,
                i as int,
                in_code,
                in_table,
            ),
        decreases lines@.len() - i,
    {
        let trimmed = trim_chars(&lines[i]);
        proof {
            assert(lines@[i as int]@ == lv[i as int]);
            assert(trimmed@ == trim_spec(lv[i as int]));
        }
        let ghost dv = doc_lines.deep_view();
        if starts_with_at(&trimmed, &ticks, 0) {
            in_code = !in_code;
        } else {
            let tstr = string_from_chars(&trimmed);
            let is_row_or_sep = if !in_code {
                regex_is_table_row(tstr.as_str()) || regex_is_table_separator(tstr.as_str())
            } else {
                in_table
            };
            let keep = !in_code && trimmed.len() > 0 && !regex_is_signature_line(tstr.as_str())
                && !is_row_or_sep;
            if keep {
                doc_lines.push(tstr);
                proof {
                    assert(doc_lines.deep_view() =~~= dv.push(trim_spec(lv[i as int])));
                    assert(dv + (seq![trim_spec(lv[i as int])] + doc_lines_spec(
                        lv,
                        i + 1,
                        in_code,
                        is_row_or_sep,
                    )) =~= dv.push(trim_spec(lv[i as int])) + doc_lines_spec(
                        lv,
                        i + 1,
                        in_code,
                        is_row_or_sep,
                    ));
                }
            } else {
                proof {
                    assert(dv + (Seq::<Seq<char>>::empty() + doc_lines_spec(
                        lv,
                        i + 1,
                        in_code,
                        is_row_or_sep,
                    )) =~= dv + doc_lines_spec(lv, i + 1, in_code, is_row_or_sep));
                }
            }
            in_table = is_row_or_sep;
        }
        i = i + 1;
    }
    proof {
        assert(doc_lines.deep_view() + doc_lines_spec(lv, lv.len() as int, in_code, in_table)
            =~= doc_lines.deep_view());
    }
    sections.documentation_lines = doc_lines;

    sections
}

/// The characters that markdown gives meaning to and that sanitizing
/// escapes.
pub open spec fn is_special_char(c: char) -> bool {
    c == '*' || c == '_' || c == '#' || c == '>' || c == '+' || c == '-' || c == '.' || c == '!'
        || c == '[' || c == ']' || c == '(' || c == ')' || c == '{' || c == '}' || c == '\\' || c
        == '|'
}

fn is_special(c: char) -> (r: bool)
    ensures
        r == is_special_char(c),
{
    c == '*' || c == '_' || c == '#' || c == '>' || c == '+' || c == '-' || c == '.' || c == '!'
        || c == '[' || c == ']' || c == '(' || c == ')' || c == '{' || c == '}' || c == '\\' || c
        == '|'
}

/// How many backticks the sequence holds.
pub open spec fn backtick_count(s: Seq<char>) -> nat
    decreases s.len(),
{
    if s.len() == 0 {
        0
    } else {
        backtick_count(s.drop_last()) + if s.last() == '`' {
            1nat
        } else {
            0nat
        }
    }
}

/// How many non-overlapping triple-backtick fences a left-to-right scan
/// finds, given how many backticks of a fence are already open.
pub open spec fn triple_tick_count_from(s: Seq<char>, run: int) -> nat
    decreases s.len(),
{
    if s.len() == 0 {
        0
    } else if s[0] == '`' {
        if run == 2 {
            1 + triple_tick_count_from(s.drop_first(), 0)
        } else {
            triple_tick_count_from(s.drop_first(), run + 1)
        }
    } else {
        triple_tick_count_from(s.drop_first(), 0)
    }
}

/// How many non-overlapping triple-backtick fences the sequence holds.
pub open spec fn triple_tick_count(s: Seq<char>) -> nat {
    triple_tick_count_from(s, 0)
}

/// Whether the position sits in code: an odd number of backticks, or an
/// odd number of fences, precede it.
pub open spec fn in_code_context(s: Seq<char>, position: int) -> bool {
    backtick_count(s.subrange(0, position)) % 2 == 1 || triple_tick_count(
        s.subrange(0, position),
    ) % 2 == 1
}

/// Tests whether the character position sits in inline code or a fenced
/// block: an odd number of backticks, or of fences, precede it.
pub fn is_in_code_context(text: &str, position: usize) -> (r: bool)
    requires
        position <= text@.len(),
    ensures
        r == in_code_context(text@, position as int),
{
    let chars = chars_of(text);
    let mut ticks: u64 = 0;
    let mut triples: u64 = 0;
    let mut run: u8 = 0;
    let mut i: usize = 0;
    proof {
        assert(text@.subrange(0, 0) =~= Seq::<char>::empty());
        assert(backtick_count(text@.subrange(0, 0)) == 0);
        assert(triple_tick_count_from(
            text@.subrange(i as int, position as int),
            0,
        ) == triple_tick_count(text@.subrange(0, position as int)));
    }
    while i < position
        invariant
            i <= position <= text@.len(),
            chars@ == text@,
            run <= 2,
            ticks <= i,
            triples <= i,
            ticks == backtick_count(text@.subrange(0, i as int)),
            triple_tick_count(text@.subrange(0, position as int)) == triples
                + triple_tick_count_from(text@.subrange(i as int, position as int), run as int),
        decreases position - i,
    {
        let ghost suffix = text@.subrange(i as int, position as int);
        proof {
            assert(suffix[0] == text@[i as int]);
            assert(suffix.drop_first() =~= text@.subrange(i + 1, position as int));
            assert(text@.subrange(0, i + 1).drop_last() =~= text@.subrange(0, i as int));
            assert(text@.subrange(0, i + 1).last() == text@[i as int]);
        }
        if chars[i] == '`' {
            ticks = ticks + 1;
            if run == 2 {
                triples = triples + 1;
                run = 0;
            } else {
                run = run + 1;
            }
        } else {
            run = 0;
        }
        i = i + 1;
    }
    proof {
        assert(text@.subrange(position as int, position as int) =~= Seq::<char>::empty());
    }
    ticks % 2 == 1 || triples % 2 == 1
}

/// The sanitized text from `i` on, given the backtick parity, the fence
/// parity, and the backticks of a fence already open: backticks pass
/// through and update the state; outside code, special characters get a
/// backslash.
pub open spec fn sanitize_from(
    s: Seq<char>,
    i: int,
    tick_odd: bool,
    trip_odd: bool,
    run: int,
) -> Seq<char>
    decreases s.len() - i,
{
    if i < 0 || i >= s.len() {
        Seq::<char>::empty()
    } else {
        let c = s[i];
        if c == '`' {
            seq![c] + if run == 2 {
                sanitize_from(s, i + 1, !tick_odd, !trip_odd, 0)
            } else {
                sanitize_from(s, i + 1, !tick_odd, trip_odd, run + 1)
            }
        } else {
            let esc = is_special_char(c) && !tick_odd && !trip_odd;
            (if esc {
                seq!['\\', c]
            } else {
                seq![c]
            }) + sanitize_from(s, i + 1, tick_odd, trip_odd, 0)
        }
    }
}

/// The text with every markdown-special character escaped, except inside
/// inline code or fenced blocks.
pub open spec fn sanitize_spec(s: Seq<char>) -> Seq<char> {
    sanitize_from(s, 0, false, false, 0)
}

/// Escapes every markdown-special character that does not sit in inline
/// code or a fenced block.
pub fn sanitize_markdown_comprehensive(text: &str) -> (r: String)
    ensures
        r@ == sanitize_spec(text@),
{
    let chars = chars_of(text);
    let mut out: Vec<char> = Vec::new();
    let mut tick_odd: bool = false;
    let mut trip_odd: bool = false;
    let mut run: u8 = 0;
    let mut i: usize = 0;
    proof {
        assert(Seq::<char>::empty() + sanitize_from(text@, 0, false, false, 0) =~= sanitize_from(
            text@,
            0,
            false,
            false,
            0,
        ));
    }
    while i < chars.len()
        invariant
            i <= chars@.len(),
            chars@ == text@,
            run <= 2,
            sanitize_spec(text@) == out@ + sanitize_from(
                text@,
                i as int,
                tick_odd,
                trip_odd,
                run as int,
            ),
        decreases chars@.len() - i,
    {
        let ghost dv = out@;
        let c = chars[i];
        if c == '`' {
            out.push('`');
            tick_odd = !tick_odd;
            if run == 2 {
                trip_odd = !trip_odd;
                run = 0;
            } else {
                run = run + 1;
            }
            proof {
                assert(dv + (seq![c] + sanitize_from(
                    text@,
                    i + 1,
                    tick_odd,
                    trip_odd,
                    run as int,
                )) =~= out@ + sanitize_from(text@, i + 1, tick_odd, trip_odd, run as int));
            }
        } else {
            if is_special(c) && !tick_odd && !trip_odd {
                out.push('\\');
                out.push(c);
                proof {
                    assert(dv + (seq!['\\', c] + sanitize_from(text@, i + 1, tick_odd, trip_odd, 0))
                        =~= out@ + sanitize_from(text@, i + 1, tick_odd, trip_odd, 0));
                }
            } else {
                out.push(c);
                proof {
                    assert(dv + (seq![c] + sanitize_from(text@, i + 1, tick_odd, trip_odd, 0))
                        =~= out@ + sanitize_from(text@, i + 1, tick_odd, trip_odd, 0));
                }
            }
            run = 0;
        }
        i = i + 1;
    }
    proof {
        assert(out@ + Seq::<char>::empty() =~= out@);
    }
    string_from_chars(&out)
}

/// The characters that the guarded formatter escapes outside code.
pub open spec fn is_guard_escaped(c: char) -> bool {
    c == '*' || c == '_' || c == '#' || c == '>' || c == '[' || c == ']' || c == '(' || c == ')'
        || c == '|'
}

/// The guarded-formatted text from `i` on, given whether inline code or
/// a fenced block is open.
///
/// A lone backtick toggles inline code; a fence toggles block state and
/// passes through; two backticks followed by anything else are consumed
/// without output; a backslash outside code passes through with the
/// character it escapes; the escaped set gets a backslash outside code.
pub open spec fn format_safely_from(s: Seq<char>, i: int, in_code: bool, in_block: bool) -> Seq<
    char,
>
    decreases s.len() + 3 - i,
{
    if i < 0 || i >= s.len() {
        Seq::<char>::empty()
    } else {
        let c = s[i];
        if c == '`' {
            if i + 1 < s.len() && s[i + 1] == '`' {
                let third = if i + 2 < s.len() {
                    s[i + 2]
                } else {
                    '`'
                };
                if third == '`' {
                    seq!['`', '`', '`'] + format_safely_from(s, i + 3, in_code, !in_block)
                } else {
                    format_safely_from(s, i + 3, in_code, in_block)
                }
            } else {
                seq!['`'] + format_safely_from(s, i + 1, !in_code, in_block)
            }
        } else if c == '\\' && !in_code && !in_block {
            if i + 1 < s.len() {
                seq!['\\', s[i + 1]] + format_safely_from(s, i + 2, in_code, in_block)
            } else {
                seq!['\\'] + format_safely_from(s, i + 1, in_code, in_block)
            }
        } else if is_guard_escaped(c) && !in_code && !in_block {
            seq!['\\', c] + format_safely_from(s, i + 1, in_code, in_block)
        } else {
            seq![c] + format_safely_from(s, i + 1, in_code, in_block)
        }
    }
}

/// Escapes markdown structure characters while leaving inline code and
/// fenced blocks as they are.
pub fn format_markdown_safely(content: &str) -> (r: String)
    ensures
        r@ == format_safely_from(content@, 0, false, false),
{
    let chars = chars_of(content);
    let mut out: Vec<char> = Vec::new();
    let mut in_code: bool = false;
    let mut in_block: bool = false;
    let mut i: usize = 0;
    proof {
        assert(Seq::<char>::empty() + format_safely_from(content@, 0, false, false)
            =~= format_safely_from(content@, 0, false, false));
    }
    while i < chars.len()
        invariant
            i <= chars@.len(),
            chars@ == content@,
            format_safely_from(content@, 0, false, false) == out@ + format_safely_from(
                content@,
                i as int,
                in_code,
                in_block,
            ),
        decreases chars@.len() - i,
    {
        let ghost dv = out@;
        let c = chars[i];
        if c == '`' {
            if i + 1 < chars.len() && chars[i + 1] == '`' {
                let third_is_tick = i + 2 >= chars.len() || chars[i + 2] == '`';
                if third_is_tick {
                    out.push('`');
                    out.push('`');
                    out.push('`');
                    in_block = !in_block;
                    proof {
                        assert(dv + (seq!['`', '`', '`'] + format_safely_from(
                            content@,
                            i + 3,
                            in_code,
                            in_block,
                        )) =~= out@ + format_safely_from(content@, i + 3, in_code, in_block));
                    }
                } else {
                    proof {
                        assert(dv + format_safely_from(content@, i + 3, in_code, in_block) =~= out@
                            + format_safely_from(content@, i + 3, in_code, in_block));
                    }
                }
                if chars.len() - i >= 3 {
                    i = i + 3;
                } else {
                    proof {
                        assert(format_safely_from(content@, i + 3, in_code, in_block)
                            =~= Seq::<char>::empty());
                        assert(format_safely_from(
                            content@,
                            chars@.len() as int,
                            in_code,
                            in_block,
                        ) =~= Seq::<char>::empty());
                    }
                    i = chars.len();
                }
            } else {
                out.push('`');
                in_code = !in_code;
                proof {
                    assert(dv + (seq!['`'] + format_safely_from(content@, i + 1, in_code, in_block))
                        =~= out@ + format_safely_from(content@, i + 1, in_code, in_block));
                }
                i = i + 1;
            }
        } else if c == '\\' && !in_code && !in_block {
            if i + 1 < chars.len() {
                out.push('\\');
                out.push(chars[i + 1]);
                proof {
                    assert(dv + (seq!['\\', content@[i + 1]] + format_safely_from(
                        content@,
                        i + 2,
                        in_code,
                        in_block,
                    )) =~= out@ + format_safely_from(content@, i + 2, in_code, in_block));
                }
                i = i + 2;
            } else {
                out.push('\\');
                proof {
                    assert(dv + (seq!['\\'] + format_safely_from(
                        content@,
                        i + 1,
                        in_code,
                        in_block,
                    )) =~= out@ + format_safely_from(content@, i + 1, in_code, in_block));
                }
                i = i + 1;
            }
        } else {
            let escaped = (c == '*' || c == '_' || c == '#' || c == '>' || c == '[' || c == ']'
                || c == '(' || c == ')' || c == '|') && !in_code && !in_block;
            if escaped {
                out.push('\\');
                out.push(c);
                proof {
                    assert(dv + (seq!['\\', c] + format_safely_from(
                        content@,
                        i + 1,
                        in_code,
                        in_block,
                    )) =~= out@ + format_safely_from(content@, i + 1, in_code, in_block));
                }
            } else {
                out.push(c);
                proof {
                    assert(dv + (seq![c] + format_safely_from(content@, i + 1, in_code, in_block))
                        =~= out@ + format_safely_from(content@, i + 1, in_code, in_block));
                }
            }
            i = i + 1;
        }
    }
    proof {
        assert(out@ + Seq::<char>::empty() =~= out@);
    }
    string_from_chars(&out)
}

/// Code text normalized to newline-joined lines.
pub open spec fn format_code_spec(s: Seq<char>) -> Seq<char> {
    join_spec(lines_spec(s), '\n')
}

/// Rejoins the lines of a code block with plain newlines.
pub fn format_code_safely(code: &str) -> (r: String)
    ensures
        r@ == format_code_spec(code@),
{
    let chars = chars_of(code);
    let lines = split_lines(&chars);
    let joined = join_with(&lines, '\n');
    string_from_chars(&joined)
}

/// A title cleaned for display: trimmed, with heading markers, bold and
/// backtick markers removed, and shortened to at most a hundred
/// characters with an ellipsis.
pub open spec fn clean_title_spec(s: Seq<char>) -> Seq<char> {
    let t0 = trim_spec(s);
    let t1 = remove_all_spec(t0, seq!['#', ' ']);
    let t2 = remove_all_spec(t1, seq!['#', '#', ' ']);
    let t3 = remove_all_spec(t2, seq!['#', '#', '#', ' ']);
    let t4 = remove_all_spec(t3, seq!['#', '#', '#', '#', ' ']);
    let t5 = remove_all_spec(t4, seq!['*', '*']);
    let t6 = remove_all_spec(t5, seq!['*']);
    let t7 = remove_all_spec(t6, seq!['`']);
    if t7.len() > 100 {
        t7.subrange(0, 97) + seq!['.', '.', '.']
    } else {
        t7
    }
}

/// Cleans a title for display.
pub fn clean_title(title: &str) -> (r: String)
    ensures
        r@ == clean_title_spec(title@),
{
    let chars = chars_of(title);
    let t0 = trim_chars(&chars);
    let p1: Vec<char> = vec!['#', ' '];
    let p2: Vec<char> = vec!['#', '#', ' '];
    let p3: Vec<char> = vec!['#', '#', '#', ' '];
    let p4: Vec<char> = vec!['#', '#', '#', '#', ' '];
    let p5: Vec<char> = vec!['*', '*'];
    let p6: Vec<char> = vec!['*'];
    let p7: Vec<char> = vec!['`'];
    proof {
        assert(p1@ =~= seq!['#', ' ']);
        assert(p2@ =~= seq!['#', '#', ' ']);
        assert(p3@ =~= seq!['#', '#', '#', ' ']);
        assert(p4@ =~= seq!['#', '#', '#', '#', ' ']);
        assert(p5@ =~= seq!['*', '*']);
        assert(p6@ =~= seq!['*']);
        assert(p7@ =~= seq!['`']);
    }
    let t1 = remove_all(&t0, &p1);
    let t2 = remove_all(&t1, &p2);
    let t3 = remove_all(&t2, &p3);
    let t4 = remove_all(&t3, &p4);
    let t5 = remove_all(&t4, &p5);
    let t6 = remove_all(&t5, &p6);
    let t7 = remove_all(&t6, &p7);
    if t7.len() > 100 {
        let mut cut = subvec_chars(&t7, 0, 97);
        cut.push('.');
        cut.push('.');
        cut.push('.');
        proof {
            assert(cut@ =~= t7@.subrange(0, 97) + seq!['.', '.', '.']);
        }
        string_from_chars(&cut)
    } else {
        string_from_chars(&t7)
    }
}

} // verus!
