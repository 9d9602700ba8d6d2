//! Markdown dissection, sanitizing, and hover shaping.

use lsp_gateway::hover::{
    determine_content_type, extract_name_from_signature, format_hover_data_enhanced,
};
use lsp_gateway::markdown::{
    clean_title, extract_markdown_sections, format_code_safely, format_markdown_safely,
    is_in_code_context, sanitize_markdown_comprehensive, MarkdownSections,
};
use lsp_gateway::types::ContentType;

#[test]
fn new_sections_are_empty() {
    let s = MarkdownSections::new();
    assert!(s.title.is_none());
    assert!(s.signatures.is_empty());
    assert!(s.documentation_lines.is_empty());
    assert!(s.code_blocks.is_empty());
    assert!(s.inline_code.is_empty());
    assert!(s.links.is_empty());
    assert!(s.emphasized_text.is_empty());
    assert!(s.italic_text.is_empty());
    assert!(s.list_items.is_empty());
    assert!(s.tables.is_empty());
}

#[test]
fn code_blocks_are_extracted_and_trimmed() {
    let s = extract_markdown_sections("```rust\nlet x = 1;\n```");
    assert_eq!(s.code_blocks, vec!["let x = 1;"]);
    assert!(s.documentation_lines.is_empty());
}

#[test]
fn inline_code_and_links_are_extracted() {
    let s = extract_markdown_sections("see `foo` and [docs](https://example.com)");
    assert_eq!(s.inline_code, vec!["foo"]);
    assert_eq!(
        s.links,
        vec![(String::from("docs"), String::from("https://example.com"))]
    );
}

#[test]
fn emphasis_and_italics_are_extracted() {
    let s = extract_markdown_sections("**bold** and __also__");
    assert_eq!(s.emphasized_text, vec!["bold", "also"]);
    let s2 = extract_markdown_sections("an *italic* word");
    assert_eq!(s2.italic_text, vec!["italic"]);
}

#[test]
fn a_heading_document_yields_a_title() {
    let s = extract_markdown_sections("## My Heading");
    assert_eq!(s.title.as_deref(), Some("My Heading"));
    let no_title = extract_markdown_sections("plain text\n# not first");
    assert!(no_title.title.is_none());
}

#[test]
fn list_entries_are_collected_per_line() {
    let s = extract_markdown_sections("- item one\n- item two\n1. third");
    assert_eq!(
        s.list_items,
        vec![
            (0, String::from("item one")),
            (0, String::from("item two")),
            (0, String::from("third")),
        ]
    );
}

#[test]
fn consecutive_table_rows_become_one_table() {
    let s = extract_markdown_sections("|a|b|\n|---|---|\n|1|2|");
    assert_eq!(
        s.tables,
        vec![vec![
            vec![String::from("a"), String::from("b")],
            vec![String::from("1"), String::from("2")],
        ]]
    );
    assert!(s.documentation_lines.is_empty());
}

#[test]
fn prose_lines_skip_fences_and_tables() {
    let s = extract_markdown_sections("intro\n```\nhidden\n```\n|a|b|\n|1|2|\noutro");
    assert_eq!(s.documentation_lines, vec!["intro", "outro"]);
}

#[test]
fn rust_signatures_are_recognized() {
    let s = extract_markdown_sections("pub fn add(a: u8, b: u8) -> u8");
    assert_eq!(s.signatures.len(), 1);
    assert_eq!(s.signatures[0], "pub fn add(a: u8, b: u8) -> u8");
    assert_eq!(determine_content_type(&s), ContentType::Function);
}

#[test]
fn struct_signatures_classify_as_struct() {
    let s = extract_markdown_sections("pub struct Point<T> { }");
    assert_eq!(determine_content_type(&s), ContentType::Struct);
}

#[test]
fn plain_text_classifies_as_generic() {
    let s = extract_markdown_sections("nothing declarative here");
    assert_eq!(determine_content_type(&s), ContentType::Generic);
}

#[test]
fn names_are_pulled_out_of_signatures() {
    assert_eq!(
        extract_name_from_signature("pub fn add(a: u8) -> u8", &ContentType::Function),
        "add"
    );
    assert_eq!(
        extract_name_from_signature("struct Point { }", &ContentType::Struct),
        "Point"
    );
    assert_eq!(
        extract_name_from_signature("nothing here", &ContentType::Function),
        "Unnamed Function"
    );
    assert_eq!(
        extract_name_from_signature("0123456789012345678901234567890123", &ContentType::Generic),
        "012345678901234567890123456789"
    );
}

#[test]
fn sanitize_escapes_outside_code_only() {
    assert_eq!(sanitize_markdown_comprehensive("a*b"), "a\\*b");
    assert_eq!(sanitize_markdown_comprehensive("`a*`b*"), "`a*`b\\*");
    assert_eq!(sanitize_markdown_comprehensive("x.y!"), "x\\.y\\!");
}

#[test]
fn in_code_context_counts_backticks_before_the_position() {
    let text = "a`b`c";
    assert!(!is_in_code_context(text, 1));
    assert!(is_in_code_context(text, 2));
    assert!(is_in_code_context(text, 3));
    assert!(!is_in_code_context(text, 4));
}

#[test]
fn format_markdown_safely_respects_code_spans() {
    assert_eq!(format_markdown_safely("**bold**"), "\\*\\*bold\\*\\*");
    assert_eq!(format_markdown_safely("`*raw*`"), "`*raw*`");
    assert_eq!(format_markdown_safely("a_b"), "a\\_b");
}

#[test]
fn format_code_safely_normalizes_line_endings() {
    assert_eq!(format_code_safely("a\r\nb\nc"), "a\nb\nc");
    assert_eq!(format_code_safely("one\n"), "one");
}

#[test]
fn clean_title_strips_markers_and_trims() {
    assert_eq!(clean_title("  **Title**  "), "Title");
    assert_eq!(clean_title("`code`"), "code");
    assert_eq!(clean_title("## Hello"), "#Hello");
}

#[test]
fn clean_title_shortens_long_titles() {
    let long: String = std::iter::repeat('a').take(101).collect();
    let cleaned = clean_title(&long);
    assert_eq!(cleaned.len(), 100);
    assert!(cleaned.ends_with("..."));
    assert!(cleaned.starts_with("aaa"));
}

#[test]
fn empty_hover_contents_are_rejected() {
    let r = format_hover_data_enhanced(String::new());
    assert_eq!(r.unwrap_err(), "Empty hover contents");
}

#[test]
fn hover_data_carries_title_and_raw_text() {
    let d = format_hover_data_enhanced(String::from("# My Title")).unwrap();
    assert_eq!(d.title, "My Title");
    assert_eq!(d.raw, "# My Title");
    assert_eq!(d.documentation.as_deref(), Some("# My Title"));
    assert!(d.signature.is_none());
    assert!(d.source_code.is_none());
    assert!(!d.metadata.has_code_blocks);
    assert!(d.metadata.warning_messages.is_empty());
}

#[test]
fn hover_data_joins_code_blocks() {
    let d = format_hover_data_enhanced(String::from("```\none\n```\ntext\n```\ntwo\n```")).unwrap();
    assert_eq!(d.source_code.as_deref(), Some("one\n\ntwo"));
    assert!(d.metadata.has_code_blocks);
}

#[test]
fn hover_data_uses_the_signature_name_when_there_is_no_heading() {
    let d = format_hover_data_enhanced(String::from("fn compute(x: i32) -> i32")).unwrap();
    assert_eq!(d.metadata.content_type, ContentType::Function);
    assert_eq!(d.title, "compute");
    assert_eq!(d.signature.as_deref(), Some("fn compute(x: i32) -> i32"));
}
