//! Shaping raw hover markdown into a structured answer for the
//! front-end.

use vstd::prelude::*;

use crate::markdown::{
    code_blocks_of, extract_markdown_sections, list_items_spec, signature_matches_of,
    signature_name_of, regex_signature_name, tables_spec, title_of, MarkdownSections,
};
use crate::text::{
    chars_of, join_sep_spec, join_with_sep, lines_spec, matches_at, string_from_chars,
    subvec_chars,
};
use crate::types::ContentType;

verus! {

/// A structured hover answer.
#[derive(Debug)]
pub struct EnhancedHoverData {
    /// The heading to display.
    pub title: String,
    /// The first declaration-shaped fragment, if any.
    pub signature: Option<String>,
    /// The full raw markdown, kept for rendering.
    pub documentation: Option<String>,
    /// The fenced code blocks, joined.
    pub source_code: Option<String>,
    /// The raw markdown as received.
    pub raw: String,
    /// What the answer holds.
    pub metadata: DocumentationMetadata,
}

/// What kinds of content a hover answer holds.
#[derive(Debug)]
pub struct DocumentationMetadata {
    /// Whether fenced code blocks occur.
    pub has_code_blocks: bool,
    /// Whether tables occur.
    pub has_tables: bool,
    /// Whether list entries occur.
    pub has_lists: bool,
    /// The classification of the documented item.
    pub content_type: ContentType,
    /// Diagnostics gathered while shaping; none are produced today.
    pub warning_messages: Vec<String>,
}

/// Whether `pat` occurs in any of the fragments.
pub open spec fn any_contains(sigs: Seq<Seq<char>>, pat: Seq<char>) -> bool {
    exists|i: int, j: int| 0 <= i < sigs.len() && #[trigger] matches_at(sigs[i], pat, j)
}

/// The classification that declaration-shaped fragments suggest.
pub open spec fn content_type_from(sigs: Seq<Seq<char>>) -> ContentType {
    if any_contains(sigs, seq!['f', 'n', ' ']) || any_contains(
        sigs,
        seq!['f', 'u', 'n', 'c', 't', 'i', 'o', 'n'],
    ) {
        ContentType::Function
    } else if any_contains(sigs, seq!['s', 't', 'r', 'u', 'c', 't', ' ']) {
        ContentType::Struct
    } else if any_contains(sigs, seq!['l', 'e', 't', ' ']) || any_contains(
        sigs,
        seq!['c', 'o', 'n', 's', 't', ' '],
    ) {
        ContentType::Variable
    } else if any_contains(sigs, seq!['m', 'o', 'd', ' ']) || any_contains(
        sigs,
        seq!['m', 'o', 'd', 'u', 'l', 'e'],
    ) {
        ContentType::Module
    } else {
        ContentType::Generic
    }
}

/// The classification of a whole document.
pub open spec fn content_type_spec(s: Seq<char>) -> ContentType {
    content_type_from(signature_matches_of(s))
}

fn any_sig_contains(sigs: &Vec<String>, pat: &Vec<char>) -> (r: bool)
    ensures
        r == any_contains(sigs.deep_view(), pat@),
{
    let mut i: usize = 0;
    while i < sigs.len()
        invariant
            i <= sigs@.len(),
            sigs.deep_view().len() == sigs@.len(),
            forall|a: int, b: int|
                0 <= a < i ==> !(#[trigger] matches_at(sigs.deep_view()[a], pat@, b)),
        decreases sigs@.len() - i,
    {
        let chars = chars_of(sigs[i].as_str());
        proof {
            assert(chars@ == sigs.deep_view()[i as int]);
        }
        if crate::text::contains_sub(&chars, pat) {
            proof {
                let j = choose|j: int| matches_at(chars@, pat@, j);
                assert(matches_at(sigs.deep_view()[i as int], pat@, j));
            }
            return true;
        }
        i = i + 1;
    }
    false
}

/// Classifies a document by its declaration-shaped fragments.
pub fn determine_content_type(sections: &MarkdownSections) -> (r: ContentType)
    ensures
        r == content_type_from(sections.signatures.deep_view()),
{
    let p_fn: Vec<char> = vec!['f', 'n', ' '];
    let p_function: Vec<char> = vec!['f', 'u', 'n', 'c', 't', 'i', 'o', 'n'];
    let p_struct: Vec<char> = vec!['s', 't', 'r', 'u', 'c', 't', ' '];
    let p_let: Vec<char> = vec!['l', 'e', 't', ' '];
    let p_const: Vec<char> = vec!['c', 'o', 'n', 's', 't', ' '];
    let p_mod: Vec<char> = vec!['m', 'o', 'd', ' '];
    let p_module: Vec<char> = vec!['m', 'o', 'd', 'u', 'l', 'e'];
    proof {
        assert(p_fn@ =~= seq!['f', 'n', ' ']);
        assert(p_function@ =~= seq!['f', 'u', 'n', 'c', 't', 'i', 'o', 'n']);
        assert(p_struct@ =~= seq!['s', 't', 'r', 'u', 'c', 't', ' ']);
        assert(p_let@ =~= seq!['l', 'e', 't', ' ']);
        assert(p_const@ =~= seq!['c', 'o', 'n', 's', 't', ' ']);
        assert(p_mod@ =~= seq!['m', 'o', 'd', ' ']);
        assert(p_module@ =~= seq!['m', 'o', 'd', 'u', 'l', 'e']);
    }
    if any_sig_contains(&sections.signatures, &p_fn) || any_sig_contains(
        &sections.signatures,
        &p_function,
    ) {
        ContentType::Function
    } else if any_sig_contains(&sections.signatures, &p_struct) {
        ContentType::Struct
    } else if any_sig_contains(&sections.signatures, &p_let) || any_sig_contains(
        &sections.signatures,
        &p_const,
    ) {
        ContentType::Variable
    } else if any_sig_contains(&sections.signatures, &p_mod) || any_sig_contains(
        &sections.signatures,
        &p_module,
    ) {
        ContentType::Module
    } else {
        ContentType::Generic
    }
}

/// The display name extracted from one declaration-shaped fragment: the
/// captured name, a placeholder naming the kind, or — for generic
/// content — the fragment's first thirty characters.
pub open spec fn name_from_signature_spec(sig: Seq<char>, ct: ContentType) -> Seq<char> {
    match ct {
        ContentType::Generic => if sig.len() <= 30 {
            sig
        } else {
            sig.subrange(0, 30)
        },
        ContentType::Function => match signature_name_of(sig) {
            Some(n) => n,
            None => "Unnamed Function"@,
        },
        ContentType::Struct => match signature_name_of(sig) {
            Some(n) => n,
            None => "Unnamed Struct"@,
        },
        ContentType::Module => match signature_name_of(sig) {
            Some(n) => n,
            None => "Unnamed Module"@,
        },
        ContentType::Variable => match signature_name_of(sig) {
            Some(n) => n,
            None => "Unnamed Variable"@,
        },
    }
}

/// Extracts the display name from one declaration-shaped fragment.
pub fn extract_name_from_signature(signature: &str, content_type: &ContentType) -> (r: String)
    ensures
        r@ == name_from_signature_spec(signature@, *content_type),
{
    match content_type {
        ContentType::Generic => {
            let chars = chars_of(signature);
            if chars.len() <= 30 {
                string_from_chars(&chars)
            } else {
                let cut = subvec_chars(&chars, 0, 30);
                string_from_chars(&cut)
            }
        },
        ContentType::Function => {
            match regex_signature_name(signature) {
                Some(n) => n,
                None => String::from_str("Unnamed Function"),
            }
        },
        ContentType::Struct => {
            match regex_signature_name(signature) {
                Some(n) => n,
                None => String::from_str("Unnamed Struct"),
            }
        },
        ContentType::Module => {
            match regex_signature_name(signature) {
                Some(n) => n,
                None => String::from_str("Unnamed Module"),
            }
        },
        ContentType::Variable => {
            match regex_signature_name(signature) {
                Some(n) => n,
                None => String::from_str("Unnamed Variable"),
            }
        },
    }
}

/// The default heading for a classification, when nothing better is
/// there.
pub open spec fn default_title_spec(ct: ContentType) -> Seq<char> {
    match ct {
        ContentType::Function => "Function"@,
        ContentType::Struct => "Struct"@,
        ContentType::Variable => "Variable"@,
        ContentType::Module => "Module"@,
        ContentType::Generic => "Documentation"@,
    }
}

/// The heading: the document's own heading if it is one, else the name
/// from the first declaration-shaped fragment, else a default naming
/// the classification.
pub open spec fn title_from(
    title: Option<Seq<char>>,
    sigs: Seq<Seq<char>>,
    ct: ContentType,
) -> Seq<char> {
    match title {
        Some(t) => t,
        None => if sigs.len() > 0 {
            name_from_signature_spec(sigs[0], ct)
        } else {
            default_title_spec(ct)
        },
    }
}

/// The heading of a whole document.
pub open spec fn title_spec(content: Seq<char>, ct: ContentType) -> Seq<char> {
    title_from(title_of(content), signature_matches_of(content), ct)
}

/// Picks the heading of a dissected document.
pub fn extract_title(sections: &MarkdownSections, content_type: &ContentType) -> (r: String)
    ensures
        r@ == title_from(
            match sections.title {
                Some(t) => Some(t@),
                None => None,
            },
            sections.signatures.deep_view(),
            *content_type,
        ),
{
    match &sections.title {
        Some(t) => t.clone(),
        None => {
            if sections.signatures.len() > 0 {
                proof {
                    assert(sections.signatures@[0]@ == sections.signatures.deep_view()[0]);
                }
                extract_name_from_signature(sections.signatures[0].as_str(), content_type)
            } else {
                match content_type {
                    ContentType::Function => String::from_str("Function"),
                    ContentType::Struct => String::from_str("Struct"),
                    ContentType::Variable => String::from_str("Variable"),
                    ContentType::Module => String::from_str("Module"),
                    ContentType::Generic => String::from_str("Documentation"),
                }
            }
        },
    }
}

/// Code blocks joined by blank lines, when there are any.
pub open spec fn joined_blocks(blocks: Seq<Seq<char>>) -> Option<Seq<char>> {
    if blocks.len() == 0 {
        None
    } else {
        Some(join_sep_spec(blocks, seq!['\n', '\n']))
    }
}

/// The fenced code blocks of a whole document, joined.
pub open spec fn source_code_spec(content: Seq<char>) -> Option<Seq<char>> {
    joined_blocks(code_blocks_of(content))
}

/// Joins the fenced code blocks of a dissected document.
pub fn extract_source_code(sections: &MarkdownSections) -> (r: Option<String>)
    ensures
        match r {
            Some(s) => joined_blocks(sections.code_blocks.deep_view()) == Some(s@),
            None => joined_blocks(sections.code_blocks.deep_view()) is None,
        },
{
    if sections.code_blocks.len() == 0 {
        return None;
    }
    let mut blocks: Vec<Vec<char>> = Vec::new();
    let mut i: usize = 0;
    while i < sections.code_blocks.len()
        invariant
            i <= sections.code_blocks@.len(),
            sections.code_blocks.deep_view().len() == sections.code_blocks@.len(),
            blocks.deep_view() =~~= sections.code_blocks.deep_view().subrange(0, i as int),
        decreases sections.code_blocks@.len() - i,
    {
        let ghost dv = blocks.deep_view();
        let b = chars_of(sections.code_blocks[i].as_str());
        blocks.push(b);
        proof {
            assert(blocks.deep_view() =~~= dv.push(sections.code_blocks.deep_view()[i as int]));
            assert(sections.code_blocks.deep_view().subrange(0, i + 1) =~= sections
                .code_blocks.deep_view().subrange(0, i as int).push(
                sections.code_blocks.deep_view()[i as int],
            ));
        }
        i = i + 1;
    }
    proof {
        assert(sections.code_blocks.deep_view().subrange(
            0,
            sections.code_blocks.deep_view().len() as int,
        ) =~= sections.code_blocks.deep_view());
        assert(blocks.deep_view() == sections.code_blocks.deep_view());
    }
    let sep: Vec<char> = vec!['\n', '\n'];
    proof {
        assert(sep@ =~= seq!['\n', '\n']);
    }
    let joined = join_with_sep(&blocks, &sep);
    Some(string_from_chars(&joined))
}

/// The first declaration-shaped fragment of a dissected document.
pub fn extract_signature(sections: &MarkdownSections) -> (r: Option<String>)
    ensures
        match r {
            Some(s) => sections.signatures.deep_view().len() > 0 && s@
                == sections.signatures.deep_view()[0],
            None => sections.signatures.deep_view().len() == 0,
        },
{
    if sections.signatures.len() > 0 {
        proof {
            assert(sections.signatures@[0]@ == sections.signatures.deep_view()[0]);
        }
        Some(sections.signatures[0].clone())
    } else {
        None
    }
}

/// Shapes raw hover markdown into a structured answer.
///
/// Empty contents are rejected; otherwise the answer carries the
/// heading, the first signature, the joined code blocks, the raw text,
/// and flags for the kinds of content found.
pub fn format_hover_data_enhanced(contents: String) -> (r: Result<EnhancedHoverData, String>)
    ensures
        match r {
            Ok(d) => {
                let ct = content_type_spec(contents@);
                &&& contents@.len() > 0
                &&& d.raw@ == contents@
                &&& (d.documentation matches Some(doc) && doc@ == contents@)
                &&& d.title@ == title_spec(contents@, ct)
                &&& (match d.signature {
                    Some(s) => signature_matches_of(contents@).len() > 0 && s@
                        == signature_matches_of(contents@)[0],
                    None => signature_matches_of(contents@).len() == 0,
                })
                &&& (match d.source_code {
                    Some(s) => source_code_spec(contents@) == Some(s@),
                    None => source_code_spec(contents@) is None,
                })
                &&& d.metadata.content_type == ct
                &&& d.metadata.has_code_blocks == (code_blocks_of(contents@).len() > 0)
                &&& d.metadata.has_tables == (tables_spec(lines_spec(contents@), 0).len() > 0)
                &&& d.metadata.has_lists == (list_items_spec(lines_spec(contents@), 0).len() > 0)
                &&& d.metadata.warning_messages@.len() == 0
            },
            Err(e) => contents@.len() == 0 && e@ == "Empty hover contents"@,
        },
{
    if contents.as_str().is_empty() {
        return Err(String::from_str("Empty hover contents"));
    }
    let sections = extract_markdown_sections(contents.as_str());
    proof {
        assert(sections.tables.deep_view().len() == sections.tables@.len());
        assert(sections.code_blocks.deep_view().len() == sections.code_blocks@.len());
    }
    let content_type = determine_content_type(&sections);
    let title = extract_title(&sections, &content_type);
    let signature = extract_signature(&sections);
    let source_code = extract_source_code(&sections);
    let metadata = DocumentationMetadata {
        has_code_blocks: sections.code_blocks.len() > 0,
        has_tables: sections.tables.len() > 0,
        has_lists: sections.list_items.len() > 0,
        content_type,
        warning_messages: Vec::new(),
    };
    let documentation = Some(contents.clone());
    Ok(
        EnhancedHoverData {
            title,
            signature,
            documentation,
            source_code,
            raw: contents,
            metadata,
        },
    )
}

} // verus!
