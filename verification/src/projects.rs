//! Project-root detection for a file path.
//!
//! The root of a project is the nearest ancestor directory holding the
//! language's manifest file. The library computes the candidate
//! directories and picks the root; the host only reports which of them
//! hold the manifest.

use vstd::prelude::*;

use crate::errors::LspError;
use crate::lang::{is_recognized_language, last_pos, recognized_language};
use crate::text::{chars_of, str_eq, string_from_chars, subvec_chars};

verus! {

/// The ancestor directories of a path, nearest first: the prefix before
/// each `/`, with a lone leading slash standing for the filesystem root.
pub open spec fn ancestors_of(p: Seq<char>) -> Seq<Seq<char>>
    decreases p.len(),
    via ancestors_of_decreases
{
    match last_pos(p, '/') {
        Some(i) => if i == 0 {
            seq![seq!['/']]
        } else {
            seq![p.subrange(0, i)] + ancestors_of(p.subrange(0, i))
        },
        None => Seq::<Seq<char>>::empty(),
    }
}

#[via_fn]
proof fn ancestors_of_decreases(p: Seq<char>) {
    lemma_last_pos_bound(p, '/');
}

/// A last occurrence lies inside the sequence.
pub proof fn lemma_last_pos_bound(s: Seq<char>, c: char)
    ensures
        match last_pos(s, c) {
            Some(i) => 0 <= i < s.len(),
            None => true,
        },
    decreases s.len(),
{
    if s.len() > 0 && s.last() != c {
        lemma_last_pos_bound(s.drop_last(), c);
    }
}

/// Lists the ancestor directories of a path, nearest first.
pub fn project_root_ancestors(file_path: &str) -> (r: Vec<String>)
    ensures
        r.deep_view() == ancestors_of(file_path@),
{
    let chars = chars_of(file_path);
    proof {
        assert(chars@.subrange(0, chars@.len() as int) =~= chars@);
    }
    ancestors_rec(&chars, chars.len())
}

fn ancestors_rec(chars: &Vec<char>, n: usize) -> (r: Vec<String>)
    requires
        n <= chars@.len(),
    ensures
        r.deep_view() == ancestors_of(chars@.subrange(0, n as int)),
    decreases n,
{
    let ghost p = chars@.subrange(0, n as int);
    match crate::lang::last_pos_upto(chars, '/', n) {
        Some(i) => {
            if i == 0 {
                let mut r: Vec<String> = Vec::new();
                r.push(String::from_str("/"));
                proof {
                    reveal_strlit("/");
                    assert("/"@ =~= seq!['/']);
                    assert(r.deep_view() =~~= seq![seq!['/']]);
                }
                r
            } else {
                let prefix = subvec_chars(chars, 0, i);
                let first = string_from_chars(&prefix);
                let rest = ancestors_rec(chars, i);
                let ghost restdv = rest.deep_view();
                let mut r = rest;
                r.insert(0, first);
                proof {
                    assert(p.subrange(0, i as int) =~= chars@.subrange(0, i as int));
                    assert(r.deep_view() =~~= seq![p.subrange(0, i as int)] + restdv);
                }
                r
            }
        },
        None => {
            let r: Vec<String> = Vec::new();
            proof {
                assert(r.deep_view() =~~= Seq::<Seq<char>>::empty());
            }
            r
        },
    }
}

/// The manifest file that marks each language's project root.
pub open spec fn manifest_file_spec(l: Seq<char>) -> Seq<char> {
    if l == "rust"@ {
        "Cargo.toml"@
    } else if l == "javascript"@ || l == "typescript"@ {
        "package.json"@
    } else if l == "python"@ {
        "pyproject.toml"@
    } else {
        ".git"@
    }
}

/// The manifest file that marks a language's project root.
pub fn manifest_file_for(language: &str) -> (r: &'static str)
    ensures
        r@ == manifest_file_spec(language@),
{
    if str_eq(language, "rust") {
        "Cargo.toml"
    } else if str_eq(language, "javascript") || str_eq(language, "typescript") {
        "package.json"
    } else if str_eq(language, "python") {
        "pyproject.toml"
    } else {
        ".git"
    }
}

/// The index of the first ancestor that holds the manifest.
pub open spec fn first_hit(marks: Seq<bool>, i: int) -> Option<int>
    decreases marks.len() - i,
{
    if i < 0 || i >= marks.len() {
        None::<int>
    } else if marks[i] {
        Some(i)
    } else {
        first_hit(marks, i + 1)
    }
}

/// Resolves the project root of a file.
///
/// A language other than the literal `generic` whose lower-cased form
/// is not recognized is rejected. Otherwise the root is the nearest
/// ancestor directory that the caller marked as holding the manifest;
/// with no such ancestor, the file's own directory; for a path without
/// any directory part, `"."`.
pub fn find_project_root(
    file_path: &str,
    language: Option<&str>,
    manifest_at: &Vec<bool>,
) -> (r: Result<String, LspError>)
    requires
        manifest_at@.len() == ancestors_of(file_path@).len(),
    ensures
        ({
            let raw = match language {
                Some(l) => l@,
                None => "generic"@,
            };
            let ancestors = ancestors_of(file_path@);
            if raw != "generic"@ && !recognized_language(crate::lang::lower_seq(raw)) {
                (r matches Err(e) && e matches LspError::UnrecognizedLanguage { language: l } && l@
                    == raw)
            } else {
                match first_hit(manifest_at@, 0) {
                    Some(i) => r matches Ok(root) && root@ == ancestors[i],
                    None => if ancestors.len() > 0 {
                        r matches Ok(root) && root@ == ancestors[0]
                    } else {
                        r matches Ok(root) && root@ == "."@
                    },
                }
            }
        }),
{
    match language {
        Some(l) => {
            if !str_eq(l, "generic") {
                let chars = chars_of(l);
                let low = crate::lang::ascii_lower(&chars);
                let lower = string_from_chars(&low);
                if !is_recognized_language(lower.as_str()) {
                    return Err(LspError::UnrecognizedLanguage { language: l.to_owned() });
                }
            }
        },
        None => {},
    }
    let ancestors = project_root_ancestors(file_path);
    proof {
        assert(ancestors.deep_view().len() == ancestors@.len());
    }
    let mut i: usize = 0;
    while i < manifest_at.len()
        invariant
            i <= manifest_at@.len(),
            match language {
                Some(l) => l@ == "generic"@ || recognized_language(crate::lang::lower_seq(l@)),
                None => true,
            },
            manifest_at@.len() == ancestors.deep_view().len(),
            ancestors.deep_view() == ancestors_of(file_path@),
            ancestors.deep_view().len() == ancestors@.len(),
            first_hit(manifest_at@, 0) == first_hit(manifest_at@, i as int),
        decreases manifest_at@.len() - i,
    {
        if manifest_at[i] {
            proof {
                assert(ancestors@[i as int]@ == ancestors_of(file_path@)[i as int]);
            }
            return Ok(ancestors[i].clone());
        }
        i = i + 1;
    }
    if ancestors.len() > 0 {
        proof {
            assert(ancestors@[0]@ == ancestors_of(file_path@)[0]);
        }
        Ok(ancestors[0].clone())
    } else {
        Ok(String::from_str("."))
    }
}

} // verus!
