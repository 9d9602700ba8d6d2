//! Language identifiers: normalization, extension-based inference, and the
//! supported/recognized language lists.

use vstd::prelude::*;

use crate::text::{chars_of, str_eq, string_from_chars};

verus! {

/// ASCII lower-casing of one character.
pub open spec fn lower_char(c: char) -> char {
    match c {
        'A' => 'a',
        'B' => 'b',
        'C' => 'c',
        'D' => 'd',
        'E' => 'e',
        'F' => 'f',
        'G' => 'g',
        'H' => 'h',
        'I' => 'i',
        'J' => 'j',
        'K' => 'k',
        'L' => 'l',
        'M' => 'm',
        'N' => 'n',
        'O' => 'o',
        'P' => 'p',
        'Q' => 'q',
        'R' => 'r',
        'S' => 's',
        'T' => 't',
        'U' => 'u',
        'V' => 'v',
        'W' => 'w',
        'X' => 'x',
        'Y' => 'y',
        'Z' => 'z',
        _ => c,
    }
}

/// ASCII lower-casing of a character sequence.
pub open spec fn lower_seq(s: Seq<char>) -> Seq<char> {
    s.map_values(|c: char| lower_char(c))
}

fn lower_char_exec(c: char) -> (r: char)
    ensures
        r == lower_char(c),
{
    match c {
        'A' => 'a',
        'B' => 'b',
        'C' => 'c',
        'D' => 'd',
        'E' => 'e',
        'F' => 'f',
        'G' => 'g',
        'H' => 'h',
        'I' => 'i',
        'J' => 'j',
        'K' => 'k',
        'L' => 'l',
        'M' => 'm',
        'N' => 'n',
        'O' => 'o',
        'P' => 'p',
        'Q' => 'q',
        'R' => 'r',
        'S' => 's',
        'T' => 't',
        'U' => 'u',
        'V' => 'v',
        'W' => 'w',
        'X' => 'x',
        'Y' => 'y',
        'Z' => 'z',
        _ => c,
    }
}

/// ASCII-lower-cases a character vector.
pub fn ascii_lower(v: &Vec<char>) -> (r: Vec<char>)
    ensures
        r@ == lower_seq(v@),
{
    let mut r: Vec<char> = Vec::new();
    let mut i: usize = 0;
    while i < v.len()
        invariant
            i <= v.len(),
            r@ =~= v@.subrange(0, i as int).map_values(|c: char| lower_char(c)),
        decreases v.len() - i,
    {
        r.push(lower_char_exec(v[i]));
        proof {
            assert(v@.subrange(0, i + 1).map_values(|c: char| lower_char(c)) =~= v@.subrange(
                0,
                i as int,
            ).map_values(|c: char| lower_char(c)).push(lower_char(v@[i as int])));
        }
        i = i + 1;
    }
    proof {
        assert(v@.subrange(0, v@.len() as int) =~= v@);
    }
    r
}

/// The position of the last occurrence of `c` in `s`.
pub open spec fn last_pos(s: Seq<char>, c: char) -> Option<int>
    decreases s.len(),
{
    if s.len() == 0 {
        None::<int>
    } else if s.last() == c {
        Some(s.len() - 1)
    } else {
        last_pos(s.drop_last(), c)
    }
}

/// Finds the last occurrence of a character within the first `n`
/// characters.
pub fn last_pos_upto(v: &Vec<char>, c: char, n: usize) -> (r: Option<usize>)
    requires
        n <= v@.len(),
    ensures
        match r {
            Some(i) => i < n && last_pos(v@.subrange(0, n as int), c) == Some(i as int),
            None => last_pos(v@.subrange(0, n as int), c) is None,
        },
    decreases n,
{
    if n == 0 {
        None
    } else if v[n - 1] == c {
        Some(n - 1)
    } else {
        proof {
            assert(v@.subrange(0, n as int).drop_last() =~= v@.subrange(0, n - 1));
        }
        last_pos_upto(v, c, n - 1)
    }
}

/// Finds the last occurrence of a character.
pub fn last_pos_of(v: &Vec<char>, c: char) -> (r: Option<usize>)
    ensures
        match r {
            Some(i) => i < v@.len() && last_pos(v@, c) == Some(i as int),
            None => last_pos(v@, c) is None,
        },
{
    proof {
        assert(v@.subrange(0, v@.len() as int) =~= v@);
    }
    last_pos_upto(v, c, v.len())
}

/// The file-name portion of a path: everything after the last `/`.
pub open spec fn file_name_of(p: Seq<char>) -> Seq<char> {
    match last_pos(p, '/') {
        Some(i) => p.subrange(i + 1, p.len() as int),
        None => p,
    }
}

/// The extension of a path: the part of the file name after its last dot,
/// unless the only dot is the leading character of the file name.
pub open spec fn extension_of(p: Seq<char>) -> Option<Seq<char>> {
    let name = file_name_of(p);
    match last_pos(name, '.') {
        Some(j) => if j == 0 {
            None
        } else {
            Some(name.subrange(j + 1, name.len() as int))
        },
        None => None,
    }
}

fn subvec(v: &Vec<char>, from: usize, to: usize) -> (r: Vec<char>)
    requires
        from <= to <= v@.len(),
    ensures
        r@ == v@.subrange(from as int, to as int),
{
    let mut r: Vec<char> = Vec::new();
    let mut i: usize = from;
    while i < to
        invariant
            from <= i <= to <= v@.len(),
            r@ =~= v@.subrange(from as int, i as int),
        decreases to - i,
    {
        r.push(v[i]);
        proof {
            assert(v@.subrange(from as int, i + 1) =~= v@.subrange(from as int, i as int).push(
                v@[i as int],
            ));
        }
        i = i + 1;
    }
    r
}

/// Computes the extension of a path.
pub fn path_extension(path: &str) -> (r: Option<String>)
    ensures
        match r {
            Some(e) => extension_of(path@) == Some(e@),
            None => extension_of(path@) is None,
        },
{
    let chars = chars_of(path);
    let name = match last_pos_of(&chars, '/') {
        Some(i) => subvec(&chars, i + 1, chars.len()),
        None => chars,
    };
    match last_pos_of(&name, '.') {
        Some(j) => {
            if j == 0 {
                None
            } else {
                let ext = subvec(&name, j + 1, name.len());
                Some(string_from_chars(&ext))
            }
        },
        None => None,
    }
}

/// The language identifier after lower-casing and, for an unknown or empty
/// identifier, inference from the file extension.
pub open spec fn normalized_language(language: Seq<char>, path: Seq<char>) -> Seq<char> {
    let lower = lower_seq(language);
    if lower == "unknown"@ || lower.len() == 0 {
        match extension_of(path) {
            Some(e) => if e == "rs"@ {
                "rust"@
            } else if e == "py"@ {
                "python"@
            } else if e == "js"@ {
                "javascript"@
            } else if e == "ts"@ {
                "typescript"@
            } else {
                lower
            },
            None => lower,
        }
    } else {
        lower
    }
}

/// Lower-cases a language identifier and infers the language from the file
/// extension when the identifier is `"unknown"` or empty.
pub fn normalize_language(language: &str, file_path: &str) -> (r: String)
    ensures
        r@ == normalized_language(language@, file_path@),
{
    let chars = chars_of(language);
    let low = ascii_lower(&chars);
    let lower = string_from_chars(&low);
    if str_eq(lower.as_str(), "unknown") || lower.as_str().is_empty() {
        match path_extension(file_path) {
            Some(e) => {
                if str_eq(e.as_str(), "rs") {
                    String::from_str("rust")
                } else if str_eq(e.as_str(), "py") {
                    String::from_str("python")
                } else if str_eq(e.as_str(), "js") {
                    String::from_str("javascript")
                } else if str_eq(e.as_str(), "ts") {
                    String::from_str("typescript")
                } else {
                    lower
                }
            },
            None => lower,
        }
    } else {
        lower
    }
}

/// Whether a (normalized) language has a real adapter implementation.
pub open spec fn supported_language(l: Seq<char>) -> bool {
    l == "rust"@
}

/// Whether a (normalized) language is understood for routing purposes.
pub open spec fn recognized_language(l: Seq<char>) -> bool {
    l == "rust"@ || l == "javascript"@ || l == "typescript"@ || l == "python"@
}

/// The languages with a real adapter implementation.
pub fn get_supported_languages() -> (r: Vec<&'static str>)
    ensures
        r@.len() == 1,
        r@[0]@ == "rust"@,
        forall|l: Seq<char>|
            supported_language(l) <==> exists|i: int| 0 <= i < r@.len() && (#[trigger] r@[i])@ == l,
{
    let r: Vec<&'static str> = vec!["rust"];
    proof {
        assert(forall|l: Seq<char>| supported_language(l) ==> r@[0]@ == l);
    }
    r
}

/// The languages understood for routing and detection purposes.
pub fn get_recognized_languages() -> (r: Vec<&'static str>)
    ensures
        r@.len() == 4,
        r@[0]@ == "rust"@,
        r@[1]@ == "javascript"@,
        r@[2]@ == "typescript"@,
        r@[3]@ == "python"@,
        forall|l: Seq<char>|
            recognized_language(l) <==> exists|i: int| 0 <= i < r@.len() && (#[trigger] r@[i])@
                == l,
{
    let r: Vec<&'static str> = vec!["rust", "javascript", "typescript", "python"];
    proof {
        assert(forall|l: Seq<char>|
            recognized_language(l) ==> (r@[0]@ == l || r@[1]@ == l || r@[2]@ == l || r@[3]@ == l));
    }
    r
}

/// Tests whether the language is in the supported set.
pub fn is_supported_language(l: &str) -> (r: bool)
    ensures
        r == supported_language(l@),
{
    str_eq(l, "rust")
}

/// Tests whether the language is in the recognized set.
pub fn is_recognized_language(l: &str) -> (r: bool)
    ensures
        r == recognized_language(l@),
{
    str_eq(l, "rust") || str_eq(l, "javascript") || str_eq(l, "typescript") || str_eq(l, "python")
}

} // verus!
