//! Character-level utilities shared by the protocol and formatting modules.
//!
//! Strings are processed as vectors of `char`; the view of a `&str` and of
//! a `Vec<char>` is the same `Seq<char>`, so contracts stated over one
//! carry to the other.

use vstd::prelude::*;
use vstd::string::StringExecFns;

verus! {

broadcast use vstd::string::group_string_axioms;

/// Relies on `String::push`: appends the character to the end of the string.
#[verifier::external_body]
pub(crate) fn string_push(s: &mut String, c: char)
    ensures
        final(s)@ == old(s)@.push(c),
{
    s.push(c);
}

/// Collects the characters of a string slice into a vector.
pub fn chars_of(s: &str) -> (r: Vec<char>)
    ensures
        r@ == s@,
{
    let mut it = s.chars();
    let mut r: Vec<char> = Vec::new();
    loop
        invariant
            r@ + vstd::std_specs::iter::IteratorSpec::remaining(&it) == s@,
        ensures
            r@ == s@,
        decreases s@.len() - r@.len(),
    {
        match it.next() {
            Some(c) => {
                r.push(c);
            },
            None => {
                break ;
            },
        }
    }
    r
}

/// Builds an owned string out of a vector of characters.
pub fn string_from_chars(v: &Vec<char>) -> (r: String)
    ensures
        r@ == v@,
{
    let mut r = String::new();
    let mut i: usize = 0;
    while i < v.len()
        invariant
            i <= v.len(),
            r@ == v@.subrange(0, i as int),
        decreases v.len() - i,
    {
        string_push(&mut r, v[i]);
        i = i + 1;
        proof {
            assert(r@ =~= v@.subrange(0, i as int));
        }
    }
    proof {
        assert(v@.subrange(0, v@.len() as int) =~= v@);
    }
    r
}

/// The character for one decimal digit.
pub open spec fn dec_digit(d: nat) -> char {
    if d == 0 {
        '0'
    } else if d == 1 {
        '1'
    } else if d == 2 {
        '2'
    } else if d == 3 {
        '3'
    } else if d == 4 {
        '4'
    } else if d == 5 {
        '5'
    } else if d == 6 {
        '6'
    } else if d == 7 {
        '7'
    } else if d == 8 {
        '8'
    } else {
        '9'
    }
}

/// The decimal representation of a natural number, most significant digit
/// first, with no leading zeros (and `"0"` for zero).
pub open spec fn dec_rep(n: nat) -> Seq<char>
    decreases n,
{
    if n < 10 {
        seq![dec_digit(n)]
    } else {
        dec_rep(n / 10).push(dec_digit(n % 10))
    }
}

/// Ten to the given power.
pub open spec fn pow10(e: nat) -> nat
    decreases e,
{
    if e == 0 {
        1
    } else {
        10 * pow10((e - 1) as nat)
    }
}

/// The character for one decimal digit value.
pub fn digit_char(d: u64) -> (c: char)
    requires
        d < 10,
    ensures
        c == dec_digit(d as nat),
{
    if d == 0 {
        '0'
    } else if d == 1 {
        '1'
    } else if d == 2 {
        '2'
    } else if d == 3 {
        '3'
    } else if d == 4 {
        '4'
    } else if d == 5 {
        '5'
    } else if d == 6 {
        '6'
    } else if d == 7 {
        '7'
    } else if d == 8 {
        '8'
    } else {
        '9'
    }
}

/// Formats a number in decimal.
pub fn dec_chars_of_u64(n: u64) -> (r: Vec<char>)
    ensures
        r@ == dec_rep(n as nat),
{
    if n == 0 {
        let r: Vec<char> = vec!['0'];
        proof {
            assert(r@ =~= dec_rep(0));
        }
        return r;
    }
    let mut digits: Vec<char> = Vec::new();
    let mut m: u64 = n;
    loop
        invariant_except_break
            m > 0,
            dec_rep(n as nat) =~= dec_rep(m as nat) + digits@.reverse(),
        ensures
            dec_rep(n as nat) =~= digits@.reverse(),
        decreases m,
    {
        let d: u64 = m % 10;
        let c = digit_char(d);
        proof {
            assert((digits@.push(c)).reverse() =~= seq![c] + digits@.reverse());
            if m >= 10 {
                assert(dec_rep(m as nat) =~= (dec_rep(m as nat / 10) + seq![c]));
                assert(dec_rep(m as nat / 10) + (digits@.push(c)).reverse() =~= (dec_rep(
                    m as nat / 10,
                ) + seq![c]) + digits@.reverse());
            } else {
                assert(dec_rep(m as nat) =~= seq![c]);
                assert(seq![c] + digits@.reverse() =~= (digits@.push(c)).reverse());
            }
        }
        digits.push(c);
        m = m / 10;
        if m == 0 {
            break ;
        }
    }
    let mut r: Vec<char> = Vec::new();
    let mut i: usize = 0;
    while i < digits.len()
        invariant
            i <= digits.len(),
            r@.len() == i,
            forall|j: int| 0 <= j < i ==> r@[j] == digits@[digits@.len() - 1 - j],
        decreases digits.len() - i,
    {
        r.push(digits[digits.len() - 1 - i]);
        i = i + 1;
    }
    proof {
        assert(r@ =~= digits@.reverse());
    }
    r
}

/// Ten-to-the-power is monotone in the exponent.
pub proof fn lemma_pow10_increases(a: nat, b: nat)
    requires
        a <= b,
    ensures
        pow10(a) <= pow10(b),
    decreases b,
{
    if a < b {
        lemma_pow10_increases(a, (b - 1) as nat);
        assert(pow10(b) == 10 * pow10((b - 1) as nat));
    }
}

/// Compares two string slices by their characters.
pub fn str_eq(a: &str, b: &str) -> (r: bool)
    ensures
        r == (a@ == b@),
{
    let owned_a = a.to_owned();
    let owned_b = b.to_owned();
    owned_a == owned_b
}

/// The decimal representation of an integer, with a leading minus sign
/// when it is negative.
pub open spec fn dec_rep_signed(n: int) -> Seq<char> {
    if n < 0 {
        seq!['-'] + dec_rep((-n) as nat)
    } else {
        dec_rep(n as nat)
    }
}

/// Formats an unsigned number as a decimal string.
pub fn dec_string_u64(n: u64) -> (s: String)
    ensures
        s@ == dec_rep(n as nat),
{
    let v = dec_chars_of_u64(n);
    string_from_chars(&v)
}

/// Formats a signed number as a decimal string.
pub fn dec_string_i64(n: i64) -> (s: String)
    ensures
        s@ == dec_rep_signed(n as int),
{
    if n >= 0 {
        dec_string_u64(n as u64)
    } else {
        let magnitude: u64 = ((-(n + 1)) as u64) + 1;
        let v = dec_chars_of_u64(magnitude);
        let mut s = String::new();
        string_push(&mut s, '-');
        let tail = string_from_chars(&v);
        let r = s.concat(tail.as_str());
        proof {
            assert(r@ =~= seq!['-'] + dec_rep(magnitude as nat));
        }
        r
    }
}

/// Whether the characters of `needle` occur in `hay` starting at `at`.
pub open spec fn matches_at(hay: Seq<char>, needle: Seq<char>, at: int) -> bool {
    0 <= at && at + needle.len() <= hay.len() && hay.subrange(at, at + needle.len()) == needle
}

/// Tests whether `needle` occurs in `hay` at position `at`.
pub fn starts_with_at(hay: &Vec<char>, needle: &Vec<char>, at: usize) -> (r: bool)
    ensures
        r == matches_at(hay@, needle@, at as int),
{
    if at > hay.len() || needle.len() > hay.len() - at {
        return false;
    }
    let mut j: usize = 0;
    while j < needle.len()
        invariant
            at + needle.len() <= hay.len(),
            j <= needle.len(),
            forall|k: int| 0 <= k < j ==> hay@[at + k] == needle@[k],
        decreases needle.len() - j,
    {
        if hay[at + j] != needle[j] {
            proof {
                assert(hay@.subrange(at as int, at + needle@.len())[j as int] != needle@[j as int]);
            }
            return false;
        }
        j = j + 1;
    }
    proof {
        assert(hay@.subrange(at as int, at + needle@.len()) =~= needle@);
    }
    true
}

/// The first position at or after `from` where `needle` occurs in `hay`.
pub open spec fn first_match_from(hay: Seq<char>, needle: Seq<char>, from: int, r: Option<usize>)
    -> bool {
    match r {
        Some(i) => from <= i && matches_at(hay, needle, i as int) && forall|j: int|
            from <= j < i ==> !matches_at(hay, needle, j),
        None => forall|j: int| from <= j ==> !matches_at(hay, needle, j),
    }
}

/// Finds the first occurrence of `needle` in `hay` at or after `from`.
pub fn find_from(hay: &Vec<char>, needle: &Vec<char>, from: usize) -> (r: Option<usize>)
    ensures
        first_match_from(hay@, needle@, from as int, r),
{
    if needle.len() == 0 {
        if from <= hay.len() {
            proof {
                assert(hay@.subrange(from as int, from as int) =~= needle@);
            }
            return Some(from);
        }
        return None;
    }
    let mut i: usize = from;
    while i < hay.len()
        invariant
            from <= i,
            forall|j: int| from <= j < i ==> !matches_at(hay@, needle@, j),
        decreases hay.len() - i,
    {
        if starts_with_at(hay, needle, i) {
            return Some(i);
        }
        i = i + 1;
    }
    proof {
        assert(forall|j: int|
            j >= hay@.len() && needle@.len() > 0 ==> !matches_at(hay@, needle@, j));
    }
    None
}

/// Tests whether `needle` occurs anywhere in `hay`.
pub fn contains_sub(hay: &Vec<char>, needle: &Vec<char>) -> (r: bool)
    ensures
        r == exists|j: int| matches_at(hay@, needle@, j),
{
    let r = find_from(hay, needle, 0);
    match r {
        Some(i) => {
            proof {
                assert(matches_at(hay@, needle@, i as int));
            }
            true
        },
        None => {
            proof {
                assert(forall|j: int| matches_at(hay@, needle@, j) ==> 0 <= j);
            }
            false
        },
    }
}

/// Whether a character counts as ASCII whitespace.
pub open spec fn is_space_char(c: char) -> bool {
    c == ' ' || c == '\t' || c == '\n' || c == '\r' || (c as u32) == 0x0b || (c as u32) == 0x0c
}

/// Tests whether a character counts as ASCII whitespace.
pub fn is_space(c: char) -> (r: bool)
    ensures
        r == is_space_char(c),
{
    c == ' ' || c == '\t' || c == '\n' || c == '\r' || (c as u32) == 0x0b || (c as u32) == 0x0c
}

/// The sequence with its leading whitespace dropped.
pub open spec fn trim_front(s: Seq<char>) -> Seq<char>
    decreases s.len(),
{
    if s.len() > 0 && is_space_char(s[0]) {
        trim_front(s.drop_first())
    } else {
        s
    }
}

/// The sequence with its trailing whitespace dropped.
pub open spec fn trim_back(s: Seq<char>) -> Seq<char>
    decreases s.len(),
{
    if s.len() > 0 && is_space_char(s.last()) {
        trim_back(s.drop_last())
    } else {
        s
    }
}

/// The sequence with leading and trailing whitespace dropped.
pub open spec fn trim_spec(s: Seq<char>) -> Seq<char> {
    trim_back(trim_front(s))
}

/// Drops leading and trailing ASCII whitespace.
pub fn trim_chars(v: &Vec<char>) -> (r: Vec<char>)
    ensures
        r@ == trim_spec(v@),
{
    proof {
        assert(v@.subrange(0, v@.len() as int) =~= v@);
    }
    let mut lo: usize = 0;
    while lo < v.len() && is_space(v[lo])
        invariant
            lo <= v@.len(),
            trim_front(v@) == trim_front(v@.subrange(lo as int, v@.len() as int)),
        decreases v@.len() - lo,
    {
        proof {
            assert(v@.subrange(lo as int, v@.len() as int).drop_first() =~= v@.subrange(
                lo + 1,
                v@.len() as int,
            ));
        }
        lo = lo + 1;
    }
    proof {
        if lo < v@.len() {
            assert(v@.subrange(lo as int, v@.len() as int)[0] == v@[lo as int]);
        }
        assert(trim_front(v@) == v@.subrange(lo as int, v@.len() as int));
    }
    let mut hi: usize = v.len();
    while hi > lo && is_space(v[hi - 1])
        invariant
            lo <= hi <= v@.len(),
            trim_front(v@) == v@.subrange(lo as int, v@.len() as int),
            trim_back(v@.subrange(lo as int, v@.len() as int)) == trim_back(
                v@.subrange(lo as int, hi as int),
            ),
        decreases hi,
    {
        proof {
            assert(v@.subrange(lo as int, hi as int).drop_last() =~= v@.subrange(
                lo as int,
                hi - 1,
            ));
            assert(v@.subrange(lo as int, hi as int).last() == v@[hi - 1]);
        }
        hi = hi - 1;
    }
    proof {
        if hi > lo {
            assert(v@.subrange(lo as int, hi as int).last() == v@[hi - 1]);
        }
        assert(trim_back(v@.subrange(lo as int, hi as int)) == v@.subrange(lo as int, hi as int));
    }
    subvec_chars(v, lo, hi)
}

/// Copies out the characters between two positions.
pub fn subvec_chars(v: &Vec<char>, from: usize, to: usize) -> (r: Vec<char>)
    requires
        from <= to <= v@.len(),
    ensures
        r@ == v@.subrange(from as int, to as int),
{
    let mut r: Vec<char> = Vec::new();
    let mut i: usize = from;
    while i < to
        invariant
            from <= i <= to <= v@.len(),
            r@ =~= v@.subrange(from as int, i as int),
        decreases to - i,
    {
        r.push(v[i]);
        proof {
            assert(v@.subrange(from as int, i + 1) =~= v@.subrange(from as int, i as int).push(
                v@[i as int],
            ));
        }
        i = i + 1;
    }
    r
}

/// The pieces of `s` between occurrences of `sep`, with `cur` the piece
/// read so far.
pub open spec fn split_rec(s: Seq<char>, sep: char, cur: Seq<char>) -> Seq<Seq<char>>
    decreases s.len(),
{
    if s.len() == 0 {
        seq![cur]
    } else if s[0] == sep {
        seq![cur] + split_rec(s.drop_first(), sep, Seq::<char>::empty())
    } else {
        split_rec(s.drop_first(), sep, cur.push(s[0]))
    }
}

/// The pieces of `s` between occurrences of `sep`.
pub open spec fn split_spec(s: Seq<char>, sep: char) -> Seq<Seq<char>> {
    split_rec(s, sep, Seq::<char>::empty())
}

/// Splits on a separator character.
pub fn split_on(v: &Vec<char>, sep: char) -> (r: Vec<Vec<char>>)
    ensures
        r.deep_view() == split_spec(v@, sep),
{
    let mut parts: Vec<Vec<char>> = Vec::new();
    let mut cur: Vec<char> = Vec::new();
    let mut i: usize = 0;
    proof {
        assert(v@.subrange(0, v@.len() as int) =~= v@);
        assert(parts.deep_view() =~~= Seq::<Seq<char>>::empty());
        assert(parts.deep_view() + split_rec(v@, sep, cur@) =~~= split_rec(v@, sep, cur@));
    }
    while i < v.len()
        invariant
            i <= v@.len(),
            split_spec(v@, sep) == parts.deep_view() + split_rec(
                v@.subrange(i as int, v@.len() as int),
                sep,
                cur@,
            ),
        decreases v@.len() - i,
    {
        let ghost suffix = v@.subrange(i as int, v@.len() as int);
        let ghost dv = parts.deep_view();
        let ghost curv = cur@;
        proof {
            assert(suffix[0] == v@[i as int]);
            assert(suffix.drop_first() =~= v@.subrange(i + 1, v@.len() as int));
        }
        if v[i] == sep {
            parts.push(cur);
            cur = Vec::new();
            proof {
                assert(parts.deep_view() =~~= dv.push(curv));
                assert(dv + (seq![curv] + split_rec(suffix.drop_first(), sep, cur@)) =~= dv.push(
                    curv,
                ) + split_rec(suffix.drop_first(), sep, cur@));
            }
        } else {
            cur.push(v[i]);
        }
        i = i + 1;
    }
    let ghost dv = parts.deep_view();
    let ghost curv = cur@;
    parts.push(cur);
    proof {
        assert(v@.subrange(v@.len() as int, v@.len() as int) =~= Seq::<char>::empty());
        assert(parts.deep_view() =~~= dv.push(curv));
        assert(dv + seq![curv] =~= dv.push(curv));
    }
    parts
}

/// A line with one trailing carriage return removed.
pub open spec fn strip_cr(s: Seq<char>) -> Seq<char> {
    if s.len() > 0 && s.last() == '\r' {
        s.drop_last()
    } else {
        s
    }
}

/// The lines of `s`: pieces between newline characters, each with one
/// trailing carriage return removed, and no final empty piece.
pub open spec fn lines_rec(s: Seq<char>, cur: Seq<char>) -> Seq<Seq<char>>
    decreases s.len(),
{
    if s.len() == 0 {
        if cur.len() == 0 {
            Seq::<Seq<char>>::empty()
        } else {
            seq![strip_cr(cur)]
        }
    } else if s[0] == '\n' {
        seq![strip_cr(cur)] + lines_rec(s.drop_first(), Seq::<char>::empty())
    } else {
        lines_rec(s.drop_first(), cur.push(s[0]))
    }
}

/// The lines of `s`.
pub open spec fn lines_spec(s: Seq<char>) -> Seq<Seq<char>> {
    lines_rec(s, Seq::<char>::empty())
}

/// Splits text into lines the way `str::lines` does.
pub fn split_lines(v: &Vec<char>) -> (r: Vec<Vec<char>>)
    ensures
        r.deep_view() == lines_spec(v@),
{
    let mut parts: Vec<Vec<char>> = Vec::new();
    let mut cur: Vec<char> = Vec::new();
    let mut i: usize = 0;
    proof {
        assert(v@.subrange(0, v@.len() as int) =~= v@);
        assert(parts.deep_view() =~~= Seq::<Seq<char>>::empty());
        assert(parts.deep_view() + lines_rec(v@, cur@) =~~= lines_rec(v@, cur@));
    }
    while i < v.len()
        invariant
            i <= v@.len(),
            lines_spec(v@) == parts.deep_view() + lines_rec(
                v@.subrange(i as int, v@.len() as int),
                cur@,
            ),
        decreases v@.len() - i,
    {
        let ghost suffix = v@.subrange(i as int, v@.len() as int);
        let ghost dv = parts.deep_view();
        let ghost curv = cur@;
        proof {
            assert(suffix[0] == v@[i as int]);
            assert(suffix.drop_first() =~= v@.subrange(i + 1, v@.len() as int));
        }
        if v[i] == '\n' {
            let mut line = cur;
            if line.len() > 0 && line[line.len() - 1] == '\r' {
                let _ = line.pop();
            }
            proof {
                assert(line@ =~= strip_cr(curv));
            }
            parts.push(line);
            cur = Vec::new();
            proof {
                assert(parts.deep_view() =~~= dv.push(strip_cr(curv)));
                assert(dv + (seq![strip_cr(curv)] + lines_rec(suffix.drop_first(), cur@))
                    =~= dv.push(strip_cr(curv)) + lines_rec(suffix.drop_first(), cur@));
            }
        } else {
            cur.push(v[i]);
        }
        i = i + 1;
    }
    proof {
        assert(v@.subrange(v@.len() as int, v@.len() as int) =~= Seq::<char>::empty());
    }
    let ghost dv = parts.deep_view();
    let ghost curv = cur@;
    if cur.len() > 0 {
        let mut line = cur;
        if line[line.len() - 1] == '\r' {
            let _ = line.pop();
        }
        proof {
            assert(line@ =~= strip_cr(curv));
        }
        parts.push(line);
        proof {
            assert(parts.deep_view() =~~= dv.push(strip_cr(curv)));
            assert(dv + seq![strip_cr(curv)] =~= dv.push(strip_cr(curv)));
        }
    } else {
        proof {
            assert(dv + Seq::<Seq<char>>::empty() =~= dv);
        }
    }
    parts
}

/// `s` from position `i` on, with every occurrence of `pat` removed,
/// scanning left to right.
pub open spec fn remove_all_from(s: Seq<char>, pat: Seq<char>, i: int) -> Seq<char>
    decreases s.len() - i,
{
    if pat.len() == 0 || i < 0 || i + pat.len() > s.len() {
        if 0 <= i <= s.len() {
            s.subrange(i, s.len() as int)
        } else {
            Seq::<char>::empty()
        }
    } else if s.subrange(i, i + pat.len() as int) == pat {
        remove_all_from(s, pat, i + pat.len() as int)
    } else {
        seq![s[i]] + remove_all_from(s, pat, i + 1)
    }
}

/// `s` with every occurrence of `pat` removed, scanning left to right.
pub open spec fn remove_all_spec(s: Seq<char>, pat: Seq<char>) -> Seq<char> {
    remove_all_from(s, pat, 0)
}

/// Removes every occurrence of `pat`, scanning left to right.
pub fn remove_all(v: &Vec<char>, pat: &Vec<char>) -> (r: Vec<char>)
    ensures
        r@ == remove_all_spec(v@, pat@),
{
    if pat.len() == 0 {
        let r = subvec_chars(v, 0, v.len());
        proof {
            assert(r@ =~= remove_all_spec(v@, pat@));
        }
        return r;
    }
    let mut out: Vec<char> = Vec::new();
    let mut i: usize = 0;
    while i < v.len()
        invariant
            i <= v@.len(),
            pat@.len() > 0,
            remove_all_spec(v@, pat@) == out@ + remove_all_from(v@, pat@, i as int),
        decreases v@.len() - i,
    {
        if starts_with_at(v, pat, i) {
            i = i + pat.len();
        } else {
            out.push(v[i]);
            i = i + 1;
        }
    }
    proof {
        assert(out@ + remove_all_from(v@, pat@, v@.len() as int) =~= out@);
    }
    out
}

/// The pieces joined with a separator character between them.
pub open spec fn join_spec(parts: Seq<Seq<char>>, sep: char) -> Seq<char>
    decreases parts.len(),
{
    if parts.len() == 0 {
        Seq::<char>::empty()
    } else if parts.len() == 1 {
        parts[0]
    } else {
        join_spec(parts.drop_last(), sep).push(sep) + parts.last()
    }
}

/// Joins pieces with a separator character.
pub fn join_with(parts: &Vec<Vec<char>>, sep: char) -> (r: Vec<char>)
    ensures
        r@ == join_spec(parts.deep_view(), sep),
{
    let mut r: Vec<char> = Vec::new();
    let mut i: usize = 0;
    while i < parts.len()
        invariant
            i <= parts@.len(),
            parts.deep_view().len() == parts@.len(),
            r@ == join_spec(parts.deep_view().subrange(0, i as int), sep),
        decreases parts@.len() - i,
    {
        let ghost upto = parts.deep_view().subrange(0, i + 1);
        proof {
            assert(upto.drop_last() =~= parts.deep_view().subrange(0, i as int));
            assert(upto.last() == parts.deep_view()[i as int]);
            assert(upto[0] == parts.deep_view()[0]);
        }
        if i > 0 {
            r.push(sep);
        }
        let part = &parts[i];
        let mut j: usize = 0;
        while j < part.len()
            invariant
                j <= part@.len(),
                part.deep_view() == parts.deep_view()[i as int],
                i < parts.deep_view().len(),
                r@ == if i == 0 {
                    part@.subrange(0, j as int)
                } else {
                    join_spec(parts.deep_view().subrange(0, i as int), sep).push(sep)
                        + part@.subrange(0, j as int)
                },
            decreases part@.len() - j,
        {
            r.push(part[j]);
            proof {
                assert(part@.subrange(0, j + 1) =~= part@.subrange(0, j as int).push(
                    part@[j as int],
                ));
            }
            j = j + 1;
        }
        proof {
            assert(part@.subrange(0, part@.len() as int) =~= part@);
            assert(part@ == parts.deep_view()[i as int]);
            if i == 0 {
                assert(join_spec(upto, sep) == upto[0]);
            }
        }
        i = i + 1;
    }
    proof {
        assert(parts.deep_view().subrange(0, parts.deep_view().len() as int) =~= parts.deep_view());
    }
    r
}

/// The pieces joined with a separator string between them.
pub open spec fn join_sep_spec(parts: Seq<Seq<char>>, sep: Seq<char>) -> Seq<char>
    decreases parts.len(),
{
    if parts.len() == 0 {
        Seq::<char>::empty()
    } else if parts.len() == 1 {
        parts[0]
    } else {
        join_sep_spec(parts.drop_last(), sep) + sep + parts.last()
    }
}

/// Joins pieces with a separator string.
pub fn join_with_sep(parts: &Vec<Vec<char>>, sep: &Vec<char>) -> (r: Vec<char>)
    ensures
        r@ == join_sep_spec(parts.deep_view(), sep@),
{
    let mut r: Vec<char> = Vec::new();
    let mut i: usize = 0;
    proof {
        assert(parts.deep_view().subrange(0, 0) =~= Seq::<Seq<char>>::empty());
    }
    while i < parts.len()
        invariant
            i <= parts@.len(),
            parts.deep_view().len() == parts@.len(),
            r@ == join_sep_spec(parts.deep_view().subrange(0, i as int), sep@),
        decreases parts@.len() - i,
    {
        let ghost upto = parts.deep_view().subrange(0, i + 1);
        proof {
            assert(upto.drop_last() =~= parts.deep_view().subrange(0, i as int));
            assert(upto.last() == parts.deep_view()[i as int]);
            assert(upto[0] == parts.deep_view()[0]);
        }
        if i > 0 {
            let mut k: usize = 0;
            let ghost base = r@;
            while k < sep.len()
                invariant
                    k <= sep@.len(),
                    r@ == base + sep@.subrange(0, k as int),
                decreases sep@.len() - k,
            {
                r.push(sep[k]);
                proof {
                    assert(sep@.subrange(0, k + 1) =~= sep@.subrange(0, k as int).push(
                        sep@[k as int],
                    ));
                    assert(base + sep@.subrange(0, k as int).push(sep@[k as int]) =~= (base
                        + sep@.subrange(0, k as int)).push(sep@[k as int]));
                }
                k = k + 1;
            }
            proof {
                assert(sep@.subrange(0, sep@.len() as int) =~= sep@);
            }
        }
        let part = &parts[i];
        let mut j: usize = 0;
        let ghost base2 = r@;
        while j < part.len()
            invariant
                j <= part@.len(),
                part.deep_view() == parts.deep_view()[i as int],
                r@ == base2 + part@.subrange(0, j as int),
            decreases part@.len() - j,
        {
            r.push(part[j]);
            proof {
                assert(part@.subrange(0, j + 1) =~= part@.subrange(0, j as int).push(
                    part@[j as int],
                ));
                assert(base2 + part@.subrange(0, j as int).push(part@[j as int]) =~= (base2
                    + part@.subrange(0, j as int)).push(part@[j as int]));
            }
            j = j + 1;
        }
        proof {
            assert(part@.subrange(0, part@.len() as int) =~= part@);
            assert(part@ =~= part.deep_view());
            if i == 0 {
                assert(join_sep_spec(upto, sep@) == upto[0]);
                assert(base2 + part@ =~= part@);
            }
            assert(r@ == join_sep_spec(upto, sep@));
        }
        i = i + 1;
    }
    proof {
        assert(parts.deep_view().subrange(0, parts.deep_view().len() as int) =~= parts.deep_view());
    }
    r
}

} // verus!
