//! Character-level text utilities shared by the classifier, the JSON parser
//! and the reply formatting: ASCII case folding, substring search and
//! conversions between `&str`, `Vec<char>` and `String`.
use vstd::prelude::*;

verus! {

/// Whitespace as this library understands it: the ASCII whitespace
/// characters. Keyword and token scanning is deliberately simple and does
/// not recognise the more exotic Unicode spaces.
pub open spec fn is_ws(c: char) -> bool {
    c == ' ' || c == '\t' || c == '\n' || c == '\r'
}

/// Returns whether `c` is a whitespace character.
pub fn ws_char(c: char) -> (r: bool)
    ensures
        r == is_ws(c),
{
    c == ' ' || c == '\t' || c == '\n' || c == '\r'
}

/// ASCII lower-casing of one character; every other character is unchanged.
pub open spec fn lower_char(c: char) -> char {
    if 'A' <= c && c <= 'Z' {
        ((c as u32 + 32) as u8) as char
    } else {
        c
    }
}

/// ASCII lower-casing of a character sequence.
pub open spec fn lower(s: Seq<char>) -> Seq<char> {
    s.map_values(|c: char| lower_char(c))
}

/// Returns the ASCII lower-cased form of `c`.
pub fn to_lower_char(c: char) -> (r: char)
    ensures
        r == lower_char(c),
{
    if 'A' <= c && c <= 'Z' {
        ((c as u32 + 32) as u8) as char
    } else {
        c
    }
}

/// Returns the ASCII lower-cased form of `v`.
pub fn to_lower(v: &Vec<char>) -> (r: Vec<char>)
    ensures
        r@ == lower(v@),
{
    let mut out: Vec<char> = Vec::new();
    let mut i: usize = 0;
    while i < v.len()
        invariant
            i <= v.len(),
            out@ == lower(v@.subrange(0, i as int)),
        decreases v.len() - i,
    {
        out.push(to_lower_char(v[i]));
        i = i + 1;
        proof {
            assert(v@.subrange(0, i as int).drop_last() =~= v@.subrange(0, i as int - 1));
            assert(lower(v@.subrange(0, i as int)) =~= out@);
        }
    }
    proof {
        assert(v@.subrange(0, v@.len() as int) =~= v@);
    }
    out
}

/// `p` occurs as a contiguous subsequence of `s` starting at `i`.
pub open spec fn occurs_at(s: Seq<char>, p: Seq<char>, i: int) -> bool {
    0 <= i && i + p.len() <= s.len() && s.subrange(i, i + p.len()) == p
}

/// `p` occurs somewhere in `s`.
pub open spec fn contains_sub(s: Seq<char>, p: Seq<char>) -> bool {
    exists|i: int| occurs_at(s, p, i)
}

/// Returns whether `p` occurs in `hay` starting at position `i`.
pub fn matches_at(hay: &Vec<char>, p: &Vec<char>, i: usize) -> (r: bool)
    requires
        i + p@.len() <= hay@.len(),
    ensures
        r == occurs_at(hay@, p@, i as int),
{
    let n = hay.len();
    let m = p.len();
    let mut j: usize = 0;
    while j < m
        invariant
            j <= m,
            m == p@.len(),
            n == hay@.len(),
            i + m <= n,
            forall|k: int| 0 <= k < j ==> hay@[i + k] == p@[k],
        decreases m - j,
    {
        if hay[i + j] != p[j] {
            proof {
                assert(hay@.subrange(i as int, i + p@.len())[j as int] != p@[j as int]);
            }
            return false;
        }
        j = j + 1;
    }
    proof {
        assert(hay@.subrange(i as int, i + p@.len()) =~= p@);
    }
    true
}

/// The first position at or after `from` where `p` occurs in `s`, if any.
pub open spec fn first_occurrence(s: Seq<char>, p: Seq<char>, from: int) -> Option<int>
    decreases s.len() - from,
{
    if from < 0 || from + p.len() > s.len() {
        None
    } else if p.len() == 0 {
        Some(from)
    } else if occurs_at(s, p, from) {
        Some(from)
    } else {
        first_occurrence(s, p, from + 1)
    }
}

/// The last position at or before `upto` where `p` occurs in `s`, if any.
pub open spec fn last_occurrence_upto(s: Seq<char>, p: Seq<char>, upto: int) -> Option<int>
    decreases upto + 1,
{
    if upto < 0 {
        None
    } else if occurs_at(s, p, upto) {
        Some(upto)
    } else {
        last_occurrence_upto(s, p, upto - 1)
    }
}

/// The last position where `p` occurs in `s`, if any.
pub open spec fn last_occurrence(s: Seq<char>, p: Seq<char>) -> Option<int> {
    last_occurrence_upto(s, p, s.len() - p.len())
}

/// Returns the last position where `p` occurs in `hay`.
pub fn rfind(hay: &Vec<char>, p: &Vec<char>) -> (r: Option<usize>)
    ensures
        match r {
            Some(i) => last_occurrence(hay@, p@) == Some(i as int),
            None => last_occurrence(hay@, p@) is None,
        },
{
    if p.len() > hay.len() {
        return None;
    }
    let mut i: usize = hay.len() - p.len();
    loop
        invariant
            p@.len() <= hay@.len(),
            i + p@.len() <= hay@.len(),
            last_occurrence(hay@, p@) == last_occurrence_upto(hay@, p@, i as int),
        decreases i,
    {
        if matches_at(hay, p, i) {
            return Some(i);
        }
        if i == 0 {
            proof {
                assert(last_occurrence_upto(hay@, p@, -1) is None);
            }
            return None;
        }
        i = i - 1;
    }
}

/// Returns the first position at or after `from` where `p` occurs in `hay`.
pub fn find_from(hay: &Vec<char>, p: &Vec<char>, from: usize) -> (r: Option<usize>)
    ensures
        match r {
            Some(i) => first_occurrence(hay@, p@, from as int) == Some(i as int),
            None => first_occurrence(hay@, p@, from as int) is None,
        },
{
    let n = hay.len();
    let m = p.len();
    if m > n {
        return None;
    }
    if from > n - m {
        return None;
    }
    if m == 0 {
        return Some(from);
    }
    let mut i: usize = from;
    while i <= n - m
        invariant
            from <= i,
            0 < m <= n,
            n == hay@.len(),
            m == p@.len(),
            first_occurrence(hay@, p@, from as int) == first_occurrence(hay@, p@, i as int),
        decreases n - i,
    {
        if matches_at(hay, p, i) {
            return Some(i);
        }
        i = i + 1;
    }
    None
}

/// A found first occurrence is an occurrence at or after `from`; a miss
/// means no position at or after `from` carries one.
pub proof fn lemma_first_occurrence_some(s: Seq<char>, p: Seq<char>, from: int)
    requires
        0 <= from,
        p.len() > 0,
    ensures
        match first_occurrence(s, p, from) {
            Some(i) => occurs_at(s, p, i) && from <= i,
            None => forall|i: int| from <= i ==> !occurs_at(s, p, i),
        },
    decreases s.len() - from,
{
    if from + p.len() > s.len() {
    } else if occurs_at(s, p, from) {
    } else {
        lemma_first_occurrence_some(s, p, from + 1);
    }
}

/// A found last occurrence is an occurrence; a miss means no position at or
/// before `upto` carries one.
pub proof fn lemma_last_occurrence_upto_some(s: Seq<char>, p: Seq<char>, upto: int)
    ensures
        match last_occurrence_upto(s, p, upto) {
            Some(i) => occurs_at(s, p, i) && i <= upto,
            None => forall|i: int| i <= upto ==> !occurs_at(s, p, i),
        },
    decreases upto + 1,
{
    if upto >= 0 && !occurs_at(s, p, upto) {
        lemma_last_occurrence_upto_some(s, p, upto - 1);
    }
}

/// `contains_sub` holds exactly when a first occurrence exists (searching
/// from the start).
pub proof fn lemma_contains_first(s: Seq<char>, p: Seq<char>)
    requires
        p.len() > 0,
    ensures
        contains_sub(s, p) <==> first_occurrence(s, p, 0) is Some,
{
    lemma_first_occurrence_some(s, p, 0);
    if contains_sub(s, p) {
        let i = choose|i: int| occurs_at(s, p, i);
        assert(i >= 0);
        if first_occurrence(s, p, 0) is None {
            assert(!occurs_at(s, p, i));
        }
    }
}

/// Returns whether `p` occurs anywhere in `hay`.
pub fn contains_pat(hay: &Vec<char>, p: &Vec<char>) -> (r: bool)
    requires
        p@.len() > 0,
    ensures
        r == contains_sub(hay@, p@),
{
    proof {
        lemma_contains_first(hay@, p@);
    }
    match find_from(hay, p, 0) {
        Some(_) => true,
        None => false,
    }
}

/// Returns the characters of `s`, in order.
pub fn str_chars(s: &str) -> (v: Vec<char>)
    ensures
        v@ == s@,
{
    let n = s.unicode_len();
    let mut v: Vec<char> = Vec::new();
    let mut i: usize = 0;
    while i < n
        invariant
            i <= n,
            n == s@.len(),
            v@ == s@.subrange(0, i as int),
        decreases n - i,
    {
        v.push(s.get_char(i));
        i = i + 1;
        proof {
            assert(v@ =~= s@.subrange(0, i as int));
        }
    }
    proof {
        assert(s@.subrange(0, s@.len() as int) =~= s@);
    }
    v
}

/// Returns a copy of the characters of `s` between `a` and `b`.
pub fn copy_range(s: &Vec<char>, a: usize, b: usize) -> (r: Vec<char>)
    requires
        a <= b <= s@.len(),
    ensures
        r@ == s@.subrange(a as int, b as int),
{
    let mut r: Vec<char> = Vec::new();
    let mut i: usize = a;
    while i < b
        invariant
            a <= i <= b <= s@.len(),
            r@ == s@.subrange(a as int, i as int),
        decreases b - i,
    {
        r.push(s[i]);
        i = i + 1;
        proof {
            assert(r@ =~= s@.subrange(a as int, i as int));
        }
    }
    r
}

/// Relies on `String`'s `FromIterator<char>` implementation: collecting an
/// iterator of characters yields the string of exactly those characters, in
/// order.
#[verifier::external_body]
pub fn chars_to_string(v: &Vec<char>) -> (r: String)
    ensures
        r@ == v@,
{
    v.iter().collect()
}

/// Relies on `char::from_u32`: it returns `Some` exactly for Unicode scalar
/// values (code points that are not surrogates and not above `char::MAX`),
/// and the returned character has the given code.
#[verifier::external_body]
pub fn char_from_u32(x: u32) -> (r: Option<char>)
    ensures
        r is Some <==> (x < 0xD800 || (0xE000 <= x && x < 0x110000)),
        r matches Some(c) ==> c as u32 == x,
{
    char::from_u32(x)
}

} // verus!
