//! Character-level helpers for the request vocabulary.
//!
//! Request keys and mutation names are analysed character by character, so
//! the logic here works on `Vec<char>` with `Seq<char>` views.

use vstd::prelude::*;

verus! {

/// Relies on `str::chars` (via `String::as_str`): yields the characters of
/// the string in order, so the collected vector's view is the string's view.
#[verifier::external_body]
pub fn chars_of(s: &String) -> (r: Vec<char>)
    ensures
        r@ == s@,
{
    s.as_str().chars().collect()
}

/// Relies on `String`'s `FromIterator<char>`: collecting characters builds
/// the string holding exactly those characters in order.
#[verifier::external_body]
pub fn string_from(v: &Vec<char>) -> (r: String)
    ensures
        r@ == v@,
{
    v.iter().collect()
}

/// ASCII lower-casing of one character; everything outside `A`..`Z` is kept.
pub open spec fn lower_char(c: char) -> char {
    if 'A' <= c && c <= 'Z' {
        (((c as u32) + 32) as u8) as char
    } else {
        c
    }
}

/// ASCII lower-casing of a character sequence.
pub open spec fn lower_seq(s: Seq<char>) -> Seq<char> {
    Seq::new(s.len(), |i: int| lower_char(s[i]))
}

/// Lower-cases one character, ASCII range only.
pub fn to_lower_char(c: char) -> (r: char)
    ensures
        r == lower_char(c),
{
    if 'A' <= c && c <= 'Z' {
        (((c as u32) + 32) as u8) as char
    } else {
        c
    }
}

/// Lower-cases a character vector, ASCII range only.
pub fn lower_chars(v: &Vec<char>) -> (r: Vec<char>)
    ensures
        r@ == lower_seq(v@),
{
    let mut out: Vec<char> = Vec::new();
    let mut i: usize = 0;
    while i < v.len()
        invariant
            i <= v.len(),
            out@ == lower_seq(v@).subrange(0, i as int),
        decreases v.len() - i,
    {
        out.push(to_lower_char(v[i]));
        i = i + 1;
        proof {
            assert(out@ =~= lower_seq(v@).subrange(0, i as int));
        }
    }
    proof {
        assert(lower_seq(v@).subrange(0, v@.len() as int) =~= lower_seq(v@));
    }
    out
}

/// Character-for-character equality of two vectors.
pub fn chars_eq(a: &Vec<char>, b: &Vec<char>) -> (r: bool)
    ensures
        r == (a@ == b@),
{
    if a.len() != b.len() {
        return false;
    }
    let mut i: usize = 0;
    while i < a.len()
        invariant
            i <= a.len(),
            a@.len() == b@.len(),
            forall|j: int| 0 <= j < i ==> a@[j] == b@[j],
        decreases a.len() - i,
    {
        if a[i] != b[i] {
            return false;
        }
        i = i + 1;
    }
    proof {
        assert(a@ =~= b@);
    }
    true
}

/// Whether `p` is a prefix of `a`.
pub fn chars_start_with(a: &Vec<char>, p: &Vec<char>) -> (r: bool)
    ensures
        r == (p@.len() <= a@.len() && a@.subrange(0, p@.len() as int) == p@),
{
    if p.len() > a.len() {
        return false;
    }
    let mut i: usize = 0;
    while i < p.len()
        invariant
            i <= p.len(),
            p@.len() <= a@.len(),
            forall|j: int| 0 <= j < i ==> a@[j] == p@[j],
        decreases p.len() - i,
    {
        if a[i] != p[i] {
            proof {
                assert(a@.subrange(0, p@.len() as int)[i as int] != p@[i as int]);
            }
            return false;
        }
        i = i + 1;
    }
    proof {
        assert(a@.subrange(0, p@.len() as int) =~= p@);
    }
    true
}

/// The head of `a` up to position `k`.
pub fn chars_prefix(a: &Vec<char>, k: usize) -> (r: Vec<char>)
    requires
        k <= a@.len(),
    ensures
        r@ == a@.subrange(0, k as int),
{
    let mut out: Vec<char> = Vec::new();
    let mut i: usize = 0;
    while i < k
        invariant
            i <= k <= a@.len(),
            out@ == a@.subrange(0, i as int),
        decreases k - i,
    {
        out.push(a[i]);
        i = i + 1;
        proof {
            assert(out@ =~= a@.subrange(0, i as int));
        }
    }
    out
}

/// The tail of `a` from position `k` on.
pub fn chars_suffix(a: &Vec<char>, k: usize) -> (r: Vec<char>)
    requires
        k <= a@.len(),
    ensures
        r@ == a@.subrange(k as int, a@.len() as int),
{
    let mut out: Vec<char> = Vec::new();
    let mut i: usize = k;
    while i < a.len()
        invariant
            k <= i <= a.len(),
            out@ == a@.subrange(k as int, i as int),
        decreases a.len() - i,
    {
        out.push(a[i]);
        i = i + 1;
        proof {
            assert(out@ =~= a@.subrange(k as int, i as int));
        }
    }
    out
}

/// The positions in `a` holding the character `c`.
pub fn char_positions(a: &Vec<char>, c: char) -> (r: Vec<usize>)
    ensures
        r@.map_values(|u: usize| u as int) == char_positions_spec(a@, c),
{
    let mut out: Vec<usize> = Vec::new();
    let mut i: usize = 0;
    while i < a.len()
        invariant
            i <= a.len(),
            out@.map_values(|u: usize| u as int) == char_positions_upto(a@, c, i as int),
        decreases a.len() - i,
    {
        if a[i] == c {
            out.push(i);
        }
        i = i + 1;
        proof {
            assert(out@.map_values(|u: usize| u as int) =~= char_positions_upto(a@, c, i as int));
        }
    }
    out
}

/// The positions below `n` where `c` occurs in `s`.
pub open spec fn char_positions_upto(s: Seq<char>, c: char, n: int) -> Seq<int>
    decreases n,
{
    if n <= 0 {
        Seq::empty()
    } else if s[n - 1] == c {
        char_positions_upto(s, c, n - 1).push(n - 1)
    } else {
        char_positions_upto(s, c, n - 1)
    }
}

pub open spec fn char_positions_spec(s: Seq<char>, c: char) -> Seq<int> {
    char_positions_upto(s, c, s.len() as int)
}

} // verus!
