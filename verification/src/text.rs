//! Case-insensitive comparison of characters and character sequences.
//!
//! Emulator names and file extensions are matched without regard to ASCII
//! case throughout the launcher. Folding is ASCII-only: outside the ASCII
//! letters, characters are compared exactly.

use vstd::prelude::*;
use vstd::string::StrSliceExecFns;

verus! {

/// The Unicode scalar value of a character, with an ASCII upper-case letter
/// folded to its lower-case counterpart.
pub open spec fn fold_code(c: char) -> int {
    if 65 <= c as u32 && c as u32 <= 90 {
        c as u32 + 32
    } else {
        c as u32 as int
    }
}

/// Two characters are equal up to ASCII case.
pub open spec fn char_eq_ci(a: char, b: char) -> bool {
    fold_code(a) == fold_code(b)
}

/// Two character sequences are equal up to ASCII case.
pub open spec fn seq_eq_ci(a: Seq<char>, b: Seq<char>) -> bool {
    &&& a.len() == b.len()
    &&& forall|i: int| 0 <= i < a.len() ==> char_eq_ci(#[trigger] a[i], b[i])
}

/// `needle` occurs in `haystack` at position `at`, up to ASCII case.
pub open spec fn matches_at(haystack: Seq<char>, needle: Seq<char>, at: int) -> bool {
    &&& 0 <= at
    &&& at + needle.len() <= haystack.len()
    &&& forall|j: int| 0 <= j < needle.len() ==> char_eq_ci(#[trigger] haystack[at + j], needle[j])
}

/// `needle` occurs somewhere in `haystack`, up to ASCII case.
pub open spec fn contains_ci(haystack: Seq<char>, needle: Seq<char>) -> bool {
    exists|at: int| matches_at(haystack, needle, at)
}

/// Case-insensitive equality respects itself: sequences equal up to case to
/// a common sequence are equal up to case to each other.
pub proof fn lemma_seq_eq_ci_trans(a: Seq<char>, b: Seq<char>, c: Seq<char>)
    requires
        seq_eq_ci(a, b),
        seq_eq_ci(b, c),
    ensures
        seq_eq_ci(a, c),
{
}

/// Case-insensitive equality is symmetric.
pub proof fn lemma_seq_eq_ci_sym(a: Seq<char>, b: Seq<char>)
    requires
        seq_eq_ci(a, b),
    ensures
        seq_eq_ci(b, a),
{
}

/// Compares two characters up to ASCII case.
pub fn char_eq_ci_exec(a: char, b: char) -> (r: bool)
    ensures
        r == char_eq_ci(a, b),
{
    let x: u32 = a as u32;
    let y: u32 = b as u32;
    let xf: u32 = if 65 <= x && x <= 90 {
        x + 32
    } else {
        x
    };
    let yf: u32 = if 65 <= y && y <= 90 {
        y + 32
    } else {
        y
    };
    xf == yf
}

/// Compares two strings up to ASCII case.
pub fn str_eq_ci(a: &str, b: &str) -> (r: bool)
    ensures
        r == seq_eq_ci(a@, b@),
{
    let alen: usize = a.unicode_len();
    let blen: usize = b.unicode_len();
    if alen != blen {
        return false;
    }
    let mut i: usize = 0;
    while i < alen
        invariant
            alen == a@.len(),
            blen == b@.len(),
            alen == blen,
            i <= alen,
            forall|k: int| 0 <= k < i ==> char_eq_ci(#[trigger] a@[k], b@[k]),
        decreases alen - i,
    {
        if !char_eq_ci_exec(a.get_char(i), b.get_char(i)) {
            assert(!char_eq_ci(a@[i as int], b@[i as int]));
            return false;
        }
        i = i + 1;
    }
    true
}

/// Compares the window of `haystack` starting at `at` against `needle`,
/// character by character, up to ASCII case.
fn window_matches(haystack: &str, needle: &str, at: usize) -> (r: bool)
    requires
        at + needle@.len() <= haystack@.len(),
        haystack@.len() <= usize::MAX,
    ensures
        r == matches_at(haystack@, needle@, at as int),
{
    let nlen: usize = needle.unicode_len();
    let mut j: usize = 0;
    while j < nlen
        invariant
            nlen == needle@.len(),
            at + nlen <= haystack@.len(),
            haystack@.len() <= usize::MAX,
            j <= nlen,
            forall|q: int| 0 <= q < j ==> char_eq_ci(#[trigger] haystack@[at + q], needle@[q]),
        decreases nlen - j,
    {
        if !char_eq_ci_exec(haystack.get_char(at + j), needle.get_char(j)) {
            assert(!char_eq_ci(haystack@[at + j], needle@[j as int]));
            return false;
        }
        j = j + 1;
    }
    true
}

/// Tests whether `needle` occurs in `haystack`, up to ASCII case.
pub fn str_contains_ci(haystack: &str, needle: &str) -> (r: bool)
    ensures
        r == contains_ci(haystack@, needle@),
{
    let hlen: usize = haystack.unicode_len();
    let nlen: usize = needle.unicode_len();
    if nlen > hlen {
        return false;
    }
    if nlen == 0 {
        assert(matches_at(haystack@, needle@, 0));
        return true;
    }
    let mut at: usize = 0;
    while at <= hlen - nlen
        invariant
            hlen == haystack@.len(),
            nlen == needle@.len(),
            0 < nlen <= hlen,
            at <= hlen - nlen + 1,
            forall|p: int| 0 <= p < at ==> !matches_at(haystack@, needle@, p),
        decreases hlen - at,
    {
        if window_matches(haystack, needle, at) {
            return true;
        }
        at = at + 1;
    }
    false
}

} // verus!
