//! Plain string helpers over std, with their behaviour stated.

use vstd::prelude::*;

verus! {

/// The text with leading and trailing Unicode whitespace removed.
pub uninterp spec fn trim_of(s: Seq<char>) -> Seq<char>;

/// The text with ASCII letters lowercased.
pub uninterp spec fn ascii_lower_of(s: Seq<char>) -> Seq<char>;

/// Whether `l` is `c` with an ASCII uppercase letter lowercased.
pub open spec fn lowers_to(c: char, l: char) -> bool {
    if 'A' <= c && c <= 'Z' {
        l as int == c as int + 32
    } else {
        l == c
    }
}

/// Relies on `str::trim`: the text with leading and trailing whitespace
/// removed; a text of whitespace alone becomes empty.
#[verifier::external_body]
pub fn trim(s: &str) -> (r: &str)
    ensures
        r@ == trim_of(s@),
{
    s.trim()
}

/// Relies on `str::to_ascii_lowercase`: each ASCII uppercase letter replaced
/// by its lowercase form, every other character kept.
#[verifier::external_body]
pub fn to_ascii_lowercase(s: &str) -> (r: String)
    ensures
        r@ == ascii_lower_of(s@),
        r@.len() == s@.len(),
        forall|i: int| 0 <= i < s@.len() ==> lowers_to(#[trigger] s@[i], r@[i]),
{
    s.to_ascii_lowercase()
}

/// Relies on `str::starts_with` with a string pattern.
#[verifier::external_body]
pub fn starts_with(s: &str, prefix: &str) -> (r: bool)
    ensures
        r == (prefix@.len() <= s@.len() && s@.subrange(0, prefix@.len() as int) == prefix@),
{
    s.starts_with(prefix)
}

/// Whether `s` is exactly the text `lit`.
pub fn str_eq(s: &str, lit: &str) -> (r: bool)
    ensures
        r == (s@ == lit@),
{
    let n = lit.unicode_len();
    if s.unicode_len() != n {
        return false;
    }
    let mut i: usize = 0;
    while i < n
        invariant
            n == lit@.len(),
            s@.len() == n,
            i <= n,
            forall|j: int| 0 <= j < i ==> s@[j] == lit@[j],
        decreases n - i,
    {
        if s.get_char(i) != lit.get_char(i) {
            return false;
        }
        i += 1;
    }
    proof {
        assert(s@ =~= lit@);
    }
    true
}

} // verus!
