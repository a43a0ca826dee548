//! ASCII case folding, the normal form of application names.

use vstd::prelude::*;

verus! {

/// The ASCII lower-case form of one character: `A`..`Z` become `a`..`z`,
/// every other character, ASCII or not, is itself.
pub open spec fn lower_char(c: char) -> char {
    if 'A' <= c && c <= 'Z' {
        ((c as u8) + 32) as char
    } else {
        c
    }
}

/// The ASCII lower-case form of a text: `lower_char` of each character, in
/// place.
pub open spec fn lowercase(s: Seq<char>) -> Seq<char> {
    Seq::new(s.len(), |i: int| lower_char(s[i]))
}

/// Two names are case variants of each other when they fold to one text.
pub open spec fn same_ignoring_case(a: Seq<char>, b: Seq<char>) -> bool {
    lowercase(a) == lowercase(b)
}

/// `str::to_ascii_lowercase` of std, which vstd leaves unspecified. Its
/// documentation promises a copy in which the ASCII letters `A` to `Z` are
/// mapped to `a` to `z` and every other character is unchanged.
pub assume_specification[ str::to_ascii_lowercase ](s: &str) -> (folded: String)
    ensures
        folded@ == lowercase(s@),
;

/// Folding keeps the length, and a folded text folds to itself.
pub proof fn lemma_lowercase_idempotent(s: Seq<char>)
    ensures
        lowercase(s).len() == s.len(),
        lowercase(lowercase(s)) == lowercase(s),
{
    assert(lowercase(lowercase(s)) =~= lowercase(s));
}

} // verus!
