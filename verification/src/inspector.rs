//! From the image path of the focused window's process, as the operating
//! system gives it in UTF-16, to the name of the executable.

use vstd::prelude::*;
use vstd::slice::slice_subrange;

verus! {

/// Whether a code unit separates path components: `\` or `/`.
pub open spec fn is_separator(unit: u16) -> bool {
    unit == 0x5C || unit == 0x2F
}

/// Where the last component of a path begins: behind its last separator, or
/// at 0 where it has none.
pub open spec fn name_start(path: Seq<u16>) -> int
    decreases path.len(),
{
    if path.len() == 0 {
        0
    } else if is_separator(path.last()) {
        path.len() as int
    } else {
        name_start(path.drop_last())
    }
}

/// Whether a code unit is the first half of a surrogate pair.
pub open spec fn is_high_surrogate(unit: u16) -> bool {
    0xD800 <= unit <= 0xDBFF
}

/// Whether a code unit is the second half of a surrogate pair.
pub open spec fn is_low_surrogate(unit: u16) -> bool {
    0xDC00 <= unit <= 0xDFFF
}

/// The character that a surrogate pair stands for.
pub open spec fn paired(high: u16, low: u16) -> char {
    (0x10000 + (high - 0xD800) * 0x400 + (low - 0xDC00)) as char
}

/// The text that UTF-16 code units encode: a unit outside the surrogate
/// range is its own character, a high surrogate with a low one behind it is
/// the pair's character, and any other surrogate leaves no text at all.
pub open spec fn utf16_text(units: Seq<u16>) -> Option<Seq<char>>
    decreases units.len(),
{
    if units.len() == 0 {
        Some(Seq::empty())
    } else if !is_high_surrogate(units[0]) && !is_low_surrogate(units[0]) {
        match utf16_text(units.skip(1)) {
            Some(rest) => Some(seq![units[0] as char] + rest),
            None => None,
        }
    } else if is_high_surrogate(units[0]) && units.len() >= 2 && is_low_surrogate(units[1]) {
        match utf16_text(units.skip(2)) {
            Some(rest) => Some(seq![paired(units[0], units[1])] + rest),
            None => None,
        }
    } else {
        None
    }
}

/// The executable's name in an image path: the text of the last component;
/// none where the path ends in a separator or is empty, and none where the
/// component is not well-formed UTF-16.
pub open spec fn process_name_of(path: Seq<u16>) -> Option<Seq<char>> {
    if name_start(path) == path.len() {
        None
    } else {
        utf16_text(path.skip(name_start(path)))
    }
}

/// `String::from_utf16` of std, which vstd leaves unspecified. Its
/// documentation promises the decoded text, and an error where the units
/// hold invalid data, which for UTF-16 is an unpaired surrogate.
#[verifier::external_body]
fn decode_utf16(units: &[u16]) -> (text: Option<String>)
    ensures
        match text {
            Some(text) => utf16_text(units@) == Some(text@),
            None => utf16_text(units@).is_none(),
        },
{
    String::from_utf16(units).ok()
}

/// The executable's name in the image path of a process.
pub fn process_name(path: &[u16]) -> (name: Option<String>)
    ensures
        match name {
            Some(name) => process_name_of(path@) == Some(name@),
            None => process_name_of(path@).is_none(),
        },
{
    let mut start: usize = 0;
    let mut at: usize = 0;
    while at < path.len()
        invariant
            at <= path.len(),
            start == name_start(path@.take(at as int)),
            start <= at,
        decreases path.len() - at,
    {
        let unit = path[at];
        assert(path@.take(at + 1).drop_last() =~= path@.take(at as int));
        at += 1;
        if unit == 0x5C || unit == 0x2F {
            start = at;
        }
    }
    assert(path@.take(path.len() as int) =~= path@);
    if start == path.len() {
        return None;
    }
    decode_utf16(slice_subrange(path, start, path.len()))
}

} // verus!
