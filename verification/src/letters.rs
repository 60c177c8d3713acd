//! Letter case.
use vstd::prelude::*;
use vstd::utf8::is_ascii_chars;

verus! {

/// What `str::to_lowercase` makes of a text.
pub uninterp spec fn lowercase(text: Seq<char>) -> Seq<char>;

/// What `str::to_uppercase` makes of a text.
pub uninterp spec fn uppercase(text: Seq<char>) -> Seq<char>;

/// The ASCII letters 'A' to 'Z' become 'a' to 'z'; every other character stays.
pub open spec fn ascii_lower(c: char) -> char {
    if 'A' <= c && c <= 'Z' {
        (c as u32 + 32) as char
    } else {
        c
    }
}

/// The ASCII letters 'a' to 'z' become 'A' to 'Z'; every other character stays.
pub open spec fn ascii_upper(c: char) -> char {
    if 'a' <= c && c <= 'z' {
        (c as u32 - 32) as char
    } else {
        c
    }
}

/// `str::to_lowercase`: a function of the text alone, which on a text of ASCII
/// characters lowers its letters and keeps the rest.
#[verifier::external_body]
pub(crate) fn to_lowercase(text: &str) -> (r: String)
    ensures
        r@ == lowercase(text@),
        is_ascii_chars(text@) ==> r@ == text@.map_values(|c: char| ascii_lower(c)),
{
    text.to_lowercase()
}

/// `str::to_uppercase`: a function of the text alone, which on a text of ASCII
/// characters raises its letters and keeps the rest.
#[verifier::external_body]
pub(crate) fn to_uppercase(text: &str) -> (r: String)
    ensures
        r@ == uppercase(text@),
        is_ascii_chars(text@) ==> r@ == text@.map_values(|c: char| ascii_upper(c)),
{
    text.to_uppercase()
}

/// Two texts are the same but for the case of ASCII letters.
pub open spec fn same_but_ascii_case(a: Seq<char>, b: Seq<char>) -> bool {
    a.map_values(|c: char| ascii_lower(c)) == b.map_values(|c: char| ascii_lower(c))
}

/// The lower-case form of an ASCII letter; any other character itself.
pub fn to_ascii_lower(c: char) -> (r: char)
    ensures
        r == ascii_lower(c),
{
    if 'A' <= c && c <= 'Z' {
        let lowered: u8 = c as u8 + 32;
        lowered as char
    } else {
        c
    }
}

/// Whether two texts are the same but for the case of ASCII letters.
pub fn eq_ignore_ascii_case(a: &[char], b: &[char]) -> (r: bool)
    ensures
        r == same_but_ascii_case(a@, b@),
{
    let ghost x = a@.map_values(|c: char| ascii_lower(c));
    let ghost y = b@.map_values(|c: char| ascii_lower(c));
    if a.len() != b.len() {
        assert(x.len() != y.len());
        return false;
    }
    for i in 0..a.len()
        invariant
            a@.len() == b@.len(),
            x == a@.map_values(|c: char| ascii_lower(c)),
            y == b@.map_values(|c: char| ascii_lower(c)),
            forall|j: int| 0 <= j < i ==> x[j] == y[j],
    {
        if to_ascii_lower(a[i]) != to_ascii_lower(b[i]) {
            assert(x[i as int] != y[i as int]);
            return false;
        }
    }
    assert(x =~= y);
    true
}

// ---------------------------------------------------------------------------
// Laws
// ---------------------------------------------------------------------------
/// Each capital letter has its small one, in their order; every other character stays,
/// and lowering and raising undo each other on letters.
pub proof fn letters_change_case(c: char)
    ensures
        'A' <= c && c <= 'Z' ==> ascii_lower(c) as u32 - 'a' as u32 == c as u32 - 'A' as u32
            && ascii_upper(ascii_lower(c)) == c,
        'a' <= c && c <= 'z' ==> ascii_upper(c) as u32 - 'A' as u32 == c as u32 - 'a' as u32
            && ascii_lower(ascii_upper(c)) == c,
        !('A' <= c && c <= 'Z') ==> ascii_lower(c) == c,
        !('a' <= c && c <= 'z') ==> ascii_upper(c) == c,
{
}

/// Two texts are the same but for case exactly where they are as long as each other and
/// the same but for case in every place.
pub proof fn case_by_letters(a: Seq<char>, b: Seq<char>)
    ensures
        same_but_ascii_case(a, b) <==> a.len() == b.len() && forall|k: int|
            0 <= k < b.len() ==> ascii_lower(a[k]) == ascii_lower(#[trigger] b[k]),
{
    let x = a.map_values(|c: char| ascii_lower(c));
    let y = b.map_values(|c: char| ascii_lower(c));
    if same_but_ascii_case(a, b) {
        assert(x.len() == y.len());
        assert forall|k: int| 0 <= k < b.len() implies ascii_lower(a[k]) == ascii_lower(
            #[trigger] b[k],
        ) by {
            assert(x[k] == y[k]);
        }
    }
    if a.len() == b.len() && forall|k: int|
        0 <= k < b.len() ==> ascii_lower(a[k]) == ascii_lower(#[trigger] b[k]) {
        assert(x =~= y);
    }
}

}
