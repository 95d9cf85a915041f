//! Character-level building blocks shared by the text rules of the library.
use vstd::prelude::*;

verus! {

/// `str::chars`, collected into a `Vec`: the characters of `s` in order,
/// which is what the view of a `str` is.
#[verifier::external_body]
pub(crate) fn chars_of(s: &str) -> (v: Vec<char>)
    ensures
        v@ == s@,
{
    s.chars().collect()
}

/// `String`'s `FromIterator<&char>`: the string made of the characters of `v`
/// in order.
#[verifier::external_body]
pub(crate) fn string_from_chars(v: &[char]) -> (s: String)
    ensures
        s@ == v@,
{
    v.iter().collect()
}

/// What `char::to_lowercase` yields for `c`: one or more characters.
pub uninterp spec fn spec_char_lowercase(c: char) -> Seq<char>;

/// What `char::to_uppercase` yields for `c`: one or more characters.
pub uninterp spec fn spec_char_uppercase(c: char) -> Seq<char>;

/// What `char::to_lowercase` yields for `c`, with the ASCII case spelled out:
/// an ASCII upper-case letter becomes its lower case, any other ASCII
/// character stays.
pub open spec fn spec_lower_char(c: char) -> Seq<char> {
    if 'A' <= c <= 'Z' {
        seq![((c as u32) + 32) as char]
    } else if (c as u32) < 128 {
        seq![c]
    } else {
        spec_char_lowercase(c)
    }
}

/// What `char::to_uppercase` yields for `c`, with the ASCII case spelled out:
/// an ASCII lower-case letter becomes its upper case, any other ASCII
/// character stays.
pub open spec fn spec_upper_char(c: char) -> Seq<char> {
    if 'a' <= c <= 'z' {
        seq![((c as u32) - 32) as char]
    } else if (c as u32) < 128 {
        seq![c]
    } else {
        spec_char_uppercase(c)
    }
}

/// `char::to_lowercase`, collected. For an ASCII character it is the ASCII
/// lower case of that character alone.
#[verifier::external_body]
pub(crate) fn char_to_lowercase(c: char) -> (v: Vec<char>)
    ensures
        v@ == spec_char_lowercase(c),
        'A' <= c <= 'Z' ==> v@ == seq![((c as u32) + 32) as char],
        (c as u32) < 128 && !('A' <= c <= 'Z') ==> v@ == seq![c],
{
    c.to_lowercase().collect()
}

/// `char::to_uppercase`, collected. For an ASCII character it is the ASCII
/// upper case of that character alone.
#[verifier::external_body]
pub(crate) fn char_to_uppercase(c: char) -> (v: Vec<char>)
    ensures
        v@ == spec_char_uppercase(c),
        'a' <= c <= 'z' ==> v@ == seq![((c as u32) - 32) as char],
        (c as u32) < 128 && !('a' <= c <= 'z') ==> v@ == seq![c],
{
    c.to_uppercase().collect()
}

/// The ASCII letters and digits (`char::is_ascii_alphanumeric`).
pub open spec fn spec_is_ascii_alphanumeric(c: char) -> bool {
    ('a' <= c && c <= 'z') || ('A' <= c && c <= 'Z') || ('0' <= c && c <= '9')
}

pub fn is_ascii_alphanumeric(c: char) -> (b: bool)
    ensures
        b == spec_is_ascii_alphanumeric(c),
{
    ('a' <= c && c <= 'z') || ('A' <= c && c <= 'Z') || ('0' <= c && c <= '9')
}

} // verus!

verus! {

/// Character-wise equality of two strings (`str == str`).
pub fn str_eq(a: &str, b: &str) -> (r: bool)
    ensures
        r == (a@ == b@),
{
    let x = chars_of(a);
    let y = chars_of(b);
    if x.len() != y.len() {
        return false;
    }
    let mut i: usize = 0;
    while i < x.len()
        invariant
            x@ == a@,
            y@ == b@,
            x@.len() == y@.len(),
            0 <= i <= x@.len(),
            forall|j: int| 0 <= j < i ==> x@[j] == y@[j],
        decreases x.len() - i,
    {
        if x[i] != y[i] {
            return false;
        }
        i = i + 1;
    }
    assert(x@ =~= y@);
    true
}

} // verus!
