//! Functions of std on strings and paths that `vstd` does not cover.
//! Nothing in this file is proved: each contract states what the function's
//! documentation says.

use vstd::prelude::*;
use vstd::utf8::decode_utf8;
use vstd::utf8::valid_utf8;

verus! {

/// Whether a character is whitespace to `str::trim`: whether it has the
/// Unicode property `White_Space`. These are the characters from U+0009 to
/// U+000D, the space, U+0085, U+00A0, U+1680, the characters from U+2000 to
/// U+200A, U+2028, U+2029, U+202F, U+205F and U+3000.
pub open spec fn is_whitespace(c: char) -> bool {
    let code = c as u32;
    ||| 0x09 <= code <= 0x0D
    ||| code == 0x20
    ||| code == 0x85
    ||| code == 0xA0
    ||| code == 0x1680
    ||| 0x2000 <= code <= 0x200A
    ||| code == 0x2028
    ||| code == 0x2029
    ||| code == 0x202F
    ||| code == 0x205F
    ||| code == 0x3000
}

/// The final component of a path, as `std::path::Path::file_name` finds it
/// on the platform that the library is built for; `None` where the path has
/// none, or where the component is not UTF-8.
pub uninterp spec fn path_base_name(path: Seq<char>) -> Option<Seq<char>>;

/// The string without its leading whitespace.
pub open spec fn trim_start(s: Seq<char>) -> Seq<char>
    decreases s.len(),
{
    if s.len() > 0 && is_whitespace(s.first()) {
        trim_start(s.drop_first())
    } else {
        s
    }
}

/// The string without its trailing whitespace.
pub open spec fn trim_end(s: Seq<char>) -> Seq<char>
    decreases s.len(),
{
    if s.len() > 0 && is_whitespace(s.last()) {
        trim_end(s.drop_last())
    } else {
        s
    }
}

/// The string without its leading and trailing whitespace.
pub open spec fn trimmed(s: Seq<char>) -> Seq<char> {
    trim_end(trim_start(s))
}

/// `str::trim`: the string without its leading and trailing whitespace,
/// where whitespace is what has the Unicode property `White_Space`.
#[verifier::external_body]
pub(crate) fn trim(s: &str) -> (t: &str)
    ensures
        t@ == trimmed(s@),
{
    s.trim()
}

/// `String::from_utf8`: the bytes as a string where they are valid UTF-8,
/// and a failure where they are not.
#[verifier::external_body]
pub(crate) fn string_from_utf8(bytes: Vec<u8>) -> (r: Option<String>)
    ensures
        match r {
            Some(text) => valid_utf8(bytes@) && text@ == decode_utf8(bytes@),
            None => !valid_utf8(bytes@),
        },
{
    String::from_utf8(bytes).ok()
}

/// `std::path::Path::file_name` on the path, and the component as a string
/// where it is UTF-8. What counts as a separator is fixed when the library
/// is built, so the same path has the same base name in every run.
#[verifier::external_body]
pub(crate) fn base_name(path: &str) -> (name: Option<String>)
    ensures
        match name {
            Some(found) => path_base_name(path@) == Some(found@),
            None => path_base_name(path@) is None,
        },
{
    std::path::Path::new(path).file_name()?.to_str().map(String::from)
}

} // verus!
