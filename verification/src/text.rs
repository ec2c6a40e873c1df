//! Small helpers for text shown to the operator.

use vstd::prelude::*;
use vstd::string::*;

verus! {

/// The uppercase mapping of one character, as the Unicode character database
/// gives it. It may hold more than one character (`'ß'` maps to `"SS"`), and it
/// is the character itself where the database has no mapping.
pub uninterp spec fn uppercase_of(c: char) -> Seq<char>;

/// Trusted: `char::to_uppercase` of the standard library, collected into a
/// string. The contract only gives the result its name, `uppercase_of`; the
/// mapping itself is the standard library's table and is not restated here.
#[verifier::external_body]
fn char_to_uppercase(c: char) -> (upper: String)
    ensures
        upper@ == uppercase_of(c),
{
    c.to_uppercase().collect()
}

/// Everything after the first character; the empty text has an empty tail.
pub open spec fn tail(s: Seq<char>) -> Seq<char> {
    if s.len() == 0 {
        s
    } else {
        s.skip(1)
    }
}

/// `s` with its first character in uppercase. The empty text stays empty.
pub open spec fn capitalized(s: Seq<char>) -> Seq<char> {
    if s.len() == 0 {
        s
    } else {
        uppercase_of(s[0]) + tail(s)
    }
}

/// Puts `initial` in the place of the first character of `s`.
pub fn with_initial(s: &str, initial: String) -> (out: String)
    ensures
        out@ == initial@ + tail(s@),
{
    let n: usize = s.unicode_len();
    if n == 0 {
        assert(initial@ + tail(s@) =~= initial@);
        initial
    } else {
        let rest = s.substring_char(1, n);
        initial.concat(rest)
    }
}

/// Capitalizes the first letter of `s`.
pub fn capitalize(s: &str) -> (out: String)
    ensures
        out@ == capitalized(s@),
{
    if s.unicode_len() == 0 {
        let out = String::new();
        assert(out@ =~= s@);
        out
    } else {
        let first = s.get_char(0);
        with_initial(s, char_to_uppercase(first))
    }
}

} // verus!
