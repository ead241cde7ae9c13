//! Strings: made from characters, compared, and tidied up.

use vstd::prelude::*;

verus! {

/// The text of a string that may be missing.
pub open spec fn text_of(text: Option<String>) -> Option<Seq<char>> {
    match text {
        Some(text) => Some(text@),
        None => None,
    }
}

/// `names` lists the members of `set`: all of them, each once, and nothing
/// else.
pub open spec fn enumerates(names: Seq<String>, set: Set<Seq<char>>) -> bool {
    &&& forall|i: int| 0 <= i < names.len() ==> set.contains((#[trigger] names[i])@)
    &&& forall|name: Seq<char>| #[trigger]
        set.contains(name) ==> exists|i: int|
            0 <= i < names.len() && (#[trigger] names[i])@ == name
    &&& forall|i: int, j: int|
        0 <= i < j < names.len() ==> (#[trigger] names[i])@ != (#[trigger] names[j])@
}

/// What `str::trim` of the standard library makes of a text: the text
/// without the white space at its two ends.
pub uninterp spec fn trimmed(text: Seq<char>) -> Seq<char>;

/// What `str::to_lowercase` of the standard library makes of a text: the
/// text with every character in lowercase.
pub uninterp spec fn lowercased(text: Seq<char>) -> Seq<char>;

/// Calls `str::trim` of the standard library. What white space is, Unicode
/// says in a table; the result is only given its name here.
#[verifier::external_body]
pub(crate) fn trim(text: &str) -> (inner: &str)
    ensures
        inner@ == trimmed(text@),
{
    text.trim()
}

/// Calls `str::to_lowercase` of the standard library. Which character is
/// the lowercase of which, Unicode says in a table; the result is only
/// given its name here.
#[verifier::external_body]
pub(crate) fn to_lowercase(text: &str) -> (lower: String)
    ensures
        lower@ == lowercased(text@),
{
    text.to_lowercase()
}

/// Whether `text` is the word `word`.
pub fn is_word(text: &String, word: &str) -> (same: bool)
    ensures
        same == (text@ == word@),
{
    let word: String = word.to_owned();
    *text == word
}

/// Calls `String::from_iter` of the standard library on the characters,
/// which collects them, in order, into a string.
#[verifier::external_body]
pub(crate) fn string_from_chars(chars: Vec<char>) -> (text: String)
    ensures
        text@ == chars@,
{
    String::from_iter(chars)
}

} // verus!
