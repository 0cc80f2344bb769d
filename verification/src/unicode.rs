//! What Unicode says of characters, as the standard library knows it.
use vstd::prelude::*;

verus! {

/// Whether a character is alphabetic or numeric in Unicode.
pub uninterp spec fn alphanumeric(c: char) -> bool;

/// `char::is_alphanumeric` of the standard library. The result is a function
/// of the character alone; which characters it holds of is not stated.
#[verifier::external_body]
pub(crate) fn is_alphanumeric(c: char) -> (r: bool)
    ensures
        r == alphanumeric(c),
{
    c.is_alphanumeric()
}

/// A text in lower case, by Unicode's rules for whole texts.
pub uninterp spec fn lowercase(s: Seq<char>) -> Seq<char>;

/// `str::to_lowercase` of the standard library. The result is a function of
/// the text alone; what it is for a given text is not stated.
#[verifier::external_body]
pub(crate) fn to_lowercase(text: &str) -> (r: String)
    ensures
        r@ == lowercase(text@),
{
    text.to_lowercase()
}

/// A single character in lower case: one character or more.
pub uninterp spec fn char_lowercase(c: char) -> Seq<char>;

/// `char::to_lowercase` of the standard library. The result is a function of
/// the character alone; what it is for a given character is not stated.
#[verifier::external_body]
pub(crate) fn char_to_lowercase(c: char) -> (r: String)
    ensures
        r@ == char_lowercase(c),
{
    c.to_lowercase().to_string()
}

} // verus!
